use identity_service::b64::b64url_decode;

fn bv(s: &str) -> Vec<u8> {
    s.as_bytes().to_vec()
}

#[test]
fn decode_inverts_the_reference_encoder() {
    // identity_jose's encoder is the one the deployed clients use; the
    // verified strict decoder must accept exactly its output.
    let samples: Vec<&[u8]> = vec![
        b"",
        b"h",
        b"he",
        b"hel",
        b"hell",
        b"hello",
        b"{\"iss\":\"did:iota:tst:0xabc\",\"challenge\":\"u\"}",
        &[0u8, 255u8, 16u8, 3u8],
    ];
    for sample in samples {
        let encoded = identity_jose::jwu::encode_b64(sample);
        let decoded = b64url_decode(&encoded.into_bytes());
        assert_eq!(decoded, Some(sample.to_vec()));
    }
}

#[test]
fn decode_concrete_values() {
    assert_eq!(b64url_decode(&bv("")), Some(vec![]));
    assert_eq!(b64url_decode(&bv("QQ")), Some(vec![65]));
    assert_eq!(b64url_decode(&bv("QUI")), Some(vec![65, 66]));
    assert_eq!(b64url_decode(&bv("QUJD")), Some(vec![65, 66, 67]));
    // The two url-safe alphabet bytes decode to 62 and 63.
    assert_eq!(b64url_decode(&bv("-w")), Some(vec![251]));
    assert_eq!(b64url_decode(&bv("_w")), Some(vec![255]));
}

#[test]
fn decode_rejects_padding_and_non_canonical_text() {
    // Padded forms are refused: segments are unpadded base64url.
    assert_eq!(b64url_decode(&bv("QQ==")), None);
    // A lone symbol cannot carry a byte.
    assert_eq!(b64url_decode(&bv("Q")), None);
    // Non-zero unused low bits are refused: "QR" would decode to the same
    // byte as "QQ".
    assert_eq!(b64url_decode(&bv("QR")), None);
    // The standard alphabet's '+' and '/' are outside the url-safe alphabet.
    assert_eq!(b64url_decode(&bv("+w")), None);
    assert_eq!(b64url_decode(&bv("/w")), None);
    // A dot never occurs inside a segment.
    assert_eq!(b64url_decode(&bv("Q.")), None);
}
