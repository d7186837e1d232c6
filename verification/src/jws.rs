//! The signature verifier: compact JWS parsing and checking.
//!
//! A compact JWS is `b64url(header) "." b64url(payload) "." b64url(signature)`.
//! The engine's protected header is the flat object `{"alg":"<alg>","kid":"<kid>"}`
//! and its payload the flat object `{"iss":"<did>","challenge":"<nonce>"}`,
//! with field values free of the quote byte.  `jws_check_model` is the
//! mathematical definition of the whole check; `jws_check` implements it
//! exactly.  The one trusted step is the Ed25519 verification itself
//! (`crate::crypto::eddsa_verify`); everything around it — splitting,
//! base64url decoding, header and claim parsing, key lookup, claim
//! comparison — is verified, and claims are consulted only after the
//! cryptographic check has passed.

use vstd::prelude::*;
use crate::b64::spec_b64url_decode;
use crate::b64::b64url_decode;
use crate::bytes::find_byte;
use crate::bytes::find_byte_exec;
use crate::bytes::lemma_find_byte_props;
use crate::bytes::lemma_find_byte_found;
use crate::bytes::copy_range;
use crate::bytes::bytes_eq;
use crate::crypto::eddsa_sig_ok;
use crate::crypto::eddsa_verify;
use crate::document::IdentityDocument;
use crate::document::find_key;
use crate::errors::JwsError;

verus! {

/// The bytes of `{"alg":"`.
pub open spec fn lit_alg() -> Seq<u8> {
    seq![123u8, 34u8, 97u8, 108u8, 103u8, 34u8, 58u8, 34u8]
}

/// The bytes of `","kid":"`.
pub open spec fn lit_kid() -> Seq<u8> {
    seq![34u8, 44u8, 34u8, 107u8, 105u8, 100u8, 34u8, 58u8, 34u8]
}

/// The bytes of `{"iss":"`.
pub open spec fn lit_iss() -> Seq<u8> {
    seq![123u8, 34u8, 105u8, 115u8, 115u8, 34u8, 58u8, 34u8]
}

/// The bytes of `","challenge":"`.
pub open spec fn lit_challenge() -> Seq<u8> {
    seq![34u8, 44u8, 34u8, 99u8, 104u8, 97u8, 108u8, 108u8, 101u8, 110u8, 103u8, 101u8, 34u8, 58u8, 34u8]
}

/// The bytes of `EdDSA`.
pub open spec fn alg_eddsa() -> Seq<u8> {
    seq![69u8, 100u8, 68u8, 83u8, 65u8]
}

/// Builds the bytes of `{"alg":"`.
pub fn lit_alg_vec() -> (v: Vec<u8>)
    ensures
        v@ == lit_alg(),
{
    let mut v: Vec<u8> = Vec::new();
    v.push(123);
    v.push(34);
    v.push(97);
    v.push(108);
    v.push(103);
    v.push(34);
    v.push(58);
    v.push(34);
    proof {
        assert(v@ =~= lit_alg());
    }
    v
}

/// Builds the bytes of `","kid":"`.
pub fn lit_kid_vec() -> (v: Vec<u8>)
    ensures
        v@ == lit_kid(),
{
    let mut v: Vec<u8> = Vec::new();
    v.push(34);
    v.push(44);
    v.push(34);
    v.push(107);
    v.push(105);
    v.push(100);
    v.push(34);
    v.push(58);
    v.push(34);
    proof {
        assert(v@ =~= lit_kid());
    }
    v
}

/// Builds the bytes of `{"iss":"`.
pub fn lit_iss_vec() -> (v: Vec<u8>)
    ensures
        v@ == lit_iss(),
{
    let mut v: Vec<u8> = Vec::new();
    v.push(123);
    v.push(34);
    v.push(105);
    v.push(115);
    v.push(115);
    v.push(34);
    v.push(58);
    v.push(34);
    proof {
        assert(v@ =~= lit_iss());
    }
    v
}

/// Builds the bytes of `","challenge":"`.
pub fn lit_challenge_vec() -> (v: Vec<u8>)
    ensures
        v@ == lit_challenge(),
{
    let mut v: Vec<u8> = Vec::new();
    v.push(34);
    v.push(44);
    v.push(34);
    v.push(99);
    v.push(104);
    v.push(97);
    v.push(108);
    v.push(108);
    v.push(101);
    v.push(110);
    v.push(103);
    v.push(101);
    v.push(34);
    v.push(58);
    v.push(34);
    proof {
        assert(v@ =~= lit_challenge());
    }
    v
}

/// Builds the bytes of `EdDSA`.
pub fn alg_eddsa_vec() -> (v: Vec<u8>)
    ensures
        v@ == alg_eddsa(),
{
    let mut v: Vec<u8> = Vec::new();
    v.push(69);
    v.push(100);
    v.push(68);
    v.push(83);
    v.push(65);
    proof {
        assert(v@ =~= alg_eddsa());
    }
    v
}

/// Whether `lit` occurs in `s` at position `at`.
pub fn match_at(s: &Vec<u8>, at: usize, lit: &Vec<u8>) -> (r: bool)
    ensures
        r == (at + lit@.len() <= s@.len() && s@.subrange(at as int, at as int + lit@.len() as int)
            == lit@),
{
    let nlen = s.len();
    if at > nlen || nlen - at < lit.len() {
        return false;
    }
    let m = lit.len();
    let mut i: usize = 0;
    while i < m
        invariant
            0 <= i <= m,
            m == lit@.len(),
            nlen == s@.len(),
            at + m <= nlen,
            forall|k: int| 0 <= k < i ==> s@[at + k] == lit@[k],
        decreases m - i,
    {
        if s[at + i] != lit[i] {
            proof {
                if s@.subrange(at as int, at as int + m as int) == lit@ {
                    assert(s@.subrange(at as int, at as int + m as int)[i as int] == s@[at as int
                        + i as int]);
                }
            }
            return false;
        }
        i = i + 1;
    }
    proof {
        assert(s@.subrange(at as int, at as int + m as int) =~= lit@);
    }
    true
}

/// Parses the flat object `<l1><first>"<l2><second>""}"`: the literal `l1`,
/// a quote-free first value, the literal `l2` (which opens with the quote
/// that closes the first value), a quote-free second value, then `"}` and the
/// end.  `None` on any deviation.
pub open spec fn parse_two_fields(s: Seq<u8>, l1: Seq<u8>, l2: Seq<u8>) -> Option<(Seq<u8>, Seq<u8>)> {
    if s.len() < l1.len() || s.subrange(0, l1.len() as int) != l1 {
        None
    } else {
        let q1 = find_byte(s, 34, l1.len() as int);
        if q1 < 0 {
            None
        } else {
            let a = s.subrange(l1.len() as int, q1);
            if q1 + l2.len() > s.len() || s.subrange(q1, q1 + l2.len() as int) != l2 {
                None
            } else {
                let q2 = find_byte(s, 34, q1 + l2.len() as int);
                if q2 < 0 {
                    None
                } else {
                    let b = s.subrange(q1 + l2.len() as int, q2);
                    if q2 + 2 == s.len() && s[q2 + 1] == 125 {
                        Some((a, b))
                    } else {
                        None
                    }
                }
            }
        }
    }
}

/// The engine's protected header: `{"alg":"<alg>","kid":"<kid>"}`.
pub open spec fn parse_header(s: Seq<u8>) -> Option<(Seq<u8>, Seq<u8>)> {
    parse_two_fields(s, lit_alg(), lit_kid())
}

/// The engine's claims: `{"iss":"<iss>","challenge":"<challenge>"}`.
pub open spec fn parse_claims(s: Seq<u8>) -> Option<(Seq<u8>, Seq<u8>)> {
    parse_two_fields(s, lit_iss(), lit_challenge())
}

/// Parses the flat two-field object exactly as `parse_two_fields` does.
pub fn parse_two_fields_exec(s: &Vec<u8>, l1: &Vec<u8>, l2: &Vec<u8>) -> (r: Option<
    (Vec<u8>, Vec<u8>),
>)
    ensures
        (r is Some) == (parse_two_fields(s@, l1@, l2@) is Some),
        r matches Some(t) ==> parse_two_fields(s@, l1@, l2@) == Some((t.0@, t.1@)),
{
    if !match_at(s, 0, l1) {
        return None;
    }
    let q1 = match find_byte_exec(s, 34, l1.len()) {
        Some(q) => q,
        None => {
            return None;
        },
    };
    proof {
        lemma_find_byte_props(s@, 34, l1@.len() as int);
    }
    let a = copy_range(s, l1.len(), q1);
    if !match_at(s, q1, l2) {
        return None;
    }
    let nlen = s.len();
    proof {
        assert(q1 + l2@.len() <= nlen);
    }
    let q2 = match find_byte_exec(s, 34, q1 + l2.len()) {
        Some(q) => q,
        None => {
            return None;
        },
    };
    proof {
        lemma_find_byte_props(s@, 34, q1 as int + l2@.len() as int);
    }
    let b = copy_range(s, q1 + l2.len(), q2);
    if s.len() - q2 == 2 {
        if s[q2 + 1] == 125 {
            return Some((a, b));
        }
        return None;
    }
    None
}

/// Splits a compact JWS at its two dots: `None` unless the input holds
/// exactly two.
pub open spec fn jws_parts(s: Seq<u8>) -> Option<(Seq<u8>, Seq<u8>, Seq<u8>)> {
    let i = find_byte(s, 46, 0);
    if i < 0 {
        None
    } else {
        let j = find_byte(s, 46, i + 1);
        if j < 0 {
            None
        } else if find_byte(s, 46, j + 1) >= 0 {
            None
        } else {
            Some((s.subrange(0, i), s.subrange(i + 1, j), s.subrange(j + 1, s.len() as int)))
        }
    }
}

/// The whole signature check: split the JWS, decode its segments,
/// read the header, refuse a non-EdDSA algorithm, look the key id up in the
/// document, verify the signature over `header "." payload`, and only then
/// compare the claims against the expected DID and nonce.  An invalid
/// signature or mismatched claim is `Ok(false)`, never an error.
pub open spec fn jws_check_model(
    jws: Seq<u8>,
    expected_did: Seq<u8>,
    expected_nonce: Seq<u8>,
    doc: IdentityDocument,
) -> Result<bool, JwsError> {
    match jws_parts(jws) {
        None => Err(JwsError::MalformedSignature),
        Some((h64, p64, s64)) => match (
            spec_b64url_decode(h64),
            spec_b64url_decode(p64),
            spec_b64url_decode(s64),
        ) {
            (Some(h), Some(p), Some(sig)) => match parse_header(h) {
                None => Err(JwsError::MalformedSignature),
                Some((alg, kid)) => if alg != alg_eddsa() {
                    Err(JwsError::UnsupportedAlgorithm)
                } else if !doc.has_key(kid) {
                    Err(JwsError::KeyNotFound)
                } else if !eddsa_sig_ok(doc.key_for(kid), h64 + seq![46u8] + p64, sig) {
                    Ok(false)
                } else {
                    match parse_claims(p) {
                        None => Ok(false),
                        Some((iss, ch)) => Ok(iss == expected_did && ch == expected_nonce),
                    }
                },
            },
            _ => Err(JwsError::MalformedSignature),
        },
    }
}

/// Checks a compact JWS against a resolved document, an expected DID and an
/// expected nonce, exactly as `jws_check_model` says.
pub fn jws_check(
    jws: &Vec<u8>,
    expected_did: &Vec<u8>,
    expected_nonce: &Vec<u8>,
    doc: &IdentityDocument,
) -> (r: Result<bool, JwsError>)
    requires
        doc.wf(),
    ensures
        r == jws_check_model(jws@, expected_did@, expected_nonce@, *doc),
{
    let n = jws.len();
    let d1 = match find_byte_exec(jws, 46, 0) {
        Some(i) => i,
        None => {
            return Err(JwsError::MalformedSignature);
        },
    };
    proof {
        lemma_find_byte_props(jws@, 46, 0);
    }
    let d2 = match find_byte_exec(jws, 46, d1 + 1) {
        Some(j) => j,
        None => {
            return Err(JwsError::MalformedSignature);
        },
    };
    proof {
        lemma_find_byte_props(jws@, 46, d1 as int + 1);
    }
    match find_byte_exec(jws, 46, d2 + 1) {
        Some(_) => {
            return Err(JwsError::MalformedSignature);
        },
        None => {},
    }
    let h64 = copy_range(jws, 0, d1);
    let p64 = copy_range(jws, d1 + 1, d2);
    let s64 = copy_range(jws, d2 + 1, n);
    let h = match b64url_decode(&h64) {
        Some(v) => v,
        None => {
            return Err(JwsError::MalformedSignature);
        },
    };
    let p = match b64url_decode(&p64) {
        Some(v) => v,
        None => {
            return Err(JwsError::MalformedSignature);
        },
    };
    let sig = match b64url_decode(&s64) {
        Some(v) => v,
        None => {
            return Err(JwsError::MalformedSignature);
        },
    };
    let l1 = lit_alg_vec();
    let l2 = lit_kid_vec();
    let hdr = match parse_two_fields_exec(&h, &l1, &l2) {
        Some(t) => t,
        None => {
            return Err(JwsError::MalformedSignature);
        },
    };
    let (alg, kid) = hdr;
    let eddsa = alg_eddsa_vec();
    if !bytes_eq(&alg, &eddsa) {
        return Err(JwsError::UnsupportedAlgorithm);
    }
    let pk = match find_key(doc, &kid) {
        Some(k) => k,
        None => {
            return Err(JwsError::KeyNotFound);
        },
    };
    let signing_input = copy_range(jws, 0, d2);
    proof {
        assert(signing_input@ =~= h64@ + seq![46u8] + p64@);
    }
    let ok = eddsa_verify(pk, &signing_input, &sig);
    if !ok {
        return Ok(false);
    }
    let c1 = lit_iss_vec();
    let c2 = lit_challenge_vec();
    let claims = match parse_two_fields_exec(&p, &c1, &c2) {
        Some(t) => t,
        None => {
            return Ok(false);
        },
    };
    let (iss, ch) = claims;
    let same_iss = bytes_eq(&iss, expected_did);
    let same_ch = bytes_eq(&ch, expected_nonce);
    Ok(same_iss && same_ch)
}

/// A canonically built two-field object parses back to its two values.
pub proof fn lemma_parse_two_fields_complete(l1: Seq<u8>, l2: Seq<u8>, a: Seq<u8>, b: Seq<u8>)
    requires
        l2.len() > 0,
        l2[0] == 34,
        forall|k: int| 0 <= k < a.len() ==> a[k] != 34,
        forall|k: int| 0 <= k < b.len() ==> b[k] != 34,
    ensures
        parse_two_fields(l1 + a + l2 + b + seq![34u8, 125u8], l1, l2) == Some((a, b)),
{
    let s = l1 + a + l2 + b + seq![34u8, 125u8];
    let q1 = l1.len() as int + a.len() as int;
    let q2 = q1 + l2.len() as int + b.len() as int;
    assert(s.len() == l1.len() + a.len() + l2.len() + b.len() + 2);
    assert forall|k: int| 0 <= k < l1.len() implies s[k] == l1[k] by {}
    assert forall|k: int| l1.len() <= k < q1 implies s[k] == a[k - l1.len()] by {}
    assert forall|k: int| q1 <= k < q1 + l2.len() implies s[k] == l2[k - q1] by {}
    assert forall|k: int| q1 + l2.len() <= k < q2 implies s[k] == b[k - q1 - l2.len()] by {}
    assert(s[q2] == 34);
    assert(s[q2 + 1] == 125);
    assert(s.subrange(0, l1.len() as int) =~= l1);
    assert(s[q1] == 34);
    lemma_find_byte_found(s, 34, l1.len() as int, q1);
    assert(s.subrange(l1.len() as int, q1) =~= a);
    assert(s.subrange(q1, q1 + l2.len() as int) =~= l2);
    lemma_find_byte_found(s, 34, q1 + l2.len() as int, q2);
    assert(s.subrange(q1 + l2.len() as int, q2) =~= b);
}

/// The canonical protected header carrying the EdDSA algorithm and a key id.
pub open spec fn canonical_header(kid: Seq<u8>) -> Seq<u8> {
    lit_alg() + alg_eddsa() + lit_kid() + kid + seq![34u8, 125u8]
}

/// The canonical claims carrying an issuer and a challenge.
pub open spec fn canonical_claims(iss: Seq<u8>, ch: Seq<u8>) -> Seq<u8> {
    lit_iss() + iss + lit_challenge() + ch + seq![34u8, 125u8]
}

/// The signing input of the canonical JWS: header segment, dot, payload
/// segment.
pub open spec fn canonical_signing_input(kid: Seq<u8>, iss: Seq<u8>, ch: Seq<u8>) -> Seq<u8> {
    crate::b64::spec_b64url_encode(canonical_header(kid)) + seq![46u8]
        + crate::b64::spec_b64url_encode(canonical_claims(iss, ch))
}

/// The canonical compact JWS for a key id, issuer, challenge and signature.
pub open spec fn canonical_jws(kid: Seq<u8>, iss: Seq<u8>, ch: Seq<u8>, sig: Seq<u8>) -> Seq<u8> {
    canonical_signing_input(kid, iss, ch) + seq![46u8] + crate::b64::spec_b64url_encode(sig)
}

/// An encoded segment holds no dot, no quote and no closing brace: its bytes
/// are alphabet bytes.
pub proof fn lemma_encode_no_delimiters(s: Seq<u8>)
    ensures
        forall|k: int|
            0 <= k < crate::b64::spec_b64url_encode(s).len()
                ==> #[trigger] crate::b64::spec_b64url_encode(s)[k] != 46,
{
    crate::b64::lemma_encode_alphabet(s);
    assert forall|k: int| 0 <= k < crate::b64::spec_b64url_encode(s).len() implies #[trigger] crate::b64::spec_b64url_encode(
        s,
    )[k] != 46 by {
        assert(crate::b64::dec6(crate::b64::spec_b64url_encode(s)[k]) is Some);
        assert(crate::b64::dec6(46u8) is None);
    }
}

/// The whole check accepts the canonical JWS: on a document that knows the
/// key id, checking the canonical JWS reduces to the cryptographic
/// verification and the claim comparison.
pub proof fn lemma_jws_check_complete(
    kid: Seq<u8>,
    iss: Seq<u8>,
    ch: Seq<u8>,
    sig: Seq<u8>,
    did: Seq<u8>,
    nonce: Seq<u8>,
    doc: IdentityDocument,
)
    requires
        doc.has_key(kid),
        forall|k: int| 0 <= k < kid.len() ==> kid[k] != 34,
        forall|k: int| 0 <= k < iss.len() ==> iss[k] != 34,
        forall|k: int| 0 <= k < ch.len() ==> ch[k] != 34,
    ensures
        jws_check_model(canonical_jws(kid, iss, ch, sig), did, nonce, doc) == (if eddsa_sig_ok(
            doc.key_for(kid),
            canonical_signing_input(kid, iss, ch),
            sig,
        ) {
            Ok::<bool, JwsError>(iss == did && ch == nonce)
        } else {
            Ok::<bool, JwsError>(false)
        }),
{
    let h = canonical_header(kid);
    let p = canonical_claims(iss, ch);
    let h64 = crate::b64::spec_b64url_encode(h);
    let p64 = crate::b64::spec_b64url_encode(p);
    let s64 = crate::b64::spec_b64url_encode(sig);
    lemma_encode_no_delimiters(h);
    lemma_encode_no_delimiters(p);
    lemma_encode_no_delimiters(sig);
    lemma_jws_parts_complete(h64, p64, s64);
    assert(canonical_jws(kid, iss, ch, sig) == h64 + seq![46u8] + p64 + seq![46u8] + s64);
    crate::b64::lemma_b64url_round_trip(h);
    crate::b64::lemma_b64url_round_trip(p);
    crate::b64::lemma_b64url_round_trip(sig);
    assert(lit_kid()[0] == 34);
    assert(lit_challenge()[0] == 34);
    assert(forall|k: int| 0 <= k < alg_eddsa().len() ==> alg_eddsa()[k] != 34);
    lemma_parse_two_fields_complete(lit_alg(), lit_kid(), alg_eddsa(), kid);
    lemma_parse_two_fields_complete(lit_iss(), lit_challenge(), iss, ch);
    assert(parse_header(h) == Some((alg_eddsa(), kid)));
    assert(parse_claims(p) == Some((iss, ch)));
}

/// The parser is exact the other way too: whatever it accepts is the
/// canonical two-field object over what it returns, with quote-free values.
pub proof fn lemma_parse_two_fields_sound(s: Seq<u8>, l1: Seq<u8>, l2: Seq<u8>)
    requires
        parse_two_fields(s, l1, l2) is Some,
    ensures
        ({
            let (a, b) = parse_two_fields(s, l1, l2).unwrap();
            &&& s =~= l1 + a + l2 + b + seq![34u8, 125u8]
            &&& forall|k: int| 0 <= k < a.len() ==> a[k] != 34
            &&& forall|k: int| 0 <= k < b.len() ==> b[k] != 34
        }),
{
    let q1 = find_byte(s, 34, l1.len() as int);
    lemma_find_byte_props(s, 34, l1.len() as int);
    let q2 = find_byte(s, 34, q1 + l2.len() as int);
    lemma_find_byte_props(s, 34, q1 + l2.len() as int);
    let a = s.subrange(l1.len() as int, q1);
    let b = s.subrange(q1 + l2.len() as int, q2);
    assert(forall|k: int| 0 <= k < a.len() ==> a[k] == s[l1.len() + k]);
    assert(forall|k: int| 0 <= k < b.len() ==> b[k] == s[q1 + l2.len() as int + k]);
    assert(forall|k: int| 0 <= k < l1.len() ==> s[k] == s.subrange(0, l1.len() as int)[k]);
    assert(forall|k: int|
        0 <= k < l2.len() ==> s[q1 + k] == (#[trigger] s.subrange(q1, q1 + l2.len() as int)[k]));
    assert(s =~= l1 + a + l2 + b + seq![34u8, 125u8]);
}

/// The splitter is exact the other way too: whatever it accepts is the three
/// returned segments joined by dots, and the segments hold no dot.
pub proof fn lemma_jws_parts_sound(s: Seq<u8>)
    requires
        jws_parts(s) is Some,
    ensures
        ({
            let (h64, p64, s64) = jws_parts(s).unwrap();
            &&& s =~= h64 + seq![46u8] + p64 + seq![46u8] + s64
            &&& forall|k: int| 0 <= k < h64.len() ==> h64[k] != 46
            &&& forall|k: int| 0 <= k < p64.len() ==> p64[k] != 46
            &&& forall|k: int| 0 <= k < s64.len() ==> s64[k] != 46
        }),
{
    let i = find_byte(s, 46, 0);
    lemma_find_byte_props(s, 46, 0);
    let j = find_byte(s, 46, i + 1);
    lemma_find_byte_props(s, 46, i + 1);
    lemma_find_byte_props(s, 46, j + 1);
    let h64 = s.subrange(0, i);
    let p64 = s.subrange(i + 1, j);
    let s64 = s.subrange(j + 1, s.len() as int);
    assert(forall|k: int| 0 <= k < h64.len() ==> h64[k] == s[k]);
    assert(forall|k: int| 0 <= k < p64.len() ==> p64[k] == s[i + 1 + k]);
    assert(forall|k: int| 0 <= k < s64.len() ==> s64[k] == s[j + 1 + k]);
    assert(s =~= h64 + seq![46u8] + p64 + seq![46u8] + s64);
}

/// A compact string built from three dot-free segments splits back into
/// them.
pub proof fn lemma_jws_parts_complete(h64: Seq<u8>, p64: Seq<u8>, s64: Seq<u8>)
    requires
        forall|k: int| 0 <= k < h64.len() ==> h64[k] != 46,
        forall|k: int| 0 <= k < p64.len() ==> p64[k] != 46,
        forall|k: int| 0 <= k < s64.len() ==> s64[k] != 46,
    ensures
        jws_parts(h64 + seq![46u8] + p64 + seq![46u8] + s64) == Some((h64, p64, s64)),
{
    let s = h64 + seq![46u8] + p64 + seq![46u8] + s64;
    let i = h64.len() as int;
    let j = i + 1 + p64.len() as int;
    assert(s.len() == h64.len() + 1 + p64.len() + 1 + s64.len());
    assert forall|k: int| 0 <= k < i implies s[k] == h64[k] by {}
    assert(s[i] == 46);
    assert forall|k: int| i < k < j implies s[k] == p64[k - i - 1] by {}
    assert(s[j] == 46);
    assert forall|k: int| j < k < s.len() implies s[k] == s64[k - j - 1] by {}
    lemma_find_byte_found(s, 46, 0, i);
    lemma_find_byte_found(s, 46, i + 1, j);
    crate::bytes::lemma_find_byte_none(s, 46, j + 1);
    assert(s.subrange(0, i) =~= h64);
    assert(s.subrange(i + 1, j) =~= p64);
    assert(s.subrange(j + 1, s.len() as int) =~= s64);
}

} // verus!
