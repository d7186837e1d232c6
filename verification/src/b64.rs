//! Unpadded base64url coding of byte strings (RFC 4648 section 5).
//!
//! Compact JWS segments are unpadded base64url text.  The decoder here is
//! strict: it accepts exactly the canonical encodings, so every decoded byte
//! string has one textual form.  `spec_b64url_encode` defines the encoding
//! mathematically; `lemma_b64url_round_trip` proves that the decoder inverts
//! it on every input.

use vstd::prelude::*;

verus! {

/// The base64url alphabet: maps a 6-bit value to its ASCII byte.
pub open spec fn enc6(v: u8) -> u8
    recommends
        v < 64,
{
    if v < 26 {
        (v + 65) as u8  // 'A'..'Z'
    } else if v < 52 {
        (v + 71) as u8  // 'a'..'z'
    } else if v < 62 {
        (v - 4) as u8  // '0'..'9'
    } else if v == 62 {
        45  // '-'
    } else {
        95  // '_'
    }
}

/// Inverse of the alphabet: maps an ASCII byte to its 6-bit value, or `None`
/// for a byte outside the alphabet.
pub open spec fn dec6(b: u8) -> Option<u8> {
    if 65 <= b && b <= 90 {
        Some((b - 65) as u8)
    } else if 97 <= b && b <= 122 {
        Some((b - 71) as u8)
    } else if 48 <= b && b <= 57 {
        Some((b + 4) as u8)
    } else if b == 45 {
        Some(62)
    } else if b == 95 {
        Some(63)
    } else {
        None
    }
}

/// The unpadded base64url encoding of a byte string: three input bytes give
/// four alphabet bytes; a final one or two bytes give two or three, with the
/// unused low bits of the last value zero.
pub open spec fn spec_b64url_encode(s: Seq<u8>) -> Seq<u8>
    decreases s.len(),
{
    if s.len() == 0 {
        Seq::empty()
    } else if s.len() == 1 {
        let b0 = s[0];
        seq![enc6(b0 >> 2), enc6((b0 & 3) << 4)]
    } else if s.len() == 2 {
        let b0 = s[0];
        let b1 = s[1];
        seq![enc6(b0 >> 2), enc6(((b0 & 3) << 4) | (b1 >> 4)), enc6((b1 & 15) << 2)]
    } else {
        let b0 = s[0];
        let b1 = s[1];
        let b2 = s[2];
        seq![
            enc6(b0 >> 2),
            enc6(((b0 & 3) << 4) | (b1 >> 4)),
            enc6(((b1 & 15) << 2) | (b2 >> 6)),
            enc6(b2 & 63),
        ] + spec_b64url_encode(s.skip(3))
    }
}

/// Strict decoding: `Some` exactly on canonical unpadded base64url text.
pub open spec fn spec_b64url_decode(s: Seq<u8>) -> Option<Seq<u8>>
    decreases s.len(),
{
    if s.len() == 0 {
        Some(Seq::empty())
    } else if s.len() == 1 {
        None
    } else if s.len() == 2 {
        match (dec6(s[0]), dec6(s[1])) {
            (Some(v0), Some(v1)) => if v1 & 15 == 0 {
                Some(seq![(v0 << 2) | (v1 >> 4)])
            } else {
                None
            },
            _ => None,
        }
    } else if s.len() == 3 {
        match (dec6(s[0]), dec6(s[1]), dec6(s[2])) {
            (Some(v0), Some(v1), Some(v2)) => if v2 & 3 == 0 {
                Some(seq![(v0 << 2) | (v1 >> 4), ((v1 & 15) << 4) | (v2 >> 2)])
            } else {
                None
            },
            _ => None,
        }
    } else {
        match (dec6(s[0]), dec6(s[1]), dec6(s[2]), dec6(s[3])) {
            (Some(v0), Some(v1), Some(v2), Some(v3)) => match spec_b64url_decode(s.skip(4)) {
                Some(rest) => Some(
                    seq![
                        (v0 << 2) | (v1 >> 4),
                        ((v1 & 15) << 4) | (v2 >> 2),
                        ((v2 & 3) << 6) | v3,
                    ] + rest,
                ),
                None => None,
            },
            _ => None,
        }
    }
}

/// The alphabet has no dot and no quote, so an encoded segment never collides
/// with the JWS separators or the claim grammar's delimiters.
pub proof fn lemma_enc6_alphabet(v: u8)
    requires
        v < 64,
    ensures
        dec6(enc6(v)) == Some(v),
        enc6(v) != 46,
        enc6(v) != 34,
        enc6(v) != 125,
{
}

/// Every byte of an encoding is an alphabet byte.
pub proof fn lemma_encode_alphabet(s: Seq<u8>)
    ensures
        forall|i: int|
            0 <= i < spec_b64url_encode(s).len() ==> dec6(
                #[trigger] spec_b64url_encode(s)[i],
            ) is Some,
    decreases s.len(),
{
    if s.len() == 0 {
    } else if s.len() == 1 {
        let b0 = s[0];
        assert(b0 >> 2 < 64 && (b0 & 3) << 4 < 64) by (bit_vector);
        lemma_enc6_alphabet(b0 >> 2);
        lemma_enc6_alphabet((b0 & 3) << 4);
    } else if s.len() == 2 {
        let b0 = s[0];
        let b1 = s[1];
        assert(b0 >> 2 < 64 && ((b0 & 3) << 4) | (b1 >> 4) < 64 && (b1 & 15) << 2 < 64)
            by (bit_vector);
        lemma_enc6_alphabet(b0 >> 2);
        lemma_enc6_alphabet(((b0 & 3) << 4) | (b1 >> 4));
        lemma_enc6_alphabet((b1 & 15) << 2);
    } else {
        let b0 = s[0];
        let b1 = s[1];
        let b2 = s[2];
        assert(b0 >> 2 < 64 && ((b0 & 3) << 4) | (b1 >> 4) < 64 && ((b1 & 15) << 2) | (b2 >> 6)
            < 64 && b2 & 63 < 64) by (bit_vector);
        lemma_enc6_alphabet(b0 >> 2);
        lemma_enc6_alphabet(((b0 & 3) << 4) | (b1 >> 4));
        lemma_enc6_alphabet(((b1 & 15) << 2) | (b2 >> 6));
        lemma_enc6_alphabet(b2 & 63);
        lemma_encode_alphabet(s.skip(3));
    }
}

/// The decoder inverts the encoder on every byte string.
pub proof fn lemma_b64url_round_trip(s: Seq<u8>)
    ensures
        spec_b64url_decode(spec_b64url_encode(s)) == Some(s),
    decreases s.len(),
{
    if s.len() == 0 {
        assert(spec_b64url_encode(s) =~= Seq::<u8>::empty());
        assert(s =~= Seq::<u8>::empty());
    } else if s.len() == 1 {
        let b0 = s[0];
        let v0 = b0 >> 2;
        let v1 = (b0 & 3) << 4;
        assert(v0 < 64 && v1 < 64 && v1 & 15 == 0 && ((v0 << 2) | (v1 >> 4)) == b0) by (bit_vector)
            requires
                v0 == b0 >> 2,
                v1 == (b0 & 3) << 4,
        ;
        lemma_enc6_alphabet(v0);
        lemma_enc6_alphabet(v1);
        assert(s =~= seq![b0]);
    } else if s.len() == 2 {
        let b0 = s[0];
        let b1 = s[1];
        let v0 = b0 >> 2;
        let v1 = ((b0 & 3) << 4) | (b1 >> 4);
        let v2 = (b1 & 15) << 2;
        assert(v0 < 64 && v1 < 64 && v2 < 64 && v2 & 3 == 0 && ((v0 << 2) | (v1 >> 4)) == b0 && (((
        v1 & 15) << 4) | (v2 >> 2)) == b1) by (bit_vector)
            requires
                v0 == b0 >> 2,
                v1 == ((b0 & 3) << 4) | (b1 >> 4),
                v2 == (b1 & 15) << 2,
        ;
        lemma_enc6_alphabet(v0);
        lemma_enc6_alphabet(v1);
        lemma_enc6_alphabet(v2);
        assert(s =~= seq![b0, b1]);
    } else {
        let b0 = s[0];
        let b1 = s[1];
        let b2 = s[2];
        let v0 = b0 >> 2;
        let v1 = ((b0 & 3) << 4) | (b1 >> 4);
        let v2 = ((b1 & 15) << 2) | (b2 >> 6);
        let v3 = b2 & 63;
        assert(v0 < 64 && v1 < 64 && v2 < 64 && v3 < 64 && ((v0 << 2) | (v1 >> 4)) == b0 && (((v1
            & 15) << 4) | (v2 >> 2)) == b1 && (((v2 & 3) << 6) | v3) == b2) by (bit_vector)
            requires
                v0 == b0 >> 2,
                v1 == ((b0 & 3) << 4) | (b1 >> 4),
                v2 == ((b1 & 15) << 2) | (b2 >> 6),
                v3 == b2 & 63,
        ;
        lemma_enc6_alphabet(v0);
        lemma_enc6_alphabet(v1);
        lemma_enc6_alphabet(v2);
        lemma_enc6_alphabet(v3);
        lemma_b64url_round_trip(s.skip(3));
        let chunk = seq![enc6(v0), enc6(v1), enc6(v2), enc6(v3)];
        let rest = spec_b64url_encode(s.skip(3));
        assert(spec_b64url_encode(s) == chunk + rest);
        assert((chunk + rest).skip(4) =~= rest);
        assert((chunk + rest).len() >= 4);
        if rest.len() == 0 {
            assert((chunk + rest).len() == 4);
        } else {
            lemma_encode_nonempty_len(s.skip(3));
        }
        assert((chunk + rest)[0] == enc6(v0) && (chunk + rest)[1] == enc6(v1) && (chunk + rest)[2]
            == enc6(v2) && (chunk + rest)[3] == enc6(v3));
        assert(seq![b0, b1, b2] + s.skip(3) =~= s);
    }
}

/// An alphabet byte is what its 6-bit value encodes to.
pub proof fn lemma_dec6_inverts(b: u8)
    requires
        dec6(b) is Some,
    ensures
        dec6(b).unwrap() < 64,
        enc6(dec6(b).unwrap()) == b,
{
}

/// The decoder is strict: whatever it accepts is the canonical encoding of
/// what it returns, so every byte string has exactly one accepted textual
/// form.
pub proof fn lemma_b64url_decode_canonical(t: Seq<u8>)
    requires
        spec_b64url_decode(t) is Some,
    ensures
        spec_b64url_encode(spec_b64url_decode(t).unwrap()) == t,
    decreases t.len(),
{
    if t.len() == 0 {
        assert(spec_b64url_decode(t).unwrap() =~= Seq::<u8>::empty());
        assert(spec_b64url_encode(spec_b64url_decode(t).unwrap()) =~= t);
    } else if t.len() == 2 {
        let v0 = dec6(t[0]).unwrap();
        let v1 = dec6(t[1]).unwrap();
        lemma_dec6_inverts(t[0]);
        lemma_dec6_inverts(t[1]);
        let b0 = (v0 << 2) | (v1 >> 4);
        assert(b0 >> 2 == v0 && (b0 & 3) << 4 == v1) by (bit_vector)
            requires
                v0 < 64,
                v1 < 64,
                v1 & 15 == 0,
                b0 == (v0 << 2) | (v1 >> 4),
        ;
        assert(spec_b64url_decode(t).unwrap() =~= seq![b0]);
        assert(spec_b64url_encode(seq![b0]) =~= t);
    } else if t.len() == 3 {
        let v0 = dec6(t[0]).unwrap();
        let v1 = dec6(t[1]).unwrap();
        let v2 = dec6(t[2]).unwrap();
        lemma_dec6_inverts(t[0]);
        lemma_dec6_inverts(t[1]);
        lemma_dec6_inverts(t[2]);
        let b0 = (v0 << 2) | (v1 >> 4);
        let b1 = ((v1 & 15) << 4) | (v2 >> 2);
        assert(b0 >> 2 == v0 && ((b0 & 3) << 4) | (b1 >> 4) == v1 && (b1 & 15) << 2 == v2)
            by (bit_vector)
            requires
                v0 < 64,
                v1 < 64,
                v2 < 64,
                v2 & 3 == 0,
                b0 == (v0 << 2) | (v1 >> 4),
                b1 == ((v1 & 15) << 4) | (v2 >> 2),
        ;
        assert(spec_b64url_decode(t).unwrap() =~= seq![b0, b1]);
        assert(spec_b64url_encode(seq![b0, b1]) =~= t);
    } else {
        let v0 = dec6(t[0]).unwrap();
        let v1 = dec6(t[1]).unwrap();
        let v2 = dec6(t[2]).unwrap();
        let v3 = dec6(t[3]).unwrap();
        lemma_dec6_inverts(t[0]);
        lemma_dec6_inverts(t[1]);
        lemma_dec6_inverts(t[2]);
        lemma_dec6_inverts(t[3]);
        let b0 = (v0 << 2) | (v1 >> 4);
        let b1 = ((v1 & 15) << 4) | (v2 >> 2);
        let b2 = ((v2 & 3) << 6) | v3;
        assert(b0 >> 2 == v0 && ((b0 & 3) << 4) | (b1 >> 4) == v1 && ((b1 & 15) << 2) | (b2 >> 6)
            == v2 && b2 & 63 == v3) by (bit_vector)
            requires
                v0 < 64,
                v1 < 64,
                v2 < 64,
                v3 < 64,
                b0 == (v0 << 2) | (v1 >> 4),
                b1 == ((v1 & 15) << 4) | (v2 >> 2),
                b2 == ((v2 & 3) << 6) | v3,
        ;
        lemma_b64url_decode_canonical(t.skip(4));
        let rest = spec_b64url_decode(t.skip(4)).unwrap();
        let whole = seq![b0, b1, b2] + rest;
        assert(spec_b64url_decode(t).unwrap() == whole);
        assert(whole.len() >= 3);
        assert(whole[0] == b0 && whole[1] == b1 && whole[2] == b2);
        assert(whole.skip(3) =~= rest);
        assert(spec_b64url_encode(whole) == seq![
            enc6(b0 >> 2),
            enc6(((b0 & 3) << 4) | (b1 >> 4)),
            enc6(((b1 & 15) << 2) | (b2 >> 6)),
            enc6(b2 & 63),
        ] + spec_b64url_encode(rest));
        assert(spec_b64url_encode(whole) =~= t);
    }
}

/// A non-empty byte string encodes to at least two alphabet bytes.
pub proof fn lemma_encode_nonempty_len(s: Seq<u8>)
    requires
        s.len() > 0,
    ensures
        spec_b64url_encode(s).len() >= 2,
    decreases s.len(),
{
}

/// Decides `dec6` on one byte.
pub fn dec6_exec(b: u8) -> (r: Option<u8>)
    ensures
        r == dec6(b),
{
    if 65 <= b && b <= 90 {
        Some(b - 65)
    } else if 97 <= b && b <= 122 {
        Some(b - 71)
    } else if 48 <= b && b <= 57 {
        Some(b + 4)
    } else if b == 45 {
        Some(62)
    } else if b == 95 {
        Some(63)
    } else {
        None
    }
}

/// Strict base64url decoding, exactly `spec_b64url_decode`.
pub fn b64url_decode(s: &Vec<u8>) -> (r: Option<Vec<u8>>)
    ensures
        (r is Some) == (spec_b64url_decode(s@) is Some),
        r matches Some(v) ==> spec_b64url_decode(s@) == Some(v@),
{
    let n = s.len();
    let mut out: Vec<u8> = Vec::new();
    let mut i: usize = 0;
    proof {
        assert(s@.skip(0) =~= s@);
        if spec_b64url_decode(s@) is Some {
            assert(Seq::<u8>::empty() + spec_b64url_decode(s@).unwrap() =~= spec_b64url_decode(
                s@,
            ).unwrap());
        }
    }
    while n - i >= 4
        invariant
            0 <= i <= n,
            n == s@.len(),
            (spec_b64url_decode(s@) is Some) == (spec_b64url_decode(s@.skip(i as int)) is Some),
            spec_b64url_decode(s@) is Some ==> spec_b64url_decode(s@) == Some(
                out@ + spec_b64url_decode(s@.skip(i as int)).unwrap(),
            ),
        decreases n - i,
    {
        let d0 = dec6_exec(s[i]);
        let d1 = dec6_exec(s[i + 1]);
        let d2 = dec6_exec(s[i + 2]);
        let d3 = dec6_exec(s[i + 3]);
        proof {
            assert(s@.skip(i as int).len() >= 4);
            assert(s@.skip(i as int)[0] == s@[i as int]);
            assert(s@.skip(i as int)[1] == s@[i as int + 1]);
            assert(s@.skip(i as int)[2] == s@[i as int + 2]);
            assert(s@.skip(i as int)[3] == s@[i as int + 3]);
            assert(s@.skip(i as int).skip(4) =~= s@.skip(i as int + 4));
        }
        let ghost out_old = out@;
        match (d0, d1, d2, d3) {
            (Some(v0), Some(v1), Some(v2), Some(v3)) => {
                out.push((v0 << 2) | (v1 >> 4));
                out.push(((v1 & 15) << 4) | (v2 >> 2));
                out.push(((v2 & 3) << 6) | v3);
                proof {
                    let chunk = seq![
                        (v0 << 2) | (v1 >> 4),
                        ((v1 & 15) << 4) | (v2 >> 2),
                        ((v2 & 3) << 6) | v3,
                    ];
                    assert(out@ =~= out_old + chunk);
                    if spec_b64url_decode(s@.skip(i as int + 4)) is Some {
                        let rest = spec_b64url_decode(s@.skip(i as int + 4)).unwrap();
                        assert(spec_b64url_decode(s@.skip(i as int)) == Some(chunk + rest));
                        assert(out_old + (chunk + rest) =~= (out_old + chunk) + rest);
                    }
                }
            },
            _ => {
                return None;
            },
        }
        i = i + 4;
    }
    // 0, 2 or 3 bytes remain; 1 is never canonical.
    if i == n {
        proof {
            assert(s@.skip(i as int) =~= Seq::<u8>::empty());
            if spec_b64url_decode(s@) is Some {
                assert(spec_b64url_decode(s@).unwrap() =~= out@);
                assert(spec_b64url_decode(s@) == Some(out@));
            }
        }
        return Some(out);
    }
    if n - i == 1 {
        return None;
    }
    if n - i == 2 {
        let d0 = dec6_exec(s[i]);
        let d1 = dec6_exec(s[i + 1]);
        proof {
            assert(s@.skip(i as int).len() == 2);
            assert(s@.skip(i as int)[0] == s@[i as int]);
            assert(s@.skip(i as int)[1] == s@[i as int + 1]);
        }
        match (d0, d1) {
            (Some(v0), Some(v1)) => {
                if v1 & 15 == 0 {
                    out.push((v0 << 2) | (v1 >> 4));
                    proof {
                        if spec_b64url_decode(s@) is Some {
                            assert(spec_b64url_decode(s@).unwrap() =~= out@);
                            assert(spec_b64url_decode(s@) == Some(out@));
                        }
                    }
                    return Some(out);
                } else {
                    return None;
                }
            },
            _ => {
                return None;
            },
        }
    }
    // exactly 3 bytes remain
    let d0 = dec6_exec(s[i]);
    let d1 = dec6_exec(s[i + 1]);
    let d2 = dec6_exec(s[i + 2]);
    proof {
        assert(n - i == 3);
        assert(s@.skip(i as int).len() == 3);
        assert(s@.skip(i as int)[0] == s@[i as int]);
        assert(s@.skip(i as int)[1] == s@[i as int + 1]);
        assert(s@.skip(i as int)[2] == s@[i as int + 2]);
    }
    match (d0, d1, d2) {
        (Some(v0), Some(v1), Some(v2)) => {
            if v2 & 3 == 0 {
                out.push((v0 << 2) | (v1 >> 4));
                out.push(((v1 & 15) << 4) | (v2 >> 2));
                proof {
                    if spec_b64url_decode(s@) is Some {
                        assert(spec_b64url_decode(s@).unwrap() =~= out@);
                        assert(spec_b64url_decode(s@) == Some(out@));
                    }
                }
                Some(out)
            } else {
                None
            }
        },
        _ => None,
    }
}

} // verus!
