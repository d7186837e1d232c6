//! The service configuration value object, and the port parser.
//!
//! Environment reading happens outside this crate; the values come in as
//! plain strings, and the port as its decimal text, parsed here with an
//! exact contract: every string of digits whose value fits a `u16` parses,
//! everything else is rejected.

use vstd::prelude::*;

verus! {

/// The configuration the service starts with, built once and passed by
/// reference.
pub struct AppConfig {
    pub iota_api_endpoint: String,
    pub iota_identity_pkg_id: String,
    pub service_port: u16,
}

impl AppConfig {
    /// Builds the configuration value object from its parts.
    pub fn new(iota_api_endpoint: String, iota_identity_pkg_id: String, service_port: u16) -> (r:
        AppConfig)
        ensures
            r.iota_api_endpoint@ == iota_api_endpoint@,
            r.iota_identity_pkg_id@ == iota_identity_pkg_id@,
            r.service_port == service_port,
    {
        AppConfig { iota_api_endpoint, iota_identity_pkg_id, service_port }
    }
}

/// An ASCII decimal digit.
pub open spec fn is_digit(b: u8) -> bool {
    48 <= b && b <= 57
}

/// The value of a string of decimal digits.
pub open spec fn dec_value(s: Seq<u8>) -> int
    decreases s.len(),
{
    if s.len() == 0 {
        0
    } else {
        dec_value(s.drop_last()) * 10 + (s.last() - 48)
    }
}

/// A port string parses exactly when it is non-empty, all digits, and its
/// value fits a `u16`; leading zeroes are allowed.
pub open spec fn spec_parse_port(s: Seq<u8>) -> Option<u16> {
    if s.len() > 0 && (forall|i: int| 0 <= i < s.len() ==> is_digit(#[trigger] s[i])) && dec_value(
        s,
    ) <= 65535 {
        Some(dec_value(s) as u16)
    } else {
        None
    }
}

proof fn lemma_dec_value_nonneg(s: Seq<u8>)
    requires
        forall|i: int| 0 <= i < s.len() ==> is_digit(#[trigger] s[i]),
    ensures
        dec_value(s) >= 0,
    decreases s.len(),
{
    if s.len() > 0 {
        lemma_dec_value_nonneg(s.drop_last());
        assert(dec_value(s.drop_last()) * 10 >= 0) by (nonlinear_arith)
            requires
                dec_value(s.drop_last()) >= 0,
        ;
    }
}

proof fn lemma_dec_value_grows(s: Seq<u8>, from: int, to: int)
    requires
        forall|i: int| 0 <= i < s.len() ==> is_digit(#[trigger] s[i]),
        0 <= from <= to <= s.len(),
    ensures
        dec_value(s.take(to)) >= dec_value(s.take(from)),
    decreases to - from,
{
    if from < to {
        lemma_dec_value_grows(s, from, to - 1);
        let p = s.take(to);
        assert(p.drop_last() =~= s.take(to - 1));
        assert(forall|i: int| 0 <= i < p.len() ==> is_digit(#[trigger] p[i]));
        lemma_dec_value_nonneg(p.drop_last());
        assert(dec_value(p.drop_last()) * 10 >= dec_value(p.drop_last())) by (nonlinear_arith)
            requires
                dec_value(p.drop_last()) >= 0,
        ;
        assert(is_digit(p.last()));
    }
}

/// Parses a decimal port, exactly `spec_parse_port`.
pub fn parse_port(s: &Vec<u8>) -> (r: Option<u16>)
    ensures
        r == spec_parse_port(s@),
{
    let n = s.len();
    if n == 0 {
        return None;
    }
    let mut acc: u32 = 0;
    let mut i: usize = 0;
    while i < n
        invariant
            0 <= i <= n,
            n == s@.len(),
            forall|k: int| 0 <= k < i ==> is_digit(#[trigger] s@[k]),
            acc == dec_value(s@.take(i as int)),
            acc <= 65535,
        decreases n - i,
    {
        let b = s[i];
        if !(48 <= b && b <= 57) {
            return None;
        }
        let next: u32 = acc * 10 + ((b - 48) as u32);
        proof {
            assert(s@.take(i as int + 1).drop_last() =~= s@.take(i as int));
            assert(s@.take(i as int + 1).last() == s@[i as int]);
        }
        if next > 65535 {
            proof {
                assert(dec_value(s@.take(i as int + 1)) == next);
                if forall|k: int| 0 <= k < s@.len() ==> is_digit(#[trigger] s@[k]) {
                    lemma_dec_value_grows(s@, i as int + 1, s@.len() as int);
                    assert(s@.take(s@.len() as int) =~= s@);
                }
            }
            return None;
        }
        acc = next;
        i = i + 1;
    }
    proof {
        assert(s@.take(n as int) =~= s@);
    }
    Some(acc as u16)
}

} // verus!
