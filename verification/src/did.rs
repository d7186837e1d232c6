//! Syntactic validation of Decentralized Identifiers.
//!
//! A DID is a string of the shape `did:<method>:<method-specific-id>`: the
//! literal prefix `did:`, a non-empty method name of lower-case letters and
//! digits, a colon, and a non-empty method-specific identifier of letters,
//! digits and the punctuation `.`, `-`, `_`, `:`, `%`.  Validation is purely
//! syntactic and happens before any ledger lookup, so a malformed identifier
//! is rejected without a network call.

use vstd::prelude::*;

verus! {

/// A byte allowed in the method name: a lower-case ASCII letter or a digit.
pub open spec fn is_method_byte(b: u8) -> bool {
    (97 <= b && b <= 122) || (48 <= b && b <= 57)
}

/// A byte allowed in the method-specific identifier: an ASCII letter, a
/// digit, or one of `.` `-` `_` `:` `%`.
pub open spec fn is_idchar_byte(b: u8) -> bool {
    ||| (97 <= b && b <= 122)
    ||| (65 <= b && b <= 90)
    ||| (48 <= b && b <= 57)
    ||| b == 46
    ||| b == 45
    ||| b == 95
    ||| b == 58
    ||| b == 37
}

/// The four bytes of the literal prefix `did:`.
pub open spec fn did_prefix() -> Seq<u8> {
    seq![100u8, 105u8, 100u8, 58u8]
}

/// A well-formed DID: `did:` then a non-empty run of method bytes, a colon,
/// and a non-empty run of idchar bytes.
pub open spec fn is_valid_did(s: Seq<u8>) -> bool {
    &&& s.len() > 4
    &&& s.subrange(0, 4) == did_prefix()
    &&& exists|j: int|
        #![trigger s[j]]
        {
            &&& 4 < j < s.len() - 1
            &&& s[j] == 58
            &&& forall|k: int| 4 <= k < j ==> is_method_byte(#[trigger] s[k])
            &&& forall|k: int| j < k < s.len() ==> is_idchar_byte(#[trigger] s[k])
        }
}

/// Decides DID well-formedness exactly.
pub fn check_did(s: &Vec<u8>) -> (r: bool)
    ensures
        r == is_valid_did(s@),
{
    if s.len() <= 6 {
        // Shortest valid DID has one method byte and one idchar byte.
        assert(!is_valid_did(s@)) by {
            if is_valid_did(s@) {
                let j = choose|j: int|
                    {
                        &&& 4 < j < s@.len() - 1
                        &&& s@[j] == 58
                        &&& forall|k: int| 4 <= k < j ==> is_method_byte(#[trigger] s@[k])
                        &&& forall|k: int| j < k < s@.len() ==> is_idchar_byte(#[trigger] s@[k])
                    };
                assert(s@.len() > 6);
            }
        }
        return false;
    }
    if !(s[0] == 100 && s[1] == 105 && s[2] == 100 && s[3] == 58) {
        assert(s@.subrange(0, 4) != did_prefix()) by {
            if s@.subrange(0, 4) == did_prefix() {
                assert(s@.subrange(0, 4)[0] == s@[0]);
                assert(s@.subrange(0, 4)[1] == s@[1]);
                assert(s@.subrange(0, 4)[2] == s@[2]);
                assert(s@.subrange(0, 4)[3] == s@[3]);
            }
        }
        return false;
    }
    assert(s@.subrange(0, 4) =~= did_prefix());

    // Scan the method name: the separating colon is the first byte after the
    // prefix that is not a method byte.
    let n = s.len();
    let mut i: usize = 4;
    while i < n && is_method_byte_exec(s[i])
        invariant
            4 <= i <= n,
            n == s@.len(),
            forall|k: int| 4 <= k < i ==> is_method_byte(#[trigger] s@[k]),
        decreases n - i,
    {
        i = i + 1;
    }
    // `i` is the first position at or after 4 with a non-method byte (or n).
    if i == n || s[i] != 58 || i == 4 || i == n - 1 {
        assert(!is_valid_did(s@)) by {
            if is_valid_did(s@) {
                let j = choose|j: int|
                    {
                        &&& 4 < j < s@.len() - 1
                        &&& s@[j] == 58
                        &&& forall|k: int| 4 <= k < j ==> is_method_byte(#[trigger] s@[k])
                        &&& forall|k: int| j < k < s@.len() ==> is_idchar_byte(#[trigger] s@[k])
                    };
                // The colon at j is not a method byte, so the scan cannot have
                // passed it: i <= j.  And everything before j is a method
                // byte, so the scan cannot have stopped before j either.
                assert(!is_method_byte(s@[j]));
                assert(i as int <= j);
                if (i as int) < j {
                    assert(is_method_byte(s@[i as int]));
                }
                assert(i as int == j);
            }
        }
        return false;
    }

    // Scan the method-specific identifier.
    let sep: usize = i;
    let mut k: usize = sep + 1;
    while k < n && is_idchar_byte_exec(s[k])
        invariant
            sep + 1 <= k <= n,
            n == s@.len(),
            forall|m: int| sep < m < k ==> is_idchar_byte(#[trigger] s@[m]),
        decreases n - k,
    {
        k = k + 1;
    }
    if k < n {
        assert(!is_valid_did(s@)) by {
            if is_valid_did(s@) {
                let j = choose|j: int|
                    {
                        &&& 4 < j < s@.len() - 1
                        &&& s@[j] == 58
                        &&& forall|k2: int| 4 <= k2 < j ==> is_method_byte(#[trigger] s@[k2])
                        &&& forall|k2: int| j < k2 < s@.len() ==> is_idchar_byte(#[trigger] s@[k2])
                    };
                assert(!is_method_byte(s@[j]));
                assert(j as int <= sep as int);
                if (j as int) < sep as int {
                    assert(is_method_byte(s@[sep as int]));
                }
                assert(j == sep as int);
                assert(is_idchar_byte(s@[k as int]));
            }
        }
        return false;
    }
    assert(is_valid_did(s@)) by {
        let j = sep as int;
        assert(4 < j < s@.len() - 1);
        assert(s@[j] == 58);
        assert(forall|m: int| j < m < s@.len() ==> is_idchar_byte(#[trigger] s@[m]));
    }
    true
}

/// Decides `is_method_byte` on one byte.
pub fn is_method_byte_exec(b: u8) -> (r: bool)
    ensures
        r == is_method_byte(b),
{
    (97 <= b && b <= 122) || (48 <= b && b <= 57)
}

/// Decides `is_idchar_byte` on one byte.
pub fn is_idchar_byte_exec(b: u8) -> (r: bool)
    ensures
        r == is_idchar_byte(b),
{
    (97 <= b && b <= 122) || (65 <= b && b <= 90) || (48 <= b && b <= 57) || b == 46 || b == 45
        || b == 95 || b == 58 || b == 37
}

} // verus!
