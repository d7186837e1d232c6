//! Small verified helpers on byte vectors: equality, copying a range, and
//! finding the first occurrence of a byte.

use vstd::prelude::*;

verus! {

/// Decides equality of two byte strings.
pub fn bytes_eq(a: &Vec<u8>, b: &Vec<u8>) -> (r: bool)
    ensures
        r == (a@ == b@),
{
    if a.len() != b.len() {
        return false;
    }
    let n = a.len();
    let mut i: usize = 0;
    while i < n
        invariant
            0 <= i <= n,
            n == a@.len() == b@.len(),
            forall|k: int| 0 <= k < i ==> a@[k] == b@[k],
        decreases n - i,
    {
        if a[i] != b[i] {
            return false;
        }
        i = i + 1;
    }
    proof {
        assert(a@ =~= b@);
    }
    true
}

/// Copies the bytes of `s` from `from` (inclusive) to `to` (exclusive).
pub fn copy_range(s: &Vec<u8>, from: usize, to: usize) -> (r: Vec<u8>)
    requires
        from <= to <= s@.len(),
    ensures
        r@ == s@.subrange(from as int, to as int),
{
    let mut r: Vec<u8> = Vec::new();
    let mut i: usize = from;
    proof {
        assert(r@ =~= s@.subrange(from as int, from as int));
    }
    while i < to
        invariant
            from <= i <= to <= s@.len(),
            r@ == s@.subrange(from as int, i as int),
        decreases to - i,
    {
        r.push(s[i]);
        proof {
            assert(r@ =~= s@.subrange(from as int, i as int + 1));
        }
        i = i + 1;
    }
    r
}

/// The first index at or after `from` holding the byte `b`, or `-1`.
pub open spec fn find_byte(s: Seq<u8>, b: u8, from: int) -> int
    decreases s.len() - from,
{
    if from < 0 || from >= s.len() {
        -1
    } else if s[from] == b {
        from
    } else {
        find_byte(s, b, from + 1)
    }
}

/// `find_byte` returns the index of the first occurrence.
pub proof fn lemma_find_byte_found(s: Seq<u8>, b: u8, from: int, j: int)
    requires
        0 <= from <= j < s.len(),
        s[j] == b,
        forall|k: int| from <= k < j ==> s[k] != b,
    ensures
        find_byte(s, b, from) == j,
    decreases j - from,
{
    if from < j {
        lemma_find_byte_found(s, b, from + 1, j);
    }
}

/// `find_byte` returns `-1` when the byte does not occur.
pub proof fn lemma_find_byte_none(s: Seq<u8>, b: u8, from: int)
    requires
        0 <= from,
        forall|k: int| from <= k < s.len() ==> s[k] != b,
    ensures
        find_byte(s, b, from) == -1,
    decreases s.len() - from,
{
    if from < s.len() {
        lemma_find_byte_none(s, b, from + 1);
    }
}

/// What `find_byte` returns is an occurrence, and the first one.
pub proof fn lemma_find_byte_props(s: Seq<u8>, b: u8, from: int)
    requires
        0 <= from,
    ensures
        find_byte(s, b, from) >= 0 ==> {
            &&& from <= find_byte(s, b, from) < s.len()
            &&& s[find_byte(s, b, from)] == b
            &&& forall|k: int| from <= k < find_byte(s, b, from) ==> s[k] != b
        },
        find_byte(s, b, from) < 0 ==> forall|k: int| from <= k < s.len() ==> s[k] != b,
    decreases s.len() - from,
{
    if from < s.len() && s[from] != b {
        lemma_find_byte_props(s, b, from + 1);
    }
}

/// Finds the first occurrence of `b` in `s` at or after `from`, exactly as
/// `find_byte` does.
pub fn find_byte_exec(s: &Vec<u8>, b: u8, from: usize) -> (r: Option<usize>)
    ensures
        r matches Some(j) ==> find_byte(s@, b, from as int) == j,
        r is None ==> find_byte(s@, b, from as int) == -1,
{
    let n = s.len();
    let mut i: usize = from;
    if i > n {
        proof {
            lemma_find_byte_none(s@, b, from as int);
        }
        return None;
    }
    while i < n
        invariant
            from <= i <= n,
            n == s@.len(),
            forall|k: int| from <= k < i ==> s@[k] != b,
        decreases n - i,
    {
        if s[i] == b {
            proof {
                lemma_find_byte_found(s@, b, from as int, i as int);
            }
            return Some(i);
        }
        i = i + 1;
    }
    proof {
        lemma_find_byte_none(s@, b, from as int);
    }
    None
}

} // verus!
