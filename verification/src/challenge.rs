//! The challenge store: single-use nonces keyed by DID, with expiry.
//!
//! A challenge is `{subject_did, nonce, issued_at}`.  At most one live
//! challenge exists per DID: issuing again overwrites the prior one.  A
//! challenge is destroyed on the first matching `consume`, and an expired one
//! is purged lazily by the `consume` that finds it.  The store's
//! mathematical model is a map from DID to `(nonce, issued_at)`;
//! `consume_model` is the definition of `consume`, and the proof functions
//! at the end state the store's laws: a challenge is consumed at most once,
//! expiry rejects even a matching nonce, and re-issuing invalidates the
//! prior nonce.

use vstd::prelude::*;
use crate::bytes::bytes_eq;
use crate::errors::ConsumeError;

verus! {

/// The fixed challenge lifetime, in milliseconds (five minutes).
pub const CHALLENGE_TTL_MS: u64 = 300000;

/// One live challenge.
pub struct ChallengeEntry {
    pub did: Vec<u8>,
    pub nonce: Vec<u8>,
    pub issued_at: u64,
}

/// The store of live challenges.  `ttl_ms` is fixed at construction.
pub struct ChallengeStore {
    pub entries: Vec<ChallengeEntry>,
    pub ttl_ms: u64,
}

/// No two entries carry the same DID: at most one live challenge per DID.
pub open spec fn unique_dids(s: Seq<ChallengeEntry>) -> bool {
    forall|i: int, j: int|
        0 <= i < j < s.len() ==> (#[trigger] s[i].did)@ != (#[trigger] s[j].did)@
}

/// The map a sequence of entries stands for.
pub open spec fn map_of(s: Seq<ChallengeEntry>) -> Map<Seq<u8>, (Seq<u8>, u64)>
    decreases s.len(),
{
    if s.len() == 0 {
        Map::empty()
    } else {
        map_of(s.drop_last()).insert(s.last().did@, (s.last().nonce@, s.last().issued_at))
    }
}

/// What `consume` decides and leaves behind, on the map model: no entry is
/// `NoSuchChallenge`; an entry past its TTL is `ChallengeExpired` and is
/// purged; a live entry with another nonce is `NonceMismatch` and stays; a
/// match removes the entry and succeeds.
pub open spec fn consume_model(
    m: Map<Seq<u8>, (Seq<u8>, u64)>,
    ttl: u64,
    did: Seq<u8>,
    nonce: Seq<u8>,
    now: u64,
) -> (Result<(), ConsumeError>, Map<Seq<u8>, (Seq<u8>, u64)>) {
    if !m.dom().contains(did) {
        (Err(ConsumeError::NoSuchChallenge), m)
    } else if now > m[did].1 + ttl {
        (Err(ConsumeError::ChallengeExpired), m.remove(did))
    } else if m[did].0 != nonce {
        (Err(ConsumeError::NonceMismatch), m)
    } else {
        (Ok(()), m.remove(did))
    }
}

proof fn lemma_map_of_contains(s: Seq<ChallengeEntry>, did: Seq<u8>)
    ensures
        map_of(s).dom().contains(did) <==> exists|i: int|
            0 <= i < s.len() && (#[trigger] s[i].did)@ == did,
    decreases s.len(),
{
    if s.len() > 0 {
        lemma_map_of_contains(s.drop_last(), did);
        if s.last().did@ == did {
            assert(s[s.len() - 1].did@ == did);
        } else {
            if map_of(s).dom().contains(did) {
                let i = choose|i: int|
                    0 <= i < s.drop_last().len() && (#[trigger] s.drop_last()[i].did)@ == did;
                assert(s[i].did@ == did);
            }
            if exists|i: int| 0 <= i < s.len() && (#[trigger] s[i].did)@ == did {
                let i = choose|i: int| 0 <= i < s.len() && (#[trigger] s[i].did)@ == did;
                assert(i < s.len() - 1);
                assert(s.drop_last()[i].did@ == did);
            }
        }
    }
}

proof fn lemma_map_of_value(s: Seq<ChallengeEntry>, did: Seq<u8>, i: int)
    requires
        unique_dids(s),
        0 <= i < s.len(),
        s[i].did@ == did,
    ensures
        map_of(s).dom().contains(did),
        map_of(s)[did] == (s[i].nonce@, s[i].issued_at),
    decreases s.len(),
{
    if i == s.len() - 1 {
    } else {
        assert(s[i].did@ != s[s.len() - 1].did@);
        assert(s.drop_last()[i].did@ == did);
        lemma_map_of_value(s.drop_last(), did, i);
    }
}

proof fn lemma_map_of_remove(s: Seq<ChallengeEntry>, did: Seq<u8>, i: int)
    requires
        unique_dids(s),
        0 <= i < s.len(),
        s[i].did@ == did,
    ensures
        map_of(s.remove(i)) =~= map_of(s).remove(did),
    decreases s.len(),
{
    if i == s.len() - 1 {
        assert(s.remove(i) =~= s.drop_last());
        lemma_map_of_contains(s.drop_last(), did);
        if map_of(s.drop_last()).dom().contains(did) {
            let j = choose|j: int|
                0 <= j < s.drop_last().len() && (#[trigger] s.drop_last()[j].did)@ == did;
            assert(s[j].did@ == s[i].did@);
            assert(false);
        }
        assert(map_of(s.remove(i)) =~= map_of(s).remove(did));
    } else {
        let dl = s.drop_last();
        assert(s.remove(i).len() == s.len() - 1);
        assert(s.remove(i).drop_last() =~= dl.remove(i));
        assert(s.remove(i).last() == s.last());
        assert(dl[i].did@ == did);
        lemma_map_of_remove(dl, did, i);
        assert(s[i].did@ != s[s.len() - 1].did@);
        assert(map_of(s.remove(i)) == map_of(dl.remove(i)).insert(
            s.last().did@,
            (s.last().nonce@, s.last().issued_at),
        ));
        assert(map_of(dl).remove(did).insert(s.last().did@, (s.last().nonce@, s.last().issued_at))
            =~= map_of(dl).insert(
            s.last().did@,
            (s.last().nonce@, s.last().issued_at),
        ).remove(did));
    }
}

proof fn lemma_unique_remove(s: Seq<ChallengeEntry>, i: int)
    requires
        unique_dids(s),
        0 <= i < s.len(),
    ensures
        unique_dids(s.remove(i)),
        forall|k: int| 0 <= k < s.remove(i).len() ==> (#[trigger] s.remove(i)[k].did)@ != s[i].did@,
{
    assert forall|a: int, b: int| 0 <= a < b < s.remove(i).len() implies (#[trigger] s.remove(
        i,
    )[a].did)@ != (#[trigger] s.remove(i)[b].did)@ by {
        let a0 = if a < i {
            a
        } else {
            a + 1
        };
        let b0 = if b < i {
            b
        } else {
            b + 1
        };
        assert(s.remove(i)[a] == s[a0]);
        assert(s.remove(i)[b] == s[b0]);
    }
    assert forall|k: int| 0 <= k < s.remove(i).len() implies (#[trigger] s.remove(i)[k].did)@
        != s[i].did@ by {
        let k0 = if k < i {
            k
        } else {
            k + 1
        };
        assert(s.remove(i)[k] == s[k0]);
        assert(k0 != i);
    }
}

impl ChallengeStore {
    /// Well-formed: at most one live challenge per DID.
    pub open spec fn wf(self) -> bool {
        unique_dids(self.entries@)
    }

    /// The map this store holds: DID to `(nonce, issued_at)`.
    pub open spec fn model(self) -> Map<Seq<u8>, (Seq<u8>, u64)> {
        map_of(self.entries@)
    }

    /// An empty store with the given challenge lifetime.
    pub fn new(ttl_ms: u64) -> (r: ChallengeStore)
        ensures
            r.wf(),
            r.model() =~= Map::<Seq<u8>, (Seq<u8>, u64)>::empty(),
            r.ttl_ms == ttl_ms,
    {
        ChallengeStore { entries: Vec::new(), ttl_ms }
    }

    /// The index of the live challenge for a DID, if any.
    fn find_entry(&self, did: &Vec<u8>) -> (r: Option<usize>)
        ensures
            r matches Some(i) ==> 0 <= i < self.entries@.len() && self.entries@[i as int].did@
                == did@,
            r is None ==> forall|k: int|
                0 <= k < self.entries@.len() ==> (#[trigger] self.entries@[k].did)@ != did@,
    {
        let n = self.entries.len();
        let mut i: usize = 0;
        while i < n
            invariant
                0 <= i <= n,
                n == self.entries@.len(),
                forall|k: int| 0 <= k < i ==> (#[trigger] self.entries@[k].did)@ != did@,
            decreases n - i,
        {
            if bytes_eq(&self.entries[i].did, did) {
                return Some(i);
            }
            i = i + 1;
        }
        None
    }

    /// Records a challenge for the DID, overwriting and invalidating any
    /// prior unconsumed one.
    pub fn issue(&mut self, did: Vec<u8>, nonce: Vec<u8>, now: u64)
        requires
            old(self).wf(),
        ensures
            final(self).wf(),
            final(self).model() =~= old(self).model().insert(did@, (nonce@, now)),
            final(self).ttl_ms == old(self).ttl_ms,
    {
        let found = self.find_entry(&did);
        match found {
            Some(i) => {
                proof {
                    lemma_map_of_remove(self.entries@, did@, i as int);
                    lemma_unique_remove(self.entries@, i as int);
                }
                self.entries.remove(i);
            },
            None => {},
        }
        let ghost mid = self.entries@;
        self.entries.push(ChallengeEntry { did, nonce, issued_at: now });
        proof {
            assert(self.entries@.drop_last() =~= mid);
            assert(self.entries@.last().did@ == did@);
            assert(map_of(self.entries@) == map_of(mid).insert(did@, (nonce@, now)));
            // No entry left in `mid` carries this DID, so the push keeps
            // DIDs unique.
            assert(forall|k: int| 0 <= k < mid.len() ==> (#[trigger] mid[k].did)@ != did@);
            assert forall|a: int, b: int|
                0 <= a < b < self.entries@.len() implies (#[trigger] self.entries@[a].did)@ != (
            #[trigger] self.entries@[b].did)@ by {
                if b < self.entries@.len() - 1 {
                    assert(mid[a].did@ != mid[b].did@);
                } else {
                    assert(self.entries@[a] == mid[a]);
                }
            }
            if found is Some {
                assert(map_of(mid) =~= old(self).model().remove(did@));
                assert(map_of(mid).insert(did@, (nonce@, now)) =~= old(self).model().insert(
                    did@,
                    (nonce@, now),
                ));
            }
        }
    }

    /// Issues a fresh challenge for the DID: generates a random 36-byte
    /// nonce, records it with `issued_at = now`, overwriting and
    /// invalidating any prior unconsumed challenge, and returns the nonce
    /// for the client to sign.
    pub fn issue_fresh(&mut self, did: Vec<u8>, now: u64) -> (r: Vec<u8>)
        requires
            old(self).wf(),
        ensures
            final(self).wf(),
            final(self).ttl_ms == old(self).ttl_ms,
            r@.len() == 36,
            final(self).model() =~= old(self).model().insert(did@, (r@, now)),
    {
        let nonce = crate::crypto::fresh_nonce();
        let nonce_copy = crate::bytes::copy_range(&nonce, 0, nonce.len());
        proof {
            assert(nonce_copy@ =~= nonce@);
        }
        self.issue(did, nonce_copy, now);
        nonce
    }

    /// Consumes the live challenge for the DID: exactly `consume_model` on
    /// the store's map.
    pub fn consume(&mut self, did: &Vec<u8>, nonce: &Vec<u8>, now: u64) -> (r: Result<
        (),
        ConsumeError,
    >)
        requires
            old(self).wf(),
        ensures
            final(self).wf(),
            r == consume_model(old(self).model(), old(self).ttl_ms, did@, nonce@, now).0,
            final(self).model() =~= consume_model(
                old(self).model(),
                old(self).ttl_ms,
                did@,
                nonce@,
                now,
            ).1,
            final(self).ttl_ms == old(self).ttl_ms,
    {
        let found = self.find_entry(did);
        let i = match found {
            Some(i) => i,
            None => {
                proof {
                    lemma_map_of_contains(self.entries@, did@);
                }
                return Err(ConsumeError::NoSuchChallenge);
            },
        };
        proof {
            lemma_map_of_value(self.entries@, did@, i as int);
        }
        let issued_at = self.entries[i].issued_at;
        if now > issued_at && now - issued_at > self.ttl_ms {
            proof {
                lemma_map_of_remove(self.entries@, did@, i as int);
                lemma_unique_remove(self.entries@, i as int);
            }
            self.entries.remove(i);
            return Err(ConsumeError::ChallengeExpired);
        }
        if !bytes_eq(&self.entries[i].nonce, nonce) {
            return Err(ConsumeError::NonceMismatch);
        }
        proof {
            lemma_map_of_remove(self.entries@, did@, i as int);
            lemma_unique_remove(self.entries@, i as int);
        }
        self.entries.remove(i);
        Ok(())
    }
}

/// A challenge is consumed at most once: after a successful `consume`, any
/// further `consume` for the same DID is rejected with `NoSuchChallenge`,
/// whatever nonce and time it brings.
pub proof fn lemma_consume_at_most_once(
    m: Map<Seq<u8>, (Seq<u8>, u64)>,
    ttl: u64,
    did: Seq<u8>,
    nonce1: Seq<u8>,
    now1: u64,
    nonce2: Seq<u8>,
    now2: u64,
)
    requires
        consume_model(m, ttl, did, nonce1, now1).0 is Ok,
    ensures
        consume_model(consume_model(m, ttl, did, nonce1, now1).1, ttl, did, nonce2, now2).0 == Err::<
            (),
            ConsumeError,
        >(ConsumeError::NoSuchChallenge),
{
}

/// A challenge older than the TTL is rejected with `ChallengeExpired`, even
/// when the nonce matches.
pub proof fn lemma_expired_is_rejected(
    m: Map<Seq<u8>, (Seq<u8>, u64)>,
    ttl: u64,
    did: Seq<u8>,
    nonce: Seq<u8>,
    now: u64,
)
    requires
        m.dom().contains(did),
        now > m[did].1 + ttl,
    ensures
        consume_model(m, ttl, did, nonce, now).0 == Err::<(), ConsumeError>(
            ConsumeError::ChallengeExpired,
        ),
{
}

/// Issuing twice invalidates the first challenge: consuming with the first
/// nonce after a re-issue is rejected with `NonceMismatch` while the second
/// challenge is fresh.
pub proof fn lemma_reissue_invalidates(
    m: Map<Seq<u8>, (Seq<u8>, u64)>,
    ttl: u64,
    did: Seq<u8>,
    nonce1: Seq<u8>,
    now1: u64,
    nonce2: Seq<u8>,
    now2: u64,
    now3: u64,
)
    requires
        nonce1 != nonce2,
        now3 <= now2 + ttl,
    ensures
        consume_model(
            m.insert(did, (nonce1, now1)).insert(did, (nonce2, now2)),
            ttl,
            did,
            nonce1,
            now3,
        ).0 == Err::<(), ConsumeError>(ConsumeError::NonceMismatch),
{
}

} // verus!
