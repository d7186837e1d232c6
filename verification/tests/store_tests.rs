use identity_service::challenge::ChallengeStore;
use identity_service::challenge::CHALLENGE_TTL_MS;
use identity_service::errors::ConsumeError;

fn bv(s: &str) -> Vec<u8> {
    s.as_bytes().to_vec()
}

#[test]
fn issue_then_consume_succeeds() {
    let mut store = ChallengeStore::new(CHALLENGE_TTL_MS);
    store.issue(bv("did:iota:tst:0xabc"), bv("nonce-1"), 1000);
    let r = store.consume(&bv("did:iota:tst:0xabc"), &bv("nonce-1"), 2000);
    assert_eq!(r, Ok(()));
}

#[test]
fn consume_twice_is_rejected() {
    let mut store = ChallengeStore::new(CHALLENGE_TTL_MS);
    store.issue(bv("did:iota:tst:0xabc"), bv("nonce-1"), 0);
    assert_eq!(store.consume(&bv("did:iota:tst:0xabc"), &bv("nonce-1"), 10), Ok(()));
    assert_eq!(
        store.consume(&bv("did:iota:tst:0xabc"), &bv("nonce-1"), 20),
        Err(ConsumeError::NoSuchChallenge)
    );
}

#[test]
fn consume_without_issue_is_rejected() {
    let mut store = ChallengeStore::new(CHALLENGE_TTL_MS);
    assert_eq!(
        store.consume(&bv("did:iota:tst:0xabc"), &bv("nonce-1"), 0),
        Err(ConsumeError::NoSuchChallenge)
    );
}

#[test]
fn expired_challenge_is_rejected_even_with_matching_nonce() {
    let mut store = ChallengeStore::new(300000);
    store.issue(bv("did:iota:tst:0xabc"), bv("nonce-1"), 1000);
    // One millisecond past the TTL, nonce matches.
    assert_eq!(
        store.consume(&bv("did:iota:tst:0xabc"), &bv("nonce-1"), 301001),
        Err(ConsumeError::ChallengeExpired)
    );
    // The expired challenge was purged: a retry finds nothing.
    assert_eq!(
        store.consume(&bv("did:iota:tst:0xabc"), &bv("nonce-1"), 301002),
        Err(ConsumeError::NoSuchChallenge)
    );
}

#[test]
fn consume_at_ttl_boundary_succeeds() {
    let mut store = ChallengeStore::new(300000);
    store.issue(bv("did:iota:tst:0xabc"), bv("nonce-1"), 1000);
    assert_eq!(store.consume(&bv("did:iota:tst:0xabc"), &bv("nonce-1"), 301000), Ok(()));
}

#[test]
fn nonce_mismatch_keeps_the_challenge() {
    let mut store = ChallengeStore::new(CHALLENGE_TTL_MS);
    store.issue(bv("did:iota:tst:0xabc"), bv("nonce-1"), 0);
    assert_eq!(
        store.consume(&bv("did:iota:tst:0xabc"), &bv("other"), 10),
        Err(ConsumeError::NonceMismatch)
    );
    assert_eq!(store.consume(&bv("did:iota:tst:0xabc"), &bv("nonce-1"), 20), Ok(()));
}

#[test]
fn reissue_invalidates_prior_nonce() {
    let mut store = ChallengeStore::new(CHALLENGE_TTL_MS);
    store.issue(bv("did:iota:tst:0xabc"), bv("nonce-1"), 0);
    store.issue(bv("did:iota:tst:0xabc"), bv("nonce-2"), 5);
    assert_eq!(
        store.consume(&bv("did:iota:tst:0xabc"), &bv("nonce-1"), 10),
        Err(ConsumeError::NonceMismatch)
    );
    assert_eq!(store.consume(&bv("did:iota:tst:0xabc"), &bv("nonce-2"), 15), Ok(()));
}

#[test]
fn issue_fresh_returns_a_consumable_uuid_nonce() {
    let mut store = ChallengeStore::new(CHALLENGE_TTL_MS);
    let n1 = store.issue_fresh(bv("did:iota:tst:0xabc"), 0);
    assert_eq!(n1.len(), 36);
    let n2 = store.issue_fresh(bv("did:iota:tst:0xabc"), 5);
    assert_ne!(n1, n2);
    assert_eq!(
        store.consume(&bv("did:iota:tst:0xabc"), &n1, 10),
        Err(ConsumeError::NonceMismatch)
    );
    assert_eq!(store.consume(&bv("did:iota:tst:0xabc"), &n2, 10), Ok(()));
}

#[test]
fn challenges_for_different_dids_are_independent() {
    let mut store = ChallengeStore::new(CHALLENGE_TTL_MS);
    store.issue(bv("did:iota:tst:0xaaa"), bv("nonce-a"), 0);
    store.issue(bv("did:iota:tst:0xbbb"), bv("nonce-b"), 0);
    assert_eq!(store.consume(&bv("did:iota:tst:0xaaa"), &bv("nonce-a"), 10), Ok(()));
    assert_eq!(store.consume(&bv("did:iota:tst:0xbbb"), &bv("nonce-b"), 10), Ok(()));
}
