use ed25519_dalek::Signer;
use ed25519_dalek::SigningKey;
use identity_service::challenge::ChallengeStore;
use identity_service::challenge::CHALLENGE_TTL_MS;
use identity_service::document::IdentityDocument;
use identity_service::errors::http_status_for;
use identity_service::errors::initiate_status_for;
use identity_service::errors::is_valid_for;
use identity_service::errors::InitiateError;
use identity_service::errors::Outcome;
use identity_service::errors::RejectReason;
use identity_service::errors::ResolveError;
use identity_service::msgs::build_verify_response;
use identity_service::orchestrator::initiate;
use identity_service::orchestrator::resolve_email_stub;
use identity_service::orchestrator::verify_attempt;
use identity_service::orchestrator::Resolution;

fn bv(s: &str) -> Vec<u8> {
    s.as_bytes().to_vec()
}

fn keypair() -> (SigningKey, Vec<u8>) {
    let sk = SigningKey::from_bytes(&[7u8; 32]);
    let pk = sk.verifying_key().to_bytes().to_vec();
    (sk, pk)
}

fn document_for(did: &str, kid: &str, pk: Vec<u8>) -> IdentityDocument {
    let mut doc = IdentityDocument::new(bv(did));
    assert!(doc.add_method(bv(kid), pk));
    doc
}

fn build_jws(sk: &SigningKey, alg: &str, kid: &str, iss: &str, ch: &str) -> Vec<u8> {
    let header = format!("{{\"alg\":\"{}\",\"kid\":\"{}\"}}", alg, kid);
    let payload = format!("{{\"iss\":\"{}\",\"challenge\":\"{}\"}}", iss, ch);
    let h64 = identity_jose::jwu::encode_b64(header.as_bytes());
    let p64 = identity_jose::jwu::encode_b64(payload.as_bytes());
    let signing_input = format!("{}.{}", h64, p64);
    let signature = sk.sign(signing_input.as_bytes());
    let s64 = identity_jose::jwu::encode_b64(signature.to_bytes());
    format!("{}.{}", signing_input, s64).into_bytes()
}

#[test]
fn full_challenge_response_scenario() {
    // initiate: the stub oracle maps the known email to its DID.
    let mapping = resolve_email_stub(&bv("user@example.com"));
    let did_bytes = mapping.clone().expect("the known email must map to a DID");
    let did = String::from_utf8(did_bytes.clone()).unwrap();
    assert!(did.starts_with("did:iota:tst:0x"));

    let mut store = ChallengeStore::new(CHALLENGE_TTL_MS);
    let (issued_did, nonce_bytes) = initiate(&mut store, mapping, 1000).expect("mapped");
    assert_eq!(issued_did, did_bytes);
    assert_eq!(nonce_bytes.len(), 36);
    let nonce = String::from_utf8(nonce_bytes.clone()).unwrap();

    // The client signs {iss, challenge} with the key its document carries.
    let (sk, pk) = keypair();
    let doc = document_for(&did, "key-1", pk);
    let jws = build_jws(&sk, "EdDSA", "key-1", &did, &nonce);

    // verify: accepted exactly once.
    let res = Resolution::Resolved(doc);
    let first = verify_attempt(&mut store, &did_bytes, &nonce_bytes, &jws, &res, 2000);
    assert_eq!(first, Outcome::Accepted);
    assert!(is_valid_for(first));
    assert_eq!(http_status_for(first), 200);
    let body = build_verify_response(first);
    assert!(body.is_valid);
    let user = body.user.expect("an accepted proof reports a subject record");
    assert!(user.email.is_none() && user.name.is_none());

    // The same proof replayed: the challenge is gone.
    let second = verify_attempt(&mut store, &did_bytes, &nonce_bytes, &jws, &res, 3000);
    assert_eq!(second, Outcome::Rejected(RejectReason::NoSuchChallenge));
    assert_eq!(http_status_for(second), 200);
    let body = build_verify_response(second);
    assert!(!body.is_valid);
    assert!(body.user.is_none());
}

#[test]
fn unknown_subject_hint_is_not_found() {
    assert_eq!(resolve_email_stub(&bv("nobody@example.com")), None);
    let mut store = ChallengeStore::new(CHALLENGE_TTL_MS);
    let r = initiate(&mut store, None, 0);
    assert_eq!(r.err(), Some(InitiateError::SubjectNotFound));
    assert_eq!(initiate_status_for(&Err(InitiateError::SubjectNotFound)), 404);
    assert_eq!(initiate_status_for(&Ok(())), 200);
}

#[test]
fn two_initiates_issue_distinct_nonces() {
    let mut store = ChallengeStore::new(CHALLENGE_TTL_MS);
    let (_, n1) = initiate(&mut store, Some(bv("did:iota:tst:0xabc")), 0).unwrap();
    let (_, n2) = initiate(&mut store, Some(bv("did:iota:tst:0xabc")), 1).unwrap();
    assert_eq!(n1.len(), 36);
    assert_eq!(n2.len(), 36);
    assert_ne!(n1, n2);
}

#[test]
fn tampered_signature_is_rejected_not_an_error() {
    let (sk, pk) = keypair();
    let did = "did:iota:tst:0xabc";
    let doc = document_for(did, "key-1", pk);
    let nonce = "11111111-2222-3333-4444-555555555555";
    let mut jws = build_jws(&sk, "EdDSA", "key-1", did, nonce);

    // Flip one byte in the middle of the signature segment to another
    // alphabet byte, so the segment still decodes and only the bits differ.
    let last_dot = jws.iter().rposition(|&b| b == b'.').unwrap();
    let at = last_dot + 10;
    jws[at] = if jws[at] == b'A' { b'B' } else { b'A' };

    let mut store = ChallengeStore::new(CHALLENGE_TTL_MS);
    store.issue(bv(did), bv(nonce), 0);
    let res = Resolution::Resolved(doc);
    let outcome = verify_attempt(&mut store, &bv(did), &bv(nonce), &jws, &res, 10);
    assert_eq!(outcome, Outcome::Rejected(RejectReason::SignatureInvalid));
    assert_eq!(http_status_for(outcome), 200);
    assert!(!is_valid_for(outcome));
}

#[test]
fn failed_signature_still_spends_the_challenge() {
    let (sk, pk) = keypair();
    let did = "did:iota:tst:0xabc";
    let doc = document_for(did, "key-1", pk);
    let nonce = "11111111-2222-3333-4444-555555555555";
    let good_jws = build_jws(&sk, "EdDSA", "key-1", did, nonce);
    let mut jws = good_jws.clone();
    let last_dot = jws.iter().rposition(|&b| b == b'.').unwrap();
    let at = last_dot + 10;
    jws[at] = if jws[at] == b'A' { b'B' } else { b'A' };

    let mut store = ChallengeStore::new(CHALLENGE_TTL_MS);
    store.issue(bv(did), bv(nonce), 0);
    let res = Resolution::Resolved(doc);
    let first = verify_attempt(&mut store, &bv(did), &bv(nonce), &jws, &res, 10);
    assert_eq!(first, Outcome::Rejected(RejectReason::SignatureInvalid));
    // The nonce was consumed by the failed attempt: even the genuine proof
    // finds nothing left, so probing with bad signatures spends the nonce.
    let second = verify_attempt(&mut store, &bv(did), &bv(nonce), &good_jws, &res, 20);
    assert_eq!(second, Outcome::Rejected(RejectReason::NoSuchChallenge));
}

#[test]
fn wrong_challenge_claim_is_rejected_even_if_well_signed() {
    let (sk, pk) = keypair();
    let did = "did:iota:tst:0xabc";
    let doc = document_for(did, "key-1", pk);
    let issued = "11111111-2222-3333-4444-555555555555";
    let other = "99999999-8888-7777-6666-555555555555";
    // Cryptographically valid, but the claim names another challenge.
    let jws = build_jws(&sk, "EdDSA", "key-1", did, other);

    let mut store = ChallengeStore::new(CHALLENGE_TTL_MS);
    store.issue(bv(did), bv(issued), 0);
    let res = Resolution::Resolved(doc);
    let outcome = verify_attempt(&mut store, &bv(did), &bv(issued), &jws, &res, 10);
    assert_eq!(outcome, Outcome::Rejected(RejectReason::SignatureInvalid));
}

#[test]
fn wrong_issuer_claim_is_rejected() {
    let (sk, pk) = keypair();
    let did = "did:iota:tst:0xabc";
    let doc = document_for(did, "key-1", pk);
    let nonce = "11111111-2222-3333-4444-555555555555";
    let jws = build_jws(&sk, "EdDSA", "key-1", "did:iota:tst:0xother", nonce);

    let mut store = ChallengeStore::new(CHALLENGE_TTL_MS);
    store.issue(bv(did), bv(nonce), 0);
    let res = Resolution::Resolved(doc);
    let outcome = verify_attempt(&mut store, &bv(did), &bv(nonce), &jws, &res, 10);
    assert_eq!(outcome, Outcome::Rejected(RejectReason::SignatureInvalid));
}

#[test]
fn reissue_invalidates_a_signature_over_the_first_nonce() {
    let (sk, pk) = keypair();
    let did = "did:iota:tst:0xabc";
    let doc = document_for(did, "key-1", pk);

    let mut store = ChallengeStore::new(CHALLENGE_TTL_MS);
    let (_, n1) = initiate(&mut store, Some(bv(did)), 0).unwrap();
    let (_, n2) = initiate(&mut store, Some(bv(did)), 5).unwrap();
    assert_ne!(n1, n2);

    let n1_str = String::from_utf8(n1.clone()).unwrap();
    let jws = build_jws(&sk, "EdDSA", "key-1", did, &n1_str);
    let res = Resolution::Resolved(doc);
    let outcome = verify_attempt(&mut store, &bv(did), &n1, &jws, &res, 10);
    assert_eq!(outcome, Outcome::Rejected(RejectReason::NonceMismatch));
    assert_eq!(http_status_for(outcome), 200);
}

#[test]
fn expired_challenge_rejects_a_valid_proof() {
    let (sk, pk) = keypair();
    let did = "did:iota:tst:0xabc";
    let doc = document_for(did, "key-1", pk);
    let nonce = "11111111-2222-3333-4444-555555555555";
    let jws = build_jws(&sk, "EdDSA", "key-1", did, nonce);

    let mut store = ChallengeStore::new(300000);
    store.issue(bv(did), bv(nonce), 1000);
    let res = Resolution::Resolved(doc);
    let outcome = verify_attempt(&mut store, &bv(did), &bv(nonce), &jws, &res, 301001);
    assert_eq!(outcome, Outcome::Rejected(RejectReason::ChallengeExpired));
    assert_eq!(http_status_for(outcome), 200);
}

#[test]
fn unsupported_algorithm_is_a_client_error() {
    let (sk, pk) = keypair();
    let did = "did:iota:tst:0xabc";
    let doc = document_for(did, "key-1", pk);
    let nonce = "11111111-2222-3333-4444-555555555555";
    let jws = build_jws(&sk, "ES256", "key-1", did, nonce);

    let mut store = ChallengeStore::new(CHALLENGE_TTL_MS);
    store.issue(bv(did), bv(nonce), 0);
    let res = Resolution::Resolved(doc);
    let outcome = verify_attempt(&mut store, &bv(did), &bv(nonce), &jws, &res, 10);
    assert_eq!(outcome, Outcome::Rejected(RejectReason::UnsupportedAlgorithm));
    assert_eq!(http_status_for(outcome), 400);
}

#[test]
fn unknown_key_id_is_a_client_error() {
    let (sk, pk) = keypair();
    let did = "did:iota:tst:0xabc";
    let doc = document_for(did, "key-1", pk);
    let nonce = "11111111-2222-3333-4444-555555555555";
    let jws = build_jws(&sk, "EdDSA", "key-2", did, nonce);

    let mut store = ChallengeStore::new(CHALLENGE_TTL_MS);
    store.issue(bv(did), bv(nonce), 0);
    let res = Resolution::Resolved(doc);
    let outcome = verify_attempt(&mut store, &bv(did), &bv(nonce), &jws, &res, 10);
    assert_eq!(outcome, Outcome::Rejected(RejectReason::KeyNotFound));
    assert_eq!(http_status_for(outcome), 400);
}

#[test]
fn malformed_jws_is_a_client_error() {
    let (_, pk) = keypair();
    let did = "did:iota:tst:0xabc";
    let doc = document_for(did, "key-1", pk);
    let nonce = "11111111-2222-3333-4444-555555555555";

    let mut store = ChallengeStore::new(CHALLENGE_TTL_MS);
    store.issue(bv(did), bv(nonce), 0);
    let res = Resolution::Resolved(doc);
    for bad in ["", "abc", "a.b", "a.b.c.d", "!!.ab.cd"] {
        let outcome = verify_attempt(&mut store, &bv(did), &bv(nonce), &bv(bad), &res, 10);
        assert_eq!(outcome, Outcome::Rejected(RejectReason::MalformedSignature));
        assert_eq!(http_status_for(outcome), 400);
    }
}

#[test]
fn non_canonical_header_or_claims_are_not_trusted() {
    let (sk, pk) = keypair();
    let did = "did:iota:tst:0xabc";
    let nonce = "11111111-2222-3333-4444-555555555555";

    // A header with its fields in another order does not parse: structural
    // rejection, before any cryptography.
    let header = format!("{{\"kid\":\"key-1\",\"alg\":\"EdDSA\"}}");
    let payload = format!("{{\"iss\":\"{}\",\"challenge\":\"{}\"}}", did, nonce);
    let h64 = identity_jose::jwu::encode_b64(header.as_bytes());
    let p64 = identity_jose::jwu::encode_b64(payload.as_bytes());
    let si = format!("{}.{}", h64, p64);
    let s64 = identity_jose::jwu::encode_b64(sk.sign(si.as_bytes()).to_bytes());
    let jws = format!("{}.{}", si, s64).into_bytes();

    let doc = document_for(did, "key-1", pk.clone());
    let mut store = ChallengeStore::new(CHALLENGE_TTL_MS);
    store.issue(bv(did), bv(nonce), 0);
    let res = Resolution::Resolved(doc);
    let outcome = verify_attempt(&mut store, &bv(did), &bv(nonce), &jws, &res, 10);
    assert_eq!(outcome, Outcome::Rejected(RejectReason::MalformedSignature));

    // Claims with extra whitespace are well signed but not canonical: the
    // claim check fails after the cryptographic one, an invalid proof.
    let payload = format!("{{\"iss\": \"{}\", \"challenge\": \"{}\"}}", did, nonce);
    let header = format!("{{\"alg\":\"EdDSA\",\"kid\":\"key-1\"}}");
    let h64 = identity_jose::jwu::encode_b64(header.as_bytes());
    let p64 = identity_jose::jwu::encode_b64(payload.as_bytes());
    let si = format!("{}.{}", h64, p64);
    let s64 = identity_jose::jwu::encode_b64(sk.sign(si.as_bytes()).to_bytes());
    let jws = format!("{}.{}", si, s64).into_bytes();

    let doc = document_for(did, "key-1", pk);
    let outcome = verify_attempt(&mut store, &bv(did), &bv(nonce), &jws, &Resolution::Resolved(doc), 20);
    assert_eq!(outcome, Outcome::Rejected(RejectReason::SignatureInvalid));
}

#[test]
fn empty_segments_are_malformed() {
    let (_, pk) = keypair();
    let did = "did:iota:tst:0xabc";
    let doc = document_for(did, "key-1", pk);
    let mut store = ChallengeStore::new(CHALLENGE_TTL_MS);
    let res = Resolution::Resolved(doc);
    let outcome = verify_attempt(&mut store, &bv(did), &bv("n"), &bv(".."), &res, 0);
    assert_eq!(outcome, Outcome::Rejected(RejectReason::MalformedSignature));
}

#[test]
fn malformed_did_is_rejected_inside_the_attempt_too() {
    let (_, pk) = keypair();
    let doc = document_for("did:iota:tst:0xabc", "key-1", pk);
    let mut store = ChallengeStore::new(CHALLENGE_TTL_MS);
    let res = Resolution::Resolved(doc);
    let outcome = verify_attempt(&mut store, &bv("not-a-did"), &bv("n"), &bv("a.b.c"), &res, 0);
    assert_eq!(outcome, Outcome::Rejected(RejectReason::MalformedIdentifier));
    assert_eq!(http_status_for(outcome), 400);
}

#[test]
fn resolution_failures_map_to_server_errors() {
    let mut store = ChallengeStore::new(CHALLENGE_TTL_MS);
    let did = bv("did:iota:tst:0xabc");
    let cases = [
        (ResolveError::NotFound, RejectReason::NotFound, 500),
        (ResolveError::ResolutionProtocolError, RejectReason::ResolutionProtocolError, 500),
        (ResolveError::ResolutionTransportError, RejectReason::ResolutionTransportError, 503),
    ];
    for (err, reason, status) in cases {
        let res = Resolution::Failed(err);
        let outcome = verify_attempt(&mut store, &did, &bv("n"), &bv("a.b.c"), &res, 0);
        assert_eq!(outcome, Outcome::Rejected(reason));
        assert_eq!(http_status_for(outcome), status);
    }
}
