//! The verification orchestrator: the two public operations of the engine.
//!
//! `initiate` maps a subject hint to a DID (through a subject-mapping oracle
//! whose answer the caller passes in, or the built-in stub mapping) and
//! issues a fresh single-use challenge.  `verify_attempt` drives one
//! verification attempt: a syntactically invalid DID is rejected before any
//! resolution; a resolution failure is rejected with its own reason, the
//! transport kind standing apart as "try again later"; on a resolved
//! document the JWS is checked and the challenge is consumed exactly once,
//! whatever the boolean outcome of the check, so a failed signature still
//! spends the nonce.  `verify_model` is the mathematical definition of the
//! attempt; the laws at the end state that acceptance happens at most once
//! per challenge and that a wrong challenge claim is rejected even when the
//! signature is cryptographically valid.

use vstd::prelude::*;
use crate::challenge::ChallengeStore;
use crate::challenge::consume_model;
use crate::did::is_valid_did;
use crate::document::IdentityDocument;
use crate::errors::ConsumeError;
use crate::errors::JwsError;
use crate::errors::Outcome;
use crate::errors::RejectReason;
use crate::errors::ResolveError;
use crate::jws::jws_check;
use crate::jws::jws_check_model;

verus! {

/// What the ledger resolution of a DID came back with.  Resolution is a
/// network call made outside this crate; its caller hands the outcome in.
pub enum Resolution {
    Resolved(IdentityDocument),
    Failed(ResolveError),
}

/// The reason a verification attempt is rejected when resolution failed.
pub open spec fn reject_of_resolve(e: ResolveError) -> RejectReason {
    match e {
        ResolveError::NotFound => RejectReason::NotFound,
        ResolveError::ResolutionTransportError => RejectReason::ResolutionTransportError,
        ResolveError::ResolutionProtocolError => RejectReason::ResolutionProtocolError,
    }
}

/// The reason a verification attempt is rejected when the JWS is
/// structurally unacceptable.
pub open spec fn reject_of_jws(e: JwsError) -> RejectReason {
    match e {
        JwsError::MalformedSignature => RejectReason::MalformedSignature,
        JwsError::UnsupportedAlgorithm => RejectReason::UnsupportedAlgorithm,
        JwsError::KeyNotFound => RejectReason::KeyNotFound,
    }
}

/// The reason a verification attempt is rejected when the challenge could
/// not be consumed.
pub open spec fn reject_of_consume(e: ConsumeError) -> RejectReason {
    match e {
        ConsumeError::NoSuchChallenge => RejectReason::NoSuchChallenge,
        ConsumeError::ChallengeExpired => RejectReason::ChallengeExpired,
        ConsumeError::NonceMismatch => RejectReason::NonceMismatch,
    }
}

/// One verification attempt, on the store's map model: the outcome and the
/// map left behind.  A malformed DID or a resolution failure rejects without
/// touching a challenge.  A structural JWS error rejects without consuming.
/// Once the signature check reaches a boolean, the challenge is consumed
/// exactly once; the attempt is accepted exactly when the check returned
/// `true` and the consume succeeded, and a failed check is reported as
/// `SignatureInvalid` whatever the consume said.
pub open spec fn verify_model(
    m: Map<Seq<u8>, (Seq<u8>, u64)>,
    ttl: u64,
    did: Seq<u8>,
    nonce: Seq<u8>,
    jws: Seq<u8>,
    resolution: Resolution,
    now: u64,
) -> (Outcome, Map<Seq<u8>, (Seq<u8>, u64)>) {
    if !is_valid_did(did) {
        (Outcome::Rejected(RejectReason::MalformedIdentifier), m)
    } else {
        match resolution {
            Resolution::Failed(e) => (Outcome::Rejected(reject_of_resolve(e)), m),
            Resolution::Resolved(doc) => match jws_check_model(jws, did, nonce, doc) {
                Err(e) => (Outcome::Rejected(reject_of_jws(e)), m),
                Ok(sig_ok) => {
                    let c = consume_model(m, ttl, did, nonce, now);
                    let outcome = if !sig_ok {
                        Outcome::Rejected(RejectReason::SignatureInvalid)
                    } else {
                        match c.0 {
                            Ok(_) => Outcome::Accepted,
                            Err(e) => Outcome::Rejected(reject_of_consume(e)),
                        }
                    };
                    (outcome, c.1)
                },
            },
        }
    }
}

/// Checks a DID syntactically, as the attempt's first phase: the caller must
/// not contact the ledger when this rejects.
pub fn verify_precheck(did: &Vec<u8>) -> (r: Result<(), Outcome>)
    ensures
        (r is Ok) == is_valid_did(did@),
        r matches Err(o) ==> o == Outcome::Rejected(RejectReason::MalformedIdentifier),
{
    if crate::did::check_did(did) {
        Ok(())
    } else {
        Err(Outcome::Rejected(RejectReason::MalformedIdentifier))
    }
}

/// Runs one verification attempt against the store, exactly as
/// `verify_model` says.
pub fn verify_attempt(
    store: &mut ChallengeStore,
    did: &Vec<u8>,
    nonce: &Vec<u8>,
    jws: &Vec<u8>,
    resolution: &Resolution,
    now: u64,
) -> (r: Outcome)
    requires
        old(store).wf(),
        resolution matches Resolution::Resolved(doc) ==> doc.wf(),
    ensures
        final(store).wf(),
        final(store).ttl_ms == old(store).ttl_ms,
        r == verify_model(
            old(store).model(),
            old(store).ttl_ms,
            did@,
            nonce@,
            jws@,
            *resolution,
            now,
        ).0,
        final(store).model() =~= verify_model(
            old(store).model(),
            old(store).ttl_ms,
            did@,
            nonce@,
            jws@,
            *resolution,
            now,
        ).1,
{
    if !crate::did::check_did(did) {
        return Outcome::Rejected(RejectReason::MalformedIdentifier);
    }
    let doc = match resolution {
        Resolution::Failed(e) => {
            let reason = match e {
                ResolveError::NotFound => RejectReason::NotFound,
                ResolveError::ResolutionTransportError => RejectReason::ResolutionTransportError,
                ResolveError::ResolutionProtocolError => RejectReason::ResolutionProtocolError,
            };
            return Outcome::Rejected(reason);
        },
        Resolution::Resolved(doc) => doc,
    };
    let sig_ok = match jws_check(jws, did, nonce, doc) {
        Err(e) => {
            let reason = match e {
                JwsError::MalformedSignature => RejectReason::MalformedSignature,
                JwsError::UnsupportedAlgorithm => RejectReason::UnsupportedAlgorithm,
                JwsError::KeyNotFound => RejectReason::KeyNotFound,
            };
            return Outcome::Rejected(reason);
        },
        Ok(b) => b,
    };
    // The challenge is consumed exactly once, whatever the check returned:
    // a failed check still spends the nonce, so an attacker cannot probe it.
    let consumed = store.consume(did, nonce, now);
    if !sig_ok {
        return Outcome::Rejected(RejectReason::SignatureInvalid);
    }
    match consumed {
        Ok(()) => Outcome::Accepted,
        Err(e) => {
            let reason = match e {
                ConsumeError::NoSuchChallenge => RejectReason::NoSuchChallenge,
                ConsumeError::ChallengeExpired => RejectReason::ChallengeExpired,
                ConsumeError::NonceMismatch => RejectReason::NonceMismatch,
            };
            Outcome::Rejected(reason)
        },
    }
}

/// The bytes of the one subject hint the stub mapping knows,
/// `user@example.com`.
pub open spec fn known_email() -> Seq<u8> {
    seq![
        117u8, 115u8, 101u8, 114u8, 64u8, 101u8, 120u8, 97u8, 109u8, 112u8, 108u8, 101u8, 46u8,
        99u8, 111u8, 109u8,
    ]
}

/// The bytes of the DID the stub mapping answers with.
pub open spec fn known_did() -> Seq<u8> {
    seq![
        100u8, 105u8, 100u8, 58u8, 105u8, 111u8, 116u8, 97u8, 58u8, 116u8, 115u8, 116u8, 58u8,
        48u8, 120u8, 112u8, 108u8, 97u8, 99u8, 101u8, 104u8, 111u8, 108u8, 100u8, 101u8, 114u8,
        100u8, 105u8, 100u8, 102u8, 111u8, 114u8, 117u8, 115u8, 101u8, 114u8, 97u8, 116u8, 111u8,
        108u8, 101u8, 99u8, 111u8, 109u8,
    ]
}

/// What the stub subject-mapping oracle answers: the one known hint maps to
/// the one known DID; everything else is unknown.
pub open spec fn spec_email_mapping(email: Seq<u8>) -> Option<Seq<u8>> {
    if email == known_email() {
        Some(known_did())
    } else {
        None
    }
}

/// Builds the bytes of the known DID.
pub fn known_did_vec() -> (v: Vec<u8>)
    ensures
        v@ == known_did(),
{
    let mut v: Vec<u8> = Vec::new();
    v.push(100);
    v.push(105);
    v.push(100);
    v.push(58);
    v.push(105);
    v.push(111);
    v.push(116);
    v.push(97);
    v.push(58);
    v.push(116);
    v.push(115);
    v.push(116);
    v.push(58);
    v.push(48);
    v.push(120);
    v.push(112);
    v.push(108);
    v.push(97);
    v.push(99);
    v.push(101);
    v.push(104);
    v.push(111);
    v.push(108);
    v.push(100);
    v.push(101);
    v.push(114);
    v.push(100);
    v.push(105);
    v.push(100);
    v.push(102);
    v.push(111);
    v.push(114);
    v.push(117);
    v.push(115);
    v.push(101);
    v.push(114);
    v.push(97);
    v.push(116);
    v.push(111);
    v.push(108);
    v.push(101);
    v.push(99);
    v.push(111);
    v.push(109);
    proof {
        assert(v@ =~= known_did());
    }
    v
}

/// Builds the bytes of the known subject hint.
pub fn known_email_vec() -> (v: Vec<u8>)
    ensures
        v@ == known_email(),
{
    let mut v: Vec<u8> = Vec::new();
    v.push(117);
    v.push(115);
    v.push(101);
    v.push(114);
    v.push(64);
    v.push(101);
    v.push(120);
    v.push(97);
    v.push(109);
    v.push(112);
    v.push(108);
    v.push(101);
    v.push(46);
    v.push(99);
    v.push(111);
    v.push(109);
    proof {
        assert(v@ =~= known_email());
    }
    v
}

/// The stub subject-mapping oracle: exactly `spec_email_mapping`.  A real
/// deployment substitutes a ledger contract query or directory behind the
/// same shape; its answer feeds `initiate` the same way.
pub fn resolve_email_stub(email: &Vec<u8>) -> (r: Option<Vec<u8>>)
    ensures
        (r is Some) == (spec_email_mapping(email@) is Some),
        r matches Some(d) ==> spec_email_mapping(email@) == Some(d@),
{
    let known = known_email_vec();
    if crate::bytes::bytes_eq(email, &known) {
        Some(known_did_vec())
    } else {
        None
    }
}

/// Issues a challenge for a mapped subject: `None` from the mapping oracle
/// is `SubjectNotFound` and leaves the store alone; a mapped DID gets a
/// fresh 36-byte nonce recorded under it, overwriting any prior challenge.
/// Returns the DID and the nonce the client must sign.
pub fn initiate(store: &mut ChallengeStore, mapping: Option<Vec<u8>>, now: u64) -> (r: Result<
    (Vec<u8>, Vec<u8>),
    crate::errors::InitiateError,
>)
    requires
        old(store).wf(),
    ensures
        final(store).wf(),
        final(store).ttl_ms == old(store).ttl_ms,
        (r is Ok) == (mapping is Some),
        r matches Err(e) ==> e == crate::errors::InitiateError::SubjectNotFound
            && final(store).model() =~= old(store).model(),
        r matches Ok(t) ==> {
            &&& mapping matches Some(d) && t.0@ == d@
            &&& t.1@.len() == 36
            &&& final(store).model() =~= old(store).model().insert(t.0@, (t.1@, now))
        },
{
    let did = match mapping {
        Some(d) => d,
        None => {
            return Err(crate::errors::InitiateError::SubjectNotFound);
        },
    };
    let did_copy = crate::bytes::copy_range(&did, 0, did.len());
    proof {
        assert(did_copy@ =~= did@);
    }
    let nonce = store.issue_fresh(did_copy, now);
    Ok((did, nonce))
}

/// Acceptance happens at most once per challenge: an attempt accepted on a
/// store map leaves a map on which the same attempt — same DID, nonce, JWS
/// and resolution, at any later time — is rejected with `NoSuchChallenge`.
pub proof fn lemma_accept_at_most_once(
    m: Map<Seq<u8>, (Seq<u8>, u64)>,
    ttl: u64,
    did: Seq<u8>,
    nonce: Seq<u8>,
    jws: Seq<u8>,
    resolution: Resolution,
    now1: u64,
    now2: u64,
)
    requires
        verify_model(m, ttl, did, nonce, jws, resolution, now1).0 == Outcome::Accepted,
    ensures
        verify_model(
            verify_model(m, ttl, did, nonce, jws, resolution, now1).1,
            ttl,
            did,
            nonce,
            jws,
            resolution,
            now2,
        ).0 == Outcome::Rejected(RejectReason::NoSuchChallenge),
{
}

/// A correctly signed, matching-nonce, unexpired attempt on a live challenge
/// is accepted, and it consumes exactly that challenge: together with
/// `lemma_accept_at_most_once`, acceptance happens exactly once per issued
/// challenge.
pub proof fn lemma_valid_attempt_accepted(
    m: Map<Seq<u8>, (Seq<u8>, u64)>,
    ttl: u64,
    did: Seq<u8>,
    nonce: Seq<u8>,
    kid: Seq<u8>,
    sig: Seq<u8>,
    doc: IdentityDocument,
    t: u64,
    now: u64,
)
    requires
        is_valid_did(did),
        doc.has_key(kid),
        forall|k: int| 0 <= k < kid.len() ==> kid[k] != 34,
        forall|k: int| 0 <= k < did.len() ==> did[k] != 34,
        forall|k: int| 0 <= k < nonce.len() ==> nonce[k] != 34,
        crate::crypto::eddsa_sig_ok(
            doc.key_for(kid),
            crate::jws::canonical_signing_input(kid, did, nonce),
            sig,
        ),
        m.dom().contains(did),
        m[did] == (nonce, t),
        now <= t + ttl,
    ensures
        verify_model(
            m,
            ttl,
            did,
            nonce,
            crate::jws::canonical_jws(kid, did, nonce, sig),
            Resolution::Resolved(doc),
            now,
        ) == (Outcome::Accepted, m.remove(did)),
{
    crate::jws::lemma_jws_check_complete(kid, did, nonce, sig, did, nonce, doc);
}

/// A JWS whose challenge claim differs from the expected nonce is rejected
/// as an invalid signature, even when it is cryptographically valid against
/// the right key.
pub proof fn lemma_wrong_challenge_rejected(
    m: Map<Seq<u8>, (Seq<u8>, u64)>,
    ttl: u64,
    did: Seq<u8>,
    nonce: Seq<u8>,
    ch: Seq<u8>,
    kid: Seq<u8>,
    sig: Seq<u8>,
    doc: IdentityDocument,
    now: u64,
)
    requires
        is_valid_did(did),
        doc.has_key(kid),
        forall|k: int| 0 <= k < kid.len() ==> kid[k] != 34,
        forall|k: int| 0 <= k < did.len() ==> did[k] != 34,
        forall|k: int| 0 <= k < ch.len() ==> ch[k] != 34,
        ch != nonce,
    ensures
        verify_model(
            m,
            ttl,
            did,
            nonce,
            crate::jws::canonical_jws(kid, did, ch, sig),
            Resolution::Resolved(doc),
            now,
        ).0 == Outcome::Rejected(RejectReason::SignatureInvalid),
{
    crate::jws::lemma_jws_check_complete(kid, did, ch, sig, did, nonce, doc);
}

/// Acceptance pins the cryptographic check: an accepted attempt's JWS passed
/// the whole check, signature included, so tampering that flips the check
/// can never be accepted — it is rejected, never an error.
pub proof fn lemma_accept_needs_valid_signature(
    m: Map<Seq<u8>, (Seq<u8>, u64)>,
    ttl: u64,
    did: Seq<u8>,
    nonce: Seq<u8>,
    jws: Seq<u8>,
    doc: IdentityDocument,
    now: u64,
)
    requires
        verify_model(m, ttl, did, nonce, jws, Resolution::Resolved(doc), now).0
            == Outcome::Accepted,
    ensures
        jws_check_model(jws, did, nonce, doc) == Ok::<bool, JwsError>(true),
{
}

/// A boolean signature check consumes the challenge even when it failed:
/// the map after the attempt no longer holds the challenge that was
/// consumed, so a rejected-but-well-formed attempt spends the nonce too.
pub proof fn lemma_failed_check_consumes(
    m: Map<Seq<u8>, (Seq<u8>, u64)>,
    ttl: u64,
    did: Seq<u8>,
    nonce: Seq<u8>,
    jws: Seq<u8>,
    doc: IdentityDocument,
    now: u64,
)
    requires
        is_valid_did(did),
        jws_check_model(jws, did, nonce, doc) is Ok,
        consume_model(m, ttl, did, nonce, now).0 is Ok,
    ensures
        !verify_model(m, ttl, did, nonce, jws, Resolution::Resolved(doc), now).1.dom().contains(
            did,
        ),
{
}

} // verus!
