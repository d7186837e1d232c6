//! The error taxonomy of the verification engine, and its mapping onto HTTP
//! status codes.
//!
//! A cryptographically failed or claim-mismatched signature is never an
//! error: it is the ordinary `false` result, `Outcome::Rejected` with reason
//! `SignatureInvalid`, `NoSuchChallenge`, `ChallengeExpired` or
//! `NonceMismatch`, all served with status 200.  Parsing and validation
//! errors are client errors (400) raised before any collaborator is
//! contacted; ledger failures are server errors, with transport failures set
//! apart (503) so a caller can tell "prove again" from "try again later".

use vstd::prelude::*;

verus! {

/// A structural failure of the signature verifier: these are errors, unlike
/// an invalid signature, which is a plain `false`.
#[derive(Clone, Copy, Debug, PartialEq, Eq, Structural)]
pub enum JwsError {
    /// The JWS could not be split into header, payload and signature, or a
    /// segment is not canonical base64url, or the header grammar is broken.
    MalformedSignature,
    /// The header parsed, but its algorithm is not EdDSA.
    UnsupportedAlgorithm,
    /// No verification method in the document carries the header's key id.
    KeyNotFound,
}

/// Why a `consume` call on the challenge store failed.
#[derive(Clone, Copy, Debug, PartialEq, Eq, Structural)]
pub enum ConsumeError {
    /// No live challenge exists for the DID.
    NoSuchChallenge,
    /// A challenge existed but its TTL had passed; it has been purged.
    ChallengeExpired,
    /// The live challenge's nonce differs from the one supplied.
    NonceMismatch,
}

/// Why ledger resolution of a DID failed.  Resolution itself is a network
/// call made outside this crate; the caller reports its outcome with this
/// type.
#[derive(Clone, Copy, Debug, PartialEq, Eq, Structural)]
pub enum ResolveError {
    /// The DID is absent from or deactivated on the ledger.
    NotFound,
    /// The ledger node was unreachable or timed out.
    ResolutionTransportError,
    /// The node answered, but not with a valid identity document.
    ResolutionProtocolError,
}

/// The specific reason a verification attempt was rejected.
#[derive(Clone, Copy, Debug, PartialEq, Eq, Structural)]
pub enum RejectReason {
    MalformedIdentifier,
    NotFound,
    ResolutionTransportError,
    ResolutionProtocolError,
    MalformedSignature,
    UnsupportedAlgorithm,
    KeyNotFound,
    SignatureInvalid,
    NoSuchChallenge,
    ChallengeExpired,
    NonceMismatch,
}

/// Why an `initiate` call failed.
#[derive(Clone, Copy, Debug, PartialEq, Eq, Structural)]
pub enum InitiateError {
    /// The subject-mapping oracle knows no DID for the hint.
    SubjectNotFound,
}

/// The HTTP status that serves an `initiate` result: 404 exactly when the
/// subject could not be mapped to a DID.
pub open spec fn spec_initiate_status(r: Result<(), InitiateError>) -> u16 {
    match r {
        Ok(_) => 200,
        Err(InitiateError::SubjectNotFound) => 404,
    }
}

/// Maps an `initiate` result to its HTTP status code.
pub fn initiate_status_for(r: &Result<(), InitiateError>) -> (s: u16)
    ensures
        s == spec_initiate_status(*r),
{
    match r {
        Ok(_) => 200,
        Err(InitiateError::SubjectNotFound) => 404,
    }
}

/// The result of one verification attempt.
#[derive(Clone, Copy, Debug, PartialEq, Eq, Structural)]
pub enum Outcome {
    Accepted,
    Rejected(RejectReason),
}

/// The HTTP status that serves an outcome: 400 for structurally bad input,
/// 500 for ledger failures, 503 for the "try again later" transport class,
/// and 200 for both acceptance and a merely invalid proof.
pub open spec fn spec_http_status(o: Outcome) -> u16 {
    match o {
        Outcome::Accepted => 200,
        Outcome::Rejected(r) => match r {
            RejectReason::MalformedIdentifier => 400,
            RejectReason::MalformedSignature => 400,
            RejectReason::UnsupportedAlgorithm => 400,
            RejectReason::KeyNotFound => 400,
            RejectReason::NotFound => 500,
            RejectReason::ResolutionProtocolError => 500,
            RejectReason::ResolutionTransportError => 503,
            RejectReason::SignatureInvalid => 200,
            RejectReason::NoSuchChallenge => 200,
            RejectReason::ChallengeExpired => 200,
            RejectReason::NonceMismatch => 200,
        },
    }
}

/// Whether an outcome is served as `isValid: true`.
pub open spec fn spec_is_valid(o: Outcome) -> bool {
    o == Outcome::Accepted
}

/// Maps an outcome to its HTTP status code.
pub fn http_status_for(o: Outcome) -> (s: u16)
    ensures
        s == spec_http_status(o),
{
    match o {
        Outcome::Accepted => 200,
        Outcome::Rejected(r) => match r {
            RejectReason::MalformedIdentifier => 400,
            RejectReason::MalformedSignature => 400,
            RejectReason::UnsupportedAlgorithm => 400,
            RejectReason::KeyNotFound => 400,
            RejectReason::NotFound => 500,
            RejectReason::ResolutionProtocolError => 500,
            RejectReason::ResolutionTransportError => 503,
            RejectReason::SignatureInvalid => 200,
            RejectReason::NoSuchChallenge => 200,
            RejectReason::ChallengeExpired => 200,
            RejectReason::NonceMismatch => 200,
        },
    }
}

/// Whether an outcome is served as `isValid: true`: exactly on acceptance.
pub fn is_valid_for(o: Outcome) -> (r: bool)
    ensures
        r == spec_is_valid(o),
{
    match o {
        Outcome::Accepted => true,
        Outcome::Rejected(_) => false,
    }
}

} // verus!
