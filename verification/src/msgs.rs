//! The plain request and response shapes of the service's HTTP surface, and
//! of the backend's client for it.  Serialization lives outside this crate;
//! these types carry the values the verified engine speaks about.

use vstd::prelude::*;
use crate::errors::Outcome;
use crate::errors::spec_is_valid;

verus! {

/// The liveness answer of the service itself.
pub struct HealthResponse {
    pub status: String,
}

/// Builds the service's own liveness answer.
pub fn health_response() -> (r: HealthResponse)
    ensures
        r.status@ == "UP"@,
{
    HealthResponse { status: "UP".to_owned() }
}

/// The body of an initiate-challenge request: an external subject hint.
pub struct InitiateChallengeRequest {
    pub email: String,
}

/// The answer to an initiate-challenge request: the mapped DID and the nonce
/// the client must sign.
pub struct InitiateChallengeResponse {
    pub did: String,
    pub challenge: String,
}

/// Builds the initiate-challenge answer.
pub fn build_initiate_response(did: String, challenge: String) -> (r: InitiateChallengeResponse)
    ensures
        r.did@ == did@,
        r.challenge@ == challenge@,
{
    InitiateChallengeResponse { did, challenge }
}

/// The body of a verify-signature request: the DID under proof, the
/// challenge nonce, and the compact JWS.
pub struct VerifySignatureRequest {
    pub did: String,
    pub challenge: String,
    pub signature: String,
}

/// Subject attributes reported with an accepted proof.
pub struct UserInfo {
    pub email: Option<String>,
    pub name: Option<String>,
}

/// The answer to a verify-signature request.
pub struct VerifySignatureResponse {
    pub is_valid: bool,
    pub user: Option<UserInfo>,
}

/// Builds the verify-signature answer for an outcome: `isValid` exactly on
/// acceptance, with an (empty) subject record only then.
pub fn build_verify_response(o: Outcome) -> (r: VerifySignatureResponse)
    ensures
        r.is_valid == spec_is_valid(o),
        spec_is_valid(o) ==> (r.user matches Some(u) && u.email is None && u.name is None),
        !spec_is_valid(o) ==> r.user is None,
{
    match o {
        Outcome::Accepted => VerifySignatureResponse {
            is_valid: true,
            user: Some(UserInfo { email: None, name: None }),
        },
        Outcome::Rejected(_) => VerifySignatureResponse { is_valid: false, user: None },
    }
}

/// A request of the backend's client to mint a DID; carries nothing yet.
pub struct CreateDidRequest {
}

/// The identity service's answer to a mint request.
pub struct CreateDidResponse {
    pub did: String,
    pub document: String,
}

} // verus!
