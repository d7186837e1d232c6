//! The two outside capabilities the engine needs: EdDSA signature
//! verification and fresh random nonces.

use vstd::prelude::*;
use identity_jose::jws::JwsVerifier;

verus! {

/// Whether the Ed25519 signature over the signing input verifies under the
/// public key.  Verification is a pure function of the three byte strings;
/// its definition lives in the cryptographic library and is not restated
/// here.
pub uninterp spec fn eddsa_sig_ok(
    public_key: Seq<u8>,
    signing_input: Seq<u8>,
    signature: Seq<u8>,
) -> bool;

/// Relies on `identity_eddsa_verifier::EdDSAJwsVerifier::verify` with a JWK
/// built from the raw Ed25519 public key bytes: whether the signature
/// verifies is a deterministic function of the public key, the signing input
/// and the signature alone, and the call returns on every input.
#[verifier::external_body]
pub fn eddsa_verify(public_key: &Vec<u8>, signing_input: &Vec<u8>, signature: &Vec<u8>) -> (r:
    bool)
    ensures
        r == eddsa_sig_ok(public_key@, signing_input@, signature@),
{
    let jwk = identity_jose::jwk::Jwk::from_params(identity_jose::jwk::JwkParamsOkp {
        crv: "Ed25519".to_string(),
        x: identity_jose::jwu::encode_b64(public_key),
        d: None,
    });
    let input = identity_jose::jws::VerificationInput {
        alg: identity_jose::jws::JwsAlgorithm::EdDSA,
        signing_input: signing_input.clone().into_boxed_slice(),
        decoded_signature: signature.clone().into_boxed_slice(),
    };
    identity_eddsa_verifier::EdDSAJwsVerifier::default().verify(input, &jwk).is_ok()
}

/// Relies on `uuid::Uuid::new_v4`: a fresh random version-4 UUID, rendered
/// in its 36-byte hyphenated form.  The value is random, so nothing beyond
/// its length is promised.
#[verifier::external_body]
pub fn fresh_nonce() -> (r: Vec<u8>)
    ensures
        r@.len() == 36,
{
    uuid::Uuid::new_v4().to_string().into_bytes()
}

} // verus!
