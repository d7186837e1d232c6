//! Challenge–response identity verification engine.
//!
//! A service proves that a client controls a Decentralized Identifier (DID):
//! it issues a single-use challenge nonce, the client signs the nonce with the
//! key bound to its DID, and the service checks the signature against key
//! material resolved from an identity ledger.  This crate holds the verified
//! core of that protocol: DID syntax validation, the challenge store with its
//! single-use and expiry rules, compact JWS parsing and checking, and the
//! orchestration that composes them.  Network I/O (ledger resolution, HTTP)
//! stays outside the crate and hands plain values in.

pub mod b64;
pub mod bytes;
pub mod challenge;
pub mod config;
pub mod crypto;
pub mod did;
pub mod document;
pub mod errors;
pub mod health;
pub mod jws;
pub mod msgs;
pub mod orchestrator;
