//! Typed client core for an exchange's authenticated REST endpoints: request
//! signing, nonce issuance, request bodies, and decoding of the positional
//! wire format into records.

pub mod wire;
pub mod codec;
pub mod error;
pub mod body;
pub mod signer;
pub mod nonce;
pub mod client;
pub mod account;
pub mod orders;
