//! The arithmetic core of a multi-party Schnorr signing ceremony over the Ed25519 group:
//! key and nonce shares, the Fiat-Shamir challenge, partial signatures and their combination.
//! Scalars and points travel as their canonical 32-byte encodings.

pub mod bytes;
pub mod types;
pub mod scalar;
pub mod point;
pub mod hash;
pub mod signing;
pub mod laws;

pub use signing::MpcCore;
pub use types::{FinalSignature, KeyShare, MpcError, NonceShare, PartialSignature};
