//! Registration-based encryption over the BN254 pairing-friendly curve.
//!
//! A public registration ledger replaces the trusted key authority: parties
//! derive keypairs from a punctured powers-of-tau reference string, publish
//! their public keys and helper values, and decrypt with their secret key
//! plus helper data published by peers in the same identity bucket.

pub mod arith;
pub mod error;
pub mod group;
pub mod rbe_asym;
pub mod rbe_sym;
pub mod registry;
pub mod utils;
