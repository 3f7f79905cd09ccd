//! A Groth16 zero-knowledge proof verifier over the BN254 pairing-friendly
//! elliptic curve.
//!
//! The crate decodes a fixed-layout byte payload (a 256-byte proof followed by
//! one 32-byte block per public input), normalizes the proof's A point by
//! negating it, and evaluates the batched Groth16 pairing product against an
//! immutable verifying key, failing closed on any malformed input.

pub mod errors;
pub mod field;
pub mod g1;
pub mod key;
pub mod pairing;
pub mod wire;
