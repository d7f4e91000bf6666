//! Verifier side of the Schnorr identification proof: a non-interactive
//! zero-knowledge proof of knowledge of a discrete logarithm, made
//! non-interactive by deriving the challenge from a transcript.
//!
//! The crate provides the `Proof` object (commitment and opening scalar),
//! the verification algorithm, and a canonical byte codec for proofs in
//! three modes: compressed, uncompressed, and unchecked.

pub mod arith;
pub mod bytes;
pub mod codec;
pub mod error;
pub mod group;
pub mod schnorr;
pub mod transcript;
