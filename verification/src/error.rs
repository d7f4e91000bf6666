//! Error types: rejection of a proof by the verifier, and malformed bytes
//! in the codec. Both are ordinary result values, never panics.

use vstd::prelude::*;

verus! {

/// Failure reported by the verifier. A rejected proof is an expected
/// protocol outcome, not an exceptional condition.
#[derive(Debug, PartialEq, Eq)]
pub enum CryptoError {
    /// The verification equation did not hold; carries the protocol name
    /// for diagnostics.
    ProofVerificationError(String),
}

/// Failure reported by the codec on malformed input bytes.
#[derive(Clone, Copy, Debug, PartialEq, Eq, Structural)]
pub enum SerializationError {
    /// The byte string has the wrong length for the selected mode.
    UnexpectedLength,
    /// The encoded group element is not a reduced nonzero residue.
    InvalidPoint,
    /// The encoded scalar is not reduced modulo the group order.
    InvalidScalar,
}

} // verus!
