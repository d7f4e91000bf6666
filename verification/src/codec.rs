//! Canonical byte codec for proofs, in three modes. Compressed encoding
//! compacts the canonical wire form of the commitment to 4 bytes;
//! uncompressed encoding writes the full 8-byte form; unchecked encoding is
//! byte-identical to uncompressed, but its decoder skips validation. The
//! scalar always travels as 8 fixed-width little-endian bytes. The format
//! carries no mode tag: bytes must be decoded in the mode that produced
//! them.

use vstd::prelude::*;
use crate::bytes::{
    le4_of, le4_value, le8_of, le8_value, lemma_le4_round_trip, lemma_le8_round_trip, push_le4,
    push_le8, read_le4, read_le8,
};
use crate::error::SerializationError;
use crate::group::{GroupElem, Parameters};
use crate::schnorr::Proof;

verus! {

/// Byte length of a compressed proof: 4 bytes of compact commitment plus 8
/// bytes of scalar.
pub const COMPRESSED_SIZE: usize = 12;

/// Byte length of an uncompressed or unchecked proof: 8 bytes of full
/// commitment plus 8 bytes of scalar.
pub const UNCOMPRESSED_SIZE: usize = 16;

/// The wire twin of `Proof`: the commitment canonicalized to the single
/// residue that crosses the process boundary, paired with the opening,
/// both as raw wire words and possibly not yet validated.
#[derive(Clone, Copy, Debug, PartialEq, Eq, Structural)]
pub struct ProofAffine {
    /// The commitment's canonical wire residue.
    pub random_commit: u64,
    /// The opening scalar, as read from or written to the wire.
    pub opening: u64,
}

/// The compressed encoding of a proof.
pub open spec fn compressed_bytes(pr: Proof) -> Seq<u8> {
    le4_of(pr.random_commit.value as nat) + le8_of(pr.opening as nat)
}

/// The uncompressed encoding of a proof; the unchecked mode shares it.
pub open spec fn uncompressed_bytes(pr: Proof) -> Seq<u8> {
    le8_of(pr.random_commit.value as nat) + le8_of(pr.opening as nat)
}

/// What compressed-mode decoding yields on any byte string: the parsed
/// proof, or the error naming the first check that failed.
pub open spec fn decode_compressed_spec(pp: Parameters, bytes: Seq<u8>) -> Result<
    Proof,
    SerializationError,
> {
    if bytes.len() != COMPRESSED_SIZE {
        Err(SerializationError::UnexpectedLength)
    } else {
        let v = le4_value(bytes.subrange(0, 4));
        let s = le8_value(bytes.subrange(4, 12));
        if !(1 <= v < pp.modulus) {
            Err(SerializationError::InvalidPoint)
        } else if !(s < pp.order) {
            Err(SerializationError::InvalidScalar)
        } else {
            Ok(Proof { random_commit: GroupElem { value: v as u64 }, opening: s as u64 })
        }
    }
}

/// What uncompressed-mode decoding yields on any byte string.
pub open spec fn decode_uncompressed_spec(pp: Parameters, bytes: Seq<u8>) -> Result<
    Proof,
    SerializationError,
> {
    if bytes.len() != UNCOMPRESSED_SIZE {
        Err(SerializationError::UnexpectedLength)
    } else {
        let v = le8_value(bytes.subrange(0, 8));
        let s = le8_value(bytes.subrange(8, 16));
        if !(1 <= v < pp.modulus) {
            Err(SerializationError::InvalidPoint)
        } else if !(s < pp.order) {
            Err(SerializationError::InvalidScalar)
        } else {
            Ok(Proof { random_commit: GroupElem { value: v as u64 }, opening: s as u64 })
        }
    }
}

/// What unchecked-mode decoding yields: the same layout as uncompressed,
/// with every validity check skipped. Only the length is examined.
pub open spec fn decode_unchecked_spec(pp: Parameters, bytes: Seq<u8>) -> Result<
    Proof,
    SerializationError,
> {
    if bytes.len() != UNCOMPRESSED_SIZE {
        Err(SerializationError::UnexpectedLength)
    } else {
        let v = le8_value(bytes.subrange(0, 8));
        let s = le8_value(bytes.subrange(8, 16));
        Ok(Proof { random_commit: GroupElem { value: v as u64 }, opening: s as u64 })
    }
}

impl Proof {
    /// Canonicalizes this proof to its wire twin. A residue has one
    /// canonical form, so this is where the representation boundary sits.
    pub fn to_wire_form(&self) -> (a: ProofAffine)
        ensures
            a.random_commit == self.random_commit.value,
            a.opening == self.opening,
    {
        ProofAffine { random_commit: self.random_commit.value, opening: self.opening }
    }

    /// Appends the compressed encoding to `writer`: the canonical wire
    /// commitment compacted to 4 bytes, then the 8-byte scalar.
    pub fn serialize(&self, writer: &mut Vec<u8>)
        requires
            self.random_commit.value < 0x1_0000_0000,
        ensures
            final(writer)@ == old(writer)@ + compressed_bytes(*self),
    {
        let a = self.to_wire_form();
        push_le4(writer, a.random_commit);
        push_le8(writer, a.opening);
        proof {
            assert(writer@ =~= old(writer)@ + compressed_bytes(*self));
        }
    }

    /// The byte length of the compressed encoding, without encoding.
    pub fn serialized_size(&self) -> (r: usize)
        ensures
            r == compressed_bytes(*self).len(),
            r == COMPRESSED_SIZE,
    {
        COMPRESSED_SIZE
    }

    /// Appends the uncompressed encoding to `writer`: the full 8-byte wire
    /// commitment, then the 8-byte scalar.
    pub fn serialize_uncompressed(&self, writer: &mut Vec<u8>)
        ensures
            final(writer)@ == old(writer)@ + uncompressed_bytes(*self),
    {
        let a = self.to_wire_form();
        push_le8(writer, a.random_commit);
        push_le8(writer, a.opening);
        proof {
            assert(writer@ =~= old(writer)@ + uncompressed_bytes(*self));
        }
    }

    /// Appends the unchecked encoding to `writer`: byte-identical to the
    /// uncompressed encoding; the difference lies only in decoding.
    pub fn serialize_unchecked(&self, writer: &mut Vec<u8>)
        ensures
            final(writer)@ == old(writer)@ + uncompressed_bytes(*self),
    {
        self.serialize_uncompressed(writer)
    }

    /// The byte length of the uncompressed encoding, without encoding.
    pub fn uncompressed_size(&self) -> (r: usize)
        ensures
            r == uncompressed_bytes(*self).len(),
            r == UNCOMPRESSED_SIZE,
    {
        UNCOMPRESSED_SIZE
    }

    /// Decodes a compressed proof, validating that the commitment is a
    /// nonzero reduced residue and the scalar is reduced modulo the order.
    pub fn deserialize(pp: &Parameters, bytes: &Vec<u8>) -> (r: Result<Proof, SerializationError>)
        ensures
            r == decode_compressed_spec(*pp, bytes@),
    {
        if bytes.len() != COMPRESSED_SIZE {
            return Err(SerializationError::UnexpectedLength);
        }
        let a = ProofAffine { random_commit: read_le4(bytes, 0), opening: read_le8(bytes, 4) };
        if a.random_commit < 1 || a.random_commit >= pp.modulus {
            return Err(SerializationError::InvalidPoint);
        }
        if a.opening >= pp.order {
            return Err(SerializationError::InvalidScalar);
        }
        Ok(a.into_proof())
    }

    /// Decodes an uncompressed proof, with the same validation as the
    /// compressed decoder.
    pub fn deserialize_uncompressed(pp: &Parameters, bytes: &Vec<u8>) -> (r: Result<
        Proof,
        SerializationError,
    >)
        ensures
            r == decode_uncompressed_spec(*pp, bytes@),
    {
        if bytes.len() != UNCOMPRESSED_SIZE {
            return Err(SerializationError::UnexpectedLength);
        }
        let a = ProofAffine { random_commit: read_le8(bytes, 0), opening: read_le8(bytes, 8) };
        if a.random_commit < 1 || a.random_commit >= pp.modulus {
            return Err(SerializationError::InvalidPoint);
        }
        if a.opening >= pp.order {
            return Err(SerializationError::InvalidScalar);
        }
        Ok(a.into_proof())
    }

    /// Decodes with validation skipped: an explicit escape hatch for bytes
    /// that are already trusted, never for untrusted input. Only the length
    /// is checked; the resulting proof may be ill-formed.
    pub fn deserialize_unchecked(pp: &Parameters, bytes: &Vec<u8>) -> (r: Result<
        Proof,
        SerializationError,
    >)
        ensures
            r == decode_unchecked_spec(*pp, bytes@),
    {
        if bytes.len() != UNCOMPRESSED_SIZE {
            return Err(SerializationError::UnexpectedLength);
        }
        let a = ProofAffine { random_commit: read_le8(bytes, 0), opening: read_le8(bytes, 8) };
        Ok(a.into_proof())
    }
}

impl ProofAffine {
    /// Converts the wire twin back to the computational form.
    pub fn into_proof(&self) -> (p: Proof)
        ensures
            p.random_commit.value == self.random_commit,
            p.opening == self.opening,
    {
        Proof { random_commit: GroupElem { value: self.random_commit }, opening: self.opening }
    }
}

/// Round-trip law, compressed mode: decoding an encoded well-formed proof
/// gives it back.
pub proof fn lemma_round_trip_compressed(pp: Parameters, pr: Proof)
    requires
        pp.wf(),
        pr.wf(pp),
    ensures
        decode_compressed_spec(pp, compressed_bytes(pr)) == Ok::<Proof, SerializationError>(pr),
{
    let bytes = compressed_bytes(pr);
    assert(bytes.subrange(0, 4) =~= le4_of(pr.random_commit.value as nat));
    assert(bytes.subrange(4, 12) =~= le8_of(pr.opening as nat));
    lemma_le4_round_trip(pr.random_commit.value as nat);
    lemma_le8_round_trip(pr.opening as nat);
}

/// Round-trip law, uncompressed mode: decoding an encoded well-formed
/// proof gives it back.
pub proof fn lemma_round_trip_uncompressed(pp: Parameters, pr: Proof)
    requires
        pp.wf(),
        pr.wf(pp),
    ensures
        decode_uncompressed_spec(pp, uncompressed_bytes(pr)) == Ok::<Proof, SerializationError>(
            pr,
        ),
{
    let bytes = uncompressed_bytes(pr);
    assert(bytes.subrange(0, 8) =~= le8_of(pr.random_commit.value as nat));
    assert(bytes.subrange(8, 16) =~= le8_of(pr.opening as nat));
    lemma_le8_round_trip(pr.random_commit.value as nat);
    lemma_le8_round_trip(pr.opening as nat);
}

/// Round-trip law, unchecked mode: it holds for every proof, well-formed
/// or not, because decoding validates nothing.
pub proof fn lemma_round_trip_unchecked(pp: Parameters, pr: Proof)
    ensures
        decode_unchecked_spec(pp, uncompressed_bytes(pr)) == Ok::<Proof, SerializationError>(pr),
{
    let bytes = uncompressed_bytes(pr);
    assert(bytes.subrange(0, 8) =~= le8_of(pr.random_commit.value as nat));
    assert(bytes.subrange(8, 16) =~= le8_of(pr.opening as nat));
    lemma_le8_round_trip(pr.random_commit.value as nat);
    lemma_le8_round_trip(pr.opening as nat);
}

/// Mode isolation: the two encodings differ in length, so bytes produced
/// in one mode are rejected outright by the other mode's decoder.
pub proof fn lemma_mode_isolation(pp: Parameters, pr: Proof)
    ensures
        decode_uncompressed_spec(pp, compressed_bytes(pr)) == Err::<Proof, SerializationError>(
            SerializationError::UnexpectedLength,
        ),
        decode_compressed_spec(pp, uncompressed_bytes(pr)) == Err::<Proof, SerializationError>(
            SerializationError::UnexpectedLength,
        ),
{
}

/// Unchecked decoding truly skips validation: every byte string of the
/// right length decodes successfully, whatever it holds.
pub proof fn lemma_unchecked_accepts_any(pp: Parameters, bytes: Seq<u8>)
    requires
        bytes.len() == UNCOMPRESSED_SIZE,
    ensures
        decode_unchecked_spec(pp, bytes) is Ok,
{
}

} // verus!
