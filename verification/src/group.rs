//! The cyclic group the protocol runs in: the multiplicative group of
//! integers modulo a small modulus, each element held as its canonical
//! reduced residue. The protocol parameters carry the modulus, the
//! generator, and the order of the generator.

use vstd::prelude::*;
use crate::arith::{mul_mod, mul_mod_u64, pow_mod, pow_mod_u64, MAX_MODULUS};
use crate::bytes::{le8_of, push_le8};

verus! {

/// A group element, as its canonical residue modulo the group modulus.
#[derive(Clone, Copy, Debug, PartialEq, Eq, Structural)]
pub struct GroupElem {
    pub value: u64,
}

/// The public protocol parameters: the group modulus, the generator, and
/// the order of the generator. Shared by prover and verifier.
#[derive(Clone, Copy, Debug, PartialEq, Eq, Structural)]
pub struct Parameters {
    pub modulus: u64,
    pub order: u64,
    pub generator: GroupElem,
}

/// The public group element whose discrete logarithm with respect to the
/// generator is claimed to be known.
#[derive(Clone, Copy, Debug, PartialEq, Eq, Structural)]
pub struct Statement {
    pub point: GroupElem,
}

impl GroupElem {
    /// A well-formed element is a nonzero reduced residue.
    pub open spec fn wf(&self, pp: Parameters) -> bool {
        1 <= self.value < pp.modulus
    }

    /// Group operation on reduced residues (written additively in the
    /// protocol description): the modular product.
    pub fn op(&self, other: &GroupElem, pp: &Parameters) -> (r: GroupElem)
        requires
            pp.wf(),
            self.value < pp.modulus,
            other.value < pp.modulus,
        ensures
            r.value as int == mul_mod(self.value as int, other.value as int, pp.modulus as int),
            r.value < pp.modulus,
    {
        GroupElem { value: mul_mod_u64(self.value, other.value, pp.modulus) }
    }

    /// Scalar multiplication: the element raised to the scalar. The element
    /// need not be reduced; the result always is.
    pub fn scalar_mul(&self, e: u64, pp: &Parameters) -> (r: GroupElem)
        requires
            pp.wf(),
        ensures
            r.value as int == pow_mod(self.value as int, e as nat, pp.modulus as int),
            r.value < pp.modulus,
    {
        GroupElem { value: pow_mod_u64(self.value, e, pp.modulus) }
    }

    /// Canonical little-endian bytes of the element, as fed to the
    /// transcript.
    pub fn to_bytes(&self) -> (r: Vec<u8>)
        ensures
            r@ == le8_of(self.value as nat),
    {
        let mut out: Vec<u8> = Vec::new();
        push_le8(&mut out, self.value);
        proof {
            assert(out@ =~= le8_of(self.value as nat));
        }
        out
    }
}

impl Parameters {
    /// A well-formed group description: the modulus small enough for the
    /// executable arithmetic, the generator a nonzero reduced residue, and
    /// the order a positive exponent that sends the generator to one.
    pub open spec fn wf(&self) -> bool {
        &&& 2 <= self.modulus
        &&& self.modulus <= MAX_MODULUS
        &&& 1 <= self.generator.value < self.modulus
        &&& 1 <= self.order
        &&& pow_mod(self.generator.value as int, self.order as nat, self.modulus as int) == 1
    }

    /// Builds a validated group description, checking every well-formedness
    /// condition at run time, including that the generator has order
    /// dividing `order`.
    pub fn new(modulus: u64, order: u64, generator: u64) -> (r: Option<Parameters>)
        ensures
            ({
                let pp = Parameters { modulus, order, generator: GroupElem { value: generator } };
                r == if pp.wf() {
                    Some(pp)
                } else {
                    None::<Parameters>
                }
            }),
    {
        if modulus >= 2 && modulus <= MAX_MODULUS && generator >= 1 && generator < modulus
            && order >= 1 {
            let p = pow_mod_u64(generator, order, modulus);
            if p == 1 {
                Some(Parameters { modulus, order, generator: GroupElem { value: generator } })
            } else {
                None
            }
        } else {
            None
        }
    }
}

} // verus!
