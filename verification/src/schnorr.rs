//! The Schnorr identification proof object and its verifier. A proof is a
//! commitment (group element) and an opening (scalar); verification derives
//! the challenge from the transcript and tests the single verification
//! equation, in additive notation `parameters * opening + statement * c ==
//! random_commit`, which here is the modular product of two modular powers.

use vstd::prelude::*;
use crate::arith::{
    lemma_mod_add_cancel, lemma_pow_mod_adds, lemma_pow_mod_cancel, lemma_pow_mod_exp_reduce,
    lemma_pow_mod_muls, mul_mod, pow_mod,
};
use crate::bytes::le8_of;
use crate::error::CryptoError;
use crate::group::{GroupElem, Parameters, Statement};
use crate::transcript::Transcript;
use vstd::arithmetic::div_mod::{
    lemma_add_mod_noop_right, lemma_mod_add_multiples_vanish, lemma_mod_division_less_than_divisor,
    lemma_mod_sub_multiples_vanish, lemma_small_mod,
};

verus! {

/// The protocol domain-separation label, "schnorr_identity" in ASCII: the
/// first value absorbed into the transcript.
pub open spec fn protocol_label_spec() -> Seq<u8> {
    seq![
        115u8, 99u8, 104u8, 110u8, 111u8, 114u8, 114u8, 95u8, 105u8, 100u8, 101u8, 110u8, 116u8,
        105u8, 116u8, 121u8,
    ]
}

/// Builds the protocol domain-separation label.
pub fn protocol_label() -> (r: Vec<u8>)
    ensures
        r@ == protocol_label_spec(),
{
    let mut out: Vec<u8> = Vec::new();
    out.push(115);
    out.push(99);
    out.push(104);
    out.push(110);
    out.push(111);
    out.push(114);
    out.push(114);
    out.push(95);
    out.push(105);
    out.push(100);
    out.push(101);
    out.push(110);
    out.push(116);
    out.push(105);
    out.push(116);
    out.push(121);
    proof {
        assert(out@ =~= protocol_label_spec());
    }
    out
}

/// The transcript state after the verifier absorbs, in protocol order, the
/// label, the parameters, the statement, and the commitment.
pub open spec fn absorbed_for_verify(
    state0: Seq<Seq<u8>>,
    pp: Parameters,
    st: Statement,
    pr: Proof,
) -> Seq<Seq<u8>> {
    state0.push(protocol_label_spec()).push(le8_of(pp.generator.value as nat)).push(
        le8_of(st.point.value as nat),
    ).push(le8_of(pr.random_commit.value as nat))
}

/// The Schnorr verification equation for challenge `c`: the generator
/// raised to the opening, times the statement raised to the challenge,
/// equals the commitment.
pub open spec fn verification_equation(pp: Parameters, st: Statement, c: nat, pr: Proof) -> bool {
    mul_mod(
        pow_mod(pp.generator.value as int, pr.opening as nat, pp.modulus as int),
        pow_mod(st.point.value as int, c, pp.modulus as int),
        pp.modulus as int,
    ) == pr.random_commit.value as int
}

/// The opening a prover with witness `x` forms for commitment exponent
/// `rr` and challenge `c`: `rr - c * x` reduced modulo the group order.
pub open spec fn prover_opening(rr: int, c: int, x: int, q: int) -> int {
    (rr + q - mul_mod(c, x, q)) % q
}

/// A Schnorr identification proof: the prover's commitment and opening.
/// No relation between the two is enforced by construction; validity is
/// established solely by `verify`.
#[derive(Clone, Copy, Debug, PartialEq, Eq, Structural)]
pub struct Proof {
    /// The prover's commitment, a group element.
    pub random_commit: GroupElem,
    /// The prover's response, a scalar modulo the group order.
    pub opening: u64,
}

impl Proof {
    /// A well-formed proof holds a reduced nonzero commitment and a scalar
    /// reduced modulo the group order.
    pub open spec fn wf(&self, pp: Parameters) -> bool {
        &&& self.random_commit.wf(pp)
        &&& self.opening < pp.order
    }

    /// Decides whether this proof demonstrates knowledge of the discrete
    /// logarithm of `statement` with respect to the generator: absorbs the
    /// label, parameters, statement and commitment into the transcript in
    /// protocol order, derives the challenge, and tests the verification
    /// equation. The transcript advances whatever the outcome.
    pub fn verify<T: Transcript>(
        &self,
        pp: &Parameters,
        statement: &Statement,
        transcript: &mut T,
    ) -> (r: Result<(), CryptoError>)
        requires
            pp.wf(),
            old(transcript).draws() < u64::MAX,
        ensures
            final(transcript).absorbed() == absorbed_for_verify(
                old(transcript).absorbed(),
                *pp,
                *statement,
                *self,
            ),
            final(transcript).draws() == old(transcript).draws() + 1,
            ({
                let c = T::challenge_of(
                    absorbed_for_verify(old(transcript).absorbed(), *pp, *statement, *self),
                    old(transcript).draws(),
                    pp.order as nat,
                );
                &&& (r is Ok <==> verification_equation(*pp, *statement, c, *self))
                &&& (r is Err ==> (r->Err_0 matches CryptoError::ProofVerificationError(m)
                    && m@ == "Schnorr Identification"@))
            }),
    {
        let label = protocol_label();
        transcript.absorb(&label);
        let generator_bytes = pp.generator.to_bytes();
        transcript.absorb(&generator_bytes);
        let statement_bytes = statement.point.to_bytes();
        transcript.absorb(&statement_bytes);
        let commit_bytes = self.random_commit.to_bytes();
        transcript.absorb(&commit_bytes);
        let c = transcript.derive_challenge(pp.order);
        let lhs = pp.generator.scalar_mul(self.opening, pp).op(
            &statement.point.scalar_mul(c, pp),
            pp,
        );
        if lhs.value == self.random_commit.value {
            Ok(())
        } else {
            Err(CryptoError::ProofVerificationError("Schnorr Identification".to_owned()))
        }
    }
}

/// Completeness: for every witness `x` with statement `generator ^ x`,
/// every commitment exponent `rr`, and every challenge `c`, the opening
/// `rr - c * x` (modulo the order) satisfies the verification equation.
pub proof fn lemma_completeness(pp: Parameters, x: nat, rr: nat, c: nat)
    requires
        pp.wf(),
        x < pp.order,
        rr < pp.order,
    ensures
        ({
            let m = pp.modulus as int;
            let g = pp.generator.value as int;
            let q = pp.order as int;
            let st = Statement { point: GroupElem { value: pow_mod(g, x, m) as u64 } };
            let pr = Proof {
                random_commit: GroupElem { value: pow_mod(g, rr, m) as u64 },
                opening: prover_opening(rr as int, c as int, x as int, q) as u64,
            };
            verification_equation(pp, st, c, pr)
        }),
{
    let m = pp.modulus as int;
    let g = pp.generator.value as int;
    let q = pp.order as int;
    assert(0 <= pow_mod(g, x, m) < m) by {
        lemma_mod_division_less_than_divisor(
            vstd::arithmetic::power::pow(g, x),
            m,
        );
    };
    assert(0 <= pow_mod(g, rr, m) < m) by {
        lemma_mod_division_less_than_divisor(
            vstd::arithmetic::power::pow(g, rr),
            m,
        );
    };
    let k = mul_mod(c as int, x as int, q);
    assert(0 <= k < q) by {
        lemma_mod_division_less_than_divisor(c as int * x as int, q);
    };
    let s = prover_opening(rr as int, c as int, x as int, q);
    assert(0 <= s < q) by {
        lemma_mod_division_less_than_divisor(rr + q - k, q);
    };
    // the statement power: (g^x)^c == g^(x*c) modulo m
    lemma_pow_mod_muls(g, x, c, m);
    // the equation's left side: g^s * g^(x*c) == g^(s + x*c) modulo m
    lemma_pow_mod_adds(g, s as nat, x * c, m);
    // exponents reduce modulo the order
    lemma_pow_mod_exp_reduce(g, (s + x * c) as nat, q as nat, m);
    // (s + x*c) % q == rr
    assert((s + x * c) % q == rr) by {
        lemma_add_mod_noop_right(s, (x * c) as int, q);
        assert((x * c) as int % q == k);
        if rr + q - k < q {
            lemma_small_mod((rr + q - k) as nat, q as nat);
            assert(s == rr + q - k);
            assert(s + k == rr + q);
            lemma_mod_add_multiples_vanish(rr as int, q);
            lemma_small_mod(rr, q as nat);
        } else {
            lemma_mod_sub_multiples_vanish((rr + q - k) as int, q);
            lemma_small_mod((rr - k) as nat, q as nat);
            assert(s == rr - k);
            lemma_small_mod(rr, q as nat);
        }
    };
    assert(pow_mod(g, ((s + x * c) % q) as nat, m) == pow_mod(g, rr, m));
}

/// At most one opening passes for a fixed commitment, statement in the
/// generator's subgroup, and challenge: a random proof can only guess the
/// single accepting opening among all scalars.
pub proof fn lemma_opening_unique(
    pp: Parameters,
    st: Statement,
    c: nat,
    pr1: Proof,
    pr2: Proof,
    y: nat,
)
    requires
        pp.wf(),
        // the generator has exact order: distinct reduced exponents give
        // distinct powers
        forall|a: nat, b: nat|
            a < pp.order && b < pp.order && #[trigger] pow_mod(
                pp.generator.value as int,
                a,
                pp.modulus as int,
            ) == #[trigger] pow_mod(pp.generator.value as int, b, pp.modulus as int) ==> a == b,
        st.point.value as int == pow_mod(pp.generator.value as int, y, pp.modulus as int),
        pr1.random_commit == pr2.random_commit,
        pr1.opening < pp.order,
        pr2.opening < pp.order,
        verification_equation(pp, st, c, pr1),
        verification_equation(pp, st, c, pr2),
    ensures
        pr1.opening == pr2.opening,
{
    let m = pp.modulus as int;
    let g = pp.generator.value as int;
    let q = pp.order as nat;
    let s1 = pr1.opening as nat;
    let s2 = pr2.opening as nat;
    lemma_pow_mod_muls(g, y, c, m);
    lemma_pow_mod_adds(g, s1, y * c, m);
    lemma_pow_mod_adds(g, s2, y * c, m);
    lemma_pow_mod_exp_reduce(g, (s1 + y * c) as nat, q, m);
    lemma_pow_mod_exp_reduce(g, (s2 + y * c) as nat, q, m);
    lemma_mod_division_less_than_divisor((s1 + y * c) as int, q as int);
    lemma_mod_division_less_than_divisor((s2 + y * c) as int, q as int);
    assert(((s1 + y * c) % q) == ((s2 + y * c) % q));
    lemma_mod_add_cancel(s1, s2, y * c, q);
}

/// Transcript sensitivity: when a changed transcript input changes the
/// statement's challenge power, a proof that passed with the original
/// challenge fails with the new one.
pub proof fn lemma_challenge_sensitivity(pp: Parameters, st: Statement, pr: Proof, c1: nat, c2: nat)
    requires
        pp.wf(),
        verification_equation(pp, st, c1, pr),
        pow_mod(st.point.value as int, c1, pp.modulus as int) != pow_mod(
            st.point.value as int,
            c2,
            pp.modulus as int,
        ),
    ensures
        !verification_equation(pp, st, c2, pr),
{
    let m = pp.modulus as int;
    let g = pp.generator.value as int;
    let q = pp.order as nat;
    let s = pr.opening as nat;
    let b1 = pow_mod(st.point.value as int, c1, m);
    let b2 = pow_mod(st.point.value as int, c2, m);
    if verification_equation(pp, st, c2, pr) {
        lemma_mod_division_less_than_divisor(
            vstd::arithmetic::power::pow(st.point.value as int, c1),
            m,
        );
        lemma_mod_division_less_than_divisor(
            vstd::arithmetic::power::pow(st.point.value as int, c2),
            m,
        );
        lemma_pow_mod_cancel(g, q, s, b1, b2, m);
        assert(false);
    }
}

} // verus!
