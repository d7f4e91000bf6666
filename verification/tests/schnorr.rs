use schnorr_identification::arith::{mul_mod_u64, pow_mod_u64};
use schnorr_identification::error::CryptoError;
use schnorr_identification::group::{GroupElem, Parameters, Statement};
use schnorr_identification::schnorr::{protocol_label, Proof};
use schnorr_identification::transcript::{FixedTranscript, HashTranscript, Transcript};

/// The toy group: integers modulo the prime 71 under multiplication,
/// generated by the primitive root 7, of order 70.
fn toy_group() -> Parameters {
    Parameters::new(71, 70, 7).expect("toy group parameters must validate")
}

/// A larger group: integers modulo the Mersenne prime 2^31 - 1, generated
/// by the primitive root 7, of order 2^31 - 2.
fn big_group() -> Parameters {
    Parameters::new(2147483647, 2147483646, 7).expect("big group parameters must validate")
}

/// Derives the challenge exactly as `verify` does, by replaying the
/// absorption order on a fresh transcript.
fn challenge_for(pp: &Parameters, st: &Statement, commit: &GroupElem) -> u64 {
    let mut t = HashTranscript::new();
    t.absorb(&protocol_label());
    t.absorb(&pp.generator.to_bytes());
    t.absorb(&st.point.to_bytes());
    t.absorb(&commit.to_bytes());
    t.derive_challenge(pp.order)
}

/// Builds a genuine proof for witness `x` and commitment exponent `r`,
/// using the standard prover formula `opening = r - c * x (mod order)`.
fn make_proof(pp: &Parameters, x: u64, r: u64) -> (Statement, Proof) {
    let st = Statement { point: GroupElem { value: pow_mod_u64(pp.generator.value, x, pp.modulus) } };
    let commit = GroupElem { value: pow_mod_u64(pp.generator.value, r, pp.modulus) };
    let c = challenge_for(pp, &st, &commit);
    let q = pp.order;
    let opening = (r % q + q - mul_mod_u64(c % q, x % q, q)) % q;
    (st, Proof { random_commit: commit, opening })
}

#[test]
fn concrete_scenario_accepts() {
    let pp = toy_group();
    let st = Statement { point: GroupElem { value: pow_mod_u64(7, 7, 71) } };
    assert_eq!(st.point.value, 14);
    // commitment g^3 = 59, fixed challenge 5, opening 3 - 5*7 = 38 mod 70
    let pr = Proof { random_commit: GroupElem { value: 59 }, opening: 38 };
    let mut t = FixedTranscript::<5>::new();
    assert!(pr.verify(&pp, &st, &mut t).is_ok());
}

#[test]
fn concrete_scenario_rejects_wrong_opening() {
    let pp = toy_group();
    let st = Statement { point: GroupElem { value: 14 } };
    let pr = Proof { random_commit: GroupElem { value: 59 }, opening: 37 };
    let mut t = FixedTranscript::<5>::new();
    let res = pr.verify(&pp, &st, &mut t);
    assert!(matches!(res, Err(CryptoError::ProofVerificationError(_))));
}

#[test]
fn completeness_toy_group() {
    let pp = toy_group();
    for x in [1u64, 7, 13, 38, 69] {
        for r in [0u64, 3, 11, 42, 69] {
            let (st, pr) = make_proof(&pp, x, r);
            let mut t = HashTranscript::new();
            assert!(pr.verify(&pp, &st, &mut t).is_ok());
        }
    }
}

#[test]
fn completeness_big_group() {
    let pp = big_group();
    for x in [1u64, 987654321, 2147483645] {
        for r in [5u64, 1073741823, 2000000000] {
            let (st, pr) = make_proof(&pp, x, r);
            let mut t = HashTranscript::new();
            assert!(pr.verify(&pp, &st, &mut t).is_ok());
        }
    }
}

#[test]
fn soundness_random_proofs_reject() {
    let pp = big_group();
    let st = Statement { point: GroupElem { value: 1234567 } };
    // deterministic pseudo-random stream of candidate proofs
    let mut seed: u64 = 0x2545F4914F6CDD1D;
    let mut accepted = 0u32;
    for _ in 0..100 {
        seed = seed.wrapping_mul(6364136223846793005).wrapping_add(1442695040888963407);
        let commit = 1 + seed % (pp.modulus - 1);
        seed = seed.wrapping_mul(6364136223846793005).wrapping_add(1442695040888963407);
        let opening = seed % pp.order;
        let pr = Proof { random_commit: GroupElem { value: commit }, opening };
        let mut t = HashTranscript::new();
        if pr.verify(&pp, &st, &mut t).is_ok() {
            accepted += 1;
        }
    }
    assert_eq!(accepted, 0);
}

#[test]
fn transcript_determinism() {
    let mut t1 = HashTranscript::new();
    let mut t2 = HashTranscript::new();
    for t in [&mut t1, &mut t2] {
        t.absorb(&vec![1, 2, 3]);
        t.absorb(&vec![]);
        t.absorb(&vec![255, 0, 127]);
    }
    assert_eq!(t1.derive_challenge(70), t2.derive_challenge(70));
    // the draw counter advances, so a second draw differs from the first
    let a = t1.derive_challenge(2147483646);
    let b = t1.derive_challenge(2147483646);
    assert_ne!(a, b);
}

#[test]
fn transcript_sensitivity_of_each_absorbed_value() {
    let base: [Vec<u8>; 4] = [vec![1, 2], vec![3, 4], vec![5, 6], vec![7, 8]];
    let mut t0 = HashTranscript::new();
    for v in &base {
        t0.absorb(v);
    }
    let reference = t0.derive_challenge(2147483646);
    for changed in 0..4 {
        let mut t = HashTranscript::new();
        for (i, v) in base.iter().enumerate() {
            if i == changed {
                let mut w = v.clone();
                w[0] ^= 1;
                t.absorb(&w);
            } else {
                t.absorb(v);
            }
        }
        assert_ne!(t.derive_challenge(2147483646), reference);
    }
}

#[test]
fn transcript_sensitivity_rejects_valid_proof() {
    let pp = big_group();
    let (st, pr) = make_proof(&pp, 424242, 777777);
    // sanity: the proof verifies against the inputs it was built for
    let mut t_ok = HashTranscript::new();
    assert!(pr.verify(&pp, &st, &mut t_ok).is_ok());
    // mutating the absorbed statement changes the challenge and the proof
    // must fail
    let st_mut = Statement { point: GroupElem { value: st.point.value ^ 1 } };
    let mut t1 = HashTranscript::new();
    assert!(pr.verify(&pp, &st_mut, &mut t1).is_err());
    // a transcript whose prior state differs derives a different challenge,
    // and the otherwise-valid proof must fail against it
    let mut t2 = HashTranscript::new();
    t2.absorb(&vec![9]);
    assert!(pr.verify(&pp, &st, &mut t2).is_err());
}

#[test]
fn parameters_validation() {
    assert!(Parameters::new(71, 70, 7).is_some());
    // 7^69 is the inverse of 7 modulo 71, not one
    assert!(Parameters::new(71, 69, 7).is_none());
    assert!(Parameters::new(0, 1, 1).is_none());
    assert!(Parameters::new(1, 1, 1).is_none());
    assert!(Parameters::new(71, 70, 0).is_none());
    assert!(Parameters::new(71, 70, 71).is_none());
    assert!(Parameters::new(71, 0, 7).is_none());
    assert!(Parameters::new(4294967297, 1, 1).is_none());
}

#[test]
fn fixed_transcript_reduces_challenge() {
    let mut t = FixedTranscript::<75>::new();
    assert_eq!(t.derive_challenge(70), 5);
    let mut t2 = FixedTranscript::<5>::new();
    t2.absorb(&vec![1, 2, 3]);
    assert_eq!(t2.derive_challenge(70), 5);
}

#[test]
fn modular_arithmetic_spot_checks() {
    assert_eq!(pow_mod_u64(7, 7, 71), 14);
    assert_eq!(pow_mod_u64(7, 70, 71), 1);
    assert_eq!(pow_mod_u64(7, 0, 71), 1);
    assert_eq!(pow_mod_u64(123456, 0, 1), 0);
    assert_eq!(pow_mod_u64(2, 40, 4294967296), 0);
    assert_eq!(mul_mod_u64(59, 49, 71), 51);
    assert_eq!(pow_mod_u64(7, 2147483646, 2147483647), 1);
}

#[test]
fn verify_advances_transcript_state() {
    let pp = toy_group();
    let st = Statement { point: GroupElem { value: 14 } };
    let pr = Proof { random_commit: GroupElem { value: 59 }, opening: 38 };
    let mut t = HashTranscript::new();
    let _ = pr.verify(&pp, &st, &mut t);
    // a second identical check on the same transcript sees a different
    // challenge with overwhelming probability; here it concretely rejects
    // or accepts independently of the first outcome, but the state moved:
    let c_after = t.derive_challenge(2147483646);
    let mut fresh = HashTranscript::new();
    let c_fresh = fresh.derive_challenge(2147483646);
    assert_ne!(c_after, c_fresh);
}
