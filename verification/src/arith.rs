//! Modular arithmetic for a cyclic group given by a modulus: spec-level
//! product and power modulo `m`, verified executable counterparts, and the
//! algebraic lemmas that the protocol proofs rest on.

use vstd::prelude::*;
use vstd::arithmetic::div_mod::{
    lemma_add_mod_noop_right, lemma_fundamental_div_mod, lemma_mod_division_less_than_divisor,
    lemma_mod_multiples_basic, lemma_mod_sub_multiples_vanish, lemma_mod_twice, lemma_mul_mod_noop_general,
    lemma_small_mod,
};
use vstd::arithmetic::mul::{lemma_mul_is_associative, lemma_mul_is_commutative};
use vstd::arithmetic::power::{
    lemma1_pow, lemma_pow0, lemma_pow1, lemma_pow_adds, lemma_pow_mod_noop, lemma_pow_multiplies,
    lemma_square_is_pow2, pow,
};

verus! {

/// Largest group modulus the executable arithmetic accepts; keeping every
/// residue below 2^32 lets products be formed in a `u64` without overflow.
pub const MAX_MODULUS: u64 = 0x1_0000_0000;

/// Product of `a` and `b`, reduced modulo `m`.
pub open spec fn mul_mod(a: int, b: int, m: int) -> int {
    (a * b) % m
}

/// `b` raised to the power `e`, reduced modulo `m`.
pub open spec fn pow_mod(b: int, e: nat, m: int) -> int {
    pow(b, e) % m
}

/// Splitting an exponent into a sum splits the power into a modular product.
pub proof fn lemma_pow_mod_adds(b: int, e1: nat, e2: nat, m: int)
    requires
        m >= 1,
    ensures
        pow_mod(b, e1 + e2, m) == mul_mod(pow_mod(b, e1, m), pow_mod(b, e2, m), m),
{
    lemma_pow_adds(b, e1, e2);
    lemma_mul_mod_noop_general(pow(b, e1), pow(b, e2), m);
}

/// A power of a modular power collapses to a single power of the product
/// of the exponents.
pub proof fn lemma_pow_mod_muls(b: int, e1: nat, e2: nat, m: int)
    requires
        m >= 1,
    ensures
        pow_mod(b, e1 * e2, m) == pow_mod(pow_mod(b, e1, m), e2, m),
{
    lemma_pow_multiplies(b, e1, e2);
    lemma_pow_mod_noop(pow(b, e1), e2, m);
}

/// When `b` has order dividing `q` modulo `m`, exponents can be reduced
/// modulo `q` without changing the modular power.
pub proof fn lemma_pow_mod_exp_reduce(b: int, e: nat, q: nat, m: int)
    requires
        m >= 2,
        q >= 1,
        pow_mod(b, q, m) == 1,
    ensures
        pow_mod(b, e, m) == pow_mod(b, (e % q) as nat, m),
{
    let d: nat = e / q;
    let r: nat = e % q;
    lemma_fundamental_div_mod(e as int, q as int);
    assert(e == q * d + r);
    lemma_pow_mod_adds(b, q * d, r, m);
    lemma_pow_mod_muls(b, q, d, m);
    lemma1_pow(d);
    assert(pow_mod(1int, d, m) == 1int % m);
    assert(1int % m == 1) by {
        lemma_small_mod(1nat, m as nat);
    };
    assert(pow_mod(b, e, m) == mul_mod(1, pow_mod(b, r, m), m));
    assert(mul_mod(1, pow_mod(b, r, m), m) == pow_mod(b, r, m) % m) by {
        assert(1 * pow_mod(b, r, m) == pow_mod(b, r, m));
    };
    lemma_mod_twice(pow(b, r), m);
}

/// Regrouping a modular triple product: multiplying `w` into a reduced
/// product of `x` and `y` is the same as reducing `w * x` first.
pub proof fn lemma_mul_mod_rearrange(w: int, x: int, y: int, m: int)
    requires
        m >= 1,
    ensures
        mul_mod(w, mul_mod(x, y, m), m) == mul_mod(mul_mod(w, x, m), y, m),
{
    lemma_mul_mod_noop_general(w, x * y, m);
    assert((w * (x * y)) % m == ((w * x) * y) % m) by {
        lemma_mul_is_associative(w, x, y);
    };
    lemma_mul_mod_noop_general(w * x, y, m);
}

/// A power of the group generator can be cancelled from both sides of a
/// modular product equation: the generator is invertible because its order
/// divides `q`.
pub proof fn lemma_pow_mod_cancel(g: int, q: nat, s: nat, b1: int, b2: int, m: int)
    requires
        m >= 2,
        q >= 1,
        pow_mod(g, q, m) == 1,
        0 <= b1 < m,
        0 <= b2 < m,
        mul_mod(pow_mod(g, s, m), b1, m) == mul_mod(pow_mod(g, s, m), b2, m),
    ensures
        b1 == b2,
{
    let r: nat = s % q;
    let u: nat = if r == 0 { 0 } else { (q - r) as nat };
    lemma_fundamental_div_mod(s as int, q as int);
    assert(s == q * (s / q) + r);
    assert((s + u) % q == 0) by {
        if r == 0 {
            assert(s + u == (s / q) * q) by {
                lemma_mul_is_commutative(q as int, s as int / q as int);
            };
            lemma_mod_multiples_basic(s as int / q as int, q as int);
        } else {
            assert((s / q + 1) * q == (s / q) * q + q) by (nonlinear_arith);
            assert(s + u == (s / q + 1) * q) by {
                lemma_mul_is_commutative(q as int, s as int / q as int);
            };
            lemma_mod_multiples_basic(s as int / q as int + 1, q as int);
        }
    };
    lemma_pow_mod_exp_reduce(g, (u + s) as nat, q, m);
    assert(pow_mod(g, ((u + s) % q) as nat, m) == 1int % m) by {
        lemma_pow0(g);
    };
    assert(1int % m == 1) by {
        lemma_small_mod(1nat, m as nat);
    };
    lemma_pow_mod_adds(g, u, s, m);
    assert(mul_mod(pow_mod(g, u, m), pow_mod(g, s, m), m) == 1);
    lemma_mul_mod_rearrange(pow_mod(g, u, m), pow_mod(g, s, m), b1, m);
    lemma_mul_mod_rearrange(pow_mod(g, u, m), pow_mod(g, s, m), b2, m);
    assert(mul_mod(1, b1, m) == b1) by {
        assert(1 * b1 == b1);
        lemma_small_mod(b1 as nat, m as nat);
    };
    assert(mul_mod(1, b2, m) == b2) by {
        assert(1 * b2 == b2);
        lemma_small_mod(b2 as nat, m as nat);
    };
}

/// Two reduced values that leave the same remainder after adding a common
/// offset are equal.
pub proof fn lemma_mod_add_cancel(s1: nat, s2: nat, w: nat, q: nat)
    requires
        q >= 1,
        s1 < q,
        s2 < q,
        (s1 + w) % q == (s2 + w) % q,
    ensures
        s1 == s2,
{
    lemma_add_mod_noop_right(s1 as int, w as int, q as int);
    lemma_add_mod_noop_right(s2 as int, w as int, q as int);
    let ww: nat = w % q;
    lemma_mod_division_less_than_divisor(w as int, q as int);
    if s1 + ww < q {
        lemma_small_mod((s1 + ww) as nat, q);
    } else {
        lemma_mod_sub_multiples_vanish((s1 + ww) as int, q as int);
        lemma_small_mod((s1 + ww - q) as nat, q);
    }
    if s2 + ww < q {
        lemma_small_mod((s2 + ww) as nat, q);
    } else {
        lemma_mod_sub_multiples_vanish((s2 + ww) as int, q as int);
        lemma_small_mod((s2 + ww - q) as nat, q);
    }
}

/// Modular product of two reduced residues.
pub fn mul_mod_u64(a: u64, b: u64, m: u64) -> (r: u64)
    requires
        1 <= m,
        m <= MAX_MODULUS,
        a < m,
        b < m,
    ensures
        r as int == mul_mod(a as int, b as int, m as int),
        r < m,
{
    proof {
        assert(a * b < 0x1_0000_0000_0000_0000) by (nonlinear_arith)
            requires
                a < m,
                b < m,
                m <= 0x1_0000_0000,
        ;
    }
    (a * b) % m
}

/// Modular power by binary exponentiation; the base need not be reduced.
pub fn pow_mod_u64(base: u64, exp: u64, m: u64) -> (r: u64)
    requires
        1 <= m,
        m <= MAX_MODULUS,
    ensures
        r as int == pow_mod(base as int, exp as nat, m as int),
        r < m,
{
    let mut b: u64 = base % m;
    let mut e: u64 = exp;
    let mut acc: u64 = 1 % m;
    proof {
        assert(mul_mod(acc as int, pow(b as int, e as nat), m as int)
            == pow_mod(base as int, exp as nat, m as int)) by {
            lemma_mul_mod_noop_general(1, pow(b as int, e as nat), m as int);
            assert(1 * pow(b as int, e as nat) == pow(b as int, e as nat));
            lemma_pow_mod_noop(base as int, e as nat, m as int);
            lemma_mod_twice(pow(b as int, e as nat), m as int);
        };
    }
    while e > 0
        invariant
            1 <= m <= MAX_MODULUS,
            acc < m,
            b < m,
            mul_mod(acc as int, pow(b as int, e as nat), m as int)
                == pow_mod(base as int, exp as nat, m as int),
        decreases e,
    {
        let ghost acc0 = acc as int;
        let ghost b0 = b as int;
        let ghost e0 = e as nat;
        let half: u64 = e / 2;
        proof {
            assert(b0 * b0 < 0x1_0000_0000_0000_0000) by (nonlinear_arith)
                requires
                    0 <= b0 < m,
                    m <= 0x1_0000_0000,
            ;
            assert(acc0 * b0 < 0x1_0000_0000_0000_0000) by (nonlinear_arith)
                requires
                    0 <= acc0 < m,
                    0 <= b0 < m,
                    m <= 0x1_0000_0000,
            ;
            // pow(b0, e0) in terms of the squared base
            lemma_square_is_pow2(b0);
            lemma_pow_multiplies(b0, 2, half as nat);
            lemma_pow_mod_noop(b0 * b0, half as nat, m as int);
        }
        let ghost p1 = pow(((b0 * b0) % m as int), half as nat);
        let ghost p2 = pow(b0 * b0, half as nat);
        proof {
            // pow of the reduced square agrees with pow of the square, modulo m
            assert(p1 % m as int == p2 % m as int);
        }
        if e % 2 == 1 {
            proof {
                assert(e0 == 2 * (half as nat) + 1);
                lemma_pow1(b0);
                lemma_pow_adds(b0, 1, 2 * (half as nat));
                assert(pow(b0, e0) == b0 * p2);
                assert(mul_mod((acc0 * b0) % m as int, p1, m as int)
                    == mul_mod(acc0, pow(b0, e0), m as int)) by {
                    lemma_mul_mod_noop_general(acc0 * b0, p1, m as int);
                    lemma_mul_mod_noop_general(acc0 * b0, p2, m as int);
                    assert(((acc0 * b0) % m as int * p1) % m as int
                        == ((acc0 * b0) * p2) % m as int);
                    lemma_mul_is_associative(acc0, b0, p2);
                };
            }
            acc = (acc * b) % m;
        } else {
            proof {
                assert(e0 == 2 * (half as nat));
                assert(mul_mod(acc0, p1, m as int) == mul_mod(acc0, pow(b0, e0), m as int)) by {
                    lemma_mul_mod_noop_general(acc0, p1, m as int);
                    lemma_mul_mod_noop_general(acc0, p2, m as int);
                };
            }
        }
        b = (b * b) % m;
        e = half;
    }
    proof {
        lemma_pow0(b as int);
        assert(acc as int * 1 == acc as int);
        lemma_small_mod(acc as nat, m as nat);
    }
    acc
}

} // verus!
