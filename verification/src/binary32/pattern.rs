//! The fields of a pattern and what its magnitude is worth.
//!
//! A pattern is a `u32`: one sign bit, eight exponent bits, twenty-three
//! fraction bits. What a magnitude is worth is counted in units of 2^-149,
//! the smallest positive number, so that it is a natural number.

use vstd::prelude::*;
use vstd::arithmetic::power2::*;

verus! {

/// The pattern of positive infinity, and the magnitude of either infinity.
pub const INFINITY: u32 = 0x7F80_0000;

/// The pattern that every operation here returns for "not a number".
pub const NAN: u32 = 0x7FC0_0000;

/// The pattern of 1.0.
pub const ONE: u32 = 0x3F80_0000;

/// The sign bit.
pub const SIGN: u32 = 0x8000_0000;

/// Fraction patterns per exponent: 2^23.
pub const BINADE: u32 = 0x80_0000;

/// The pattern with its sign bit cleared.
pub open spec fn magnitude(x: u32) -> u32 {
    (x % SIGN) as u32
}

/// Whether the sign bit is set.
pub open spec fn negative(x: u32) -> bool {
    x >= SIGN
}

pub open spec fn is_nan(x: u32) -> bool {
    magnitude(x) > INFINITY
}

pub open spec fn is_infinite(x: u32) -> bool {
    magnitude(x) == INFINITY
}

pub open spec fn is_zero(x: u32) -> bool {
    magnitude(x) == 0
}

/// Finite and not zero: a number that has a ratio to any other such number.
pub open spec fn is_proper(x: u32) -> bool {
    0 < magnitude(x) < INFINITY
}

/// Finite, not zero, and with the hidden bit set: a number that carries the
/// full 24 bits of precision.
pub open spec fn is_normal(x: u32) -> bool {
    BINADE <= magnitude(x) < INFINITY
}

/// The pattern with the given sign and magnitude.
pub open spec fn signed(minus: bool, m: u32) -> u32 {
    if minus {
        (m + SIGN) as u32
    } else {
        m
    }
}

/// The integer significand of a magnitude: the fraction bits, with the hidden
/// bit added unless the exponent field is zero.
pub open spec fn significand(m: u32) -> nat {
    if m / BINADE == 0 {
        (m % BINADE) as nat
    } else {
        (m % BINADE + BINADE) as nat
    }
}

/// The power of two by which the significand of a magnitude is scaled, in
/// units of 2^-149.
pub open spec fn grade(m: u32) -> nat {
    if m / BINADE == 0 {
        0
    } else {
        (m / BINADE - 1) as nat
    }
}

/// What a magnitude is worth, in units of 2^-149. The magnitude of infinity
/// is given the worth 2^128, one step above the largest finite number.
pub open spec fn weight(m: u32) -> nat {
    significand(m) * pow2(grade(m))
}

/// What a pattern is worth without its sign, in units of 2^-149.
pub open spec fn worth(x: u32) -> nat {
    weight(magnitude(x))
}

/// One step up in magnitude adds one unit of the lower pattern's grade.
pub proof fn lemma_weight_step(m: u32)
    requires
        m < INFINITY,
    ensures
        weight((m + 1) as u32) == weight(m) + pow2(grade(m)),
        grade((m + 1) as u32) >= grade(m),
{
    let e = m / BINADE;
    let f = m % BINADE;
    let up = (m + 1) as u32;
    if f < BINADE - 1 {
        assert(up / BINADE == e);
        assert(up % BINADE == f + 1);
        assert(weight(up) == (significand(m) + 1) * pow2(grade(m)));
        assert((significand(m) + 1) * pow2(grade(m)) == significand(m) * pow2(grade(m)) + pow2(
            grade(m),
        )) by (nonlinear_arith);
    } else {
        assert(up / BINADE == e + 1);
        assert(up % BINADE == 0);
        if e == 0 {
            assert(weight(up) == BINADE * pow2(0));
            assert(weight(m) == (BINADE - 1) * pow2(0));
            assert(BINADE * pow2(0) == (BINADE - 1) * pow2(0) + pow2(0)) by (nonlinear_arith);
        } else {
            lemma_pow2_unfold(e as nat);
            let p = pow2((e - 1) as nat);
            assert(weight(up) == BINADE * (2 * p));
            assert(weight(m) == (2 * BINADE - 1) * p);
            assert(BINADE * (2 * p) == (2 * BINADE - 1) * p + p) by (nonlinear_arith);
        }
    }
}

/// Weight grows strictly with the magnitude.
pub proof fn lemma_weight_increases(lo: u32, hi: u32)
    requires
        lo < hi <= INFINITY,
    ensures
        weight(lo) < weight(hi),
    decreases hi - lo,
{
    let below = (hi - 1) as u32;
    lemma_weight_step(below);
    lemma_pow2_pos(grade(below));
    if lo < below {
        lemma_weight_increases(lo, below);
    }
}

/// The weight of the magnitude assembled from a grade and a significand.
pub(crate) proof fn lemma_weight_assembled(j: nat, sig: nat)
    requires
        j <= 253,
        sig <= 2 * BINADE,
        j > 0 ==> sig >= BINADE,
    ensures
        j * BINADE + sig <= INFINITY,
        weight((j * BINADE + sig) as u32) == sig * pow2(j),
        ((j * BINADE + sig) as u32) % 2 == sig % 2,
{
    let m = (j * BINADE + sig) as u32;
    if sig == 2 * BINADE {
        assert(m / BINADE == j + 2);
        assert(m % BINADE == 0);
        lemma_pow2_unfold(j + 1);
        let p = pow2(j);
        assert(BINADE * (2 * p) == (2 * BINADE) * p) by (nonlinear_arith);
    } else if sig >= BINADE {
        assert(m / BINADE == j + 1);
        assert(m % BINADE == sig - BINADE);
    } else {
        assert(m / BINADE == 0);
        assert(m % BINADE == sig);
    }
}

/// Zero weighs nothing, and the smallest positive magnitude one unit.
pub(crate) proof fn lemma_weight_smallest()
    ensures
        weight(0) == 0,
        weight(1) == 1,
{
    lemma2_to64();
    lemma_weight_assembled(0, 0);
    lemma_weight_assembled(0, 1);
    assert(weight(0) == 0 && weight(1) == 1) by (nonlinear_arith)
        requires
            weight(0) == 0 * pow2(0),
            weight(1) == 1 * pow2(0),
            pow2(0) == 1,
    ;
}

/// One is worth 2^149 units.
pub proof fn lemma_weight_of_one()
    ensures
        weight(ONE) == pow2(149),
{
    assert(ONE / BINADE == 127 && ONE % BINADE == 0);
    lemma_pow2_adds(23, 126);
    lemma2_to64();
}

} // verus!
