//! Rounding to nearest, ties to even, stated of a ratio of natural numbers.

use vstd::prelude::*;
use vstd::arithmetic::power2::*;
use crate::binary32::pattern::{
    grade, lemma_weight_increases, lemma_weight_smallest, lemma_weight_step, significand, weight,
    BINADE, INFINITY,
};

verus! {

/// `m` does not lie below the ratio `n / d` by more than half a step, and
/// where it lies below by exactly half a step it is even.
pub open spec fn reaches(m: u32, n: nat, d: nat) -> bool {
    m < INFINITY ==> {
        let twice_mid = weight(m) + weight((m + 1) as u32);
        2 * n < twice_mid * d || (2 * n == twice_mid * d && m % 2 == 0)
    }
}

/// `m` does not lie above the ratio `n / d` by more than half a step, and
/// where it lies above by exactly half a step it is even.
pub open spec fn stays(m: u32, n: nat, d: nat) -> bool {
    m > 0 ==> {
        let twice_mid = weight((m - 1) as u32) + weight(m);
        2 * n > twice_mid * d || (2 * n == twice_mid * d && m % 2 == 0)
    }
}

/// `m` is the magnitude nearest to the ratio `n / d` (in units of 2^-149),
/// ties going to the even pattern, and anything at or beyond the midpoint
/// between the largest finite number and 2^128 going to infinity.
pub open spec fn nearest(m: u32, n: nat, d: nat) -> bool {
    &&& m <= INFINITY
    &&& reaches(m, n, d)
    &&& stays(m, n, d)
}

/// The magnitude nearest to the ratio `n / d`, in units of 2^-149. There is
/// exactly one, by `lemma_nearest_exists` and `lemma_nearest_unique`.
pub open spec fn rounded(n: nat, d: nat) -> u32 {
    choose|m: u32| nearest(m, n, d)
}

/// A magnitude that reaches the ratio leaves every larger one too far above it.
proof fn lemma_between(lo: u32, hi: u32, n: nat, d: nat)
    requires
        d > 0,
        lo < hi <= INFINITY,
        reaches(lo, n, d),
    ensures
        !stays(hi, n, d),
{
    let up = (lo + 1) as u32;
    let down = (hi - 1) as u32;
    let a = weight(lo) + weight(up);
    let b = weight(down) + weight(hi);
    if up < hi {
        lemma_weight_increases(lo, down);
        lemma_weight_increases(up, hi);
        assert(a < b);
        assert(a * d < b * d) by (nonlinear_arith)
            requires
                a < b,
                d > 0,
        ;
    } else {
        assert(a == b);
        assert(lo % 2 != hi % 2);
    }
}

/// At most one magnitude is nearest to a given ratio.
pub proof fn lemma_nearest_unique(m1: u32, m2: u32, n: nat, d: nat)
    requires
        d > 0,
        nearest(m1, n, d),
        nearest(m2, n, d),
    ensures
        m1 == m2,
{
    if m1 < m2 {
        lemma_between(m1, m2, n, d);
    } else if m2 < m1 {
        lemma_between(m2, m1, n, d);
    }
}

/// A magnitude that is nearest to a ratio is the rounded ratio.
pub proof fn lemma_rounded(m: u32, n: nat, d: nat)
    requires
        d > 0,
        nearest(m, n, d),
    ensures
        rounded(n, d) == m,
{
    lemma_nearest_unique(m, rounded(n, d), n, d);
}

/// A number lies on the same side of two fractions that present one ratio.
proof fn lemma_same_side(w: nat, n1: nat, d1: nat, n2: nat, d2: nat)
    requires
        d1 > 0,
        d2 > 0,
        n1 * d2 == n2 * d1,
    ensures
        (2 * n1 < w * d1) == (2 * n2 < w * d2),
        (2 * n1 == w * d1) == (2 * n2 == w * d2),
{
    let x = 2 * n1 - w * d1;
    let y = 2 * n2 - w * d2;
    assert(x * d2 == y * d1) by (nonlinear_arith)
        requires
            x == 2 * n1 - w * d1,
            y == 2 * n2 - w * d2,
            n1 * d2 == n2 * d1,
    ;
    assert((x < 0) == (y < 0) && (x == 0) == (y == 0)) by (nonlinear_arith)
        requires
            x * d2 == y * d1,
            d1 > 0,
            d2 > 0,
    ;
}

/// Whether a magnitude is nearest to a ratio depends on the ratio alone, not
/// on the fraction that presents it.
pub proof fn lemma_nearest_same_ratio(m: u32, n1: nat, d1: nat, n2: nat, d2: nat)
    requires
        d1 > 0,
        d2 > 0,
        n1 * d2 == n2 * d1,
        nearest(m, n1, d1),
    ensures
        nearest(m, n2, d2),
{
    if m < INFINITY {
        lemma_same_side(weight(m) + weight((m + 1) as u32), n1, d1, n2, d2);
    }
    if m > 0 {
        lemma_same_side(weight((m - 1) as u32) + weight(m), n1, d1, n2, d2);
    }
}

/// The largest magnitude up to `top` that stays with the ratio `n / d`.
spec fn highest_staying(top: u32, n: nat, d: nat) -> u32
    decreases top,
{
    if top == 0 || stays(top, n, d) {
        top
    } else {
        highest_staying((top - 1) as u32, n, d)
    }
}

/// It stays, and the next one up, if there is one, does not.
proof fn lemma_highest_staying(top: u32, n: nat, d: nat)
    requires
        top <= INFINITY,
    ensures
        highest_staying(top, n, d) <= top,
        stays(highest_staying(top, n, d), n, d),
        highest_staying(top, n, d) < top ==> !stays(
            (highest_staying(top, n, d) + 1) as u32,
            n,
            d,
        ),
    decreases top,
{
    if !(top == 0 || stays(top, n, d)) {
        lemma_highest_staying((top - 1) as u32, n, d);
    }
}

/// Every ratio has a nearest magnitude, and `rounded` is one.
pub proof fn lemma_nearest_exists(n: nat, d: nat)
    requires
        d > 0,
    ensures
        nearest(rounded(n, d), n, d),
{
    let m = highest_staying(INFINITY, n, d);
    lemma_highest_staying(INFINITY, n, d);
    assert(nearest(m, n, d));
}

/// A ratio that a finite magnitude is worth exactly rounds to that magnitude.
pub proof fn lemma_exact(m: u32, d: nat)
    requires
        m < INFINITY,
        d > 0,
    ensures
        rounded(weight(m) * d, d) == m,
{
    let w = weight(m);
    let n = w * d;
    lemma_weight_step(m);
    lemma_pow2_pos(grade(m));
    let above = weight((m + 1) as u32);
    assert(2 * n < (w + above) * d) by (nonlinear_arith)
        requires
            n == w * d,
            w < above,
            d > 0,
    ;
    if m > 0 {
        let under = (m - 1) as u32;
        lemma_weight_increases(under, m);
        let below = weight(under);
        assert(2 * n > (below + w) * d) by (nonlinear_arith)
            requires
                n == w * d,
                below < w,
                d > 0,
        ;
    }
    lemma_rounded(m, n, d);
}

/// Zero is the magnitude nearest to a ratio that is zero.
pub(crate) proof fn lemma_zero_ratio(d: nat)
    requires
        d > 0,
    ensures
        rounded(0, d) == 0,
{
    lemma2_to64();
    lemma_weight_smallest();
    assert((0 + 1) * d > 0) by (nonlinear_arith)
        requires
            d > 0,
    ;
    lemma_rounded(0, 0, d);
}

/// A ratio that rounds into the normal range is off its rounded value by at
/// most 2^-24 of that value.
pub proof fn lemma_rounding_error(m: u32, n: nat, d: nat)
    requires
        d > 0,
        nearest(m, n, d),
        BINADE <= m < INFINITY,
    ensures
        0x100_0000 * (n - weight(m) * d) <= weight(m) * d,
        0x100_0000 * (weight(m) * d - n) <= weight(m) * d,
{
    let w = weight(m);
    let under = (m - 1) as u32;
    let step = pow2(grade(m));
    let step_below = pow2(grade(under));
    lemma_weight_step(m);
    lemma_weight_step(under);
    if grade(under) < grade(m) {
        lemma_pow2_strictly_increases(grade(under), grade(m));
    }
    lemma_pow2_pos(grade(under));
    assert(w >= 0x80_0000 * step) by (nonlinear_arith)
        requires
            w == significand(m) * step,
            significand(m) >= 0x80_0000,
            step > 0,
    ;
    let above = weight((m + 1) as u32);
    let below = weight(under);
    assert(0x100_0000 * (n - w * d) <= w * d) by (nonlinear_arith)
        requires
            2 * n <= (w + above) * d,
            above == w + step,
            w >= 0x80_0000 * step,
            d > 0,
    ;
    assert(0x100_0000 * (w * d - n) <= w * d) by (nonlinear_arith)
        requires
            2 * n >= (below + w) * d,
            w == below + step_below,
            0 < step_below <= step,
            w >= 0x80_0000 * step,
            d > 0,
    ;
}

} // verus!
