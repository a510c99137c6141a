//! How far two roundings in a row can carry a ratio.

use vstd::prelude::*;
use vstd::arithmetic::power2::*;
use crate::binary32::arithmetic::{product_of, quotient_of};
use crate::binary32::nearest::{lemma_nearest_exists, lemma_rounding_error, rounded};
use crate::binary32::pattern::{
    is_normal, is_proper, lemma_weight_increases, magnitude, negative, worth,
};

verus! {

/// The ratio `n1 / d1` is off the ratio `n2 / d2` by at most 2^-22 of the
/// latter: two units in the last place of a significand.
pub open spec fn within_tolerance(n1: nat, d1: nat, n2: nat, d2: nat) -> bool {
    let gap = n1 * d2 - n2 * d1;
    0x40_0000 * gap <= n2 * d1 && 0x40_0000 * (-gap) <= n2 * d1
}

/// A product of two products, with the factors paired anew.
proof fn lemma_swap_inner(a: nat, b: nat, c: nat, d: nat)
    ensures
        (a * b) * (c * d) == (a * d) * (b * c),
        (a * b) * (c * d) == (a * c) * (b * d),
{
    assert((a * b) * (c * d) == (a * d) * (b * c)) by (nonlinear_arith);
    assert((a * b) * (c * d) == (a * c) * (b * d)) by (nonlinear_arith);
}

/// A gap between two products that shrinks with a common positive factor.
proof fn lemma_cancel_scale(x: nat, y: nat, scale: nat)
    requires
        scale > 0,
        0x40_0000 * (x * scale - y * scale) <= y * scale,
        0x40_0000 * (y * scale - x * scale) <= y * scale,
    ensures
        0x40_0000 * (x - y) <= y,
        0x40_0000 * (y - x) <= y,
{
    let up = 0x40_0000 * (x - y) - y;
    let down = 0x40_0000 * (y - x) - y;
    assert(up * scale == 0x40_0000 * (x * scale - y * scale) - y * scale) by (nonlinear_arith)
        requires
            up == 0x40_0000 * (x - y) - y,
    ;
    assert(down * scale == 0x40_0000 * (y * scale - x * scale) - y * scale) by (nonlinear_arith)
        requires
            down == 0x40_0000 * (y - x) - y,
    ;
    assert(up <= 0) by (nonlinear_arith)
        requires
            up * scale <= 0,
            scale > 0,
    ;
    assert(down <= 0) by (nonlinear_arith)
        requires
            down * scale <= 0,
            scale > 0,
    ;
}

/// Two products that are each within 2^-24 of another are, multiplied
/// crosswise, within 2^-22.
proof fn lemma_cross_error(a: nat, b: nat, c: nat, d: nat)
    requires
        0x100_0000 * (a - b) <= a,
        0x100_0000 * (b - a) <= a,
        0x100_0000 * (c - d) <= c,
        0x100_0000 * (d - c) <= c,
    ensures
        0x40_0000 * (d * a - b * c) <= b * c,
        0x40_0000 * (b * c - d * a) <= b * c,
{
    let da = d * a;
    let bc = b * c;
    // d <= (k + 1) / k * c and a <= k / (k - 1) * b
    assert(0xFF_FFFF * da <= 0x100_0001 * bc) by (nonlinear_arith)
        requires
            0x100_0000 * d <= 0x100_0001 * c,
            0xFF_FFFF * a <= 0x100_0000 * b,
            da == d * a,
            bc == b * c,
    ;
    // d >= (k - 1) / k * c and a >= k / (k + 1) * b
    assert(0x100_0001 * da >= 0xFF_FFFF * bc) by (nonlinear_arith)
        requires
            0x100_0000 * d >= 0xFF_FFFF * c,
            0x100_0001 * a >= 0x100_0000 * b,
            da == d * a,
            bc == b * c,
    ;
}

/// As `lemma_cross_error`, for a product of two rounded factors.
proof fn lemma_product_error(a: nat, b: nat, e: nat, f: nat)
    requires
        0x100_0000 * (a - b) <= a,
        0x100_0000 * (b - a) <= a,
        0x100_0000 * (e - f) <= e,
        0x100_0000 * (f - e) <= e,
    ensures
        0x40_0000 * (e * a - b * f) <= b * f,
        0x40_0000 * (b * f - e * a) <= b * f,
{
    let ea = e * a;
    let bf = b * f;
    let ef = e * b;
    // a <= k / (k - 1) * b, then e <= k / (k - 1) * f
    assert(0xFF_FFFF * ea <= 0x100_0000 * ef) by (nonlinear_arith)
        requires
            0xFF_FFFF * a <= 0x100_0000 * b,
            ea == e * a,
            ef == e * b,
    ;
    assert(0xFF_FFFF * ef <= 0x100_0000 * bf) by (nonlinear_arith)
        requires
            0xFF_FFFF * e <= 0x100_0000 * f,
            ef == e * b,
            bf == b * f,
    ;
    // a >= k / (k + 1) * b, then e >= k / (k + 1) * f
    assert(0x100_0001 * ea >= 0x100_0000 * ef) by (nonlinear_arith)
        requires
            0x100_0001 * a >= 0x100_0000 * b,
            ea == e * a,
            ef == e * b,
    ;
    assert(0x100_0001 * ef >= 0x100_0000 * bf) by (nonlinear_arith)
        requires
            0x100_0001 * e >= 0x100_0000 * f,
            ef == e * b,
            bf == b * f,
    ;
}

/// Dividing a number `w` by the quotient of `h` and `v` undoes that quotient
/// to within 2^-22: `w` is to the result as `h` is to `v`, with the same
/// sign, provided the three are finite and not zero and both quotients are in
/// the normal range.
pub proof fn lemma_quotient_undone(h: u32, v: u32, w: u32)
    requires
        is_proper(h),
        is_proper(v),
        is_proper(w),
        is_normal(quotient_of(h, v)),
        is_normal(quotient_of(w, quotient_of(h, v))),
    ensures
        within_tolerance(worth(w), worth(quotient_of(w, quotient_of(h, v))), worth(h), worth(v)),
        (negative(w) != negative(quotient_of(w, quotient_of(h, v)))) == (negative(h) != negative(
            v,
        )),
{
    let ratio = quotient_of(h, v);
    let result = quotient_of(w, ratio);
    let unit = pow2(149);
    let wh = worth(h);
    let wv = worth(v);
    let ww = worth(w);
    let wr = worth(ratio);
    let wq = worth(result);
    lemma_pow2_pos(149);
    lemma_weight_increases(0, magnitude(v));
    lemma_weight_increases(0, magnitude(ratio));
    lemma_nearest_exists(wh * unit, wv);
    assert(magnitude(ratio) == rounded(wh * unit, wv));
    lemma_rounding_error(magnitude(ratio), wh * unit, wv);
    lemma_nearest_exists(ww * unit, wr);
    assert(magnitude(result) == rounded(ww * unit, wr));
    lemma_rounding_error(magnitude(result), ww * unit, wr);
    let scale = unit * wr;
    assert(scale > 0) by (nonlinear_arith)
        requires
            scale == unit * wr,
            unit > 0,
            wr > 0,
    ;
    lemma_cross_error(wr * wv, wh * unit, wq * wr, ww * unit);
    lemma_swap_inner(ww, unit, wr, wv);
    lemma_swap_inner(wh, unit, wq, wr);
    assert((wh * unit) * (wq * wr) == (wh * wq) * scale);
    assert((ww * unit) * (wr * wv) == (ww * wv) * scale);
    lemma_cancel_scale(ww * wv, wh * wq, scale);
}

/// Multiplying a number `w` by the quotient of `h` and `v` restores that
/// quotient to within 2^-22: the result is to `w` as `h` is to `v`, with the
/// same sign, provided the three are finite and not zero and the quotient and
/// the product are in the normal range.
pub proof fn lemma_quotient_restored(h: u32, v: u32, w: u32)
    requires
        is_proper(h),
        is_proper(v),
        is_proper(w),
        is_normal(quotient_of(h, v)),
        is_normal(product_of(w, quotient_of(h, v))),
    ensures
        within_tolerance(worth(product_of(w, quotient_of(h, v))), worth(w), worth(h), worth(v)),
        (negative(product_of(w, quotient_of(h, v))) != negative(w)) == (negative(h) != negative(
            v,
        )),
{
    let ratio = quotient_of(h, v);
    let result = product_of(w, ratio);
    let unit = pow2(149);
    let wh = worth(h);
    let wv = worth(v);
    let ww = worth(w);
    let wr = worth(ratio);
    let wp = worth(result);
    lemma_pow2_pos(149);
    lemma_weight_increases(0, magnitude(v));
    lemma_weight_increases(0, magnitude(ratio));
    lemma_nearest_exists(wh * unit, wv);
    assert(magnitude(ratio) == rounded(wh * unit, wv));
    lemma_rounding_error(magnitude(ratio), wh * unit, wv);
    lemma_nearest_exists(ww * wr, unit);
    assert(magnitude(result) == rounded(ww * wr, unit));
    lemma_rounding_error(magnitude(result), ww * wr, unit);
    let scale = unit * wr;
    assert(scale > 0) by (nonlinear_arith)
        requires
            scale == unit * wr,
            unit > 0,
            wr > 0,
    ;
    lemma_product_error(wr * wv, wh * unit, wp * unit, ww * wr);
    lemma_swap_inner(wp, unit, wr, wv);
    lemma_swap_inner(wh, unit, ww, wr);
    assert((wp * unit) * (wr * wv) == (wp * wv) * scale);
    assert((wh * unit) * (ww * wr) == (wh * ww) * scale);
    lemma_cancel_scale(wp * wv, wh * ww, scale);
}

} // verus!
