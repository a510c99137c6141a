//! Division and multiplication in the default rounding mode.

use vstd::prelude::*;
use vstd::arithmetic::power2::*;
use crate::binary32::nearest::{
    lemma_exact, lemma_nearest_same_ratio, lemma_rounded, lemma_zero_ratio, rounded,
};
use crate::binary32::pattern::{
    is_infinite, is_nan, is_zero, lemma_weight_increases, lemma_weight_of_one,
    lemma_weight_smallest, magnitude, negative, signed, weight, INFINITY, NAN, ONE, SIGN,
};
use crate::binary32::round::{dropped, lifted, normalise, round_to_nearest};

verus! {

/// The quotient of two patterns: "not a number" where an operand is, and for
/// zero by zero and infinity by infinity; otherwise the sign is the product
/// of the signs and the magnitude is the exact quotient rounded to nearest.
pub open spec fn quotient_of(a: u32, b: u32) -> u32 {
    if is_nan(a) || is_nan(b) || (is_infinite(a) && is_infinite(b)) || (is_zero(a) && is_zero(b)) {
        NAN
    } else {
        signed(
            negative(a) != negative(b),
            if is_infinite(a) || is_zero(b) {
                INFINITY
            } else if is_infinite(b) {
                0
            } else {
                rounded(weight(magnitude(a)) * pow2(149), weight(magnitude(b)))
            },
        )
    }
}

/// The product of two patterns: "not a number" where an operand is, and for
/// zero times infinity; otherwise the sign is the product of the signs and
/// the magnitude is the exact product rounded to nearest.
pub open spec fn product_of(a: u32, b: u32) -> u32 {
    if is_nan(a) || is_nan(b) || (is_infinite(a) && is_zero(b)) || (is_zero(a) && is_infinite(b)) {
        NAN
    } else {
        signed(
            negative(a) != negative(b),
            if is_infinite(a) || is_infinite(b) {
                INFINITY
            } else {
                rounded(weight(magnitude(a)) * weight(magnitude(b)), pow2(149))
            },
        )
    }
}

/// Puts the sign on a magnitude.
fn with_sign(minus: bool, m: u32) -> (x: u32)
    requires
        m <= INFINITY,
    ensures
        x == signed(minus, m),
{
    if minus {
        m + SIGN
    } else {
        m
    }
}

/// Two fractions present one ratio when their terms, each cleared of the
/// factor 2^23 that normalising introduced, multiply out alike.
proof fn lemma_ratio_of_quotient(
    wa: nat,
    wb: nat,
    sa: nat,
    sb: nat,
    pa: nat,
    pb: nat,
    c: nat,
    k: nat,
    j: nat,
    u: nat,
    s: nat,
)
    requires
        c > 0,
        sa * pa == wa * c,
        sb * pb == wb * c,
        k * j * pb == pa * u * s,
    ensures
        (sa * k * j) * wb == (wa * u) * (sb * s),
{
    let both = sa * sb;
    assert(((sa * k * j) * wb) * c == both * (k * j * pb)) by (nonlinear_arith)
        requires
            sb * pb == wb * c,
            both == sa * sb,
    ;
    assert(((wa * u) * (sb * s)) * c == both * (pa * u * s)) by (nonlinear_arith)
        requires
            sa * pa == wa * c,
            both == sa * sb,
    ;
    let x = (sa * k * j) * wb;
    let y = (wa * u) * (sb * s);
    assert(x == y) by (nonlinear_arith)
        requires
            x * c == y * c,
            c > 0,
    ;
}

/// The magnitude of the quotient of two finite, nonzero magnitudes.
fn quotient_magnitude(ma: u32, mb: u32) -> (m: u32)
    requires
        0 < ma < INFINITY,
        0 < mb < INFINITY,
    ensures
        m <= INFINITY,
        m == rounded(weight(ma) * pow2(149), weight(mb)),
{
    let (sa, ea) = normalise(ma);
    let (sb, eb) = normalise(mb);
    // The ratio of the significands lies between a half and two: scaled by
    // 2^k, its integer part has 26 bits, two more than the result keeps.
    let k: i32 = if sa < sb {
        26
    } else {
        25
    };
    let num: u64 = if sa < sb {
        sa * 0x400_0000
    } else {
        sa * 0x200_0000
    };
    let n: u64 = num / sb;
    let sticky: bool = num % sb != 0;
    let t: i32 = ea - eb + 149 - k;
    proof {
        let r = num % sb;
        assert(num == n * sb + r && 0 <= r < sb) by {
            vstd::arithmetic::div_mod::lemma_fundamental_div_mod(num as int, sb as int);
            assert(sb * n == n * sb) by (nonlinear_arith);
        }
        assert(0x200_0000 <= n < 0x400_0000) by (nonlinear_arith)
            requires
                num == n * sb + r,
                0 <= r < sb,
                0x80_0000 <= sa < 0x100_0000,
                0x80_0000 <= sb < 0x100_0000,
                num == if sa < sb {
                    sa * 0x400_0000
                } else {
                    sa * 0x200_0000
                },
        ;
    }
    let m = round_to_nearest(n, sticky, t, Ghost(num as nat), Ghost(sb as nat));
    proof {
        lemma2_to64();
        let j = lifted(t as int);
        let s = dropped(t as int);
        let wa = weight(ma);
        let wb = weight(mb);
        let xa = (ea + 23) as nat;
        let xb = (eb + 23) as nat;
        lemma_weight_increases(0, mb);
        lemma_pow2_pos(s);
        lemma_pow2_adds(k as nat, j);
        lemma_pow2_adds(k as nat + j, xb);
        lemma_pow2_adds(xa, 149);
        lemma_pow2_adds(xa + 149, s);
        assert(k as nat + j + xb == xa + 149 + s);
        assert(num == sa * pow2(k as nat));
        lemma_ratio_of_quotient(
            wa,
            wb,
            sa as nat,
            sb as nat,
            pow2(xa),
            pow2(xb),
            pow2(23),
            pow2(k as nat),
            pow2(j),
            pow2(149),
            pow2(s),
        );
        assert(num * pow2(j) == sa * pow2(k as nat) * pow2(j));
        assert(sb * pow2(s) > 0) by (nonlinear_arith)
            requires
                sb > 0,
                pow2(s) > 0,
        ;
        lemma_nearest_same_ratio(
            m,
            (num as nat) * pow2(j),
            (sb as nat) * pow2(s),
            wa * pow2(149),
            wb,
        );
        lemma_rounded(m, wa * pow2(149), wb);
    }
    m
}

/// Divides `a` by `b` as IEEE 754 does in its default rounding mode. Every
/// "not a number" result is the one pattern `NAN`.
pub fn quotient(a: u32, b: u32) -> (q: u32)
    ensures
        q == quotient_of(a, b),
{
    let ma: u32 = a % SIGN;
    let mb: u32 = b % SIGN;
    let minus: bool = (a >= SIGN) != (b >= SIGN);
    if ma > INFINITY || mb > INFINITY {
        NAN
    } else if ma == INFINITY {
        if mb == INFINITY {
            NAN
        } else {
            with_sign(minus, INFINITY)
        }
    } else if mb == INFINITY {
        with_sign(minus, 0)
    } else if mb == 0 {
        if ma == 0 {
            NAN
        } else {
            with_sign(minus, INFINITY)
        }
    } else if ma == 0 {
        proof {
            lemma_weight_increases(0, mb);
            lemma_zero_ratio(weight(mb));
            lemma_weight_smallest();
            assert(weight(ma) * pow2(149) == 0) by (nonlinear_arith)
                requires
                    weight(ma) == 0,
            ;
        }
        with_sign(minus, 0)
    } else {
        let m = quotient_magnitude(ma, mb);
        proof {
            lemma_weight_increases(0, mb);
        }
        with_sign(minus, m)
    }
}

/// As for the quotient, with the product of the significands in place of
/// their ratio.
proof fn lemma_ratio_of_product(
    wa: nat,
    wb: nat,
    sa: nat,
    sb: nat,
    pa: nat,
    pb: nat,
    c: nat,
    j: nat,
    u: nat,
    d: nat,
    s: nat,
)
    requires
        c > 0,
        sa * pa == wa * c,
        sb * pb == wb * c,
        j * u * c * c == pa * pb * d * s,
    ensures
        ((sa * sb) * j) * u == (wa * wb) * (d * s),
{
    let both = sa * sb;
    let x = (both * j) * u;
    let y = (wa * wb) * (d * s);
    assert(x * (c * c) == both * (j * u * c * c)) by (nonlinear_arith)
        requires
            x == (both * j) * u,
    ;
    let wc = wa * c;
    let vc = wb * c;
    assert(y * (c * c) == (wc * vc) * (d * s)) by (nonlinear_arith)
        requires
            y == (wa * wb) * (d * s),
            wc == wa * c,
            vc == wb * c,
    ;
    assert((wc * vc) * (d * s) == both * (pa * pb * d * s)) by (nonlinear_arith)
        requires
            wc == sa * pa,
            vc == sb * pb,
            both == sa * sb,
    ;
    let cc = c * c;
    assert(cc > 0) by (nonlinear_arith)
        requires
            cc == c * c,
            c > 0,
    ;
    assert(x == y) by (nonlinear_arith)
        requires
            x * cc == y * cc,
            cc > 0,
    ;
}

/// The magnitude of the product of two finite, nonzero magnitudes.
fn product_magnitude(ma: u32, mb: u32) -> (m: u32)
    requires
        0 < ma < INFINITY,
        0 < mb < INFINITY,
    ensures
        m <= INFINITY,
        m == rounded(weight(ma) * weight(mb), pow2(149)),
{
    let (sa, ea) = normalise(ma);
    let (sb, eb) = normalise(mb);
    assert(0x4000_0000_0000 <= sa * sb < 0x1_0000_0000_0000) by (nonlinear_arith)
        requires
            0x80_0000 <= sa < 0x100_0000,
            0x80_0000 <= sb < 0x100_0000,
    ;
    // The product of the significands has 47 or 48 bits: all but the leading
    // 26 are dropped, and `sticky` remembers whether any of them was set.
    let full: u64 = sa * sb;
    let c: i32 = if full < 0x8000_0000_0000 {
        21
    } else {
        22
    };
    let den: u64 = if full < 0x8000_0000_0000 {
        0x20_0000
    } else {
        0x40_0000
    };
    let n: u64 = full / den;
    let sticky: bool = full % den != 0;
    let t: i32 = ea + eb + c - 149;
    let m = round_to_nearest(n, sticky, t, Ghost(full as nat), Ghost(den as nat));
    proof {
        lemma2_to64();
        let j = lifted(t as int);
        let s = dropped(t as int);
        let wa = weight(ma);
        let wb = weight(mb);
        let xa = (ea + 23) as nat;
        let xb = (eb + 23) as nat;
        lemma_pow2_pos(s);
        lemma_pow2_pos(149);
        lemma_pow2_adds(j, 149);
        lemma_pow2_adds(j + 149, 23);
        lemma_pow2_adds(j + 149 + 23, 23);
        lemma_pow2_adds(xa, xb);
        lemma_pow2_adds(xa + xb, c as nat);
        lemma_pow2_adds(xa + xb + c as nat, s);
        assert(j + 149 + 23 + 23 == xa + xb + c as nat + s);
        assert(den == pow2(c as nat));
        lemma_ratio_of_product(
            wa,
            wb,
            sa as nat,
            sb as nat,
            pow2(xa),
            pow2(xb),
            pow2(23),
            pow2(j),
            pow2(149),
            pow2(c as nat),
            pow2(s),
        );
        assert(den * pow2(s) > 0) by (nonlinear_arith)
            requires
                den > 0,
                pow2(s) > 0,
        ;
        lemma_nearest_same_ratio(
            m,
            (full as nat) * pow2(j),
            (den as nat) * pow2(s),
            wa * wb,
            pow2(149),
        );
        lemma_rounded(m, wa * wb, pow2(149));
    }
    m
}

/// Multiplies `a` by `b` as IEEE 754 does in its default rounding mode. Every
/// "not a number" result is the one pattern `NAN`.
pub fn product(a: u32, b: u32) -> (p: u32)
    ensures
        p == product_of(a, b),
{
    let ma: u32 = a % SIGN;
    let mb: u32 = b % SIGN;
    let minus: bool = (a >= SIGN) != (b >= SIGN);
    if ma > INFINITY || mb > INFINITY {
        NAN
    } else if ma == INFINITY || mb == INFINITY {
        if ma == 0 || mb == 0 {
            NAN
        } else {
            with_sign(minus, INFINITY)
        }
    } else if ma == 0 || mb == 0 {
        proof {
            lemma_pow2_pos(149);
            lemma_zero_ratio(pow2(149));
            lemma_weight_smallest();
            assert(weight(ma) * weight(mb) == 0) by (nonlinear_arith)
                requires
                    weight(ma) == 0 || weight(mb) == 0,
            ;
        }
        with_sign(minus, 0)
    } else {
        let m = product_magnitude(ma, mb);
        proof {
            lemma_pow2_pos(149);
        }
        with_sign(minus, m)
    }
}

/// Multiplying or dividing a number by one gives the number.
pub proof fn lemma_one_is_neutral(x: u32)
    requires
        !is_nan(x),
    ensures
        product_of(x, ONE) == x,
        quotient_of(x, ONE) == x,
{
    let m = magnitude(x);
    lemma_weight_of_one();
    lemma_pow2_pos(149);
    if m < INFINITY {
        lemma_exact(m, pow2(149));
    }
}

} // verus!
