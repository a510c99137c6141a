//! The rounding step that division and multiplication share, and the
//! normalisation of their operands.

use vstd::prelude::*;
use vstd::arithmetic::power2::*;
use crate::binary32::nearest::{nearest, reaches, stays};
use crate::binary32::pattern::{
    grade, lemma_weight_assembled, lemma_weight_increases, lemma_weight_smallest,
    lemma_weight_step, significand, weight, BINADE, INFINITY,
};

verus! {

/// The number of low bits that rounding drops from a 26-bit quotient whose
/// last bit is worth 2^(t - 149).
pub(crate) open spec fn dropped(t: int) -> nat {
    if t < -2 {
        (-t) as nat
    } else {
        2
    }
}

/// The grade at which such a quotient is rounded.
pub(crate) open spec fn lifted(t: int) -> nat {
    (t + dropped(t)) as nat
}

/// Rounding a truncated quotient to the nearest magnitude, ties to even.
///
/// `n` is the integer part of `num / den`, `s` the number of bits dropped from
/// it, `kept` and `rem` are `n` divided by 2^`s`, `j` is the grade of the
/// result and `up` the decision to take the next significand.
proof fn lemma_rounding(
    num: nat,
    den: nat,
    n: nat,
    s: nat,
    j: nat,
    kept: nat,
    rem: nat,
    up: bool,
)
    requires
        den > 0,
        n == num / den,
        0x200_0000 <= n < 0x400_0000,
        2 <= s,
        j <= 253,
        j > 0 ==> s == 2,
        n == kept * pow2(s) + rem,
        rem < pow2(s),
        up == (2 * rem > pow2(s) || (2 * rem == pow2(s) && (num % den != 0 || kept % 2 == 1))),
    ensures
        j * BINADE + kept + 1 <= INFINITY,
        nearest(
            (j * BINADE + kept + if up { 1nat } else { 0nat }) as u32,
            num * pow2(j),
            den * pow2(s),
        ),
{
    let unit = pow2(s);
    let p = pow2(j);
    let r = num % den;
    lemma_pow2_pos(j);
    lemma_pow2_unfold(s);
    lemma_pow2_unfold((s - 1) as nat);
    let quarter = pow2((s - 2) as nat);
    lemma_pow2_pos((s - 2) as nat);
    assert(unit == 4 * quarter);
    assert(kept < 0x100_0000) by (nonlinear_arith)
        requires
            n == kept * unit + rem,
            unit >= 4,
            n < 0x400_0000,
    ;
    if j > 0 {
        lemma2_to64();
        assert(unit == 4);
        assert(kept >= 0x80_0000) by (nonlinear_arith)
            requires
                n == kept * unit + rem,
                unit == 4,
                rem < unit,
                n >= 0x200_0000,
        ;
    }
    assert(num == n * den + r && 0 <= r < den) by {
        vstd::arithmetic::div_mod::lemma_fundamental_div_mod(num as int, den as int);
        vstd::arithmetic::div_mod::lemma_mod_bound(num as int, den as int);
        assert(den * n == n * den) by (nonlinear_arith);
    }
    lemma_weight_assembled(j, kept);
    lemma_weight_assembled(j, kept + 1);
    let low = (j * BINADE + kept) as u32;
    let high = (j * BINADE + kept + 1) as u32;
    // Twice the midpoint of `low` and `high`, scaled by the divisor, against
    // twice the dividend.
    let twice_mid = weight(low) + weight(high);
    assert(twice_mid == (2 * kept + 1) * p) by (nonlinear_arith)
        requires
            twice_mid == kept * p + (kept + 1) * p,
    ;
    let gap = 2 * num - (2 * kept + 1) * unit * den;
    assert(gap == (2 * rem - unit) * den + 2 * r) by (nonlinear_arith)
        requires
            gap == 2 * num - (2 * kept + 1) * unit * den,
            num == n * den + r,
            n == kept * unit + rem,
    ;
    assert(2 * (num * p) - twice_mid * (den * unit) == gap * p) by (nonlinear_arith)
        requires
            gap == 2 * num - (2 * kept + 1) * unit * den,
            twice_mid == (2 * kept + 1) * p,
    ;
    let side = 2 * rem - 4 * quarter;
    if up {
        let m = high;
        // No tie unless the remainder is exactly half and nothing was lost.
        assert(gap > 0 || (gap == 0 && kept % 2 == 1)) by (nonlinear_arith)
            requires
                gap == (2 * rem - unit) * den + 2 * r,
                2 * rem > unit || (2 * rem == unit && (r != 0 || kept % 2 == 1)),
                0 <= r < den,
        ;
        assert(gap * p > 0 || (gap * p == 0 && kept % 2 == 1)) by (nonlinear_arith)
            requires
                gap > 0 || (gap == 0 && kept % 2 == 1),
                p > 0,
        ;
        assert((m - 1) as u32 == low);
        assert(stays(m, num * p, den * unit));
        if m < INFINITY {
            lemma_weight_step(m);
            lemma_pow2_pos(grade(m));
            let above = weight((m + 1) as u32);
            assert(2 * (num * p) < (weight(m) + above) * (den * unit)) by (nonlinear_arith)
                requires
                    num == n * den + r,
                    r < den,
                    n == kept * unit + rem,
                    rem < unit,
                    weight(m) == (kept + 1) * p,
                    above > weight(m),
                    p > 0,
                    den > 0,
                    unit > 0,
            ;
        }
    } else {
        let m = low;
        assert(side % 2 == 0);
        assert(gap < 0 || (gap == 0 && kept % 2 == 0)) by (nonlinear_arith)
            requires
                gap == (2 * rem - unit) * den + 2 * r,
                unit == 4 * quarter,
                side == 2 * rem - 4 * quarter,
                side <= -2 || (side == 0 && r == 0 && kept % 2 == 0),
                0 <= r < den,
        ;
        assert(gap * p < 0 || (gap * p == 0 && kept % 2 == 0)) by (nonlinear_arith)
            requires
                gap < 0 || (gap == 0 && kept % 2 == 0),
                p > 0,
        ;
        assert((m + 1) as u32 == high);
        assert(reaches(m, num * p, den * unit));
        if m > 0 {
            let under = (m - 1) as u32;
            lemma_weight_increases(under, m);
            let below = weight(under);
            assert(2 * (num * p) > (below + weight(m)) * (den * unit)) by (nonlinear_arith)
                requires
                    num == n * den + r,
                    0 <= r,
                    n == kept * unit + rem,
                    0 <= rem,
                    weight(m) == kept * p,
                    below < weight(m),
                    p > 0,
                    den > 0,
                    unit > 0,
            ;
        }
    }
}

/// A quotient too small to reach half of the smallest positive number rounds
/// to zero.
proof fn lemma_vanishes(num: nat, den: nat, s: nat)
    requires
        den > 0,
        num / den < 0x400_0000,
        s >= 28,
    ensures
        nearest(0, num * pow2(0), den * pow2(s)),
{
    lemma2_to64();
    if s > 28 {
        lemma_pow2_strictly_increases(28, s);
    }
    let unit = pow2(s);
    let n = num / den;
    let r = num % den;
    assert(num == n * den + r && 0 <= r < den) by {
        vstd::arithmetic::div_mod::lemma_fundamental_div_mod(num as int, den as int);
        vstd::arithmetic::div_mod::lemma_mod_bound(num as int, den as int);
        assert(den * n == n * den) by (nonlinear_arith);
    }
    lemma_weight_smallest();
    assert(2 * (num * 1) < (0 + 1) * (den * unit)) by (nonlinear_arith)
        requires
            num == n * den + r,
            r < den,
            n < 0x400_0000,
            unit >= 0x1000_0000,
            den > 0,
    ;
}

/// A quotient of grade 254 or more rounds to infinity.
proof fn lemma_overflows(num: nat, den: nat, j: nat)
    requires
        den > 0,
        num / den >= 0x200_0000,
        j >= 254,
    ensures
        nearest(INFINITY, num * pow2(j), den * pow2(2)),
{
    lemma2_to64();
    if j > 254 {
        lemma_pow2_strictly_increases(254, j);
    }
    lemma_pow2_unfold(254);
    lemma_pow2_pos(253);
    let p = pow2(j);
    let q = pow2(253);
    let n = num / den;
    let r = num % den;
    assert(num == n * den + r && 0 <= r < den) by {
        vstd::arithmetic::div_mod::lemma_fundamental_div_mod(num as int, den as int);
        vstd::arithmetic::div_mod::lemma_mod_bound(num as int, den as int);
        assert(den * n == n * den) by (nonlinear_arith);
    }
    let last = (INFINITY - 1) as u32;
    assert(last / BINADE == 254 && last % BINADE == BINADE - 1);
    assert(INFINITY / BINADE == 255 && INFINITY % BINADE == 0);
    assert(weight(last) == (2 * BINADE - 1) * q);
    assert(weight(INFINITY) == BINADE * (2 * q));
    let twice_mid = weight(last) + weight(INFINITY);
    assert(twice_mid == 0x1ff_ffff * q) by (nonlinear_arith)
        requires
            twice_mid == (2 * 0x80_0000 - 1) * q + 0x80_0000 * (2 * q),
    ;
    assert(2 * (num * p) > twice_mid * (den * 4)) by (nonlinear_arith)
        requires
            num == n * den + r,
            0 <= r,
            n >= 0x200_0000,
            p >= 2 * q,
            q > 0,
            den > 0,
            twice_mid == 0x1ff_ffff * q,
    ;
}

/// Rounds the 26-bit quotient `n` of `num / den`, whose last bit is worth
/// 2^(t - 149), to the nearest magnitude; `sticky` tells whether the division
/// left a remainder.
pub(crate) fn round_to_nearest(
    n: u64,
    sticky: bool,
    t: i32,
    Ghost(num): Ghost<nat>,
    Ghost(den): Ghost<nat>,
) -> (m: u32)
    requires
        den > 0,
        n == num / den,
        sticky == (num % den != 0),
        0x200_0000 <= n < 0x400_0000,
        -1000 <= t <= 1000,
    ensures
        nearest(m, num * pow2(lifted(t as int)), den * pow2(dropped(t as int))),
{
    // A normal result keeps 24 of the 26 bits; one at the foot of the range
    // keeps only those worth a unit or more.
    let s: u32 = if t < -2 {
        (-t) as u32
    } else {
        2
    };
    let j: u32 = (t + s as i32) as u32;
    assert(s == dropped(t as int) && j == lifted(t as int));
    if s > 27 {
        proof {
            lemma_vanishes(num, den, s as nat);
        }
        return 0;
    }
    if j > 253 {
        proof {
            lemma_overflows(num, den, j as nat);
        }
        return INFINITY;
    }
    proof {
        lemma2_to64();
        lemma_pow2_strictly_increases(s as nat, 28);
        vstd::bits::lemma_u64_shl_is_mul(1, s as u64);
    }
    let unit: u64 = 1u64 << (s as u64);
    let kept: u64 = n / unit;
    let rem: u64 = n % unit;
    let half: u64 = unit / 2;
    let up: bool = rem > half || (rem == half && (sticky || kept % 2 == 1));
    proof {
        lemma_pow2_unfold(s as nat);
        assert(unit == 2 * half);
        assert(n == kept * unit + rem) by {
            vstd::arithmetic::div_mod::lemma_fundamental_div_mod(n as int, unit as int);
            assert(unit * kept == kept * unit) by (nonlinear_arith);
        }
        lemma_rounding(num, den, n as nat, s as nat, j as nat, kept as nat, rem as nat, up);
    }
    let sig: u64 = if up {
        kept + 1
    } else {
        kept
    };
    // The hidden bit of the significand, where it is set, carries into the
    // exponent field; so does a significand that rounded up to 2^24.
    let m: u64 = (j as u64) * 0x80_0000 + sig;
    m as u32
}

/// The significand of a finite, nonzero magnitude shifted up until its
/// leading bit is bit 23, and the power of two that this leaves: the
/// magnitude is worth `r.0 * 2^r.1` units.
pub(crate) fn normalise(m: u32) -> (r: (u64, i32))
    requires
        0 < m < INFINITY,
    ensures
        BINADE <= r.0 < 2 * BINADE,
        -23 <= r.1 <= 253,
        r.0 * pow2((r.1 + 23) as nat) == weight(m) * pow2(23),
{
    let e: u32 = m / BINADE;
    let f: u32 = m % BINADE;
    if e > 0 {
        proof {
            let g = (e - 1) as nat;
            lemma_pow2_adds(g, 23);
            assert(weight(m) * pow2(23) == significand(m) * pow2(g + 23)) by (nonlinear_arith)
                requires
                    weight(m) == significand(m) * pow2(g),
                    pow2(g + 23) == pow2(g) * pow2(23),
            ;
        }
        return ((f + BINADE) as u64, (e - 1) as i32);
    }
    let mut sig: u64 = f as u64;
    let mut z: u32 = 0;
    proof {
        lemma2_to64();
        assert(weight(m) == f) by (nonlinear_arith)
            requires
                weight(m) == f * pow2(0),
                pow2(0) == 1,
        ;
    }
    while sig < 0x80_0000
        invariant
            0 < f < BINADE,
            z <= 23,
            sig == f * pow2(z as nat),
            sig < 2 * BINADE,
        decreases 23 - z,
    {
        proof {
            if z >= 23 {
                if z > 23 {
                    lemma_pow2_strictly_increases(23, z as nat);
                }
                lemma2_to64();
                assert(f * pow2(z as nat) >= pow2(z as nat)) by (nonlinear_arith)
                    requires
                        f >= 1,
                ;
            }
            lemma_pow2_unfold((z + 1) as nat);
            assert(2 * (f * pow2(z as nat)) == f * (2 * pow2(z as nat))) by (nonlinear_arith);
        }
        sig = sig * 2;
        z = z + 1;
    }
    proof {
        let up = z as nat;
        let down = (23 - z) as nat;
        lemma_pow2_adds(up, down);
        assert(sig * pow2(down) == f * pow2(23)) by (nonlinear_arith)
            requires
                sig == f * pow2(up),
                pow2(23) == pow2(up) * pow2(down),
        ;
    }
    (sig, -(z as i32))
}

} // verus!
