//! The order of the numbers, and how it is read off their patterns.

use vstd::prelude::*;
use crate::binary32::pattern::{
    is_nan, lemma_weight_increases, lemma_weight_smallest, magnitude, negative, weight, INFINITY,
    SIGN,
};

verus! {

/// The number that a pattern other than "not a number" stands for, in units
/// of 2^-149; an infinity stands at 2^128 on its side.
pub open spec fn value(x: u32) -> int {
    if negative(x) {
        -(weight(magnitude(x)) as int)
    } else {
        weight(magnitude(x)) as int
    }
}

/// `a < b` as numbers: false where either is "not a number".
pub open spec fn less(a: u32, b: u32) -> bool {
    !is_nan(a) && !is_nan(b) && value(a) < value(b)
}

/// `a <= b` as numbers: false where either is "not a number".
pub open spec fn at_most(a: u32, b: u32) -> bool {
    !is_nan(a) && !is_nan(b) && value(a) <= value(b)
}

/// Where a pattern stands among the patterns when they are laid out in the
/// order of their numbers: both zeros at 0, the negative patterns mirrored
/// below them.
pub open spec fn rank(x: u32) -> int {
    if negative(x) {
        -(magnitude(x) as int)
    } else {
        magnitude(x) as int
    }
}

/// The patterns rank as the numbers they stand for.
pub proof fn lemma_rank_is_by_value(a: u32, b: u32)
    requires
        !is_nan(a),
        !is_nan(b),
    ensures
        (rank(a) < rank(b)) == (value(a) < value(b)),
        (rank(a) == rank(b)) == (value(a) == value(b)),
{
    let ma = magnitude(a);
    let mb = magnitude(b);
    lemma_weight_smallest();
    if ma > 0 {
        lemma_weight_increases(0, ma);
    }
    if mb > 0 {
        lemma_weight_increases(0, mb);
    }
    if ma < mb {
        lemma_weight_increases(ma, mb);
    }
    if mb < ma {
        lemma_weight_increases(mb, ma);
    }
}

/// Compares two patterns as numbers.
pub fn less_than(a: u32, b: u32) -> (r: bool)
    ensures
        r == less(a, b),
{
    let ma: u32 = a % SIGN;
    let mb: u32 = b % SIGN;
    if ma > INFINITY || mb > INFINITY {
        false
    } else {
        proof {
            lemma_rank_is_by_value(a, b);
        }
        if a >= SIGN {
            if b >= SIGN {
                mb < ma
            } else {
                ma > 0 || mb > 0
            }
        } else {
            b < SIGN && ma < mb
        }
    }
}

} // verus!
