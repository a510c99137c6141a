//! IEEE 754 single-precision numbers as bit patterns, with the arithmetic
//! and the order that the record's rules need.
//!
//! Division and multiplication round to nearest, ties to even, as the
//! hardware does by default; every "not a number" result is the one pattern
//! `NAN`.

pub mod arithmetic;
pub mod nearest;
pub mod order;
pub mod pattern;
pub mod round;
pub mod tolerance;

pub use arithmetic::{product, product_of, quotient, quotient_of};
pub use order::{at_most, less, less_than};
pub use pattern::{
    is_infinite, is_nan, is_normal, is_proper, is_zero, magnitude, negative, weight, worth,
    BINADE, INFINITY, NAN, ONE, SIGN,
};
