//! IEEE-754 binary64 arithmetic over bit patterns.
//!
//! The library carries numbers as bit patterns and never computes on them
//! itself; the two operations the evaluator needs — multiplication and
//! addition — are delegated to `rustc_apfloat`, a software implementation of
//! IEEE-754 arithmetic.  Both operations are deterministic functions of the
//! operand bit patterns alone (round-to-nearest, ties to even; an overflowing
//! sum or product rounds to an infinity), so each is named by an
//! uninterpreted spec function that the contracts of the evaluator build on.

use vstd::prelude::*;
use rustc_apfloat::Float;

verus! {

/// The bit pattern of the IEEE-754 binary64 product of the binary64 values
/// with bit patterns `a` and `b`, rounded to nearest, ties to even.
pub uninterp spec fn mul_bits(a: u64, b: u64) -> u64;

/// The bit pattern of the IEEE-754 binary64 sum of the binary64 values with
/// bit patterns `a` and `b`, rounded to nearest, ties to even.
pub uninterp spec fn add_bits(a: u64, b: u64) -> u64;

/// The bit pattern of the binary64 value nearest to pi.
pub const PI_BITS: u64 = 0x400921FB54442D18;

/// The bit pattern of positive zero, the additive identity.
pub const ZERO_BITS: u64 = 0;

/// Relies on `rustc_apfloat::ieee::Double`'s `Mul` (round to nearest, ties
/// to even): the product's bit pattern is a function of the operands' bit
/// patterns alone.
#[verifier::external_body]
pub fn mul64(a: u64, b: u64) -> (r: u64)
    ensures
        r == mul_bits(a, b),
{
    let x = rustc_apfloat::ieee::Double::from_bits(a as u128);
    let y = rustc_apfloat::ieee::Double::from_bits(b as u128);
    (x * y).value.to_bits() as u64
}

/// Relies on `rustc_apfloat::ieee::Double`'s `Add` (round to nearest, ties
/// to even): the sum's bit pattern is a function of the operands' bit
/// patterns alone.
#[verifier::external_body]
pub fn add64(a: u64, b: u64) -> (r: u64)
    ensures
        r == add_bits(a, b),
{
    let x = rustc_apfloat::ieee::Double::from_bits(a as u128);
    let y = rustc_apfloat::ieee::Double::from_bits(b as u128);
    (x + y).value.to_bits() as u64
}

} // verus!
