//! Numbers as IEEE-754 binary64 bit patterns.
//!
//! The library never performs floating-point arithmetic itself; a number is
//! carried as the 64 bit pattern of a binary64 value.  What the rest of the
//! crate needs to know about a pattern — whether it is finite and whether it
//! is non-negative — is plain bit logic over the documented binary64 layout
//! (1 sign bit, 11 exponent bits, 52 fraction bits) and is verified here.

use vstd::prelude::*;

verus! {

/// The exponent field of `b`, bits 62..52.
pub open spec fn exponent_bits(b: u64) -> u64 {
    (b >> 52) & 0x7ff
}

/// A binary64 pattern is finite when its exponent field is not all ones
/// (all ones encodes an infinity or a NaN).
pub open spec fn is_finite_bits(b: u64) -> bool {
    exponent_bits(b) != 0x7ff
}

/// A binary64 pattern compares `>= 0.0` when its sign bit is clear, or when
/// it is the negative zero pattern (negative zero equals zero).
pub open spec fn is_nonneg_bits(b: u64) -> bool {
    (b >> 63) == 0 || b == 0x8000000000000000
}

/// A pattern is accepted as a shape dimension when it is finite and
/// non-negative.
pub open spec fn valid_bits(b: u64) -> bool {
    is_finite_bits(b) && is_nonneg_bits(b)
}

/// A shape dimension: the bit pattern of an IEEE-754 binary64 value.
#[derive(Clone, Copy, Debug, PartialEq, Eq, Structural)]
pub struct Num {
    pub bits: u64,
}

impl Num {
    /// The invariant every number held by a shape satisfies.
    pub open spec fn is_valid(self) -> bool {
        valid_bits(self.bits)
    }

    /// Decides `valid_bits` on a concrete pattern.
    pub fn check(bits: u64) -> (r: bool)
        ensures
            r == valid_bits(bits),
    {
        let exp: u64 = (bits >> 52) & 0x7ff;
        let finite: bool = exp != 0x7ff;
        let nonneg: bool = (bits >> 63) == 0 || bits == 0x8000000000000000;
        finite && nonneg
    }

    /// Wraps a pattern after checking the invariant.
    pub fn new(bits: u64) -> (r: Option<Num>)
        ensures
            valid_bits(bits) ==> r == Some(Num { bits }),
            !valid_bits(bits) ==> r is None,
    {
        if Num::check(bits) {
            Some(Num { bits })
        } else {
            None
        }
    }
}

} // verus!
