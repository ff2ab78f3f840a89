//! The numbers of a content stream. The library stores them and tells a few
//! things about them from their bits; it never computes with them.

use vstd::prelude::*;

verus! {

/// A number in single precision, kept as the 32 bits of its IEEE 754
/// form: one sign bit, eight exponent bits, 23 fraction bits.
#[derive(Debug, Clone, Copy, PartialEq, Eq, Structural)]
pub struct Number {
    pub bits: u32,
}

/// The bits of the smallest magnitude that is not finite: infinity.
pub const INFINITY_BITS: u32 = 0x7f80_0000;

/// The bits of the machine epsilon of single precision, 2 to the power -23.
pub const EPSILON_BITS: u32 = 0x3400_0000;

/// The bits of the number one.
pub const ONE_BITS: u32 = 0x3f80_0000;

impl Number {
    /// The bits without the sign bit. Among numbers, a larger magnitude has
    /// larger bits.
    pub open spec fn magnitude_bits(self) -> int {
        self.bits as int % 0x8000_0000
    }

    /// The number is neither an infinity nor a NaN.
    pub open spec fn spec_is_finite(self) -> bool {
        self.magnitude_bits() < INFINITY_BITS
    }

    /// The number is closer to zero than the machine epsilon.
    pub open spec fn spec_is_negligible(self) -> bool {
        self.magnitude_bits() < EPSILON_BITS
    }

    /// The number zero.
    pub open spec fn spec_zero() -> Number {
        Number { bits: 0 }
    }

    /// The number one.
    pub open spec fn spec_one() -> Number {
        Number { bits: ONE_BITS }
    }

    /// The number with the given bits.
    pub fn from_bits(bits: u32) -> (r: Number)
        ensures
            r.bits == bits,
    {
        Number { bits }
    }

    /// The number zero.
    pub fn zero() -> (r: Number)
        ensures
            r == Self::spec_zero(),
    {
        Number { bits: 0 }
    }

    /// The number one.
    pub fn one() -> (r: Number)
        ensures
            r == Self::spec_one(),
    {
        Number { bits: ONE_BITS }
    }

    /// Whether the number is neither an infinity nor a NaN.
    pub fn is_finite(self) -> (r: bool)
        ensures
            r == self.spec_is_finite(),
    {
        self.bits % 0x8000_0000 < INFINITY_BITS
    }

    /// Whether the number is closer to zero than the machine epsilon.
    pub fn is_negligible(self) -> (r: bool)
        ensures
            r == self.spec_is_negligible(),
    {
        self.bits % 0x8000_0000 < EPSILON_BITS
    }
}

/// A point or an offset in the plane.
#[derive(Debug, Clone, Copy, PartialEq, Eq, Structural)]
pub struct Point {
    pub x: Number,
    pub y: Number,
}

/// An affine map of the plane, by its six coefficients.
#[derive(Debug, Clone, Copy, PartialEq, Eq, Structural)]
pub struct Matrix {
    pub a: Number,
    pub b: Number,
    pub c: Number,
    pub d: Number,
    pub e: Number,
    pub f: Number,
}

impl Matrix {
    /// The map that leaves every point where it is.
    pub open spec fn spec_identity() -> Matrix {
        Matrix {
            a: Number::spec_one(),
            b: Number::spec_zero(),
            c: Number::spec_zero(),
            d: Number::spec_one(),
            e: Number::spec_zero(),
            f: Number::spec_zero(),
        }
    }

    /// The map that leaves every point where it is.
    pub fn identity() -> (m: Matrix)
        ensures
            m == Self::spec_identity(),
    {
        Matrix {
            a: Number::one(),
            b: Number::zero(),
            c: Number::zero(),
            d: Number::one(),
            e: Number::zero(),
            f: Number::zero(),
        }
    }
}

} // verus!
