use vstd::prelude::*;

verus! {

/// A sensor reading, held as the IEEE-754 binary64 encoding of the number.
#[derive(Clone, Copy, Debug, PartialEq, Eq, Structural)]
pub struct Reading {
    pub bits: u64,
}

/// The encoding of positive infinity: every larger magnitude is a NaN.
pub const POSITIVE_INFINITY_BITS: u64 = 0x7ff0_0000_0000_0000;

/// The sign bit of a binary64 encoding.
pub const SIGN_BIT: u64 = 0x8000_0000_0000_0000;

/// The encoding without its sign bit.
pub open spec fn magnitude(b: u64) -> int {
    (b as int) % (SIGN_BIT as int)
}

/// The encoding is a NaN: all exponent bits set and a non-zero fraction.
pub open spec fn is_nan_bits(b: u64) -> bool {
    magnitude(b) > POSITIVE_INFINITY_BITS as int
}

/// An integer that orders non-NaN encodings as the numbers they encode
/// (both zeros map to 0).
pub open spec fn order_key(b: u64) -> int {
    if (b as int) >= (SIGN_BIT as int) {
        -magnitude(b)
    } else {
        magnitude(b)
    }
}

impl Reading {
    pub open spec fn is_nan(self) -> bool {
        is_nan_bits(self.bits)
    }

    pub open spec fn key(self) -> int {
        order_key(self.bits)
    }

    /// `partial_cmp` of the two numbers answers `Greater`: neither is a NaN and
    /// `self` is the larger.
    pub open spec fn spec_greater(self, other: Reading) -> bool {
        !self.is_nan() && !other.is_nan() && self.key() > other.key()
    }

    pub fn from_bits(bits: u64) -> (r: Reading)
        ensures
            r.bits == bits,
    {
        Reading { bits }
    }

    /// The reading 0.0, which stands for a range with no readings.
    pub fn zero() -> (r: Reading)
        ensures
            r.bits == 0,
    {
        Reading { bits: 0 }
    }

    pub fn is_nan_value(&self) -> (r: bool)
        ensures
            r == self.is_nan(),
    {
        self.bits % SIGN_BIT > POSITIVE_INFINITY_BITS
    }

    /// Compares as floating-point numbers, with a NaN on either side counting
    /// as a tie: true exactly when `self` is strictly greater.
    pub fn greater_than(&self, other: &Reading) -> (r: bool)
        ensures
            r == self.spec_greater(*other),
    {
        if self.is_nan_value() || other.is_nan_value() {
            return false;
        }
        let a = self.bits % SIGN_BIT;
        let b = other.bits % SIGN_BIT;
        let a_neg = self.bits >= SIGN_BIT;
        let b_neg = other.bits >= SIGN_BIT;
        if !a_neg && !b_neg {
            a > b
        } else if a_neg && b_neg {
            a < b
        } else if !a_neg {
            a > 0 || b > 0
        } else {
            false
        }
    }
}

} // verus!
