use vstd::prelude::*;

verus! {

/// Bit pattern of the quiet NaN that stands for every NaN.
pub const NAN_BITS: u64 = 0x7ff8_0000_0000_0000;

/// Bit pattern of positive infinity; every larger magnitude is a NaN.
pub const INFINITY_BITS: u64 = 0x7ff0_0000_0000_0000;

/// The sign bit of a double.
pub const SIGN_BIT: u64 = 0x8000_0000_0000_0000;

/// A double-precision number held as its IEEE-754 bit pattern.
///
/// Structural equality (`==`) compares bit patterns. The numeric comparisons
/// [`Float::num_eq`] and [`Float::num_lt`] follow a total order in which both
/// zeros are equal and NaN is equal to itself and above every other number.
#[derive(Debug, Clone, Copy, PartialEq, Eq, Hash, Structural)]
pub struct Float {
    pub bits: u64,
}

impl Float {
    /// The bit pattern without its sign.
    pub open spec fn magnitude(self) -> u64 {
        if self.bits >= SIGN_BIT {
            (self.bits - SIGN_BIT) as u64
        } else {
            self.bits
        }
    }

    /// Whether the sign bit is set.
    pub open spec fn negative(self) -> bool {
        self.bits >= SIGN_BIT
    }

    /// Whether the pattern is a NaN.
    pub open spec fn nan(self) -> bool {
        self.magnitude() > INFINITY_BITS
    }

    /// Position of the number in the total order: NaN above everything, then
    /// signed magnitude, so that both zeros share position 0.
    pub open spec fn rank(self) -> int {
        if self.nan() {
            INFINITY_BITS + 1
        } else if self.negative() {
            -(self.magnitude() as int)
        } else {
            self.magnitude() as int
        }
    }

    /// The number with the given bit pattern; every NaN becomes the one quiet NaN.
    pub fn from_bits(bits: u64) -> (r: Float)
        ensures
            r.bits == (if (Float { bits }).nan() { NAN_BITS } else { bits }),
            r.rank() == (Float { bits }).rank(),
    {
        let f = Float { bits };
        if f.is_nan() {
            Float { bits: NAN_BITS }
        } else {
            f
        }
    }

    /// Whether the number is a NaN.
    pub fn is_nan(&self) -> (r: bool)
        ensures
            r == self.nan(),
    {
        let magnitude: u64 = if self.bits >= SIGN_BIT {
            self.bits - SIGN_BIT
        } else {
            self.bits
        };
        magnitude > INFINITY_BITS
    }

    /// The number with its sign flipped; a NaN stays as it is.
    pub fn neg(&self) -> (r: Float)
        ensures
            self.nan() ==> r == *self,
            !self.nan() ==> r.magnitude() == self.magnitude() && r.negative() == !self.negative(),
            r.rank() == (if self.nan() { self.rank() } else { -self.rank() }),
    {
        if self.is_nan() {
            *self
        } else if self.bits >= SIGN_BIT {
            Float { bits: self.bits - SIGN_BIT }
        } else {
            Float { bits: self.bits + SIGN_BIT }
        }
    }

    /// Numeric equality: equal ranks.
    pub fn num_eq(&self, other: &Float) -> (r: bool)
        ensures
            r == (self.rank() == other.rank()),
    {
        if self.is_nan() || other.is_nan() {
            self.is_nan() && other.is_nan()
        } else {
            let a: u64 = if self.bits >= SIGN_BIT { self.bits - SIGN_BIT } else { self.bits };
            let b: u64 = if other.bits >= SIGN_BIT { other.bits - SIGN_BIT } else { other.bits };
            if a == 0 && b == 0 {
                true
            } else {
                self.bits == other.bits
            }
        }
    }

    /// Numeric order: a strictly smaller rank.
    pub fn num_lt(&self, other: &Float) -> (r: bool)
        ensures
            r == (self.rank() < other.rank()),
    {
        if self.is_nan() {
            false
        } else if other.is_nan() {
            true
        } else {
            let a: u64 = if self.bits >= SIGN_BIT { self.bits - SIGN_BIT } else { self.bits };
            let b: u64 = if other.bits >= SIGN_BIT { other.bits - SIGN_BIT } else { other.bits };
            let a_neg = self.bits >= SIGN_BIT;
            let b_neg = other.bits >= SIGN_BIT;
            if a_neg && b_neg {
                a > b
            } else if a_neg {
                a > 0 || b > 0
            } else if b_neg {
                false
            } else {
                a < b
            }
        }
    }
}

} // verus!
