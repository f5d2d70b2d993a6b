//! Single-precision numbers carried by bit pattern.
//!
//! Thresholds and levels only ever get stored, compared and clamped here, and for that the bit
//! pattern is enough: within one sign, the order of the patterns is the order of the numbers.

use vstd::arithmetic::power2::pow2;
use vstd::prelude::*;

verus! {

/// A single-precision number, kept as its IEEE 754 bit pattern.
#[derive(Clone, Copy, Debug, PartialEq, Eq, Structural)]
pub struct Single {
    pub bits: u32,
}

/// The pattern of positive infinity; larger magnitudes are not numbers.
pub const INFINITE: u32 = 0x7F80_0000;

/// The pattern of one.
pub const ONE: u32 = 0x3F80_0000;

impl Single {
    /// The pattern without its sign.
    pub open spec fn magnitude(self) -> int {
        self.bits as int % 0x8000_0000
    }

    /// Whether the sign is set.
    pub open spec fn negative(self) -> bool {
        self.bits >= 0x8000_0000
    }

    /// Whether the pattern stands for no number.
    pub open spec fn nan(self) -> bool {
        self.magnitude() > INFINITE
    }

    /// A number that grows with the value; the two zeros share one rank.
    pub open spec fn rank(self) -> int {
        if self.negative() {
            -self.magnitude()
        } else {
            self.magnitude()
        }
    }

    /// A number that orders all patterns, the two zeros and those without a value included.
    pub open spec fn total_rank(self) -> int {
        if self.negative() {
            -self.magnitude() - 1
        } else {
            self.magnitude()
        }
    }

    /// The number that a pattern without sign stands for, as numerator and denominator, unless it is
    /// infinite or no number.
    pub open spec fn fraction(self) -> (int, int) {
        let high = self.bits as int / 0x80_0000;
        let low = self.bits as int % 0x80_0000;
        if high == 0 {
            (low, pow2(149) as int)
        } else if high < 150 {
            (0x80_0000 + low, pow2((150 - high) as nat) as int)
        } else {
            ((0x80_0000 + low) * pow2((high - 150) as nat), 1)
        }
    }

    /// The comparison `self < other`, false where either side is no number.
    pub open spec fn less(self, other: Single) -> bool {
        !self.nan() && !other.nan() && self.rank() < other.rank()
    }

    /// The comparison `self <= other`, false where either side is no number.
    pub open spec fn at_most(self, other: Single) -> bool {
        !self.nan() && !other.nan() && self.rank() <= other.rank()
    }

    /// The value moved into the range from zero to one; what is no number stays.
    pub open spec fn unit(self) -> Single {
        if self.nan() {
            self
        } else if self.rank() < 0 {
            (Single { bits: 0 })
        } else if self.rank() > ONE {
            (Single { bits: ONE })
        } else {
            self
        }
    }

    /// The larger of two values; of two equal ones the second, and a number before none.
    pub open spec fn larger(self, other: Single) -> Single {
        if other.nan() || other.less(self) {
            self
        } else {
            other
        }
    }

    fn rank_of(self) -> (r: i64)
        ensures
            r == self.rank(),
    {
        if self.bits >= 0x8000_0000 {
            -((self.bits - 0x8000_0000) as i64)
        } else {
            self.bits as i64
        }
    }

    /// Whether the pattern stands for no number.
    pub fn is_nan(self) -> (r: bool)
        ensures
            r == self.nan(),
    {
        self.bits % 0x8000_0000 > INFINITE
    }

    /// Orders all patterns by one integer.
    pub fn total_rank_of(self) -> (r: i64)
        ensures
            r == self.total_rank(),
    {
        if self.bits >= 0x8000_0000 {
            -((self.bits - 0x8000_0000) as i64) - 1
        } else {
            self.bits as i64
        }
    }

    /// `self < other`.
    pub fn lt(self, other: Single) -> (r: bool)
        ensures
            r == self.less(other),
    {
        !self.is_nan() && !other.is_nan() && self.rank_of() < other.rank_of()
    }

    /// `self <= other`.
    pub fn le(self, other: Single) -> (r: bool)
        ensures
            r == self.at_most(other),
    {
        !self.is_nan() && !other.is_nan() && self.rank_of() <= other.rank_of()
    }

    /// Clamps to the range from zero to one.
    pub fn clamp_unit(self) -> (r: Single)
        ensures
            r == self.unit(),
    {
        if self.is_nan() {
            self
        } else if self.rank_of() < 0 {
            Single { bits: 0 }
        } else if self.rank_of() > ONE as i64 {
            Single { bits: ONE }
        } else {
            self
        }
    }

    /// The larger of two values.
    pub fn max_of(self, other: Single) -> (r: Single)
        ensures
            r == self.larger(other),
    {
        if other.is_nan() || other.lt(self) {
            self
        } else {
            other
        }
    }
}

/// How patterns are compared: without sign by their bits, with sign the other way round, a number
/// with sign before one without, the two zeros as one; and what is no number with nothing.
pub proof fn numbers_are_ordered_by_their_bits(x: Single, y: Single)
    ensures
        x.bits <= 0x7F80_0000 && y.bits <= 0x7F80_0000 ==> (x.less(y) <==> x.bits < y.bits) && (
        x.at_most(y) <==> x.bits <= y.bits),
        0x8000_0000 <= x.bits <= 0xFF80_0000 && 0x8000_0000 <= y.bits <= 0xFF80_0000 ==> (x.less(y)
            <==> x.bits > y.bits),
        0x8000_0000 < x.bits <= 0xFF80_0000 && y.bits <= 0x7F80_0000 ==> x.less(y) && !y.less(x),
        x.bits == 0x8000_0000 && y.bits <= 0x7F80_0000 ==> (x.less(y) <==> y.bits != 0)
            && !y.less(x),
        0x7F80_0000 < x.bits < 0x8000_0000 || x.bits > 0xFF80_0000 ==> x.nan() && !x.less(y)
            && !y.less(x) && !x.at_most(y) && !y.at_most(x),
        x.bits <= 0x7F80_0000 ==> !x.nan(),
{
}

/// Clamping keeps what lies between zero and one, raises what is below to zero and lowers what is
/// above to one.
pub proof fn clamping_goes_to_the_nearer_bound(x: Single)
    ensures
        x.bits <= 0x3F80_0000 ==> x.unit() == x,
        0x3F80_0000 < x.bits <= 0x7F80_0000 ==> x.unit().bits == 0x3F80_0000,
        0x8000_0000 < x.bits <= 0xFF80_0000 ==> x.unit().bits == 0,
{
}

/// All patterns are ordered, without sign by their bits, behind those with sign, which go the other
/// way round.
pub proof fn patterns_are_ordered_in_total(x: Single, y: Single)
    ensures
        x.bits < 0x8000_0000 && y.bits < 0x8000_0000 ==> (x.total_rank() < y.total_rank() <==> x.bits
            < y.bits),
        x.bits >= 0x8000_0000 && y.bits >= 0x8000_0000 ==> (x.total_rank() < y.total_rank()
            <==> x.bits > y.bits),
        x.bits >= 0x8000_0000 && y.bits < 0x8000_0000 ==> x.total_rank() < y.total_rank(),
        x.total_rank() == y.total_rank() <==> x == y,
{
}

/// A clamped number lies between zero and one.
pub proof fn unit_is_within_bounds(x: Single)
    requires
        !x.nan(),
    ensures
        !x.unit().nan(),
        0 <= x.unit().rank() <= ONE,
        x.unit().unit() == x.unit(),
{
}

/// The larger of two numbers is one of them and below neither.
pub proof fn larger_is_an_upper_bound(x: Single, y: Single)
    requires
        !x.nan(),
        !y.nan(),
    ensures
        x.at_most(x.larger(y)),
        y.at_most(x.larger(y)),
        x.larger(y) == x || x.larger(y) == y,
{
}

}
