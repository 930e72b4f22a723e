//! Single precision numbers as bit patterns.
//!
//! Positions on a gradient, audio samples and spectrum magnitudes reach the
//! library as the bit patterns of IEEE 754 single precision numbers. The
//! library only ever compares them, and the comparisons are those of the
//! standard: the two zeros are equal, and a pattern that is not a number
//! compares with nothing.
use vstd::prelude::*;

verus! {

/// The bit pattern of positive infinity. Larger magnitudes are not numbers.
pub const INFINITY_BITS: u32 = 0x7f80_0000;

/// The bit pattern of one.
pub const ONE_BITS: u32 = 0x3f80_0000;

/// The bit pattern of negative zero: the sign bit alone.
pub const SIGN_BIT: u32 = 0x8000_0000;

/// A single precision number, held as its bit pattern.
#[derive(Clone, Copy, Debug, PartialEq, Eq, Structural)]
pub struct Single {
    pub bits: u32,
}

impl Single {
    /// The pattern without its sign.
    pub open spec fn magnitude(self) -> int {
        if self.bits < SIGN_BIT {
            self.bits as int
        } else {
            self.bits - SIGN_BIT
        }
    }

    /// Whether the pattern is not a number.
    pub open spec fn nan(self) -> bool {
        self.magnitude() > INFINITY_BITS
    }

    /// The place of the pattern in the order of the numbers: patterns of
    /// numbers compare as their ranks do.
    pub open spec fn rank(self) -> int {
        if self.bits < SIGN_BIT {
            self.magnitude()
        } else {
            -self.magnitude()
        }
    }

    /// `self <= other`, as single precision numbers compare.
    pub open spec fn at_most(self, other: Single) -> bool {
        !self.nan() && !other.nan() && self.rank() <= other.rank()
    }

    /// `self < other`, as single precision numbers compare.
    pub open spec fn below(self, other: Single) -> bool {
        !self.nan() && !other.nan() && self.rank() < other.rank()
    }

    /// The number zero.
    pub open spec fn spec_zero() -> Single {
        Single { bits: 0 }
    }

    /// The number one.
    pub open spec fn spec_one() -> Single {
        Single { bits: ONE_BITS }
    }

    /// The number zero.
    pub fn zero() -> (r: Single)
        ensures
            r == Single::spec_zero(),
    {
        Single { bits: 0 }
    }

    /// The number one.
    pub fn one() -> (r: Single)
        ensures
            r == Single::spec_one(),
    {
        Single { bits: ONE_BITS }
    }

    fn ordinal(self) -> (r: i64)
        ensures
            r == self.rank(),
    {
        if self.bits < SIGN_BIT {
            self.bits as i64
        } else {
            0 - (self.bits - SIGN_BIT) as i64
        }
    }

    /// Whether the pattern is not a number.
    pub fn is_nan(self) -> (r: bool)
        ensures
            r == self.nan(),
    {
        if self.bits < SIGN_BIT {
            self.bits > INFINITY_BITS
        } else {
            self.bits - SIGN_BIT > INFINITY_BITS
        }
    }

    /// `self <= other`. False if either is not a number.
    pub fn le(self, other: Single) -> (r: bool)
        ensures
            r == self.at_most(other),
    {
        !self.is_nan() && !other.is_nan() && self.ordinal() <= other.ordinal()
    }

    /// `self < other`. False if either is not a number.
    pub fn lt(self, other: Single) -> (r: bool)
        ensures
            r == self.below(other),
    {
        !self.is_nan() && !other.is_nan() && self.ordinal() < other.ordinal()
    }

    /// Whether the ranks of the two patterns are in order.
    pub(crate) fn ranks_at_most(self, other: Single) -> (r: bool)
        ensures
            r == (self.rank() <= other.rank()),
    {
        self.ordinal() <= other.ordinal()
    }
}

/// Numbers are ordered: any two compare one way or the other, the order is
/// transitive, and `<` is `<=` without its converse.
pub proof fn lemma_numbers_are_ordered(a: Single, b: Single, c: Single)
    requires
        !a.nan(),
        !b.nan(),
        !c.nan(),
    ensures
        a.at_most(b) || b.at_most(a),
        a.at_most(b) && b.at_most(c) ==> a.at_most(c),
        a.below(b) <==> a.at_most(b) && !b.at_most(a),
{
}

/// A pattern that is not a number compares with nothing, itself included.
pub proof fn lemma_nan_compares_with_nothing(a: Single, b: Single)
    requires
        a.nan(),
    ensures
        !a.at_most(b),
        !b.at_most(a),
        !a.below(b),
        !b.below(a),
{
}

/// The layout of the standard: a pattern is not a number exactly if its eight
/// exponent bits are all set and its fraction is not zero.
pub proof fn lemma_nan_by_layout(a: Single)
    ensures
        a.nan() <==> a.bits & 0x7f80_0000 == 0x7f80_0000 && a.bits & 0x007f_ffff != 0,
{
    let bits = a.bits;
    assert((bits & 0x7f80_0000 == 0x7f80_0000 && bits & 0x007f_ffff != 0) <==> (if bits
        < 0x8000_0000u32 {
        bits > 0x7f80_0000u32
    } else {
        bits > 0xff80_0000u32
    })) by (bit_vector);
}

/// The order of the standard: numbers without the sign bit are ordered as their
/// patterns are, those with it the other way round, and one with it comes
/// before one without, but for the two zeros, which are equal.
pub proof fn lemma_order_by_layout(a: Single, b: Single)
    requires
        !a.nan(),
        !b.nan(),
    ensures
        ({
            let minus_a = a.bits & 0x8000_0000 != 0;
            let minus_b = b.bits & 0x8000_0000 != 0;
            let zeros = a.bits & 0x7fff_ffff == 0 && b.bits & 0x7fff_ffff == 0;
            &&& !minus_a && !minus_b ==> (a.at_most(b) <==> a.bits <= b.bits)
            &&& minus_a && minus_b ==> (a.at_most(b) <==> b.bits <= a.bits)
            &&& minus_a && !minus_b ==> a.at_most(b)
            &&& !minus_a && minus_b ==> (a.at_most(b) <==> zeros)
            &&& a.below(b) <==> !b.at_most(a)
        }),
{
    let x = a.bits;
    let y = b.bits;
    assert((x & 0x8000_0000 != 0) <==> x >= 0x8000_0000) by (bit_vector);
    assert((y & 0x8000_0000 != 0) <==> y >= 0x8000_0000) by (bit_vector);
    assert((x & 0x7fff_ffff == 0) <==> (x == 0 || x == 0x8000_0000)) by (bit_vector);
    assert((y & 0x7fff_ffff == 0) <==> (y == 0 || y == 0x8000_0000)) by (bit_vector);
}

/// The patterns of zero and one: no sign, and for one the exponent of two to
/// the power of zero, with no fraction.
pub proof fn lemma_zero_and_one()
    ensures
        Single::spec_zero().bits == 0,
        Single::spec_one().bits == 127u32 * 0x0080_0000u32,
        Single::spec_zero().below(Single::spec_one()),
{
}

} // verus!
