//! Binary floating-point numbers, held by their bits.

use vstd::arithmetic::power2::{
    lemma2_to64, lemma2_to64_rest, lemma_pow2_adds, lemma_pow2_pos, lemma_pow2_strictly_increases,
    lemma_pow2_unfold, pow2,
};
use vstd::prelude::*;

verus! {

/// A double-precision number of IEEE 754 (binary64), held by its bits.
///
/// The bits are, from the highest: one for the sign, eleven for the exponent, fifty-two for the
/// fraction.
#[derive(Debug, Clone, Copy, PartialEq, Eq, Structural)]
pub struct Float {
    pub bits: u64,
}

/// The weight of the lowest bit of the sign.
pub const SIGN: u64 = 0x8000_0000_0000_0000;

/// The weight of the lowest bit of the exponent.
pub const EXPONENT: u64 = 0x10_0000_0000_0000;

/// The bits of infinity. Greater bits, up to the sign, stand for no number.
pub const INFINITY: u64 = 0x7ff0_0000_0000_0000;

/// The distance from zero of the number with the bits `magnitude`, in units of the least positive
/// number (two to the power of minus 1074).
///
/// Where the exponent is zero, the fraction counts single units. Elsewhere a leading one is put
/// before the fraction, and every further step of the exponent doubles the units. Infinity comes
/// out greater than every finite number.
pub open spec fn distance(magnitude: nat) -> nat {
    let exponent = magnitude / EXPONENT as nat;
    let fraction = magnitude % EXPONENT as nat;
    if exponent == 0 {
        fraction
    } else {
        (EXPONENT as nat + fraction) * pow2((exponent - 1) as nat)
    }
}

impl Float {
    /// Whether the sign is negative.
    pub open spec fn negative(self) -> bool {
        self.bits >= SIGN
    }

    /// The bits without the sign.
    pub open spec fn magnitude(self) -> nat {
        (self.bits as nat) % (SIGN as nat)
    }

    /// Whether this is a number at all.
    pub open spec fn is_number(self) -> bool {
        self.magnitude() <= INFINITY
    }

    /// The number, in units of the least positive number.
    pub open spec fn value(self) -> int {
        if self.negative() {
            -(distance(self.magnitude()) as int)
        } else {
            distance(self.magnitude()) as int
        }
    }

    /// Whether this is less than `other`. What is not a number compares to nothing.
    pub open spec fn less(self, other: Float) -> bool {
        self.is_number() && other.is_number() && self.value() < other.value()
    }

    /// Whether this is at most `other`.
    pub open spec fn at_most(self, other: Float) -> bool {
        self.is_number() && other.is_number() && self.value() <= other.value()
    }

    /// Zero.
    pub open spec fn zero() -> Float {
        Float { bits: 0 }
    }

    /// One.
    pub open spec fn one() -> Float {
        Float { bits: 0x3ff0_0000_0000_0000 }
    }

    /// One half.
    pub open spec fn half() -> Float {
        Float { bits: 0x3fe0_0000_0000_0000 }
    }

    /// Whether this lies strictly between zero and one.
    pub open spec fn is_proper_fraction(self) -> bool {
        Float::zero().less(self) && self.less(Float::one())
    }

    /// Whether this is zero or greater.
    pub fn is_non_negative(self) -> (result: bool)
        ensures
            result == Float::zero().at_most(self),
    {
        proof {
            lemma_distance_zero();
            if self.magnitude() > 0 {
                lemma_distance_increases(0, self.magnitude());
            }
        }
        self.bits <= INFINITY || self.bits == SIGN
    }

    /// Whether this is greater than zero.
    pub fn is_positive(self) -> (result: bool)
        ensures
            result == Float::zero().less(self),
    {
        proof {
            lemma_distance_zero();
            if self.magnitude() > 0 {
                lemma_distance_increases(0, self.magnitude());
            }
        }
        0 < self.bits && self.bits <= INFINITY
    }

    /// Whether this is greater than zero and less than one.
    pub fn is_between_zero_and_one(self) -> (result: bool)
        ensures
            result == self.is_proper_fraction(),
    {
        proof {
            lemma_proper_fraction(self);
        }
        0 < self.bits && self.bits < 0x3ff0_0000_0000_0000
    }

    /// Whether this is less than one half.
    pub fn is_below_half(self) -> (result: bool)
        requires
            Float::zero().at_most(self),
        ensures
            result == self.less(Float::half()),
    {
        proof {
            lemma_distance_zero();
            if self.magnitude() > 0 {
                lemma_distance_increases(0, self.magnitude());
            }
            lemma_distance_orders(self.magnitude(), Float::half().magnitude());
        }
        self.bits < 0x3fe0_0000_0000_0000 || self.bits == SIGN
    }
}

proof fn lemma_distance_zero()
    ensures
        distance(0) == 0,
{
}

/// Greater bits lie farther from zero.
proof fn lemma_distance_increases(low: nat, high: nat)
    requires
        low < high,
    ensures
        distance(low) < distance(high),
{
    let unit = EXPONENT as nat;
    let (e1, f1) = (low / unit, low % unit);
    let (e2, f2) = (high / unit, high % unit);
    assert(low == unit * e1 + f1);
    assert(high == unit * e2 + f2);
    assert(e1 <= e2);
    if e1 == e2 {
        assert(f1 < f2);
        if e1 > 0 {
            let scale = pow2((e1 - 1) as nat);
            lemma_pow2_pos((e1 - 1) as nat);
            assert((unit + f1) * scale < (unit + f2) * scale) by (nonlinear_arith)
                requires
                    f1 < f2,
                    scale > 0,
            ;
        }
    } else {
        lemma_distance_below(low);
        let scale = pow2((e2 - 1) as nat);
        lemma_pow2_pos((e2 - 1) as nat);
        if e1 < e2 - 1 {
            lemma_pow2_strictly_increases(e1, (e2 - 1) as nat);
        }
        assert(unit * pow2(e1) <= (unit + f2) * scale) by (nonlinear_arith)
            requires
                pow2(e1) <= scale,
                unit >= 0,
                f2 >= 0,
        ;
    }
}

/// A number lies closer to zero than the first one with the next exponent.
proof fn lemma_distance_below(magnitude: nat)
    ensures
        distance(magnitude) < EXPONENT * pow2(magnitude / EXPONENT as nat),
{
    let unit = EXPONENT as nat;
    let exponent = magnitude / unit;
    let fraction = magnitude % unit;
    if exponent == 0 {
        lemma2_to64();
    } else {
        let scale = pow2((exponent - 1) as nat);
        lemma_pow2_pos((exponent - 1) as nat);
        lemma_pow2_unfold(exponent);
        assert((unit + fraction) * scale < unit * (2 * scale)) by (nonlinear_arith)
            requires
                fraction < unit,
                scale > 0,
        ;
    }
}

/// The order of the bits is the order of the distances.
proof fn lemma_distance_orders(first: nat, second: nat)
    ensures
        distance(first) < distance(second) <==> first < second,
{
    if first < second {
        lemma_distance_increases(first, second);
    } else if second < first {
        lemma_distance_increases(second, first);
    }
}

/// The proper fractions have the bits between those of zero and those of one.
pub(crate) proof fn lemma_proper_fraction(float: Float)
    ensures
        float.is_proper_fraction() <==> 0 < float.bits < 0x3ff0_0000_0000_0000,
        float.is_proper_fraction() ==> Float::zero().at_most(float),
{
    lemma_distance_zero();
    if float.magnitude() > 0 {
        lemma_distance_increases(0, float.magnitude());
    }
    lemma_distance_orders(float.magnitude(), Float::one().magnitude());
}

/// The positive numbers have the bits from zero, which is none of them, to infinity.
pub(crate) proof fn lemma_positive(float: Float)
    ensures
        Float::zero().less(float) <==> 0 < float.bits <= INFINITY,
{
    lemma_distance_zero();
    if float.magnitude() > 0 {
        lemma_distance_increases(0, float.magnitude());
    }
}

/// The constants are what their names say: one half is half of one, and one is as many units as two
/// to the power of 1074.
pub proof fn constants_are_exact()
    ensures
        Float::zero().value() == 0,
        Float::one().value() == pow2(1074),
        2 * Float::half().value() == Float::one().value(),
{
    lemma2_to64_rest();
    assert(EXPONENT == pow2(52));
    lemma_pow2_adds(52, 1022);
    lemma_pow2_adds(52, 1021);
    lemma_pow2_unfold(1074);
    assert(Float::one().magnitude() / EXPONENT as nat == 1023);
    assert(Float::one().magnitude() % EXPONENT as nat == 0);
    assert(Float::half().magnitude() / EXPONENT as nat == 1022);
    assert(Float::half().magnitude() % EXPONENT as nat == 0);
}

/// A number is less than another exactly where its bits say so: from the most negative number to
/// the greatest, with both zeros alike. What is not a number is neither less nor greater.
pub proof fn numbers_are_ordered_by_their_bits(one: Float, other: Float)
    ensures
        one.bits <= 0x7ff0_0000_0000_0000 && other.bits <= 0x7ff0_0000_0000_0000 ==> (one.less(other)
            <==> one.bits < other.bits),
        0x8000_0000_0000_0000 <= one.bits && one.bits <= 0xfff0_0000_0000_0000
            && 0x8000_0000_0000_0000 <= other.bits && other.bits <= 0xfff0_0000_0000_0000 ==> (
        one.less(other) <==> one.bits > other.bits),
        0x8000_0000_0000_0000 <= one.bits && one.bits <= 0xfff0_0000_0000_0000 && other.bits
            <= 0x7ff0_0000_0000_0000 ==> (one.less(other) <==> one.bits != 0x8000_0000_0000_0000
            || other.bits != 0),
        one.bits <= 0x7ff0_0000_0000_0000 && other.bits >= 0x8000_0000_0000_0000 ==> !one.less(
            other,
        ),
        0x7ff0_0000_0000_0000 < one.bits && one.bits < 0x8000_0000_0000_0000 ==> !one.less(other)
            && !other.less(one),
        one.bits > 0xfff0_0000_0000_0000 ==> !one.less(other) && !other.less(one),
{
    lemma_distance_zero();
    lemma_distance_orders(one.magnitude(), other.magnitude());
    lemma_distance_orders(other.magnitude(), one.magnitude());
    lemma_distance_orders(0, one.magnitude());
    lemma_distance_orders(0, other.magnitude());
}

/// A number is at most another where it is not greater.
pub proof fn at_most_is_not_greater(one: Float, other: Float)
    ensures
        one.at_most(other) ==> !other.less(one),
        one.at_most(one) && other.at_most(other) ==> one.at_most(other) || other.less(one),
        one.at_most(one) <==> one.bits <= 0x7ff0_0000_0000_0000 || (0x8000_0000_0000_0000
            <= one.bits && one.bits <= 0xfff0_0000_0000_0000),
{
}

/// The numbers between zero and one have the bits between those of zero and those of one.
pub proof fn proper_fractions_lie_between_zero_and_one(float: Float)
    ensures
        float.is_proper_fraction() <==> 0 < float.bits && float.bits < 0x3ff0_0000_0000_0000,
{
    lemma_proper_fraction(float);
}

/// The least numbers count single units. From there on, every step of the exponent doubles a
/// number, and the sign turns it round.
pub proof fn exponents_double_and_signs_negate(float: Float, next: Float, opposite: Float)
    requires
        float.bits <= 0x7ff0_0000_0000_0000,
        float.bits + 0x10_0000_0000_0000 == next.bits || next == float,
        opposite.bits == float.bits + 0x8000_0000_0000_0000,
    ensures
        float.bits < 0x20_0000_0000_0000 ==> float.value() == float.bits,
        float.bits >= 0x10_0000_0000_0000 && next.bits != float.bits && next.bits
            <= 0x7ff0_0000_0000_0000 ==> next.value() == 2 * float.value(),
        opposite.value() == -float.value(),
{
    let unit = EXPONENT as nat;
    let m = float.magnitude();
    assert(m == float.bits);
    assert(opposite.magnitude() == m);
    lemma2_to64();
    if float.bits < 0x20_0000_0000_0000 {
        if float.bits >= 0x10_0000_0000_0000 {
            assert(m / unit == 1);
            assert(m % unit == m - unit);
            assert(pow2(0) == 1);
            assert((unit + m % unit) * 1 == m);
            assert(distance(m) == (unit + m % unit) * pow2(0));
        } else {
            assert(m / unit == 0);
            assert(m % unit == m);
        }
    }
    if float.bits >= 0x10_0000_0000_0000 && next.bits != float.bits && next.bits
        <= 0x7ff0_0000_0000_0000 {
        let n = next.magnitude();
        assert(n == m + unit);
        assert(n / unit == m / unit + 1);
        assert(n % unit == m % unit);
        let exponent = m / unit;
        assert(exponent >= 1);
        lemma_pow2_unfold(exponent);
        let scale = pow2((exponent - 1) as nat);
        let digits = unit + m % unit;
        assert(digits * (2 * scale) == 2 * (digits * scale)) by (nonlinear_arith);
    }
}

} // verus!
