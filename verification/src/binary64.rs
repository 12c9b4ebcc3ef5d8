//! Double precision numbers held as their bit patterns.
//!
//! Prices, sizes and inventories are IEEE 754 binary64 numbers. Their arithmetic
//! is done here on the patterns, so that every operation has an exact contract:
//! the sum, difference, product or quotient is the exact rational result,
//! rounded to nearest with ties to even.
use vstd::prelude::*;
use vstd::arithmetic::div_mod::*;
use vstd::arithmetic::power2::*;
use crate::rounding;
use crate::rounding::INFINITE;

verus! {

/// The sign bit.
pub const SIGN: u64 = 0x8000_0000_0000_0000;

/// The pattern that stands for every result that is not a number.
pub const NOT_A_NUMBER: u64 = 0x7ff8_0000_0000_0000;

/// A double precision number, by its bit pattern.
#[derive(Clone, Copy, Debug, PartialEq, Eq, Structural)]
pub struct Binary64 {
    pub bits: u64,
}

/// The number with the given sign and magnitude.
pub open spec fn signed(negative: bool, magnitude: nat) -> Binary64 {
    Binary64 { bits: (magnitude + if negative { SIGN as nat } else { 0 }) as u64 }
}

/// The number nearest to the whole number `n`.
pub open spec fn whole_number(negative: bool, n: nat) -> Binary64 {
    signed(negative, rounding::nearest(n * pow2(1074), 1))
}

pub open spec fn not_a_number() -> Binary64 {
    Binary64 { bits: NOT_A_NUMBER }
}

impl Binary64 {
    pub open spec fn negative(self) -> bool {
        self.bits >= SIGN
    }

    pub open spec fn magnitude(self) -> nat {
        (self.bits % SIGN) as nat
    }

    /// The value in units of 2^-1074. Infinity counts as 2^1024.
    pub open spec fn value(self) -> int {
        if self.negative() {
            -(rounding::units(self.magnitude()) as int)
        } else {
            rounding::units(self.magnitude()) as int
        }
    }

    pub open spec fn nan(self) -> bool {
        self.magnitude() > INFINITE
    }

    pub open spec fn infinite(self) -> bool {
        self.magnitude() == INFINITE
    }

    pub open spec fn finite(self) -> bool {
        self.magnitude() < INFINITE
    }

    /// `self < other`.
    pub open spec fn below(self, other: Binary64) -> bool {
        !self.nan() && !other.nan() && self.value() < other.value()
    }

    /// `self <= other`.
    pub open spec fn not_above(self, other: Binary64) -> bool {
        !self.nan() && !other.nan() && self.value() <= other.value()
    }

    /// The exact sum, rounded. A sum of zero is positive unless both operands
    /// are negative.
    #[verifier::opaque]
    pub open spec fn sum(self, other: Binary64) -> Binary64 {
        if self.nan() || other.nan() {
            not_a_number()
        } else if self.infinite() {
            if other.infinite() && self.negative() != other.negative() {
                not_a_number()
            } else {
                self
            }
        } else if other.infinite() {
            other
        } else {
            let exact = self.value() + other.value();
            if exact == 0 {
                signed(self.negative() && other.negative(), 0)
            } else if exact > 0 {
                signed(false, rounding::nearest(exact as nat, 1))
            } else {
                signed(true, rounding::nearest((-exact) as nat, 1))
            }
        }
    }

    pub open spec fn opposite(self) -> Binary64 {
        signed(!self.negative(), self.magnitude())
    }

    pub open spec fn absolute(self) -> Binary64 {
        signed(false, self.magnitude())
    }

    pub open spec fn difference(self, other: Binary64) -> Binary64 {
        self.sum(other.opposite())
    }

    /// The exact product, rounded.
    #[verifier::opaque]
    pub open spec fn product(self, other: Binary64) -> Binary64 {
        let negative = self.negative() != other.negative();
        if self.nan() || other.nan() {
            not_a_number()
        } else if self.infinite() || other.infinite() {
            if self.magnitude() == 0 || other.magnitude() == 0 {
                not_a_number()
            } else {
                signed(negative, INFINITE as nat)
            }
        } else {
            signed(
                negative,
                rounding::nearest(
                    rounding::units(self.magnitude()) * rounding::units(other.magnitude()),
                    pow2(1074),
                ),
            )
        }
    }

    /// The exact quotient, rounded.
    #[verifier::opaque]
    pub open spec fn quotient(self, other: Binary64) -> Binary64 {
        let negative = self.negative() != other.negative();
        if self.nan() || other.nan() {
            not_a_number()
        } else if self.infinite() {
            if other.infinite() {
                not_a_number()
            } else {
                signed(negative, INFINITE as nat)
            }
        } else if other.infinite() {
            signed(negative, 0)
        } else if other.magnitude() == 0 {
            if self.magnitude() == 0 {
                not_a_number()
            } else {
                signed(negative, INFINITE as nat)
            }
        } else {
            signed(
                negative,
                rounding::nearest(
                    rounding::units(self.magnitude()) * pow2(1074),
                    rounding::units(other.magnitude()),
                ),
            )
        }
    }

    /// The larger operand. One that is not a number gives way to the other.
    pub open spec fn larger(self, other: Binary64) -> Binary64 {
        if self.nan() || self.below(other) {
            other
        } else {
            self
        }
    }

    /// The largest whole number that is not above a finite number. A zero
    /// keeps the sign of the operand.
    #[verifier::opaque]
    pub open spec fn floored(self) -> Binary64 {
        if self.nan() {
            not_a_number()
        } else if self.infinite() {
            self
        } else {
            let whole = self.value() / (pow2(1074) as int);
            if whole == 0 {
                signed(self.negative(), 0)
            } else if whole > 0 {
                whole_number(false, whole as nat)
            } else {
                whole_number(true, (-whole) as nat)
            }
        }
    }

    /// The smallest whole number that is not below a finite number.
    pub open spec fn raised(self) -> Binary64 {
        self.opposite().floored().opposite()
    }

    /// The whole part of the number, within the range of `i32`. What is not a
    /// number gives zero.
    #[verifier::opaque]
    pub open spec fn truncated(self) -> i32 {
        let whole = rounding::units(self.magnitude()) / pow2(1074);
        if self.nan() {
            0
        } else if self.negative() {
            if whole > 0x8000_0000 {
                i32::MIN
            } else {
                (-(whole as int)) as i32
            }
        } else if whole > 0x7fff_ffff {
            i32::MAX
        } else {
            whole as i32
        }
    }

    /// `self`, moved into the interval from `low` to `high`.
    pub open spec fn confined(self, low: Binary64, high: Binary64) -> Binary64 {
        let raised = if self.below(low) { low } else { self };
        if high.below(raised) {
            high
        } else {
            raised
        }
    }
}

pub proof fn lemma_parts(x: Binary64)
    ensures
        x.magnitude() < SIGN,
        x == signed(x.negative(), x.magnitude()),
{
    lemma_fundamental_div_mod(x.bits as int, SIGN as int);
}

pub proof fn lemma_signed(negative: bool, magnitude: nat)
    requires
        magnitude < SIGN,
    ensures
        signed(negative, magnitude).negative() == negative,
        signed(negative, magnitude).magnitude() == magnitude,
{
    let x = signed(negative, magnitude);
    lemma_fundamental_div_mod(x.bits as int, SIGN as int);
}

impl Binary64 {
    pub fn from_bits(bits: u64) -> (r: Binary64)
        ensures
            r == (Binary64 { bits }),
    {
        Binary64 { bits }
    }

    pub fn to_bits(self) -> (bits: u64)
        ensures
            bits == self.bits,
    {
        self.bits
    }

    pub fn is_negative(self) -> (r: bool)
        ensures
            r == self.negative(),
    {
        self.bits >= SIGN
    }

    fn size(self) -> (r: u64)
        ensures
            r == self.magnitude(),
            r < SIGN,
    {
        self.bits % SIGN
    }

    /// The number with the given sign and magnitude.
    pub(crate) fn with_sign(negative: bool, magnitude: u64) -> (r: Binary64)
        requires
            magnitude < SIGN,
        ensures
            r == signed(negative, magnitude as nat),
    {
        if negative {
            Binary64 { bits: magnitude + SIGN }
        } else {
            Binary64 { bits: magnitude }
        }
    }

    pub fn is_nan(self) -> (r: bool)
        ensures
            r == self.nan(),
    {
        self.size() > INFINITE
    }

    pub fn is_finite(self) -> (r: bool)
        ensures
            r == self.finite(),
    {
        self.size() < INFINITE
    }

    /// `self < other`.
    pub fn lt(self, other: Binary64) -> (r: bool)
        ensures
            r == self.below(other),
    {
        let a = self.size();
        let b = other.size();
        if a > INFINITE || b > INFINITE {
            return false;
        }
        proof {
            lemma_compared(self, other);
        }
        if self.is_negative() {
            if other.is_negative() {
                b < a
            } else {
                a > 0 || b > 0
            }
        } else {
            !other.is_negative() && a < b
        }
    }

    /// `self <= other`.
    pub fn le(self, other: Binary64) -> (r: bool)
        ensures
            r == self.not_above(other),
    {
        !self.is_nan() && !other.is_nan() && !other.lt(self)
    }

    pub fn neg(self) -> (r: Binary64)
        ensures
            r == self.opposite(),
    {
        Self::with_sign(!self.is_negative(), self.size())
    }

    pub fn abs(self) -> (r: Binary64)
        ensures
            r == self.absolute(),
    {
        Self::with_sign(false, self.size())
    }

    pub fn max(self, other: Binary64) -> (r: Binary64)
        ensures
            r == self.larger(other),
    {
        if self.is_nan() || self.lt(other) {
            other
        } else {
            self
        }
    }

    /// `self`, moved into the interval from `low` to `high`.
    pub fn clamp(self, low: Binary64, high: Binary64) -> (r: Binary64)
        requires
            low.not_above(high),
        ensures
            r == self.confined(low, high),
    {
        let raised = if self.lt(low) { low } else { self };
        if high.lt(raised) {
            high
        } else {
            raised
        }
    }
}

/// Magnitudes compare as the values that they stand for.
pub proof fn lemma_compared(x: Binary64, y: Binary64)
    ensures
        x.magnitude() < y.magnitude() <==> rounding::units(x.magnitude()) < rounding::units(
            y.magnitude(),
        ),
        x.magnitude() == y.magnitude() <==> rounding::units(x.magnitude()) == rounding::units(
            y.magnitude(),
        ),
        x.magnitude() == 0 <==> x.value() == 0,
        y.magnitude() == 0 <==> y.value() == 0,
        rounding::units(x.magnitude()) >= 0,
        rounding::units(y.magnitude()) >= 0,
{
    let a = x.magnitude();
    let b = y.magnitude();
    rounding::lemma_zero();
    if a < b {
        rounding::lemma_ordered(a, b);
    } else if b < a {
        rounding::lemma_ordered(b, a);
    }
    if a > 0 {
        rounding::lemma_ordered(0, a);
    }
    if b > 0 {
        rounding::lemma_ordered(0, b);
    }
}

} // verus!
