//! How the operations on double precision numbers keep their order.
use vstd::prelude::*;
use vstd::arithmetic::div_mod::*;
use vstd::arithmetic::mul::*;
use vstd::arithmetic::power2::*;
use crate::binary64;
use crate::binary64::Binary64;
use crate::rounding;
use crate::rounding::INFINITE;

verus! {

/// Zero.
pub open spec fn zero() -> Binary64 {
    Binary64 { bits: 0 }
}

proof fn lemma_value_of_signed(negative: bool, magnitude: nat)
    requires
        magnitude <= INFINITE,
    ensures
        binary64::signed(negative, magnitude).value() == (if negative {
            -(rounding::units(magnitude) as int)
        } else {
            rounding::units(magnitude) as int
        }),
        binary64::signed(negative, magnitude).magnitude() == magnitude,
        !binary64::signed(negative, magnitude).nan(),
{
    binary64::lemma_signed(negative, magnitude);
}

pub proof fn lemma_zero_value()
    ensures
        zero().value() == 0,
        !zero().nan(),
        zero().finite(),
        zero().magnitude() == 0,
        !zero().negative(),
{
    rounding::lemma_zero();
}

/// Every number lies between the infinities.
proof fn lemma_extremes(x: Binary64)
    requires
        !x.nan(),
    ensures
        -(rounding::units(INFINITE as nat) as int) <= x.value() <= rounding::units(INFINITE as nat),
{
    rounding::lemma_ordered_weakly(x.magnitude(), INFINITE as nat);
    rounding::lemma_ordered_weakly(0, INFINITE as nat);
    rounding::lemma_zero();
}

/// The value of the number nearest to a whole number of units.
spec fn settled(exact: int) -> int {
    if exact >= 0 {
        rounding::units(rounding::nearest(exact as nat, 1)) as int
    } else {
        -(rounding::units(rounding::nearest((-exact) as nat, 1)) as int)
    }
}

proof fn lemma_settled_monotone(a: int, b: int)
    requires
        a <= b,
    ensures
        settled(a) <= settled(b),
{
    if a >= 0 {
        rounding::lemma_nearest_monotone(a as nat, 1, b as nat, 1);
        rounding::lemma_ordered_weakly(
            rounding::nearest(a as nat, 1),
            rounding::nearest(b as nat, 1),
        );
    } else if b < 0 {
        rounding::lemma_nearest_monotone((-b) as nat, 1, (-a) as nat, 1);
        rounding::lemma_ordered_weakly(
            rounding::nearest((-b) as nat, 1),
            rounding::nearest((-a) as nat, 1),
        );
    }
}

proof fn lemma_finite_sum(x: Binary64, y: Binary64)
    requires
        x.finite(),
        y.finite(),
    ensures
        !x.sum(y).nan(),
        x.sum(y).value() == settled(x.value() + y.value()),
{
    reveal(Binary64::sum);
    let exact = x.value() + y.value();
    rounding::lemma_zero();
    if exact == 0 {
        rounding::lemma_exact(0, 0, 1);
        lemma_value_of_signed(x.negative() && y.negative(), 0);
    } else if exact > 0 {
        rounding::lemma_nearest(exact as nat, 1);
        lemma_value_of_signed(false, rounding::nearest(exact as nat, 1));
    } else {
        rounding::lemma_nearest((-exact) as nat, 1);
        lemma_value_of_signed(true, rounding::nearest((-exact) as nat, 1));
    }
}

/// Adding the same finite number to both sides keeps the order.
pub proof fn law_sum_keeps_order(x: Binary64, y: Binary64, z: Binary64)
    requires
        x.not_above(y),
        z.finite(),
    ensures
        x.sum(z).not_above(y.sum(z)),
{
    reveal(Binary64::sum);
    binary64::lemma_compared(x, y);
    lemma_extremes(x);
    lemma_extremes(y);
    if x.finite() {
        lemma_finite_sum(x, z);
        lemma_extremes(x.sum(z));
    }
    if y.finite() {
        lemma_finite_sum(y, z);
        lemma_extremes(y.sum(z));
    }
    if x.finite() && y.finite() {
        lemma_settled_monotone(x.value() + z.value(), y.value() + z.value());
    } else if y.infinite() && y.negative() {
        assert(x.value() == y.value());
        lemma_compared_infinite(x);
    } else if x.infinite() && !x.negative() {
        assert(x.value() == y.value());
        lemma_compared_infinite(y);
    }
}

/// Only an infinite number has the value of infinity.
proof fn lemma_compared_infinite(x: Binary64)
    requires
        !x.nan(),
        x.value() == rounding::units(INFINITE as nat) || x.value() == -(rounding::units(
            INFINITE as nat,
        ) as int),
    ensures
        x.infinite(),
{
    rounding::lemma_zero();
    rounding::lemma_ordered(0, INFINITE as nat);
    if x.magnitude() < INFINITE {
        rounding::lemma_ordered(x.magnitude(), INFINITE as nat);
    }
}

pub proof fn lemma_opposite(x: Binary64)
    ensures
        x.opposite().magnitude() == x.magnitude(),
        x.opposite().value() == -x.value(),
        x.opposite().nan() == x.nan(),
        x.opposite().finite() == x.finite(),
        x.opposite().infinite() == x.infinite(),
        x.opposite().negative() == !x.negative(),
{
    binary64::lemma_parts(x);
    binary64::lemma_signed(!x.negative(), x.magnitude());
}

/// What is left of a number after something that is not negative was taken from
/// it, but no less than zero, is not above the number.
pub proof fn law_remainder_is_not_above(x: Binary64, taken: Binary64)
    requires
        zero().not_above(x),
        zero().not_above(taken),
    ensures
        zero().not_above(x.difference(taken).larger(zero())),
        x.difference(taken).larger(zero()).not_above(x),
{
    reveal(Binary64::sum);
    lemma_zero_value();
    lemma_opposite(taken);
    let z = taken.opposite();
    binary64::lemma_compared(x, z);
    lemma_extremes(x);
    let left = x.sum(z);
    if x.finite() && z.finite() {
        lemma_finite_sum(x, z);
        lemma_settled_monotone(x.value() + z.value(), x.value());
        rounding::lemma_exact(x.magnitude(), rounding::units(x.magnitude()), 1);
        assert(settled(x.value()) == x.value()) by {
            rounding::lemma_zero();
            if x.negative() {
                binary64::lemma_compared(x, x);
            }
        }
    }
}

/// Nothing negative is left where a number that is not above a finite one is
/// taken from it.
pub proof fn law_difference_is_not_negative(x: Binary64, y: Binary64)
    requires
        x.not_above(y),
        y.finite(),
    ensures
        !y.difference(x).below(zero()),
{
    reveal(Binary64::sum);
    lemma_zero_value();
    lemma_opposite(x);
    let z = x.opposite();
    binary64::lemma_compared(y, z);
    lemma_extremes(x);
    lemma_extremes(y);
    lemma_extremes(z);
    if x.finite() {
        lemma_finite_sum(y, z);
        lemma_settled_monotone(0, y.value() - x.value());
        rounding::lemma_zero();
        rounding::lemma_exact(0, 0, 1);
        assert(settled(0) == 0);
    } else if !x.negative() {
        lemma_compared_infinite(y);
    }
}

/// What is left of two numbers after the same finite amount was taken from
/// both, but no less than zero, keeps their order.
pub proof fn law_remainders_keep_order(x: Binary64, y: Binary64, taken: Binary64)
    requires
        x.not_above(y),
        taken.finite(),
    ensures
        x.difference(taken).larger(zero()).not_above(y.difference(taken).larger(zero())),
        zero().not_above(x.difference(taken).larger(zero())),
{
    lemma_zero_value();
    lemma_opposite(taken);
    law_sum_keeps_order(x, y, taken.opposite());
}

/// A number that was moved into an interval lies in it.
pub proof fn law_confined_lies_within(x: Binary64, low: Binary64, high: Binary64)
    requires
        !x.nan(),
        low.not_above(high),
    ensures
        low.not_above(x.confined(low, high)),
        x.confined(low, high).not_above(high),
{
}

proof fn lemma_product_value(x: Binary64, y: Binary64)
    requires
        x.finite(),
        y.finite(),
        zero().not_above(x),
        zero().not_above(y),
    ensures
        !x.product(y).nan(),
        x.product(y).value() == rounding::units(
            rounding::nearest(
                rounding::units(x.magnitude()) * rounding::units(y.magnitude()),
                pow2(1074),
            ),
        ),
{
    reveal(Binary64::product);
    lemma_zero_value();
    binary64::lemma_compared(x, y);
    lemma_pow2_pos(1074);
    let num = rounding::units(x.magnitude()) * rounding::units(y.magnitude());
    rounding::lemma_nearest(num, pow2(1074));
    lemma_value_of_signed(x.negative() != y.negative(), rounding::nearest(num, pow2(1074)));
    if x.negative() != y.negative() {
        // One of the factors is a negative zero.
        assert(num == 0) by (nonlinear_arith)
            requires
                num == rounding::units(x.magnitude()) * rounding::units(y.magnitude()),
                rounding::units(x.magnitude()) == 0 || rounding::units(y.magnitude()) == 0,
        ;
        rounding::lemma_zero();
        assert(0 * pow2(1074) == 0) by (nonlinear_arith);
        rounding::lemma_exact(0, 0, pow2(1074));
    }
}

/// Multiplying a number that is not negative by a larger positive factor gives
/// no smaller product.
pub proof fn law_product_keeps_order(x: Binary64, y: Binary64, z: Binary64)
    requires
        zero().not_above(x),
        zero().below(y),
        y.not_above(z),
        z.finite(),
    ensures
        x.product(y).not_above(x.product(z)),
        zero().not_above(x.product(y)),
{
    lemma_zero_value();
    binary64::lemma_compared(y, z);
    binary64::lemma_compared(x, y);
    lemma_pow2_pos(1074);
    if x.infinite() {
        reveal(Binary64::product);
        lemma_extremes(y);
        lemma_compared_infinite_value(x);
        if y.infinite() {
            lemma_extremes(z);
            lemma_compared_infinite_value(y);
            lemma_compared_infinite(z);
        }
        lemma_value_of_signed(x.negative() != y.negative(), INFINITE as nat);
        lemma_value_of_signed(x.negative() != z.negative(), INFINITE as nat);
        rounding::lemma_ordered_weakly(0, INFINITE as nat);
        rounding::lemma_zero();
    } else {
        if y.infinite() {
            lemma_extremes(z);
            lemma_compared_infinite_value(y);
            lemma_compared_infinite(z);
        }
        lemma_product_value(x, y);
        lemma_product_value(x, z);
        let a = rounding::units(x.magnitude());
        let b = rounding::units(y.magnitude());
        let c = rounding::units(z.magnitude());
        let p = pow2(1074);
        assert((a * b) * p <= (a * c) * p) by (nonlinear_arith)
            requires
                b <= c,
                p > 0,
        ;
        rounding::lemma_nearest_monotone(a * b, p, a * c, p);
        rounding::lemma_ordered_weakly(
            rounding::nearest(a * b, p),
            rounding::nearest(a * c, p),
        );
    }
}

proof fn lemma_compared_infinite_value(x: Binary64)
    requires
        x.infinite(),
    ensures
        x.value() == rounding::units(INFINITE as nat) || x.value() == -(rounding::units(
            INFINITE as nat,
        ) as int),
        rounding::units(INFINITE as nat) > 0,
{
    rounding::lemma_zero();
    rounding::lemma_ordered(0, INFINITE as nat);
}

/// One, as a number.
pub open spec fn one() -> Binary64 {
    Binary64 { bits: 0x3ff0_0000_0000_0000 }
}

pub proof fn lemma_one()
    ensures
        rounding::units(one().magnitude()) == pow2(1074),
        one().finite(),
        !one().negative(),
        one().value() == pow2(1074),
        zero().below(one()),
{
    let m = 0x3ff0_0000_0000_0000nat;
    rounding::lemma_pattern(m);
    assert(rounding::exponent(m) == 1022);
    assert(rounding::significand(m) == 0x10_0000_0000_0000);
    lemma_pow2_adds(52, 1022);
    rounding::lemma_two_to_127();
    lemma_pow2_pos(1074);
    lemma_zero_value();
}

/// Multiplying by one changes no number that is not negative.
pub proof fn law_times_one(x: Binary64)
    requires
        zero().not_above(x),
    ensures
        x.product(one()).value() == x.value(),
        !x.product(one()).nan(),
{
    lemma_one();
    lemma_zero_value();
    binary64::lemma_compared(x, one());
    if x.infinite() {
        reveal(Binary64::product);
        lemma_value_of_signed(x.negative() != one().negative(), INFINITE as nat);
        lemma_compared_infinite_value(x);
    } else {
        lemma_product_value(x, one());
        rounding::lemma_exact(
            x.magnitude(),
            rounding::units(x.magnitude()) * pow2(1074),
            pow2(1074),
        );
    }
}

/// A whole number of units above zero settles above zero, and its negative on
/// the negative of that.
proof fn lemma_settled_sign(exact: int)
    ensures
        settled(exact) > 0 <==> exact > 0,
        settled(exact) < 0 <==> exact < 0,
        settled(-exact) == -settled(exact),
{
    rounding::lemma_zero();
    rounding::lemma_exact(0, 0, 1);
    rounding::lemma_exact(1, 1, 1);
    if exact > 0 {
        lemma_settled_monotone(1, exact);
    } else if exact < 0 {
        lemma_settled_monotone(1, -exact);
    }
}

/// The sign of a difference tells which of two finite numbers is larger, and a
/// difference of zero that they are equal.
pub proof fn law_differences_compare(x: Binary64, y: Binary64)
    requires
        x.finite(),
        y.finite(),
    ensures
        !y.difference(x).nan(),
        zero().below(y.difference(x)) <==> x.below(y),
        y.difference(x).below(zero()) <==> y.below(x),
        y.difference(x).value() == 0 <==> x.value() == y.value(),
        zero().not_above(y.difference(x)) <==> x.not_above(y),
        y.difference(x).not_above(zero()) <==> y.not_above(x),
{
    lemma_zero_value();
    lemma_opposite(x);
    lemma_finite_sum(y, x.opposite());
    lemma_settled_sign(y.value() - x.value());
}

/// Taken the other way round, a difference changes its sign and nothing else.
pub proof fn law_differences_are_opposite(x: Binary64, y: Binary64)
    requires
        x.finite(),
        y.finite(),
    ensures
        x.difference(y).value() == -y.difference(x).value(),
        x.value() != y.value() ==> x.difference(y) == y.difference(x).opposite(),
{
    reveal(Binary64::sum);
    lemma_opposite(x);
    lemma_opposite(y);
    lemma_finite_sum(y, x.opposite());
    lemma_finite_sum(x, y.opposite());
    lemma_settled_sign(y.value() - x.value());
    let exact = x.value() - y.value();
    if exact != 0 {
        let m = rounding::nearest((if exact > 0 { exact } else { -exact }) as nat, 1);
        rounding::lemma_nearest((if exact > 0 { exact } else { -exact }) as nat, 1);
        binary64::lemma_signed(exact > 0, m);
        binary64::lemma_signed(exact < 0, m);
    }
}

/// A sum does not depend on the order of its parts.
pub proof fn law_sum_commutes(x: Binary64, y: Binary64)
    requires
        !x.nan(),
        !y.nan(),
    ensures
        x.sum(y) == y.sum(x),
{
    reveal(Binary64::sum);
    binary64::lemma_parts(x);
    binary64::lemma_parts(y);
}

/// A product does not depend on the order of its factors.
pub proof fn law_product_commutes(x: Binary64, y: Binary64)
    ensures
        x.product(y) == y.product(x),
{
    reveal(Binary64::product);
    assert(rounding::units(x.magnitude()) * rounding::units(y.magnitude()) == rounding::units(
        y.magnitude(),
    ) * rounding::units(x.magnitude())) by (nonlinear_arith);
}

/// The size of a number forgets its sign: it is the larger of the number and its
/// opposite.
pub proof fn law_absolute_forgets_the_sign(x: Binary64)
    ensures
        x.opposite().absolute() == x.absolute(),
        !x.absolute().negative(),
        x.absolute().nan() == x.nan(),
        x.absolute().finite() == x.finite(),
        x.absolute().value() == (if x.value() < 0 {
            -x.value()
        } else {
            x.value()
        }),
{
    binary64::lemma_parts(x);
    lemma_opposite(x);
    binary64::lemma_signed(false, x.magnitude());
}

/// Taking from a number what is not lost in its last place makes it smaller.
pub proof fn law_remainder_is_below(x: Binary64, taken: Binary64)
    requires
        zero().below(x),
        x.finite(),
        zero().below(taken),
        x.value() <= taken.value() * pow2(52),
    ensures
        x.difference(taken).larger(zero()).below(x),
{
    reveal(Binary64::sum);
    lemma_zero_value();
    lemma_opposite(taken);
    binary64::lemma_compared(x, taken);
    rounding::lemma_two_to_127();
    let m = x.magnitude();
    let p = (m - 1) as nat;
    rounding::lemma_step(p);
    rounding::lemma_pattern(p);
    let step = pow2(rounding::exponent(p));
    assert(taken.value() >= step) by {
        if rounding::exponent(p) == 0 {
            lemma2_to64();
        } else {
            let q = rounding::significand(p);
            assert(q * step >= rounding::NORMAL * step) by (nonlinear_arith)
                requires
                    q >= rounding::NORMAL,
            ;
            assert(taken.value() >= step) by (nonlinear_arith)
                requires
                    x.value() <= taken.value() * rounding::NORMAL,
                    x.value() >= rounding::NORMAL * step,
            ;
        }
    }
    if taken.finite() {
        lemma_finite_sum(x, taken.opposite());
        lemma_settled_monotone(x.value() - taken.value(), rounding::units(p) as int);
        rounding::lemma_exact(p, rounding::units(p), 1);
    }
}

/// The opposite of a factor gives the opposite product, and a factor that is not
/// negative keeps the sign.
pub proof fn law_signs_multiply(x: Binary64, y: Binary64)
    requires
        x.finite(),
        y.finite(),
    ensures
        !x.product(y).nan(),
        x.opposite().product(y).value() == -x.product(y).value(),
        x.value() >= 0 && y.value() >= 0 ==> x.product(y).value() >= 0,
        x.value() <= 0 && y.value() >= 0 ==> x.product(y).value() <= 0,
{
    reveal(Binary64::product);
    lemma_opposite(x);
    lemma_pow2_pos(1074);
    let num = rounding::units(x.magnitude()) * rounding::units(y.magnitude());
    let m = rounding::nearest(num, pow2(1074));
    rounding::lemma_nearest(num, pow2(1074));
    lemma_value_of_signed(x.negative() != y.negative(), m);
    lemma_value_of_signed(x.negative() == y.negative(), m);
    rounding::lemma_zero();
    if x.value() == 0 || y.value() == 0 {
        assert(num == 0) by (nonlinear_arith)
            requires
                num == rounding::units(x.magnitude()) * rounding::units(y.magnitude()),
                rounding::units(x.magnitude()) == 0 || rounding::units(y.magnitude()) == 0,
        ;
        assert(0 * pow2(1074) == 0) by (nonlinear_arith);
        rounding::lemma_exact(0, 0, pow2(1074));
    }
}

/// Dividing by the same positive number keeps the order.
pub proof fn law_quotient_keeps_order(x: Binary64, y: Binary64, z: Binary64)
    requires
        zero().not_above(x),
        x.not_above(y),
        y.finite(),
        zero().below(z),
        z.finite(),
    ensures
        x.quotient(z).not_above(y.quotient(z)),
        zero().not_above(x.quotient(z)),
{
    reveal(Binary64::quotient);
    lemma_zero_value();
    binary64::lemma_compared(x, y);
    binary64::lemma_compared(z, z);
    rounding::lemma_zero();
    let a = rounding::units(x.magnitude()) * pow2(1074);
    let b = rounding::units(y.magnitude()) * pow2(1074);
    let c = rounding::units(z.magnitude());
    rounding::lemma_nearest(a, c);
    rounding::lemma_nearest(b, c);
    assert(a * c <= b * c) by (nonlinear_arith)
        requires
            a == rounding::units(x.magnitude()) * pow2(1074),
            b == rounding::units(y.magnitude()) * pow2(1074),
            rounding::units(x.magnitude()) <= rounding::units(y.magnitude()),
    ;
    rounding::lemma_nearest_monotone(a, c, b, c);
    rounding::lemma_ordered_weakly(rounding::nearest(a, c), rounding::nearest(b, c));
    lemma_value_of_signed(x.negative() != z.negative(), rounding::nearest(a, c));
    lemma_value_of_signed(y.negative() != z.negative(), rounding::nearest(b, c));
    rounding::lemma_ordered_weakly(0, rounding::nearest(a, c));
    if x.negative() {
        assert(a == 0) by (nonlinear_arith)
            requires
                a == rounding::units(x.magnitude()) * pow2(1074),
                rounding::units(x.magnitude()) == 0,
        ;
        assert(0 * c == 0) by (nonlinear_arith);
        rounding::lemma_exact(0, 0, c);
    }
    if y.negative() {
        assert(b == 0) by (nonlinear_arith)
            requires
                b == rounding::units(y.magnitude()) * pow2(1074),
                rounding::units(y.magnitude()) == 0,
        ;
        assert(0 * c == 0) by (nonlinear_arith);
        rounding::lemma_exact(0, 0, c);
    }
}

/// A number divided by one that is at least twice as large gives no more than a
/// half.
pub proof fn law_small_quotients_stay_small(x: Binary64, z: Binary64)
    requires
        zero().not_above(x),
        zero().below(z),
        x.finite(),
        z.finite(),
        2 * x.value() <= z.value(),
    ensures
        2 * x.quotient(z).value() <= pow2(1074),
        zero().not_above(x.quotient(z)),
        x.quotient(z).below(one()),
{
    reveal(Binary64::quotient);
    law_quotient_keeps_order(x, x, z);
    lemma_zero_value();
    lemma_one();
    binary64::lemma_compared(x, z);
    let p = pow2(1074);
    let a = rounding::units(x.magnitude());
    let c = rounding::units(z.magnitude());
    lemma_pow2_pos(1074);
    lemma_pow2_unfold(1074);
    let half = 0x3fe0_0000_0000_0000nat;
    rounding::lemma_pattern(half);
    assert(rounding::exponent(half) == 1021);
    assert(rounding::significand(half) == 0x10_0000_0000_0000);
    lemma_pow2_adds(52, 1021);
    rounding::lemma_two_to_127();
    assert(rounding::units(half) == pow2(1073));
    rounding::lemma_exact(half, rounding::units(half), 1);
    assert((a * p) * 1 <= pow2(1073) * c) by (nonlinear_arith)
        requires
            2 * a <= c,
            p == 2 * pow2(1073),
    ;
    rounding::lemma_nearest_monotone(a * p, c, pow2(1073), 1);
    rounding::lemma_nearest(a * p, c);
    rounding::lemma_ordered_weakly(rounding::nearest(a * p, c), half);
    lemma_value_of_signed(x.negative() != z.negative(), rounding::nearest(a * p, c));
}

/// What is not above a finite number and not negative is finite.
pub proof fn lemma_below_infinity(x: Binary64, y: Binary64)
    requires
        zero().not_above(x),
        x.not_above(y),
        y.finite(),
    ensures
        x.finite(),
{
    lemma_zero_value();
    rounding::lemma_ordered(y.magnitude(), INFINITE as nat);
    rounding::lemma_ordered_weakly(0, INFINITE as nat);
    rounding::lemma_zero();
    if x.infinite() {
        lemma_compared_infinite_value(x);
    }
}

/// One times a finite number has its value, and minus one times it has the
/// opposite value.
pub proof fn law_unit_products(x: Binary64)
    requires
        x.finite(),
    ensures
        one().product(x).finite(),
        one().product(x).value() == x.value(),
        one().opposite().product(x).finite(),
        one().opposite().product(x).value() == -x.value(),
{
    reveal(Binary64::product);
    lemma_one();
    lemma_opposite(one());
    lemma_pow2_pos(1074);
    let m = x.magnitude();
    assert(pow2(1074) * rounding::units(m) == rounding::units(m) * pow2(1074))
        by (nonlinear_arith);
    rounding::lemma_exact(m, rounding::units(m) * pow2(1074), pow2(1074));
    lemma_value_of_signed(x.negative(), m);
    lemma_value_of_signed(!x.negative(), m);
}

/// Finite numbers of the same value add the same.
pub proof fn lemma_same_value_same_sum(x: Binary64, y: Binary64, z: Binary64)
    requires
        y.finite(),
        z.finite(),
        y.value() == z.value(),
    ensures
        x.sum(y).nan() == x.sum(z).nan(),
        x.sum(y).value() == x.sum(z).value(),
{
    reveal(Binary64::sum);
    if x.finite() {
        lemma_finite_sum(x, y);
        lemma_finite_sum(x, z);
    }
}

/// Two finite numbers without a negative sign are the same where their values
/// are.
pub proof fn lemma_same_value(x: Binary64, y: Binary64)
    requires
        x.finite(),
        y.finite(),
        !x.negative(),
        !y.negative(),
        x.value() == y.value(),
    ensures
        x == y,
{
    binary64::lemma_parts(x);
    binary64::lemma_parts(y);
    if x.magnitude() < y.magnitude() {
        rounding::lemma_ordered(x.magnitude(), y.magnitude());
    } else if y.magnitude() < x.magnitude() {
        rounding::lemma_ordered(y.magnitude(), x.magnitude());
    }
}

/// Nothing times a finite number is nothing.
pub proof fn lemma_nothing_times(x: Binary64, y: Binary64)
    requires
        x.finite(),
        y.finite(),
        x.value() == 0,
    ensures
        x.product(y).value() == 0,
        !x.product(y).nan(),
{
    law_signs_multiply(x, y);
    lemma_opposite(y);
    reveal(Binary64::product);
    lemma_pow2_pos(1074);
    let num = rounding::units(x.magnitude()) * rounding::units(y.magnitude());
    assert(num == 0) by (nonlinear_arith)
        requires
            num == rounding::units(x.magnitude()) * rounding::units(y.magnitude()),
            rounding::units(x.magnitude()) == 0,
    ;
    rounding::lemma_zero();
    assert(0 * pow2(1074) == 0) by (nonlinear_arith);
    rounding::lemma_exact(0, 0, pow2(1074));
    lemma_value_of_signed(x.negative() != y.negative(), 0);
}

/// A sum of sizes is a size, no smaller than either of them.
pub proof fn law_sums_of_sizes(x: Binary64, y: Binary64)
    requires
        x.finite(),
        y.finite(),
        x.value() >= 0,
        y.value() >= 0,
    ensures
        !x.sum(y).nan(),
        x.sum(y).value() >= x.value(),
        x.sum(y).value() >= y.value(),
{
    lemma_finite_sum(x, y);
    lemma_settled_monotone(x.value(), x.value() + y.value());
    lemma_settled_monotone(y.value(), x.value() + y.value());
    lemma_settled_exact(x);
    lemma_settled_exact(y);
}

/// A number settles on itself.
proof fn lemma_settled_exact(x: Binary64)
    requires
        x.finite(),
        x.value() >= 0,
    ensures
        settled(x.value()) == x.value(),
{
    rounding::lemma_zero();
    rounding::lemma_exact(x.magnitude(), rounding::units(x.magnitude()), 1);
    rounding::lemma_exact(0, 0, 1);
    rounding::lemma_ordered_weakly(0, x.magnitude());
}

/// Every whole number up to 2^53 is a number.
proof fn lemma_whole_is_exact(n: nat, shift: nat)
    requires
        n <= 2 * rounding::NORMAL,
        shift <= 52,
        n * pow2(shift) < 2 * rounding::NORMAL || shift == 0,
    ensures
        n > 0 ==> exists|m: nat| m < INFINITE && #[trigger] rounding::units(m) == n * pow2(1074),
    decreases 53 - shift,
{
    rounding::lemma_two_to_127();
    lemma2_to64();
    if n > 0 {
        let q = n * pow2(shift);
        assert(n * pow2(0) == n) by (nonlinear_arith)
            requires
                pow2(0) == 1,
        ;
        if q >= rounding::NORMAL {
            let k = (1074 - shift) as nat;
            let m = k * (rounding::NORMAL as nat) + q;
            rounding::lemma_assemble(q, k);
            lemma_pow2_adds(shift, k);
            assert(n * pow2(shift) * pow2(k) == n * (pow2(shift) * pow2(k))) by (nonlinear_arith);
            assert(q <= 2 * rounding::NORMAL);
            assert(m < INFINITE) by (nonlinear_arith)
                requires
                    m == k * rounding::NORMAL + q,
                    k <= 1074,
                    q <= 2 * rounding::NORMAL,
                    rounding::NORMAL == 0x10_0000_0000_0000,
                    INFINITE == 0x7ff0_0000_0000_0000,
            ;
            assert(rounding::units(m) == n * pow2(1074));
        } else {
            lemma_pow2_unfold(shift + 1);
            assert(n * pow2(shift + 1) == 2 * q) by (nonlinear_arith)
                requires
                    pow2(shift + 1) == 2 * pow2(shift),
                    q == n * pow2(shift),
            ;
            assert(shift < 52) by {
                if shift == 52 {
                    assert(q >= rounding::NORMAL) by (nonlinear_arith)
                        requires
                            q == n * pow2(52),
                            pow2(52) == rounding::NORMAL,
                            n >= 1,
                    ;
                }
            }
            lemma_whole_is_exact(n, shift + 1);
        }
    }
}

pub proof fn lemma_whole_number_value(negative: bool, n: nat)
    requires
        n <= 2 * rounding::NORMAL,
    ensures
        binary64::whole_number(negative, n).finite(),
        binary64::whole_number(negative, n).value() == (if negative {
            -(n * pow2(1074))
        } else {
            (n * pow2(1074)) as int
        }),
{
    lemma2_to64();
    rounding::lemma_zero();
    lemma_whole_is_exact(n, 0);
    if n > 0 {
        let m = choose|m: nat| m < INFINITE && #[trigger] rounding::units(m) == n * pow2(1074);
        rounding::lemma_exact(m, n * pow2(1074), 1);
        lemma_value_of_signed(negative, m);
    } else {
        assert(0 * pow2(1074) == 0) by (nonlinear_arith);
        rounding::lemma_exact(0, 0, 1);
        lemma_value_of_signed(negative, 0);
    }
}

/// The whole part of a finite number is a number.
proof fn lemma_whole_part(x: Binary64, whole: int)
    requires
        x.finite(),
        whole * pow2(1074) <= x.value() < (whole + 1) * pow2(1074),
    ensures
        whole >= 0 ==> binary64::whole_number(false, whole as nat).finite()
            && binary64::whole_number(false, whole as nat).value() == whole * pow2(1074),
        whole < 0 ==> binary64::whole_number(true, (-whole) as nat).finite()
            && binary64::whole_number(true, (-whole) as nat).value() == whole * pow2(1074),
{
    let p = pow2(1074);
    let m = x.magnitude();
    let e = rounding::exponent(m);
    let q = rounding::significand(m);
    lemma_pow2_pos(1074);
    rounding::lemma_pattern(m);
    let size = (if whole >= 0 { whole } else { -whole }) as nat;
    if e >= 1074 {
        let up = (e - 1074) as nat;
        lemma_pow2_adds(up, 1074);
        let n = q * pow2(up);
        assert(rounding::units(m) == n * p) by (nonlinear_arith)
            requires
                rounding::units(m) == q * pow2(e),
                pow2(e) == pow2(up) * p,
                n == q * pow2(up),
        ;
        let signed = if x.negative() { -(n as int) } else { n as int };
        assert(x.value() == signed * p) by (nonlinear_arith)
            requires
                x.value() == (if x.negative() { -(n * p) } else { (n * p) as int }),
                signed == (if x.negative() { -(n as int) } else { n as int }),
        ;
        assert(whole == signed) by (nonlinear_arith)
            requires
                whole * p <= signed * p < (whole + 1) * p,
                p > 0,
        ;
        rounding::lemma_exact(m, size * p, 1);
        lemma_value_of_signed(whole < 0, m);
        if size == 0 {
            lemma_whole_number_value(false, 0);
            assert(0 * p == 0) by (nonlinear_arith);
        } else if whole < 0 {
            assert(-(size * p) == whole * p) by (nonlinear_arith)
                requires
                    size == -whole,
            ;
        }
        assert(whole >= 0 ==> whole * p == size * p);
    } else {
        assert(size <= 2 * rounding::NORMAL) by {
            let down = (1074 - e) as nat;
            lemma_pow2_adds(e, down);
            lemma_pow2_pos(e);
            lemma_pow2_pos(down);
            let d = pow2(down) as int;
            assert(p == pow2(e) * d);
            let s = rounding::units(m) as int;
            assert(s < 2 * rounding::NORMAL * pow2(e)) by (nonlinear_arith)
                requires
                    s == q * pow2(e),
                    q < 2 * rounding::NORMAL,
                    pow2(e) > 0,
            ;
            assert(d >= 2) by {
                lemma_pow2_unfold(down);
                if down > 1 {
                    lemma_pow2_pos((down - 1) as nat);
                } else {
                    lemma2_to64();
                }
            }
            assert((size - 1) * p < 2 * rounding::NORMAL * pow2(e)) by {
                if whole >= 0 {
                    assert(whole * p <= s) by {
                        if x.negative() {
                            assert(whole * p >= 0) by (nonlinear_arith)
                                requires
                                    whole >= 0,
                                    p > 0,
                            ;
                        }
                    }
                    assert((size - 1) * p <= whole * p) by (nonlinear_arith)
                        requires
                            size == whole,
                            p > 0,
                    ;
                } else {
                    assert(x.value() < 0) by (nonlinear_arith)
                        requires
                            x.value() < (whole + 1) * p,
                            whole < 0,
                            p > 0,
                    ;
                    assert(-s < (whole + 1) * p);
                    assert((size - 1) * p == -((whole + 1) * p)) by (nonlinear_arith)
                        requires
                            size == -whole,
                    ;
                }
            }
            assert(size - 1 < 2 * rounding::NORMAL) by (nonlinear_arith)
                requires
                    (size - 1) * p < 2 * rounding::NORMAL * pow2(e),
                    p == pow2(e) * d,
                    d >= 2,
                    pow2(e) > 0,
            ;
        }
        lemma_whole_number_value(whole < 0, size);
        if whole < 0 {
            assert(-(size * p) == whole * p) by (nonlinear_arith)
                requires
                    size == -whole,
            ;
        }
    }
}

/// Rounded down, a finite number is the largest whole number that is not above
/// it.
pub proof fn law_floor_is_the_whole_below(x: Binary64)
    requires
        x.finite(),
    ensures
        x.floored().finite(),
        x.floored().value() % (pow2(1074) as int) == 0,
        x.floored().value() <= x.value() < x.floored().value() + pow2(1074),
{
    reveal(Binary64::floored);
    let p = pow2(1074) as int;
    lemma_pow2_pos(1074);
    let whole = x.value() / p;
    lemma_fundamental_div_mod(x.value(), p);
    lemma_mod_bound(x.value(), p);
    assert(whole * p <= x.value() < (whole + 1) * p) by (nonlinear_arith)
        requires
            x.value() == p * whole + x.value() % p,
            0 <= x.value() % p < p,
    ;
    lemma_whole_part(x, whole);
    lemma_value_of_signed(x.negative(), 0);
    rounding::lemma_zero();
    assert(x.floored().value() == whole * p) by {
        if whole == 0 {
            assert(0 * p == 0) by (nonlinear_arith);
        }
    }
    lemma_mod_multiples_basic(whole, p);
    assert((whole + 1) * p == whole * p + p) by (nonlinear_arith);
}

/// Rounded up, a finite number is the smallest whole number that is not below it.
pub proof fn law_ceiling_is_the_whole_above(x: Binary64)
    requires
        x.finite(),
    ensures
        x.raised().finite(),
        x.raised().value() % (pow2(1074) as int) == 0,
        x.raised().value() - pow2(1074) < x.value() <= x.raised().value(),
{
    lemma_opposite(x);
    law_floor_is_the_whole_below(x.opposite());
    let down = x.opposite().floored();
    lemma_opposite(down);
    let p = pow2(1074) as int;
    lemma_pow2_pos(1074);
    lemma_fundamental_div_mod(down.value(), p);
    let k = down.value() / p;
    assert(-down.value() == (-k) * p) by (nonlinear_arith)
        requires
            down.value() == p * k,
    ;
    lemma_mod_multiples_basic(-k, p);
}

/// A rounded fraction is off by no more than half a unit in its last place.
proof fn lemma_rounding_error(num: nat, den: nat)
    requires
        den > 0,
        rounding::nearest(num, den) < INFINITE,
    ensures
        ({
            let found = rounding::units(rounding::nearest(num, den)) * den;
            let room = found + 0x10_0000_0000_0000 * den;
            &&& 0x20_0000_0000_0000 * (found - num) <= room
            &&& 0x20_0000_0000_0000 * (num - found) <= room
        }),
{
    let m = rounding::nearest(num, den);
    let u = rounding::units(m) as int;
    let d = den as int;
    let n = rounding::NORMAL as int;
    rounding::lemma_nearest(num, den);
    rounding::lemma_step(m);
    rounding::lemma_pattern(m);
    let step = pow2(rounding::exponent(m)) as int;
    assert(n * step <= u + n) by {
        if rounding::exponent(m) == 0 {
            lemma2_to64();
        } else {
            assert(n * step <= rounding::significand(m) * step) by (nonlinear_arith)
                requires
                    n <= rounding::significand(m),
                    step > 0,
            ;
        }
    }
    let above = (rounding::units(m) + rounding::units(m + 1)) * den;
    assert(above == 2 * (u * d) + step * d) by (nonlinear_arith)
        requires
            above == (u + (u + step)) * d,
    ;
    assert(n * (step * d) <= u * d + n * d) by (nonlinear_arith)
        requires
            n * step <= u + n,
            d > 0,
    ;
    if m > 0 {
        let p = (m - 1) as nat;
        rounding::lemma_step(p);
        rounding::lemma_pattern(p);
        let fine = pow2(rounding::exponent(p)) as int;
        assert(fine <= step) by {
            if rounding::exponent(p) > rounding::exponent(m) {
                assert(false) by (nonlinear_arith)
                    requires
                        m == rounding::exponent(m) * n + rounding::significand(m),
                        m - 1 == rounding::exponent(p) * n + rounding::significand(p),
                        rounding::exponent(p) >= rounding::exponent(m) + 1,
                        rounding::significand(m) < 2 * n,
                        rounding::significand(p) >= n,
                ;
            } else if rounding::exponent(p) < rounding::exponent(m) {
                lemma_pow2_strictly_increases(rounding::exponent(p), rounding::exponent(m));
            }
        }
        let below = (rounding::units(p) + rounding::units(m)) * den;
        assert(below >= 2 * (u * d) - step * d) by (nonlinear_arith)
            requires
                below == ((u - fine) + u) * d,
                fine <= step,
                d > 0,
        ;
    } else {
        rounding::lemma_zero();
        assert(u * d == 0) by (nonlinear_arith)
            requires
                u == 0,
        ;
    }
}

/// A product of positive numbers is off by no more than half a unit in its last
/// place.
pub proof fn lemma_product_error(x: Binary64, y: Binary64)
    requires
        x.finite(),
        y.finite(),
        x.value() >= 0,
        y.value() >= 0,
        x.product(y).finite(),
    ensures
        ({
            let exact = x.value() * y.value();
            let found = x.product(y).value() * pow2(1074);
            let room = found + 0x10_0000_0000_0000 * pow2(1074);
            &&& 0x20_0000_0000_0000 * (found - exact) <= room
            &&& 0x20_0000_0000_0000 * (exact - found) <= room
        }),
{
    reveal(Binary64::product);
    lemma_zero_value();
    lemma_pow2_pos(1074);
    let num = rounding::units(x.magnitude()) * rounding::units(y.magnitude());
    lemma_product_value(x, y);
    rounding::lemma_nearest(num, pow2(1074));
    lemma_value_of_signed(
        x.negative() != y.negative(),
        rounding::nearest(num, pow2(1074)),
    );
    lemma_rounding_error(num, pow2(1074));
}

/// A quotient of positive numbers is off by no more than half a unit in its last
/// place.
pub proof fn lemma_quotient_error(x: Binary64, y: Binary64)
    requires
        x.finite(),
        y.finite(),
        x.value() >= 0,
        y.value() > 0,
        x.quotient(y).finite(),
    ensures
        x.quotient(y).value() >= 0,
        ({
            let exact = x.value() * pow2(1074);
            let found = x.quotient(y).value() * y.value();
            let room = found + 0x10_0000_0000_0000 * y.value();
            &&& 0x20_0000_0000_0000 * (found - exact) <= room
            &&& 0x20_0000_0000_0000 * (exact - found) <= room
        }),
{
    reveal(Binary64::quotient);
    lemma_zero_value();
    law_quotient_keeps_order(x, x, y);
    binary64::lemma_compared(x, y);
    let num = rounding::units(x.magnitude()) * pow2(1074);
    let den = rounding::units(y.magnitude());
    let m = rounding::nearest(num, den);
    rounding::lemma_nearest(num, den);
    lemma_value_of_signed(x.negative() != y.negative(), m);
    lemma_rounding_error(num, den);
    if x.negative() {
        assert(num == 0) by (nonlinear_arith)
            requires
                num == rounding::units(x.magnitude()) * pow2(1074),
                rounding::units(x.magnitude()) == 0,
        ;
        assert(0 * den == 0) by (nonlinear_arith);
        rounding::lemma_zero();
        rounding::lemma_exact(0, 0, den);
    }
}

/// Whole numbers multiply exactly where their product is not above 2^53.
pub proof fn law_whole_products(x: Binary64, a: nat, y: Binary64, b: nat)
    requires
        x.finite(),
        y.finite(),
        a > 0,
        b > 0,
        a * b <= 2 * rounding::NORMAL,
        x.value() == a * pow2(1074),
        y.value() == b * pow2(1074),
    ensures
        x.product(y).finite(),
        x.product(y).value() == (a * b) * pow2(1074),
{
    let u = pow2(1074);
    lemma_pow2_pos(1074);
    lemma_zero_value();
    assert(a * u > 0 && b * u > 0) by (nonlinear_arith)
        requires
            a > 0,
            b > 0,
            u > 0,
    ;
    lemma_product_value(x, y);
    reveal(Binary64::product);
    lemma2_to64();
    let n = a * b;
    assert(n > 0) by (nonlinear_arith)
        requires
            n == a * b,
            a > 0,
            b > 0,
    ;
    lemma_whole_is_exact(n, 0);
    let m = choose|m: nat| m < INFINITE && #[trigger] rounding::units(m) == n * pow2(1074);
    let num = rounding::units(x.magnitude()) * rounding::units(y.magnitude());
    assert(num == (n * u) * u) by (nonlinear_arith)
        requires
            num == (a * u) * (b * u),
            n == a * b,
    ;
    rounding::lemma_exact(m, num, u);
    lemma_value_of_signed(x.negative() != y.negative(), m);
}

/// One over a whole number is the number nearest to that fraction.
pub proof fn law_one_over(x: Binary64, n: nat)
    requires
        x.finite(),
        n > 0,
        x.value() == n * pow2(1074),
    ensures
        one().quotient(x) == binary64::signed(false, rounding::nearest(pow2(1074), n)),
{
    reveal(Binary64::quotient);
    let u = pow2(1074);
    lemma_one();
    lemma_pow2_pos(1074);
    lemma_zero_value();
    assert(n * u > 0) by (nonlinear_arith)
        requires
            n > 0,
            u > 0,
    ;
    binary64::lemma_compared(x, x);
    rounding::lemma_zero();
    rounding::lemma_nearest(u, n);
    rounding::lemma_nearest(u * u, n * u);
    assert(u * (n * u) == (u * u) * n) by (nonlinear_arith);
    rounding::lemma_nearest_monotone(u, n, u * u, n * u);
    rounding::lemma_nearest_monotone(u * u, n * u, u, n);
}

/// A sum is not above a number that is not below the exact sum.
pub proof fn law_sums_stay_within(x: Binary64, y: Binary64, bound: Binary64)
    requires
        x.finite(),
        y.finite(),
        bound.finite(),
        0 <= x.value() + y.value() <= bound.value(),
    ensures
        x.sum(y).finite(),
        0 <= x.sum(y).value() <= bound.value(),
        x.value() + y.value() == bound.value() ==> x.sum(y).value() == bound.value(),
{
    let exact = x.value() + y.value();
    lemma_zero_value();
    lemma_finite_sum(x, y);
    lemma_settled_monotone(exact, bound.value());
    lemma_settled_sign(exact);
    lemma_settled_exact(bound);
    lemma_below_infinity(x.sum(y), bound);
}

/// How far rounding can move a sum that is not negative.
pub proof fn lemma_sum_error(x: Binary64, y: Binary64)
    requires
        x.finite(),
        y.finite(),
        x.value() + y.value() >= 0,
        x.sum(y).finite(),
    ensures
        ({
            let exact = x.value() + y.value();
            let found = x.sum(y).value();
            let room = found + 0x10_0000_0000_0000;
            &&& 0x20_0000_0000_0000 * (found - exact) <= room
            &&& 0x20_0000_0000_0000 * (exact - found) <= room
        }),
{
    let exact = (x.value() + y.value()) as nat;
    lemma_finite_sum(x, y);
    rounding::lemma_nearest(exact, 1);
    if rounding::nearest(exact, 1) >= INFINITE {
        lemma_settled_sign(exact as int);
        lemma_compared_infinite(x.sum(y));
    }
    lemma_rounding_error(exact, 1);
}

/// The pattern of twice a number.
spec fn doubled(m: nat) -> nat {
    if m < rounding::NORMAL {
        2 * m
    } else {
        m + rounding::NORMAL as nat
    }
}

proof fn lemma_doubled(m: nat)
    ensures
        rounding::units(doubled(m)) == 2 * rounding::units(m),
{
    let n = rounding::NORMAL as nat;
    lemma2_to64();
    rounding::lemma_pattern(m);
    let k = rounding::exponent(m);
    let q = rounding::significand(m);
    if m < n {
        rounding::lemma_assemble(2 * m, 0);
        assert(0 * n == 0 && m * pow2(0) == m) by (nonlinear_arith)
            requires
                pow2(0) == 1,
        ;
    } else {
        rounding::lemma_assemble(q, k + 1);
        lemma_pow2_unfold(k + 1);
        assert((k + 1) * n == k * n + n) by (nonlinear_arith);
        assert(q * (2 * pow2(k)) == 2 * (q * pow2(k))) by (nonlinear_arith);
    }
}

/// Twice a number settles on itself, or is out of range.
proof fn lemma_settled_double(x: Binary64)
    requires
        x.finite(),
        x.value() >= 0,
    ensures
        settled(2 * x.value()) == 2 * x.value() || (2 * x.value() >= rounding::units(
            INFINITE as nat,
        ) && settled(2 * x.value()) >= rounding::units(INFINITE as nat)),
{
    let m = x.magnitude();
    let d = doubled(m);
    lemma_doubled(m);
    lemma_zero_value();
    if x.negative() {
        assert(rounding::units(m) == 0);
    }
    assert(x.value() == rounding::units(m));
    if d <= INFINITE {
        rounding::lemma_exact(d, (2 * x.value()) as nat, 1);
    } else {
        rounding::lemma_ordered_weakly(INFINITE as nat, d);
        rounding::lemma_exact(INFINITE as nat, rounding::units(INFINITE as nat), 1);
        lemma_settled_monotone(rounding::units(INFINITE as nat) as int, 2 * x.value());
    }
}

/// Half the sum of two numbers lies between them.
pub proof fn law_the_mean_lies_between(x: Binary64, y: Binary64, half: Binary64)
    requires
        x.finite(),
        y.finite(),
        0 <= x.value() <= y.value(),
        x.sum(y).finite(),
        half.finite(),
        2 * half.value() == pow2(1074),
    ensures
        !x.sum(y).product(half).nan(),
        x.value() <= x.sum(y).product(half).value() <= y.value(),
{
    let u = pow2(1074);
    let total = x.sum(y);
    let s = total.value();
    let h = half.value();
    lemma_pow2_pos(1074);
    lemma_zero_value();
    lemma_finite_sum(x, y);
    lemma_settled_monotone(2 * x.value(), x.value() + y.value());
    lemma_settled_monotone(x.value() + y.value(), 2 * y.value());
    lemma_settled_double(x);
    lemma_settled_double(y);
    lemma_settled_sign(x.value() + y.value());
    assert(s < rounding::units(INFINITE as nat)) by {
        lemma_extremes(total);
        if s >= rounding::units(INFINITE as nat) {
            lemma_compared_infinite(total);
        }
    }
    assert(2 * x.value() <= s);
    assert(s <= 2 * y.value());
    lemma_product_value(total, half);
    binary64::lemma_compared(total, half);
    let num = rounding::units(total.magnitude()) * rounding::units(half.magnitude());
    assert(num == s * h);
    let a = x.value() as nat;
    let b = y.value() as nat;
    assert(a * u <= num) by (nonlinear_arith)
        requires
            num == s * h,
            2 * a <= s,
            2 * h == u,
            h >= 0,
    ;
    assert(num <= b * u) by (nonlinear_arith)
        requires
            num == s * h,
            s <= 2 * b,
            2 * h == u,
            h >= 0,
    ;
    assert(a == rounding::units(x.magnitude()) && b == rounding::units(y.magnitude()));
    rounding::lemma_exact(x.magnitude(), a * u, u);
    rounding::lemma_exact(y.magnitude(), b * u, u);
    assert((a * u) * u <= num * u) by (nonlinear_arith)
        requires
            a * u <= num,
    ;
    assert(num * u <= (b * u) * u) by (nonlinear_arith)
        requires
            num <= b * u,
    ;
    rounding::lemma_nearest_monotone(a * u, u, num, u);
    rounding::lemma_nearest_monotone(num, u, b * u, u);
    rounding::lemma_ordered_weakly(x.magnitude(), rounding::nearest(num, u));
    rounding::lemma_ordered_weakly(rounding::nearest(num, u), y.magnitude());
}

/// A share of less than a half is less than the whole.
pub proof fn law_shares_are_below(x: Binary64, share: Binary64)
    requires
        x.finite(),
        x.value() >= 2,
        share.finite(),
        0 <= 2 * share.value() <= pow2(1074),
        x.product(share).finite(),
    ensures
        0 <= x.product(share).value() < x.value(),
{
    let u = pow2(1074) as int;
    let v = x.product(share).value();
    let t = x.value();
    let s = share.value();
    lemma_pow2_pos(1074);
    law_signs_multiply(x, share);
    lemma_product_error(x, share);
    if v >= t {
        assert(2 * (t * s) <= t * u) by (nonlinear_arith)
            requires
                2 * s <= u,
                t >= 0,
        ;
        assert(v * u >= t * u && t * u >= 2 * u) by (nonlinear_arith)
            requires
                v >= t,
                t >= 2,
                u > 0,
        ;
        assert(false);
    }
}

/// The difference of numbers that are at least `step` apart is at least `step`.
pub proof fn law_far_differences(x: Binary64, y: Binary64, step: Binary64)
    requires
        x.finite(),
        y.finite(),
        step.finite(),
        step.value() >= 0,
    ensures
        x.value() - y.value() >= step.value() ==> x.difference(y).value() >= step.value(),
{
    lemma_opposite(y);
    lemma_finite_sum(x, y.opposite());
    lemma_settled_exact(step);
    if x.value() - y.value() >= step.value() {
        lemma_settled_monotone(step.value(), x.value() - y.value());
    }
}

/// A quotient by a positive number keeps the side of zero, and changes it with its
/// dividend.
pub proof fn law_signs_divide(x: Binary64, y: Binary64)
    requires
        x.finite(),
        y.finite(),
        y.value() > 0,
    ensures
        !x.quotient(y).nan(),
        x.value() >= 0 ==> x.quotient(y).value() >= 0,
        x.value() <= 0 ==> x.quotient(y).value() <= 0,
        x.opposite().quotient(y).value() == -x.quotient(y).value(),
{
    reveal(Binary64::quotient);
    lemma_zero_value();
    lemma_opposite(x);
    binary64::lemma_compared(x, y);
    binary64::lemma_compared(y, y);
    let num = rounding::units(x.magnitude()) * pow2(1074);
    let den = rounding::units(y.magnitude());
    if y.magnitude() == 0 {
        rounding::lemma_zero();
    }
    rounding::lemma_nearest(num, den);
    lemma_value_of_signed(false, rounding::nearest(num, den));
    lemma_value_of_signed(true, rounding::nearest(num, den));
    if x.value() == 0 {
        assert(rounding::units(x.magnitude()) == 0);
        rounding::lemma_zero();
        assert(num == 0) by (nonlinear_arith)
            requires
                num == 0 * pow2(1074),
        ;
        assert(0 * den == 0) by (nonlinear_arith);
        rounding::lemma_exact(0, num, den);
    }
}

/// Adding a size never lowers a number, and taking one away never raises it; from
/// nothing, the size itself comes.
pub proof fn law_sizes_move_numbers(x: Binary64, size: Binary64)
    requires
        x.finite(),
        size.finite(),
        size.value() >= 0,
    ensures
        !x.sum(size).nan(),
        !x.difference(size).nan(),
        x.sum(size).value() >= x.value(),
        x.difference(size).value() <= x.value(),
        x.value() == 0 ==> x.sum(size).value() == size.value(),
        x.value() == 0 ==> x.difference(size).value() == -size.value(),
        x.value() == size.value() ==> x.difference(size).value() == 0,
        x.value() == -size.value() ==> x.sum(size).value() == 0,
{
    lemma_opposite(size);
    lemma_opposite(x);
    lemma_finite_sum(x, size);
    lemma_finite_sum(x, size.opposite());
    lemma_settled_exact(size);
    lemma_settled_sign(size.value());
    lemma_settled_sign(x.value());
    lemma_settled_sign(0);
    if x.value() >= 0 {
        lemma_settled_exact(x);
    } else {
        lemma_settled_exact(x.opposite());
    }
    lemma_settled_monotone(x.value(), x.value() + size.value());
    lemma_settled_monotone(x.value() - size.value(), x.value());
}

/// Adding or taking away nothing leaves the value.
pub proof fn law_nothing_moves_nothing(x: Binary64, nothing: Binary64)
    requires
        x.finite(),
        nothing.finite(),
        nothing.value() == 0,
    ensures
        !x.sum(nothing).nan(),
        !x.difference(nothing).nan(),
        x.sum(nothing).value() == x.value(),
        x.difference(nothing).value() == x.value(),
{
    lemma_opposite(nothing);
    lemma_opposite(x);
    lemma_finite_sum(x, nothing);
    lemma_finite_sum(x, nothing.opposite());
    lemma_settled_sign(x.value());
    if x.value() >= 0 {
        lemma_settled_exact(x);
    } else {
        lemma_settled_exact(x.opposite());
    }
}

/// The whole part of a number within the range of `i32` lies between nothing and the
/// number, less than one away from it.
pub proof fn law_whole_parts_are_cut_towards_nothing(x: Binary64)
    requires
        x.finite(),
        -0x7fff_ffff * pow2(1074) <= x.value() <= 0x7fff_ffff * pow2(1074),
    ensures
        ({
            let whole = x.truncated() as int;
            let u = pow2(1074) as int;
            &&& x.value() >= 0 ==> whole * u <= x.value() < (whole + 1) * u
            &&& x.value() <= 0 ==> (whole - 1) * u < x.value() <= whole * u
        }),
{
    reveal(Binary64::truncated);
    let u = pow2(1074) as int;
    lemma_pow2_pos(1074);
    binary64::lemma_compared(x, x);
    let m = rounding::units(x.magnitude()) as int;
    lemma_fundamental_div_mod(m, u);
    lemma_mod_bound(m, u);
    let q = m / u;
    assert(q * u <= m < (q + 1) * u) by (nonlinear_arith)
        requires
            m == u * q + m % u,
            0 <= m % u < u,
    ;
    assert(q <= 0x7fff_ffff) by (nonlinear_arith)
        requires
            q * u <= m,
            m <= 0x7fff_ffff * u,
            u > 0,
    ;
    assert(q >= 0) by (nonlinear_arith)
        requires
            m < (q + 1) * u,
            m >= 0,
            u > 0,
    ;
    assert((-q) * u == -(q * u) && (-q - 1) * u == -((q + 1) * u)) by (nonlinear_arith);
}

/// How near a rounded quotient is to a tenth: ten times the share gives the whole
/// back, up to a part in 2^50.
pub proof fn law_a_tenth_is_a_tenth(x: Binary64, tenth: Binary64)
    requires
        x.finite(),
        x.value() >= pow2(60),
        tenth == binary64::signed(false, rounding::nearest(pow2(1074), 10)),
        tenth.finite(),
        x.product(tenth).finite(),
    ensures
        0x4_0000_0000_0000 * (10 * x.product(tenth).value()) <= 0x4_0000_0000_0001 * x.value(),
        0x4_0000_0000_0000 * x.value() <= 0x4_0000_0000_0001 * (10 * x.product(tenth).value()),
{
    let u = pow2(1074) as int;
    let t = tenth.value();
    let v = x.product(tenth).value();
    let w = x.value();
    lemma_pow2_pos(1074);
    lemma2_to64_rest();
    lemma_zero_value();
    rounding::lemma_nearest(pow2(1074), 10);
    lemma_value_of_signed(false, rounding::nearest(pow2(1074), 10));
    lemma_rounding_error(pow2(1074), 10);
    lemma_product_error(x, tenth);
    assert(u >= 0x400000000000000000000000000int) by {
        lemma_pow2_adds(53, 53);
        lemma_pow2_strictly_increases(106, 1074);
    }
    let a = 10 * (v * u);
    let b = 10 * (w * t);
    let c = w * u;
    assert(0x20_0000_0000_0000 * (10 * (w * t) - w * u) <= 10 * (w * t) + 0xa0_0000_0000_0000 * w)
        by (nonlinear_arith)
        requires
            0x20_0000_0000_0000 * (t * 10 - u) <= t * 10 + 0x10_0000_0000_0000 * 10,
            w > 0,
    ;
    assert(0x20_0000_0000_0000 * (w * u - 10 * (w * t)) <= 10 * (w * t) + 0xa0_0000_0000_0000 * w)
        by (nonlinear_arith)
        requires
            0x20_0000_0000_0000 * (u - t * 10) <= t * 10 + 0x10_0000_0000_0000 * 10,
            w > 0,
    ;
    assert(c >= 0x400000000000000000000000000int * w) by (nonlinear_arith)
        requires
            c == w * u,
            u >= 0x400000000000000000000000000int,
            w > 0,
    ;
    assert(c >= 0x1000_0000_0000_0000 * u) by (nonlinear_arith)
        requires
            c == w * u,
            w >= 0x1000_0000_0000_0000,
            u > 0,
    ;
    lemma_tenth_linear(a, b, c, w, u);
    assert(0x4_0000_0000_0000 * (10 * v) <= 0x4_0000_0000_0001 * w) by (nonlinear_arith)
        requires
            0x4_0000_0000_0000 * (10 * (v * u)) <= 0x4_0000_0000_0001 * (w * u),
            u > 0,
    ;
    assert(0x4_0000_0000_0000 * w <= 0x4_0000_0000_0001 * (10 * v)) by (nonlinear_arith)
        requires
            0x4_0000_0000_0000 * (w * u) <= 0x4_0000_0000_0001 * (10 * (v * u)),
            u > 0,
    ;
}

proof fn lemma_tenth_linear(a: int, b: int, c: int, w: int, u: int)
    requires
        0x20_0000_0000_0000 * (a - b) <= a + 0xa0_0000_0000_0000 * u,
        0x20_0000_0000_0000 * (b - a) <= a + 0xa0_0000_0000_0000 * u,
        0x20_0000_0000_0000 * (b - c) <= b + 0xa0_0000_0000_0000 * w,
        0x20_0000_0000_0000 * (c - b) <= b + 0xa0_0000_0000_0000 * w,
        c >= 0x400000000000000000000000000int * w,
        c >= 0x1000_0000_0000_0000 * u,
        w > 0,
        u > 0,
    ensures
        0x4_0000_0000_0000 * a <= 0x4_0000_0000_0001 * c,
        0x4_0000_0000_0000 * c <= 0x4_0000_0000_0001 * a,
{
}

} // verus!
