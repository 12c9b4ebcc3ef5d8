//! Prices on the grid of their tick, and sizes in whole lots.
use vstd::prelude::*;
use vstd::arithmetic::div_mod::*;
use vstd::arithmetic::power2::*;
use crate::binary64::Binary64;
use crate::constants;
use crate::constants::ONE;
use crate::ordering;
use super::super::utils;

verus! {

/// 2^50: rounding moves no figure by more than a part in this.
pub open spec fn fine() -> int {
    0x4_0000_0000_0000
}

/// Lets rounding be small: 2^1074 units, the size of one, are more than 2^106.
proof fn lemma_one_is_large()
    ensures
        pow2(1074) >= 0x400000000000000000000000000int,
{
    rounding_powers();
    lemma_pow2_adds(53, 53);
    lemma_pow2_strictly_increases(106, 1074);
}

/// The two bounds from which the errors of rounding are small.
pub proof fn lemma_powers()
    ensures
        pow2(1074) >= 0x400000000000000000000000000int,
        pow2(60) == 0x1000_0000_0000_0000,
{
    lemma_one_is_large();
    rounding_powers();
}

proof fn rounding_powers()
    ensures
        pow2(53) == 0x20_0000_0000_0000,
        pow2(60) == 0x1000_0000_0000_0000,
{
    lemma2_to64_rest();
}

/// A whole number above zero is at least one.
proof fn lemma_at_least_one(w: int)
    requires
        w > 0,
        w % (pow2(1074) as int) == 0,
    ensures
        w >= pow2(1074),
{
    lemma_pow2_pos(1074);
    let p = pow2(1074) as int;
    lemma_fundamental_div_mod(w, p);
    let k = w / p;
    assert(k >= 1) by (nonlinear_arith)
        requires
            w == p * k,
            w > 0,
            p > 0,
    ;
    assert(p * k >= p) by (nonlinear_arith)
        requires
            k >= 1,
            p > 0,
    ;
}

pub proof fn lemma_cancel(a: int, g: int, b: int, h: int, u: int)
    requires
        a * (g * u) <= b * (h * u),
        u > 0,
    ensures
        a * g <= b * h,
{
    assert(a * (g * u) == (a * g) * u) by (nonlinear_arith);
    assert(b * (h * u) == (b * h) * u) by (nonlinear_arith);
    assert(a * g <= b * h) by (nonlinear_arith)
        requires
            (a * g) * u <= (b * h) * u,
            u > 0,
    ;
}

/// A price that was rounded up lies at or above the price, and less than a tick
/// above it; one that was rounded down lies at or below it, and less than a tick
/// below it. Both hold up to a part in 2^50, which is lost in rounding.
pub proof fn law_grid_prices_lie_within_a_tick(price: Binary64, tick: Binary64, round_up: bool)
    requires
        price.finite(),
        price.value() > 0,
        tick.finite(),
        tick.value() >= pow2(60),
        price.quotient(tick).finite(),
        price.quotient(tick).value() > 0,
        utils::on_grid(price, tick, round_up).finite(),
    ensures
        ({
            let p = price.value();
            let t = tick.value();
            let g = utils::on_grid(price, tick, round_up).value();
            &&& g >= 0
            &&& round_up ==> fine() * p <= (fine() + 1) * g && fine() * g <= (fine() + 1) * (p + t)
            &&& !round_up ==> fine() * g <= (fine() + 1) * p && fine() * p <= (fine() + 1) * (g
                + t)
        }),
{
    let u = pow2(1074) as int;
    let p = price.value();
    let t = tick.value();
    let units = price.quotient(tick);
    let w = if round_up {
        units.raised()
    } else {
        units.floored()
    };
    let g = utils::on_grid(price, tick, round_up).value();
    lemma_pow2_pos(1074);
    rounding_powers();
    lemma_one_is_large();
    ordering::lemma_zero_value();
    ordering::lemma_quotient_error(price, tick);
    ordering::law_floor_is_the_whole_below(units);
    ordering::law_ceiling_is_the_whole_above(units);
    assert(w.value() >= 0) by {
        if w.value() < 0 {
            lemma_fundamental_div_mod(w.value(), u);
            lemma_whole_not_between(w.value(), u);
        }
    }
    ordering::law_signs_multiply(w, tick);
    ordering::lemma_product_error(w, tick);
    let v = p * u;
    let x = units.value() * t;
    let y = w.value() * t;
    let z = g * u;
    let r = u * t;
    assert(r >= 0x1000_0000_0000_0000 * u) by (nonlinear_arith)
        requires
            r == u * t,
            t >= 0x1000_0000_0000_0000,
            u > 0,
    ;
    assert(r >= 0x400000000000000000000000000int * t) by (nonlinear_arith)
        requires
            r == u * t,
            u >= 0x400000000000000000000000000int,
            t > 0,
    ;
    if w.value() > 0 {
        lemma_at_least_one(w.value());
        assert(y >= r) by (nonlinear_arith)
            requires
                y == w.value() * t,
                r == u * t,
                w.value() >= u,
                t > 0,
        ;
    } else {
        ordering::lemma_nothing_times(w, tick);
        assert(y == 0 && z == 0) by (nonlinear_arith)
            requires
                y == w.value() * t,
                w.value() == 0,
                z == g * u,
                g == 0,
        ;
    }
    assert(v > 0) by (nonlinear_arith)
        requires
            v == p * u,
            p > 0,
            u > 0,
    ;
    if round_up {
        assert(x <= y && y <= x + r) by (nonlinear_arith)
            requires
                x == units.value() * t,
                y == w.value() * t,
                r == u * t,
                t > 0,
                units.value() <= w.value() < units.value() + u,
        ;
        lemma_rounded_up(v, x, y, z, t, u, r);
        assert(fine() * v <= (fine() + 1) * z);
        assert(fine() * z <= (fine() + 1) * (v + r));
        assert((p + t) * u == v + r) by (nonlinear_arith)
            requires
                v == p * u,
                r == u * t,
        ;
        lemma_cancel(fine(), p, fine() + 1, g, u);
        lemma_cancel(fine(), g, fine() + 1, p + t, u);
    } else {
        assert(y <= x && x <= y + r) by (nonlinear_arith)
            requires
                x == units.value() * t,
                y == w.value() * t,
                r == u * t,
                t > 0,
                w.value() <= units.value() < w.value() + u,
        ;
        lemma_rounded_down(v, x, y, z, t, u, r);
        assert(fine() * z <= (fine() + 1) * v);
        assert(fine() * v <= (fine() + 1) * (z + r));
        assert((g + t) * u == z + r) by (nonlinear_arith)
            requires
                z == g * u,
                r == u * t,
        ;
        lemma_cancel(fine(), g, fine() + 1, p, u);
        lemma_cancel(fine(), p, fine() + 1, g + t, u);
    }
}

proof fn lemma_rounded_up(v: int, x: int, y: int, z: int, t: int, u: int, r: int)
    requires
        0x20_0000_0000_0000 * (x - v) <= x + 0x10_0000_0000_0000 * t,
        0x20_0000_0000_0000 * (v - x) <= x + 0x10_0000_0000_0000 * t,
        0x20_0000_0000_0000 * (z - y) <= z + 0x10_0000_0000_0000 * u,
        0x20_0000_0000_0000 * (y - z) <= z + 0x10_0000_0000_0000 * u,
        x <= y <= x + r,
        r <= y,
        0 < u,
        0 < t,
        0x1000_0000_0000_0000 * u <= r,
        0x400000000000000000000000000int * t <= r,
    ensures
        0x4_0000_0000_0000 * v <= 0x4_0000_0000_0001 * z,
        0x4_0000_0000_0000 * z <= 0x4_0000_0000_0001 * (v + r),
{
}

proof fn lemma_rounded_down(v: int, x: int, y: int, z: int, t: int, u: int, r: int)
    requires
        0x20_0000_0000_0000 * (x - v) <= x + 0x10_0000_0000_0000 * t,
        0x20_0000_0000_0000 * (v - x) <= x + 0x10_0000_0000_0000 * t,
        0x20_0000_0000_0000 * (z - y) <= z + 0x10_0000_0000_0000 * u,
        0x20_0000_0000_0000 * (y - z) <= z + 0x10_0000_0000_0000 * u,
        y <= x <= y + r,
        0 < v,
        r <= y || (y == 0 && z == 0),
        0 < u,
        0 < t,
        0x1000_0000_0000_0000 * u <= r,
        0x400000000000000000000000000int * t <= r,
    ensures
        0x4_0000_0000_0000 * z <= 0x4_0000_0000_0001 * v,
        0x4_0000_0000_0000 * v <= 0x4_0000_0000_0001 * (z + r),
{
}

/// No whole number lies between minus one and zero.
proof fn lemma_whole_not_between(w: int, u: int)
    requires
        u > 0,
        w < 0,
        w % u == 0,
    ensures
        w <= -u,
{
    lemma_fundamental_div_mod(w, u);
    let k = w / u;
    assert(k <= -1) by (nonlinear_arith)
        requires
            w == u * k,
            w < 0,
            u > 0,
    ;
    assert(u * k <= -u) by (nonlinear_arith)
        requires
            k <= -1,
            u > 0,
    ;
}

proof fn lemma_enough_lots(
    n: int,
    s: int,
    q: int,
    w: int,
    g: int,
    h: int,
    l: int,
    r: int,
    single: bool,
)
    requires
        0x20_0000_0000_0000 * (s - n) <= s + 0x10_0000_0000_0000 * h,
        0x20_0000_0000_0000 * (n - s) <= s + 0x10_0000_0000_0000 * h,
        0x20_0000_0000_0000 * (q - s) <= q + 0x10_0000_0000_0000 * l,
        0x20_0000_0000_0000 * (s - q) <= q + 0x10_0000_0000_0000 * l,
        0x20_0000_0000_0000 * (g - w) <= g + 0x10_0000_0000_0000 * h,
        0x20_0000_0000_0000 * (w - g) <= g + 0x10_0000_0000_0000 * h,
        q <= w,
        r <= w,
        !single ==> w <= q + r && 2 * r <= w,
        0 < n,
        0 < h,
        0 < l,
        0x1000_0000_0000_0000 * h <= r,
        0x400000000000000000000000000int * l <= r,
    ensures
        0x4_0000_0000_0000 * n <= 0x4_0000_0000_0001 * g,
        !single ==> 0x4_0000_0000_0000 * (g - r) <= 0x4_0000_0000_0001 * n,
{
}

/// The smallest order: a whole number of lots, at least one, that is worth the
/// notional; one lot less is not worth more than it. Both hold up to a part in
/// 2^50, which is lost in rounding.
pub proof fn law_the_smallest_order_is_worth_its_notional(
    notional: Binary64,
    price: Binary64,
    lot: Binary64,
)
    requires
        notional.finite(),
        notional.value() > 0,
        price.finite(),
        price.value() > 0,
        lot.finite(),
        lot.value() >= pow2(60),
        notional.quotient(price).finite(),
        notional.quotient(price).quotient(lot).finite(),
        utils::lots_for(notional, price, lot).finite(),
    ensures
        ({
            let size = utils::lots_for(notional, price, lot);
            let one = pow2(1074) as int;
            &&& size.value() > 0
            &&& fine() * (notional.value() * one) <= (fine() + 1) * (size.value() * price.value())
            &&& exists|lots: Binary64|
                {
                    &&& #[trigger] lots.product(lot) == size
                    &&& lots.finite()
                    &&& lots.value() % one == 0
                    &&& lots.value() >= one
                    &&& lots.value() > one ==> fine() * ((size.value() - lot.value())
                        * price.value()) <= (fine() + 1) * (notional.value() * one)
                }
        }),
{
    let u = pow2(1074) as int;
    let p = price.value();
    let t = lot.value();
    let shares = notional.quotient(price);
    let units = shares.quotient(lot);
    let lots = units.raised().larger(constants::number(ONE));
    let size = utils::lots_for(notional, price, lot);
    lemma_pow2_pos(1074);
    rounding_powers();
    lemma_one_is_large();
    ordering::lemma_zero_value();
    ordering::lemma_one();
    constants::law_constants_are_exact();
    ordering::lemma_quotient_error(notional, price);
    ordering::lemma_quotient_error(shares, lot);
    ordering::law_ceiling_is_the_whole_above(units);
    lemma_mod_self_0(u);
    assert(lots.value() >= u && lots.value() % u == 0 && lots.finite());
    ordering::lemma_product_error(lots, lot);
    let w = lots.value();
    let g = size.value();
    let n = (notional.value() * u) * u;
    let s = (shares.value() * p) * u;
    let q = (units.value() * t) * p;
    let y = (w * t) * p;
    let z = (g * u) * p;
    let h = p * u;
    let l = t * p;
    let r = (u * t) * p;
    lemma_scaled_error(shares.value() * p, notional.value() * u, p, u);
    assert((shares.value() * u) * p == s) by (nonlinear_arith)
        requires
            s == (shares.value() * p) * u,
    ;
    lemma_scaled_error(units.value() * t, shares.value() * u, t, p);
    lemma_scaled_error(g * u, w * t, u, p);
    assert(u * p == h) by (nonlinear_arith)
        requires
            h == p * u,
    ;
    assert(r >= 0x1000_0000_0000_0000 * h) by (nonlinear_arith)
        requires
            r == (u * t) * p,
            h == p * u,
            t >= 0x1000_0000_0000_0000,
            u > 0,
            p > 0,
    ;
    assert(r >= 0x400000000000000000000000000int * l) by (nonlinear_arith)
        requires
            r == (u * t) * p,
            l == t * p,
            u >= 0x400000000000000000000000000int,
            t > 0,
            p > 0,
    ;
    assert(n > 0 && h > 0 && l > 0) by (nonlinear_arith)
        requires
            n == (notional.value() * u) * u,
            h == p * u,
            l == t * p,
            notional.value() > 0,
            u > 0,
            p > 0,
            t > 0,
    ;
    assert(q <= y && r <= y) by (nonlinear_arith)
        requires
            q == (units.value() * t) * p,
            y == (w * t) * p,
            r == (u * t) * p,
            units.value() <= w,
            u <= w,
            t > 0,
            p > 0,
    ;
    if w > u {
        lemma_fundamental_div_mod(w, u);
        let k = w / u;
        assert(k >= 2) by (nonlinear_arith)
            requires
                w == u * k,
                w > u,
                u > 0,
        ;
        assert(w >= 2 * u) by (nonlinear_arith)
            requires
                w == u * k,
                k >= 2,
                u > 0,
        ;
        assert(2 * r <= y && y <= q + r) by (nonlinear_arith)
            requires
                q == (units.value() * t) * p,
                y == (w * t) * p,
                r == (u * t) * p,
                w <= units.value() + u,
                2 * u <= w,
                t > 0,
                p > 0,
        ;
    }
    lemma_enough_lots(n, s, q, y, z, h, l, r, w == u);
    assert(z == (g * p) * u) by (nonlinear_arith)
        requires
            z == (g * u) * p,
    ;
    lemma_cancel(fine(), notional.value() * u, fine() + 1, g * p, u);
    assert(g > 0) by {
        if g <= 0 {
            assert(g * p <= 0) by (nonlinear_arith)
                requires
                    g <= 0,
                    p > 0,
            ;
            assert(notional.value() * u > 0) by (nonlinear_arith)
                requires
                    notional.value() > 0,
                    u > 0,
            ;
        }
    }
    if w > u {
        assert(z - r == ((g - t) * p) * u) by (nonlinear_arith)
            requires
                z == (g * u) * p,
                r == (u * t) * p,
        ;
        lemma_cancel(fine(), (g - t) * p, fine() + 1, notional.value() * u, u);
    }
    assert(lots.product(lot) == size);
}

pub proof fn lemma_scaled_error(found: int, exact: int, unit: int, by: int)
    requires
        by > 0,
        0x20_0000_0000_0000 * (found - exact) <= found + 0x10_0000_0000_0000 * unit,
        0x20_0000_0000_0000 * (exact - found) <= found + 0x10_0000_0000_0000 * unit,
    ensures
        0x20_0000_0000_0000 * (found * by - exact * by) <= found * by + 0x10_0000_0000_0000 * (unit
            * by),
        0x20_0000_0000_0000 * (exact * by - found * by) <= found * by + 0x10_0000_0000_0000 * (unit
            * by),
{
    assert(0x20_0000_0000_0000 * (found * by - exact * by) == (0x20_0000_0000_0000 * (found
        - exact)) * by) by (nonlinear_arith);
    assert(0x20_0000_0000_0000 * (exact * by - found * by) == (0x20_0000_0000_0000 * (exact
        - found)) * by) by (nonlinear_arith);
    assert(found * by + 0x10_0000_0000_0000 * (unit * by) == (found + 0x10_0000_0000_0000 * unit)
        * by) by (nonlinear_arith);
    assert((0x20_0000_0000_0000 * (found - exact)) * by <= (found + 0x10_0000_0000_0000 * unit)
        * by) by (nonlinear_arith)
        requires
            by > 0,
            0x20_0000_0000_0000 * (found - exact) <= found + 0x10_0000_0000_0000 * unit,
    ;
    assert((0x20_0000_0000_0000 * (exact - found)) * by <= (found + 0x10_0000_0000_0000 * unit)
        * by) by (nonlinear_arith)
        requires
            by > 0,
            0x20_0000_0000_0000 * (exact - found) <= found + 0x10_0000_0000_0000 * unit,
    ;
}

/// Whole numbers up to 2^53 multiply exactly.
proof fn lemma_whole_product(x: Binary64, a: int, y: Binary64, b: int)
    requires
        x.finite(),
        y.finite(),
        a > 0,
        b > 0,
        a * b <= 0x20_0000_0000_0000,
        x.value() == a * pow2(1074),
        y.value() == b * pow2(1074),
    ensures
        x.product(y).finite(),
        x.product(y).value() == (a * b) * pow2(1074),
{
    ordering::law_whole_products(x, a as nat, y, b as nat);
}

/// The power of ten by squaring is the power of ten.
proof fn lemma_squared_power(base: Binary64, b: int, n: nat, so_far: Binary64, s: int)
    requires
        base.finite(),
        so_far.finite(),
        b >= 2,
        s > 0,
        base.value() == b * pow2(1074),
        so_far.value() == s * pow2(1074),
        s * vstd::arithmetic::power::pow(b, n) <= 0x20_0000_0000_0000,
    ensures
        utils::squared_power(base, n, so_far).finite(),
        utils::squared_power(base, n, so_far).value() == (s * vstd::arithmetic::power::pow(b, n))
            * pow2(1074),
    decreases n,
{
    broadcast use vstd::arithmetic::power::lemma_pow_positive;

    let half = n / 2;
    let all = vstd::arithmetic::power::pow(b, n);
    let square = vstd::arithmetic::power::pow(b * b, half);
    vstd::arithmetic::power::lemma_pow1(b);
    vstd::arithmetic::power::lemma_pow0(b);
    vstd::arithmetic::power::lemma_pow0(b * b);
    assert(square == vstd::arithmetic::power::pow(b, 2 * half)) by {
        vstd::arithmetic::power::lemma_pow_multiplies(b, 2, half);
        vstd::arithmetic::power::lemma_square_is_pow2(b);
    }
    vstd::arithmetic::power::lemma_pow_adds(b, 2 * half, (n % 2) as nat);
    assert(n == 2 * half + n % 2);
    assert(all == square * vstd::arithmetic::power::pow(b, (n % 2) as nat));
    assert(b * b >= 4) by (nonlinear_arith)
        requires
            b >= 2,
    ;
    vstd::arithmetic::power::lemma_pow_positive(b * b, half);
    if n % 2 == 1 {
        assert(s * b <= s * all) by (nonlinear_arith)
            requires
                all == square * b,
                square >= 1,
                s > 0,
                b > 0,
        ;
        lemma_whole_product(so_far, s, base, b);
        assert((s * b) * square == s * all) by (nonlinear_arith)
            requires
                all == square * b,
        ;
        assert(s * b > 0) by (nonlinear_arith)
            requires
                s > 0,
                b > 0,
        ;
    } else {
        assert(s * square == s * all) by (nonlinear_arith)
            requires
                all == square * 1,
        ;
    }
    let next = if n % 2 == 1 {
        s * b
    } else {
        s
    };
    if half == 0 {
        assert(next * square == next) by (nonlinear_arith)
            requires
                square == 1,
        ;
    } else {
        assert(square >= b * b) by {
            vstd::arithmetic::power::lemma_pow_increases((b * b) as nat, 1, half);
            vstd::arithmetic::power::lemma_pow1(b * b);
        }
        assert(b * b <= 0x20_0000_0000_0000) by (nonlinear_arith)
            requires
                next * square <= 0x20_0000_0000_0000,
                square >= b * b,
                next >= 1,
                b * b > 0,
        ;
        lemma_whole_product(base, b, base, b);
        lemma_squared_power(
            base.product(base),
            b * b,
            half,
            if n % 2 == 1 {
                so_far.product(base)
            } else {
                so_far
            },
            next,
        );
    }
}

/// Powers of ten are exact up to 10^15, and those below one are the numbers
/// nearest to them.
pub proof fn law_powers_of_ten(n: nat)
    requires
        n <= 15,
    ensures
        utils::ten_power(n as int).value() == vstd::arithmetic::power::pow(10, n) * pow2(1074),
        n > 0 ==> utils::ten_power(-(n as int)) == crate::binary64::signed(
            false,
            crate::rounding::nearest(pow2(1074), vstd::arithmetic::power::pow(10, n) as nat),
        ),
{
    let u = pow2(1074);
    lemma_pow2_pos(1074);
    constants::law_constants_are_exact();
    vstd::arithmetic::power::lemma_pow_positive(10, n);
    vstd::arithmetic::power::lemma_pow_increases(10, n, 15);
    assert(vstd::arithmetic::power::pow(10, 15) == 1_000_000_000_000_000) by {
        reveal_with_fuel(vstd::arithmetic::power::pow, 16);
    }
    let ten = constants::number(constants::TEN);
    let one = constants::number(ONE);
    lemma_squared_power(ten, 10, n, one, 1);
    let power = utils::squared_power(ten, n, one);
    let t = vstd::arithmetic::power::pow(10, n);
    assert(1 * t == t);
    if n > 0 {
        ordering::law_one_over(power, t as nat);
    }
}

/// The lot of a coin with `decimals` decimals is a unit of the last one.
pub proof fn law_lots_follow_the_decimals(decimals: u32)
    requires
        decimals <= 15,
    ensures
        decimals > 0 ==> super::super::account::lot_of(decimals) == crate::binary64::signed(
            false,
            crate::rounding::nearest(
                pow2(1074),
                vstd::arithmetic::power::pow(10, decimals as nat) as nat,
            ),
        ),
        super::super::account::lot_of(0).value() == pow2(1074),
{
    law_powers_of_ten(decimals as nat);
    law_powers_of_ten(0);
    vstd::arithmetic::power::lemma_pow0(10);
}

/// The price step is the larger of two: five significant digits, and what the
/// decimals of the size leave of six.
pub proof fn law_the_tick_keeps_five_digits(
    price: Binary64,
    size_decimals: u32,
    log10_price: Binary64,
)
    requires
        price.finite(),
        price.value() > 0,
        size_decimals <= 6,
    ensures
        ({
            let tick = utils::tick_size(price, size_decimals, log10_price);
            let digits = log10_price.floored().truncated() + 1;
            let coarse = utils::ten_power(digits - 5);
            let finest = utils::ten_power(size_decimals as int - 6);
            &&& tick is Some
            &&& tick->0 == coarse || tick->0 == finest
            &&& !coarse.nan() ==> coarse.not_above(tick->0)
            &&& !finest.nan() ==> finest.not_above(tick->0)
        }),
{
    ordering::lemma_zero_value();
}

/// Without a price or with more than six decimals there is no price step, and
/// without a positive price or tick no price on the grid.
pub proof fn law_no_step_without_a_price(
    price: Binary64,
    size_decimals: u32,
    log10_price: Binary64,
    tick: Binary64,
    round_up: bool,
)
    ensures
        utils::tick_size(price, size_decimals, log10_price) is None <==> price.nan()
            || price.infinite() || price.value() <= 0 || size_decimals > 6,
        utils::grid_price(price, tick, round_up) is None <==> price.nan() || price.infinite()
            || price.value() <= 0 || tick.nan() || tick.infinite() || tick.value() <= 0,
{
    ordering::lemma_zero_value();
}

/// The decimals are counted down in 32 bits: past half of their range the lot is a
/// power of ten upward, by as much as is missing to the whole range.
pub proof fn law_lots_wrap_past_half_the_range(decimals: u32)
    requires
        decimals > 0x8000_0000,
    ensures
        super::super::account::lot_of(decimals) == utils::ten_power(0x1_0000_0000 - decimals),
{
}

} // verus!
