//! Rounding of exact rationals to double precision magnitudes.
//!
//! A magnitude is the 63-bit pattern of a non-negative IEEE 754 binary64
//! number. Patterns are ordered as the numbers that they stand for, so the
//! neighbours of a pattern `m` are `m - 1` and `m + 1`, and a pattern is even
//! exactly when its significand is. Every number is a whole multiple of
//! 2^-1074; `units` gives that multiple.
use vstd::prelude::*;
use vstd::arithmetic::div_mod::*;
use vstd::arithmetic::power2::*;

verus! {

/// 2^52: the first pattern of a normal number, and its significand.
pub const NORMAL: u64 = 0x10_0000_0000_0000;

/// The pattern of infinity.
pub const INFINITE: u64 = 0x7ff0_0000_0000_0000;

/// The significand of a magnitude, with its hidden bit.
pub open spec fn significand(m: nat) -> nat {
    if m < NORMAL {
        m
    } else {
        (NORMAL + m % (NORMAL as nat)) as nat
    }
}

/// The binary exponent of a magnitude, counted from 2^-1074.
pub open spec fn exponent(m: nat) -> nat {
    if m < NORMAL {
        0
    } else {
        (m / (NORMAL as nat) - 1) as nat
    }
}

/// The value of a magnitude as a multiple of 2^-1074. For the pattern of
/// infinity it is 2^1024, where the next number would stand.
pub open spec fn units(m: nat) -> nat {
    significand(m) * pow2(exponent(m))
}

/// `m` is the magnitude nearest to `num / den`, in units of 2^-1074: twice the
/// fraction lies between the sums of `m` with its two neighbours, and on such a
/// sum itself only where `m` is even.
pub open spec fn rounds_to(m: nat, num: nat, den: nat) -> bool {
    &&& m <= INFINITE
    &&& m > 0 ==> {
        let edge = (units((m - 1) as nat) + units(m)) * den;
        edge < 2 * num || (edge == 2 * num && m % 2 == 0)
    }
    &&& m < INFINITE ==> {
        let edge = (units(m) + units(m + 1)) * den;
        2 * num < edge || (2 * num == edge && m % 2 == 0)
    }
}

/// The magnitude to which `num / den` units round, to nearest and ties to even.
pub open spec fn nearest(num: nat, den: nat) -> nat {
    choose|m: nat| rounds_to(m, num, den)
}

pub proof fn lemma_pattern(m: nat)
    ensures
        m == exponent(m) * NORMAL + significand(m),
        exponent(m) == 0 || NORMAL <= significand(m),
        significand(m) < 2 * NORMAL,
{
    if m >= NORMAL {
        lemma_fundamental_div_mod(m as int, NORMAL as int);
        let e = m / (NORMAL as nat);
        assert(e >= 1) by (nonlinear_arith)
            requires
                m == NORMAL * e + m % (NORMAL as nat),
                m >= NORMAL,
                0 <= m % (NORMAL as nat) < NORMAL,
        ;
        assert(e * NORMAL == (e - 1) * NORMAL + NORMAL) by (nonlinear_arith);
    }
}

/// A significand and an exponent give back the pattern that they make.
pub proof fn lemma_assemble(q: nat, k: nat)
    requires
        q <= 2 * NORMAL,
        k == 0 || NORMAL <= q,
    ensures
        units(k * (NORMAL as nat) + q) == q * pow2(k),
{
    let n = NORMAL as nat;
    let m = k * n + q;
    if q < n {
        assert(k * n == 0) by (nonlinear_arith)
            requires
                k == 0,
        ;
        assert(exponent(m) == 0);
    } else if q < 2 * n {
        assert(m == (k + 1) * n + (q - n)) by (nonlinear_arith)
            requires
                m == k * n + q,
        ;
        lemma_fundamental_div_mod_converse(m as int, n as int, (k + 1) as int, (q - n) as int);
        assert(m >= n) by (nonlinear_arith)
            requires
                m == (k + 1) * n + (q - n),
                q >= n,
        ;
    } else {
        assert(m == (k + 2) * n) by (nonlinear_arith)
            requires
                m == k * n + q,
                q == 2 * n,
        ;
        lemma_fundamental_div_mod_converse(m as int, n as int, (k + 2) as int, 0);
        assert(m >= n) by (nonlinear_arith)
            requires
                m == (k + 2) * n,
        ;
        lemma_pow2_unfold(k + 1);
        assert(n * pow2(k + 1) == q * pow2(k)) by (nonlinear_arith)
            requires
                pow2(k + 1) == 2 * pow2(k),
                q == 2 * n,
        ;
    }
}

/// The next magnitude is one unit of the last place away.
pub proof fn lemma_step(m: nat)
    ensures
        units(m + 1) == units(m) + pow2(exponent(m)),
        pow2(exponent(m)) > 0,
{
    lemma_pattern(m);
    let k = exponent(m);
    let q = significand(m);
    lemma_assemble(q + 1, k);
    lemma_pow2_pos(k);
    assert((q + 1) * pow2(k) == q * pow2(k) + pow2(k)) by (nonlinear_arith);
}

/// Patterns are ordered as the numbers that they stand for.
pub proof fn lemma_ordered(m: nat, n: nat)
    requires
        m < n,
    ensures
        units(m) < units(n),
    decreases n - m,
{
    lemma_step(m);
    if m + 1 < n {
        lemma_ordered(m + 1, n);
    }
}

pub proof fn lemma_ordered_weakly(m: nat, n: nat)
    requires
        m <= n,
    ensures
        units(m) <= units(n),
{
    if m < n {
        lemma_ordered(m, n);
    }
}

pub proof fn lemma_zero()
    ensures
        units(0) == 0,
        units(1) == 1,
{
    lemma2_to64();
    assert(0 * pow2(0) == 0) by (nonlinear_arith);
    assert(1 * pow2(0) == 1);
}

/// Rounding keeps order, so two results for one fraction are the same.
pub proof fn lemma_monotone(m: nat, num: nat, den: nat, n: nat, num2: nat, den2: nat)
    requires
        rounds_to(m, num, den),
        rounds_to(n, num2, den2),
        den > 0,
        den2 > 0,
        num * den2 <= num2 * den,
    ensures
        m <= n,
{
    if n < m {
        let low = units((m - 1) as nat) + units(m);
        let high = units(n) + units(n + 1);
        lemma_ordered_weakly(n, (m - 1) as nat);
        lemma_ordered_weakly(n + 1, m);
        if n + 1 < m {
            lemma_ordered(n, (m - 1) as nat);
        }
        assert(low * den <= 2 * num);
        assert(2 * num2 <= high * den2);
        assert(low * (den * den2) <= high * (den * den2) && (low * den < 2 * num || 2 * num2 < high
            * den2 ==> low * (den * den2) < high * (den * den2))) by (nonlinear_arith)
            requires
                low * den <= 2 * num,
                2 * num2 <= high * den2,
                num * den2 <= num2 * den,
                den > 0,
                den2 > 0,
        ;
        assert(low <= high) by (nonlinear_arith)
            requires
                low * (den * den2) <= high * (den * den2),
                den > 0,
                den2 > 0,
        ;
        assert(low == high && n + 1 == m);
        assert(m % 2 == 0 && n % 2 == 0);
    }
}

proof fn lemma_search(num: nat, den: nat, m: nat)
    requires
        m <= INFINITE,
        m > 0 ==> {
            let edge = (units((m - 1) as nat) + units(m)) * den;
            edge < 2 * num || (edge == 2 * num && m % 2 == 0)
        },
    ensures
        exists|n: nat| rounds_to(n, num, den),
    decreases INFINITE - m,
{
    if rounds_to(m, num, den) {
    } else {
        assert(units(((m + 1) - 1) as nat) == units(m));
        lemma_search(num, den, m + 1);
    }
}

/// Every fraction rounds to exactly one magnitude.
pub proof fn lemma_nearest(num: nat, den: nat)
    requires
        den > 0,
    ensures
        rounds_to(nearest(num, den), num, den),
        nearest(num, den) <= INFINITE,
{
    lemma_search(num, den, 0);
}

pub proof fn lemma_is_nearest(m: nat, num: nat, den: nat)
    requires
        rounds_to(m, num, den),
        den > 0,
    ensures
        nearest(num, den) == m,
{
    lemma_nearest(num, den);
    lemma_monotone(m, num, den, nearest(num, den), num, den);
    lemma_monotone(nearest(num, den), num, den, m, num, den);
}

/// A number that is a magnitude rounds to itself.
pub proof fn lemma_exact(m: nat, num: nat, den: nat)
    requires
        m <= INFINITE,
        den > 0,
        num == units(m) * den,
    ensures
        nearest(num, den) == m,
{
    if m > 0 {
        lemma_ordered((m - 1) as nat, m);
        let a = units((m - 1) as nat);
        let b = units(m);
        assert((a + b) * den < 2 * (b * den)) by (nonlinear_arith)
            requires
                a < b,
                den > 0,
        ;
    }
    if m < INFINITE {
        lemma_ordered(m, m + 1);
        let b = units(m);
        let c = units(m + 1);
        assert(2 * (b * den) < (b + c) * den) by (nonlinear_arith)
            requires
                b < c,
                den > 0,
        ;
    }
    lemma_is_nearest(m, num, den);
}

/// Rounding keeps order.
pub proof fn lemma_nearest_monotone(num: nat, den: nat, num2: nat, den2: nat)
    requires
        den > 0,
        den2 > 0,
        num * den2 <= num2 * den,
    ensures
        nearest(num, den) <= nearest(num2, den2),
{
    lemma_nearest(num, den);
    lemma_nearest(num2, den2);
    lemma_monotone(nearest(num, den), num, den, nearest(num2, den2), num2, den2);
}

/// 2 to the power `n`.
pub fn power_of_two(n: u32) -> (power: u128)
    requires
        n <= 127,
    ensures
        power == pow2(n as nat),
        power > 0,
{
    let mut power: u128 = 1;
    let mut i: u32 = 0;
    proof {
        lemma2_to64();
    }
    while i < n
        invariant
            i <= n <= 127,
            power == pow2(i as nat),
        decreases n - i,
    {
        proof {
            lemma_pow2_unfold((i + 1) as nat);
            lemma_two_to_127();
            if i + 1 < 127 {
                lemma_pow2_strictly_increases((i + 1) as nat, 127);
            }
        }
        power = power * 2;
        i = i + 1;
    }
    proof {
        lemma_pow2_pos(n as nat);
    }
    power
}

pub proof fn lemma_two_to_127()
    ensures
        pow2(53) == 2 * NORMAL,
        pow2(52) == NORMAL,
        pow2(127) == 0x8000_0000_0000_0000_0000_0000_0000_0000,
{
    lemma2_to64_rest();
    lemma_pow2_adds(63, 64);
    assert(0x8000_0000_0000_0000int * 0x1_0000_0000_0000_0000int
        == 0x8000_0000_0000_0000_0000_0000_0000_0000int);
}

/// The number of binary digits of `m`.
fn bit_length(m: u128) -> (length: u32)
    requires
        0 < m < pow2(127),
    ensures
        1 <= length <= 127,
        pow2((length - 1) as nat) <= m < pow2(length as nat),
{
    let mut length: u32 = 1;
    let mut power: u128 = 2;
    proof {
        lemma2_to64();
        lemma_two_to_127();
    }
    while power <= m
        invariant
            0 < m < pow2(127),
            1 <= length <= 127,
            power == pow2(length as nat),
            pow2((length - 1) as nat) <= m,
            pow2(127) == 0x8000_0000_0000_0000_0000_0000_0000_0000,
        decreases 127 - length,
    {
        proof {
            if length >= 127 {
                assert(false);
            }
            lemma_pow2_unfold((length + 1) as nat);
        }
        power = power * 2;
        length = length + 1;
    }
    length
}

/// `num / den` lies at `m * 2^k`, or, where `inexact`, strictly between that
/// and `(m + 1) * 2^k`.
pub open spec fn located(num: nat, den: nat, m: nat, k: int, inexact: bool) -> bool {
    let up = pow2(if k < 0 { 0 } else { k as nat });
    let down = pow2(if k < 0 { (-k) as nat } else { 0 });
    if inexact {
        m * up * den < num * down < (m + 1) * up * den
    } else {
        num * down == m * up * den
    }
}

/// Brings a located fraction onto the grid of the exponent `t`: its place among
/// the multiples of 2^t is read off the quotient and the remainder of `m`.
proof fn lemma_on_grid(
    num: nat,
    den: nat,
    m: nat,
    k: int,
    inexact: bool,
    t: nat,
    q: nat,
    rem: nat,
)
    requires
        den > 0,
        located(num, den, m, k, inexact),
        t >= k,
        m == q * pow2((t - k) as nat) + rem,
        rem < pow2((t - k) as nat),
    ensures
        q * pow2(t) * den <= num < (q + 1) * pow2(t) * den,
        2 * rem > pow2((t - k) as nat) ==> 2 * num > (2 * q + 1) * pow2(t) * den,
        2 * rem == pow2((t - k) as nat) && inexact ==> 2 * num > (2 * q + 1) * pow2(t) * den,
        2 * rem == pow2((t - k) as nat) && !inexact ==> 2 * num == (2 * q + 1) * pow2(t) * den,
        2 * rem + 2 <= pow2((t - k) as nat) ==> 2 * num < (2 * q + 1) * pow2(t) * den,
        !inexact && 2 * rem < pow2((t - k) as nat) ==> 2 * num < (2 * q + 1) * pow2(t) * den,
        !inexact && rem == 0 ==> num == q * pow2(t) * den,
{
    let up = pow2(if k < 0 { 0 } else { k as nat });
    let down = pow2(if k < 0 { (-k) as nat } else { 0 });
    let d = pow2((t - k) as nat);
    let a = pow2(t);
    lemma2_to64();
    if k < 0 {
        lemma_pow2_adds(t, (-k) as nat);
        lemma_pow2_pos((-k) as nat);
    } else {
        lemma_pow2_adds((t - k) as nat, k as nat);
        lemma_pow2_pos(k as nat);
    }
    assert(a * down == d * up) by (nonlinear_arith)
        requires
            k < 0 ==> up == 1 && a * down == d,
            k >= 0 ==> down == 1 && d * up == a,
            k < 0 || k >= 0,
    ;
    lemma_pow2_pos(t);
    assert(down > 0);
    // Everything is compared after multiplication by `down`.
    let scaled = num * down;
    let w = up * den;
    assert(m * up * den == m * w && (m + 1) * up * den == (m + 1) * w) by (nonlinear_arith)
        requires
            w == up * den,
    ;
    assert(w > 0) by (nonlinear_arith)
        requires
            w == up * den,
            up > 0,
            den > 0,
    ;
    lemma_rescale(q, a, den, down, d, up);
    lemma_rescale(q + 1, a, den, down, d, up);
    lemma_rescale(2 * q + 1, a, den, down, d, up);
    lemma_grid_arith(scaled as int, w as int, m as int, d as int, q as int, rem as int, inexact);
    lemma_cancel((q * a * den) as int, num as int, down as int);
    lemma_cancel(num as int, ((q + 1) * a * den) as int, down as int);
    assert((2 * num) * down == 2 * scaled) by (nonlinear_arith)
        requires
            scaled == num * down,
    ;
    lemma_cancel(((2 * q + 1) * a * den) as int, (2 * num) as int, down as int);
    lemma_cancel((2 * num) as int, ((2 * q + 1) * a * den) as int, down as int);
}

proof fn lemma_rescale(c: nat, a: nat, den: nat, down: nat, d: nat, up: nat)
    requires
        a * down == d * up,
    ensures
        (c * a * den) * down == c * d * (up * den),
{
    assert((c * a * den) * down == c * (a * down) * den) by (nonlinear_arith);
    assert(c * (d * up) * den == c * d * (up * den)) by (nonlinear_arith);
}

proof fn lemma_cancel(x: int, y: int, d: int)
    by (nonlinear_arith)
    requires
        d > 0,
    ensures
        x * d <= y * d ==> x <= y,
        x * d < y * d ==> x < y,
        x * d == y * d ==> x == y,
{
}

proof fn lemma_grid_arith(s: int, w: int, m: int, d: int, q: int, rem: int, inexact: bool)
    requires
        w > 0,
        d > 0,
        m == q * d + rem,
        0 <= rem < d,
        inexact ==> m * w < s < (m + 1) * w,
        !inexact ==> s == m * w,
    ensures
        q * d * w <= s < (q + 1) * d * w,
        2 * rem > d ==> 2 * s > (2 * q + 1) * d * w,
        2 * rem == d && inexact ==> 2 * s > (2 * q + 1) * d * w,
        2 * rem == d && !inexact ==> 2 * s == (2 * q + 1) * d * w,
        2 * rem + 2 <= d ==> 2 * s < (2 * q + 1) * d * w,
        !inexact && 2 * rem < d ==> 2 * s < (2 * q + 1) * d * w,
        !inexact && rem == 0 ==> s == q * d * w,
{
    assert(m * w == q * d * w + rem * w) by (nonlinear_arith)
        requires
            m == q * d + rem,
    ;
    assert((m + 1) * w == m * w + w) by (nonlinear_arith);
    assert((q + 1) * d * w == q * d * w + d * w) by (nonlinear_arith);
    assert((2 * q + 1) * d * w == 2 * (q * d * w) + d * w) by (nonlinear_arith);
    assert(rem * w + w <= d * w) by (nonlinear_arith)
        requires
            rem + 1 <= d,
            w > 0,
    ;
    assert(0 <= rem * w) by (nonlinear_arith)
        requires
            rem >= 0,
            w > 0,
    ;
    if 2 * rem > d {
        assert(2 * (rem * w) > d * w) by (nonlinear_arith)
            requires
                2 * rem > d,
                w > 0,
        ;
    } else if 2 * rem == d {
        assert(2 * (rem * w) == d * w) by (nonlinear_arith)
            requires
                2 * rem == d,
        ;
    } else {
        assert(2 * (rem * w) + w <= d * w) by (nonlinear_arith)
            requires
                2 * rem + 1 <= d,
                w > 0,
        ;
    }
    if 2 * rem + 2 <= d {
        assert(2 * (rem * w) + 2 * w <= d * w) by (nonlinear_arith)
            requires
                2 * rem + 2 <= d,
                w > 0,
        ;
    }
}

/// The magnitude nearest to a located fraction.
pub fn round_magnitude(
    m: u128,
    k: i32,
    inexact: bool,
    Ghost(num): Ghost<nat>,
    Ghost(den): Ghost<nat>,
) -> (r: u64)
    requires
        den > 0,
        m < pow2(127),
        -10000 <= k <= 10000,
        inexact ==> pow2(54) <= m,
        located(num, den, m as nat, k as int, inexact),
    ensures
        r == nearest(num, den),
        r <= INFINITE,
{
    proof {
        lemma2_to64();
        lemma2_to64_rest();
        lemma_two_to_127();
    }
    if m == 0 {
        proof {
            lemma_zero();
            lemma_located_zero(num, den, k as int);
            lemma_exact(0, num, den);
        }
        return 0;
    }
    let length = bit_length(m);
    let wanted: i32 = k + length as i32 - 53;
    let t: i32 = if wanted < 0 { 0 } else { wanted };
    proof {
        if inexact {
            if length <= 54 {
                if length < 54 {
                    lemma_pow2_strictly_increases(length as nat, 54);
                }
                assert(false);
            }
        }
    }
    if k >= t {
        let q: u128 = m * power_of_two_small(m, length, (k - t) as u32);
        proof {
            lemma_exact_grid(num, den, m as nat, k as int, t as nat, q as nat);
            assert(0 < q) by (nonlinear_arith)
                requires
                    q == m * pow2((k - t) as nat),
                    m > 0,
                    pow2((k - t) as nat) > 0,
            ;
            if t > 0 {
                assert(k - t == 53 - length);
                lemma_pow2_adds((length - 1) as nat, (k - t) as nat);
                assert(pow2((length - 1) as nat) * pow2((k - t) as nat) <= q) by (nonlinear_arith)
                    requires
                        q == m * pow2((k - t) as nat),
                        pow2((length - 1) as nat) <= m,
                ;
            }
        }
        return assemble_exact(q, t, Ghost(num), Ghost(den));
    }
    let shift: u32 = (t - k) as u32;
    if shift > 127 {
        proof {
            assert(t == 0);
            lemma_tiny(num, den, m as nat, k as int, inexact);
        }
        return 0;
    }
    let d = power_of_two(shift);
    let q: u128 = m / d;
    let rem: u128 = m % d;
    proof {
        lemma_fundamental_div_mod(m as int, d as int);
        assert(m == q * d + rem) by (nonlinear_arith)
            requires
                m == d * q + rem,
        ;
        lemma_on_grid(num, den, m as nat, k as int, inexact, t as nat, q as nat, rem as nat);
        lemma_quotient_bounds(m as nat, length as nat, shift as nat, q as nat, rem as nat);
        assert(t > 0 ==> q >= NORMAL);
        assert(q < 2 * NORMAL);
        lemma_pow2_unfold(shift as nat);
        assert(d % 2 == 0);
    }
    let half: u128 = d / 2;
    let up = rem > half || (rem == half && (inexact || q % 2 == 1));
    assemble_rounded(q, t, up, Ghost(num), Ghost(den))
}

/// `2^n`, where `m * 2^n` has at most 53 digits.
fn power_of_two_small(m: u128, length: u32, n: u32) -> (power: u128)
    requires
        1 <= length,
        length + n <= 53,
        0 < m < pow2(length as nat),
    ensures
        power == pow2(n as nat),
        m * power < pow2(53),
        0 < power,
{
    let power = power_of_two(n);
    proof {
        lemma_pow2_adds(length as nat, n as nat);
        assert(m * pow2(n as nat) < pow2(length as nat) * pow2(n as nat)) by (nonlinear_arith)
            requires
                m < pow2(length as nat),
                pow2(n as nat) > 0,
        ;
        if length + n < 53 {
            lemma_pow2_strictly_increases((length + n) as nat, 53);
        }
        lemma_two_to_127();
    }
    power
}

proof fn lemma_located_zero(num: nat, den: nat, k: int)
    requires
        den > 0,
        located(num, den, 0, k, false),
    ensures
        num == 0,
{
    let up = pow2(if k < 0 { 0 } else { k as nat });
    let down = pow2(if k < 0 { (-k) as nat } else { 0 });
    lemma_pow2_pos(if k < 0 { (-k) as nat } else { 0 });
    assert(0 * up * den == 0) by (nonlinear_arith);
    assert(num == 0) by (nonlinear_arith)
        requires
            num * down == 0,
            down > 0,
    ;
}

proof fn lemma_exact_grid(num: nat, den: nat, m: nat, k: int, t: nat, q: nat)
    requires
        k >= t,
        located(num, den, m, k, false),
        q == m * pow2((k - t) as nat),
    ensures
        num == q * pow2(t) * den,
{
    lemma2_to64();
    lemma_pow2_adds((k - t) as nat, t);
    assert(m * (pow2((k - t) as nat) * pow2(t)) * den == (m * pow2((k - t) as nat)) * pow2(t) * den)
        by (nonlinear_arith);
    assert(num * 1 == num);
}

proof fn lemma_tiny(num: nat, den: nat, m: nat, k: int, inexact: bool)
    requires
        den > 0,
        m < pow2(127),
        k < -127,
        located(num, den, m, k, inexact),
    ensures
        nearest(num, den) == 0,
{
    lemma2_to64();
    let down = pow2((-k) as nat);
    lemma_pow2_unfold(128);
    if -k > 128 {
        lemma_pow2_strictly_increases(128, (-k) as nat);
    }
    let up = pow2(0);
    assert(m * up * den <= (m + 1) * up * den) by (nonlinear_arith);
    assert(num * down <= (m + 1) * up * den);
    assert(num * down <= pow2(127) * den) by (nonlinear_arith)
        requires
            num * down <= (m + 1) * up * den,
            up == 1,
            m + 1 <= pow2(127),
    ;
    assert(2 * num * down <= down * den) by (nonlinear_arith)
        requires
            num * down <= pow2(127) * den,
            2 * pow2(127) <= down,
            den > 0,
    ;
    assert(2 * num <= den) by (nonlinear_arith)
        requires
            2 * num * down <= down * den,
            down > 0,
    ;
    lemma_zero();
    assert((units(0) + units(1)) * den == den) by (nonlinear_arith)
        requires
            units(0) == 0,
            units(1) == 1,
    ;
    lemma_is_nearest(0, num, den);
}

proof fn lemma_quotient_bounds(m: nat, length: nat, shift: nat, q: nat, rem: nat)
    requires
        1 <= length,
        pow2((length - 1) as nat) <= m < pow2(length),
        m == q * pow2(shift) + rem,
        rem < pow2(shift),
        length <= shift + 53,
    ensures
        q < pow2(53),
        length == shift + 53 ==> q >= pow2(52),
{
    lemma_pow2_pos(shift);
    lemma_pow2_adds(53, shift);
    if length < shift + 53 {
        lemma_pow2_strictly_increases(length, shift + 53);
    }
    assert(q < pow2(53)) by (nonlinear_arith)
        requires
            q * pow2(shift) <= m,
            m < pow2(53) * pow2(shift),
            pow2(shift) > 0,
    ;
    if length == shift + 53 {
        lemma_pow2_adds(52, shift);
        assert((q + 1) * pow2(shift) == q * pow2(shift) + pow2(shift)) by (nonlinear_arith);
        assert(q + 1 > pow2(52)) by (nonlinear_arith)
            requires
                m < (q + 1) * pow2(shift),
                pow2(52) * pow2(shift) <= m,
                pow2(shift) > 0,
        ;
    }
}

/// Beyond the largest exponent only infinity is left.
pub proof fn lemma_overflow(num: nat, den: nat, q: nat, t: nat)
    requires
        den > 0,
        t >= 2046,
        q >= NORMAL,
        q * pow2(t) * den <= num,
    ensures
        nearest(num, den) == INFINITE,
{
    let top = INFINITE as nat;
    assert(units(top) == NORMAL * pow2(2046)) by {
        lemma_assemble(NORMAL as nat, 2046);
        assert(2046 * (NORMAL as nat) + NORMAL == top);
    }
    if t > 2046 {
        lemma_pow2_strictly_increases(2046, t);
    }
    assert(units(top) <= q * pow2(t)) by (nonlinear_arith)
        requires
            units(top) == NORMAL * pow2(2046),
            NORMAL <= q,
            pow2(2046) <= pow2(t),
    ;
    lemma_ordered((top - 1) as nat, top);
    let a = units((top - 1) as nat);
    let b = units(top);
    assert((a + b) * den < 2 * num) by (nonlinear_arith)
        requires
            a < b,
            b <= q * pow2(t),
            q * pow2(t) * den <= num,
            den > 0,
    ;
    lemma_is_nearest(top, num, den);
}

proof fn lemma_pattern_fits(q: nat, t: nat)
    requires
        q < 2 * NORMAL,
        t < 2046,
    ensures
        t * (NORMAL as nat) + q < INFINITE,
{
    assert(t * (NORMAL as nat) <= 2045 * (NORMAL as nat)) by (nonlinear_arith)
        requires
            t <= 2045,
    ;
}

fn assemble_exact(q: u128, t: i32, Ghost(num): Ghost<nat>, Ghost(den): Ghost<nat>) -> (r: u64)
    requires
        den > 0,
        0 <= t <= 20000,
        0 < q < 2 * NORMAL,
        t > 0 ==> q >= NORMAL,
        num == q * pow2(t as nat) * den,
    ensures
        r == nearest(num, den),
        r <= INFINITE,
{
    if t >= 2046 {
        proof {
            lemma_overflow(num, den, q as nat, t as nat);
        }
        return INFINITE;
    }
    proof {
        lemma_pattern_fits(q as nat, t as nat);
        lemma_assemble(q as nat, t as nat);
        lemma_exact((t as nat) * (NORMAL as nat) + q as nat, num, den);
    }
    t as u64 * NORMAL + q as u64
}

fn assemble_rounded(
    q: u128,
    t: i32,
    up: bool,
    Ghost(num): Ghost<nat>,
    Ghost(den): Ghost<nat>,
) -> (r: u64)
    requires
        den > 0,
        0 <= t <= 20000,
        q < 2 * NORMAL,
        t > 0 ==> q >= NORMAL,
        q * pow2(t as nat) * den <= num < (q + 1) * pow2(t as nat) * den,
        up ==> (2 * q + 1) * pow2(t as nat) * den < 2 * num || ((2 * q + 1) * pow2(t as nat) * den
            == 2 * num && q % 2 == 1),
        !up ==> 2 * num < (2 * q + 1) * pow2(t as nat) * den || ((2 * q + 1) * pow2(t as nat) * den
            == 2 * num && q % 2 == 0),
    ensures
        r == nearest(num, den),
        r <= INFINITE,
{
    if t >= 2046 {
        proof {
            lemma_overflow(num, den, q as nat, t as nat);
        }
        return INFINITE;
    }
    proof {
        lemma_pattern_fits(q as nat, t as nat);
        lemma_rounded(num, den, q as nat, t as nat, up);
    }
    let base: u64 = t as u64 * NORMAL + q as u64;
    if up {
        base + 1
    } else {
        base
    }
}

proof fn lemma_rounded(num: nat, den: nat, q: nat, t: nat, up: bool)
    requires
        den > 0,
        t < 2046,
        q < 2 * NORMAL,
        t > 0 ==> q >= NORMAL,
        q * pow2(t) * den <= num < (q + 1) * pow2(t) * den,
        up ==> (2 * q + 1) * pow2(t) * den < 2 * num || ((2 * q + 1) * pow2(t) * den == 2 * num
            && q % 2 == 1),
        !up ==> 2 * num < (2 * q + 1) * pow2(t) * den || ((2 * q + 1) * pow2(t) * den == 2 * num
            && q % 2 == 0),
    ensures
        nearest(num, den) == t * (NORMAL as nat) + q + (if up { 1nat } else { 0 }),
{
    let base = t * (NORMAL as nat) + q;
    let a = pow2(t);
    lemma_pattern_fits(q, t);
    lemma_assemble(q, t);
    lemma_assemble(q + 1, t);
    let low = units(base);
    let high = units(base + 1);
    assert(base + 1 == t * (NORMAL as nat) + (q + 1));
    assert(low + high == (2 * q + 1) * a) by (nonlinear_arith)
        requires
            low == q * a,
            high == (q + 1) * a,
    ;
    assert(base % 2 == q % 2) by (nonlinear_arith)
        requires
            base == t * 0x10_0000_0000_0000 + q,
    ;
    if up {
        if base + 1 < INFINITE {
            let next = units(base + 2);
            lemma_ordered(base + 1, base + 2);
            assert(2 * num < (high + next) * den) by (nonlinear_arith)
                requires
                    num < (q + 1) * a * den,
                    high == (q + 1) * a,
                    high < next,
                    den > 0,
            ;
        }
        lemma_is_nearest(base + 1, num, den);
    } else {
        if base > 0 {
            let before = units((base - 1) as nat);
            lemma_ordered((base - 1) as nat, base);
            assert((before + low) * den < 2 * num) by (nonlinear_arith)
                requires
                    before < low,
                    low == q * a,
                    q * a * den <= num,
                    den > 0,
            ;
        }
        lemma_is_nearest(base, num, den);
    }
}

/// No magnitude is nearer to a fraction than the one to which it rounds, and of two
/// that are as near it is the even one.
pub proof fn law_nothing_is_nearer(num: nat, den: nat, m: nat)
    requires
        den > 0,
        m <= INFINITE,
    ensures
        ({
            let found = units(nearest(num, den)) * den - num;
            let other = units(m) * den - num;
            let off = if found < 0 {
                -found
            } else {
                found
            };
            let far = if other < 0 {
                -other
            } else {
                other
            };
            &&& nearest(num, den) <= INFINITE
            &&& off <= far
            &&& off == far && m != nearest(num, den) ==> nearest(num, den) % 2 == 0
        }),
{
    let n = nearest(num, den);
    lemma_nearest(num, den);
    if m > n {
        lemma_ordered_weakly(n + 1, m);
        lemma_ordered(n, m);
        let a = units(n);
        let b = units(n + 1);
        let c = units(m);
        assert((a + b) * den <= (a + c) * den && (a + c) * den == a * den + c * den && a * den < c
            * den) by (nonlinear_arith)
            requires
                b <= c,
                a < c,
                den > 0,
        ;
    } else if m < n {
        lemma_ordered_weakly(m, (n - 1) as nat);
        lemma_ordered(m, n);
        let a = units(n);
        let b = units((n - 1) as nat);
        let c = units(m);
        assert((b + a) * den >= (c + a) * den && (c + a) * den == c * den + a * den && c * den < a
            * den) by (nonlinear_arith)
            requires
                c <= b,
                c < a,
                den > 0,
        ;
    }
}

} // verus!
