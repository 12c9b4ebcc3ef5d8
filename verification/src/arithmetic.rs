//! The arithmetic of double precision numbers.
use vstd::prelude::*;
use vstd::arithmetic::div_mod::*;
use vstd::arithmetic::power2::*;
use crate::binary64;
use crate::binary64::{Binary64, NOT_A_NUMBER};
use crate::rounding;
use crate::rounding::{INFINITE, NORMAL, power_of_two, round_magnitude};

verus! {

/// The significand and the exponent of a finite magnitude.
pub(crate) fn parts(magnitude: u64) -> (r: (u64, u32))
    requires
        magnitude < INFINITE,
    ensures
        r.0 == rounding::significand(magnitude as nat),
        r.1 == rounding::exponent(magnitude as nat),
        r.0 < 2 * NORMAL,
        r.1 <= 2045,
        r.1 > 0 ==> r.0 >= NORMAL,
        r.0 * pow2(r.1 as nat) == rounding::units(magnitude as nat),
{
    proof {
        rounding::lemma_pattern(magnitude as nat);
        let e = rounding::exponent(magnitude as nat);
        assert(e <= 2045) by (nonlinear_arith)
            requires
                e * 0x10_0000_0000_0000 <= magnitude,
                magnitude < 2047 * 0x10_0000_0000_0000,
                magnitude >= 0x10_0000_0000_0000 ==> e * 0x10_0000_0000_0000
                    + 0x10_0000_0000_0000 <= magnitude,
                magnitude < 0x10_0000_0000_0000 ==> e == 0,
        ;
    }
    if magnitude < NORMAL {
        (magnitude, 0)
    } else {
        (NORMAL + magnitude % NORMAL, (magnitude / NORMAL - 1) as u32)
    }
}

/// An exact multiple of a power of two is located at that multiple.
proof fn lemma_located_exact(num: nat, m: nat, k: nat)
    requires
        num == m * pow2(k),
    ensures
        rounding::located(num, 1, m, k as int, false),
{
    lemma2_to64();
}

/// Room for a significand that was moved by at most 70 places.
proof fn lemma_room(m: nat, d: nat)
    requires
        m < 2 * NORMAL,
        d <= 70,
    ensures
        m * pow2(d) + 2 * NORMAL < pow2(127),
        m * pow2(d) < pow2(127),
{
    lemma2_to64();
    lemma2_to64_rest();
    rounding::lemma_two_to_127();
    if d < 70 {
        lemma_pow2_strictly_increases(d, 70);
    }
    lemma_pow2_adds(64, 6);
    assert(m * pow2(d) <= 2 * NORMAL * pow2(70)) by (nonlinear_arith)
        requires
            m < 2 * NORMAL,
            pow2(d) <= pow2(70),
    ;
}

/// The rounded sum of two magnitudes.
fn plus_magnitudes(high: u64, low: u64) -> (r: u64)
    requires
        low <= high < INFINITE,
    ensures
        r == rounding::nearest(
            rounding::units(high as nat) + rounding::units(low as nat),
            1,
        ),
        r <= INFINITE,
{
    let (mh, kh) = parts(high);
    let (ml, kl) = parts(low);
    let ghost num = rounding::units(high as nat) + rounding::units(low as nat);
    proof {
        lemma_exponents_ordered(high as nat, low as nat);
    }
    let d: u32 = kh - kl;
    if d <= 70 {
        let p = power_of_two(d);
        proof {
            lemma_room(mh as nat, d as nat);
            lemma_pow2_adds(d as nat, kl as nat);
            assert((mh * pow2(d as nat) + ml) * pow2(kl as nat) == mh * (pow2(d as nat) * pow2(
                kl as nat,
            )) + ml * pow2(kl as nat)) by (nonlinear_arith);
            rounding::lemma_two_to_127();
        }
        let m: u128 = mh as u128 * p + ml as u128;
        proof {
            lemma_located_exact(num, m as nat, kl as nat);
        }
        round_magnitude(m, kl as i32, false, Ghost(num), Ghost(1))
    } else {
        let p = power_of_two(18);
        proof {
            lemma_far_apart(mh as nat, kh as nat, ml as nat, kl as nat);
        }
        let m: u128 = mh as u128 * p;
        round_magnitude(m, kh as i32 - 18, ml > 0, Ghost(num), Ghost(1))
    }
}

/// The rounded difference of two magnitudes.
fn minus_magnitudes(high: u64, low: u64) -> (r: u64)
    requires
        low < high < INFINITE,
    ensures
        r == rounding::nearest(
            (rounding::units(high as nat) - rounding::units(low as nat)) as nat,
            1,
        ),
        r <= INFINITE,
{
    let (mh, kh) = parts(high);
    let (ml, kl) = parts(low);
    proof {
        rounding::lemma_ordered(low as nat, high as nat);
        lemma_exponents_ordered(high as nat, low as nat);
    }
    let ghost num = (rounding::units(high as nat) - rounding::units(low as nat)) as nat;
    let d: u32 = kh - kl;
    if d <= 70 {
        let p = power_of_two(d);
        proof {
            lemma_room(mh as nat, d as nat);
            lemma_pow2_adds(d as nat, kl as nat);
            lemma_pow2_pos(kl as nat);
            let wide = mh * pow2(d as nat);
            assert(wide * pow2(kl as nat) == mh * (pow2(d as nat) * pow2(kl as nat)))
                by (nonlinear_arith)
                requires
                    wide == mh * pow2(d as nat),
            ;
            assert(ml <= wide) by (nonlinear_arith)
                requires
                    ml * pow2(kl as nat) < wide * pow2(kl as nat),
            ;
            assert((wide - ml) * pow2(kl as nat) == wide * pow2(kl as nat) - ml * pow2(kl as nat))
                by (nonlinear_arith);
            rounding::lemma_two_to_127();
        }
        let m: u128 = mh as u128 * p - ml as u128;
        proof {
            lemma_located_exact(num, m as nat, kl as nat);
        }
        round_magnitude(m, kl as i32, false, Ghost(num), Ghost(1))
    } else {
        let p = power_of_two(18);
        proof {
            lemma_far_apart(mh as nat, kh as nat, ml as nat, kl as nat);
        }
        let m: u128 = mh as u128 * p;
        if ml > 0 {
            round_magnitude(m - 1, kh as i32 - 18, true, Ghost(num), Ghost(1))
        } else {
            round_magnitude(m, kh as i32 - 18, false, Ghost(num), Ghost(1))
        }
    }
}

proof fn lemma_exponents_ordered(high: nat, low: nat)
    requires
        low <= high,
    ensures
        rounding::exponent(low) <= rounding::exponent(high),
{
    if low >= NORMAL {
        lemma_div_is_ordered(low as int, high as int, NORMAL as int);
        assert(low / (NORMAL as nat) >= 1) by {
            lemma_div_is_ordered(NORMAL as int, low as int, NORMAL as int);
        }
    } else if high >= NORMAL {
        lemma_div_is_ordered(NORMAL as int, high as int, NORMAL as int);
    }
}

/// A magnitude that lies more than 70 binary places below another is less than
/// one in its nineteenth place after the last.
proof fn lemma_far_apart(mh: nat, kh: nat, ml: nat, kl: nat)
    requires
        mh < 2 * NORMAL,
        ml < 2 * NORMAL,
        kh > kl + 70,
        mh >= NORMAL,
    ensures
        pow2(54) + 1 < mh * pow2(18) < pow2(127),
        mh * pow2(18) < 0x8000_0000_0000_0000_0000_0000_0000_0000,
        rounding::located(
            mh * pow2(kh) + ml * pow2(kl),
            1,
            mh * pow2(18),
            kh - 18,
            ml > 0,
        ),
        ml > 0 ==> rounding::located(
            (mh * pow2(kh) - ml * pow2(kl)) as nat,
            1,
            (mh * pow2(18) - 1) as nat,
            kh - 18,
            true,
        ),
        ml == 0 ==> ml * pow2(kl) == 0,
{
    lemma2_to64();
    lemma2_to64_rest();
    rounding::lemma_two_to_127();
    let k = (kh - 18) as nat;
    let up = pow2(k);
    lemma_pow2_adds(18, k);
    lemma_pow2_pos(k);
    lemma_pow2_pos(kl);
    lemma_pow2_adds(53, kl);
    if kl + 53 < k {
        lemma_pow2_strictly_increases(kl + 53, k);
    }
    let m = mh * pow2(18);
    assert(m * up == mh * pow2(kh)) by (nonlinear_arith)
        requires
            m == mh * pow2(18),
            pow2(kh) == pow2(18) * up,
    ;
    assert(m >= NORMAL * pow2(18)) by (nonlinear_arith)
        requires
            m == mh * pow2(18),
            mh >= NORMAL,
    ;
    assert(m <= 2 * NORMAL * pow2(18)) by (nonlinear_arith)
        requires
            m == mh * pow2(18),
            mh <= 2 * NORMAL,
    ;
    let small = ml * pow2(kl);
    assert(small < up) by (nonlinear_arith)
        requires
            small == ml * pow2(kl),
            ml < pow2(53),
            pow2(kl) > 0,
            pow2(53) * pow2(kl) <= up,
    ;
    assert(ml > 0 ==> small > 0) by (nonlinear_arith)
        requires
            small == ml * pow2(kl),
            pow2(kl) > 0,
    ;
    assert(ml == 0 ==> small == 0) by (nonlinear_arith)
        requires
            small == ml * pow2(kl),
    ;
    assert((m + 1) * up == m * up + up) by (nonlinear_arith);
    assert((m - 1) * up == m * up - up) by (nonlinear_arith);
    let down = pow2(0);
    assert(down == 1);
    let total = mh * pow2(kh) + small;
    assert(total * down == total);
    assert(m * up * 1 == m * up);
    assert((m + 1) * up * 1 == (m + 1) * up);
    if ml > 0 {
        assert(m * up >= up) by (nonlinear_arith)
            requires
                m >= 1,
        ;
        let rest = (mh * pow2(kh) - small) as nat;
        assert(rest * down == rest);
        let below = (m - 1) as nat;
        assert(below * up * 1 == (m - 1) * up);
        assert((below + 1) * up * 1 == m * up);
    }
}

impl Binary64 {
    /// `self + other`.
    pub fn plus(self, other: Binary64) -> (r: Binary64)
        ensures
            r == self.sum(other),
    {
        proof {
            reveal(Binary64::sum);
            binary64::lemma_parts(self);
            binary64::lemma_parts(other);
            binary64::lemma_compared(self, other);
        }
        let a = self.bits % binary64::SIGN;
        let b = other.bits % binary64::SIGN;
        let na = self.is_negative();
        let nb = other.is_negative();
        if a > INFINITE || b > INFINITE {
            Binary64 { bits: NOT_A_NUMBER }
        } else if a == INFINITE {
            if b == INFINITE && na != nb {
                Binary64 { bits: NOT_A_NUMBER }
            } else {
                self
            }
        } else if b == INFINITE {
            other
        } else if na == nb {
            let r = if a < b {
                plus_magnitudes(b, a)
            } else {
                plus_magnitudes(a, b)
            };
            proof {
                if self.value() + other.value() == 0 {
                    rounding::lemma_zero();
                    rounding::lemma_exact(0, 0, 1);
                }
            }
            Binary64::with_sign(na, r)
        } else if a == b {
            Binary64 { bits: 0 }
        } else if a > b {
            Binary64::with_sign(na, minus_magnitudes(a, b))
        } else {
            Binary64::with_sign(nb, minus_magnitudes(b, a))
        }
    }

    /// `self - other`.
    pub fn minus(self, other: Binary64) -> (r: Binary64)
        ensures
            r == self.difference(other),
    {
        self.plus(other.neg())
    }
}

proof fn lemma_product_located(ma: nat, ka: nat, mb: nat, kb: nat)
    ensures
        rounding::located(
            (ma * pow2(ka)) * (mb * pow2(kb)),
            pow2(1074),
            ma * mb,
            ka + kb - 1074,
            false,
        ),
{
    lemma2_to64();
    let num = (ma * pow2(ka)) * (mb * pow2(kb));
    let m = ma * mb;
    lemma_pow2_adds(ka, kb);
    assert(num == m * pow2(ka + kb)) by (nonlinear_arith)
        requires
            num == (ma * pow2(ka)) * (mb * pow2(kb)),
            m == ma * mb,
            pow2(ka + kb) == pow2(ka) * pow2(kb),
    ;
    let k = ka + kb - 1074;
    if k < 0 {
        lemma_pow2_adds(ka + kb, (-k) as nat);
        assert(num * pow2((-k) as nat) == m * pow2(0) * pow2(1074)) by (nonlinear_arith)
            requires
                num == m * pow2(ka + kb),
                pow2(1074) == pow2(ka + kb) * pow2((-k) as nat),
                pow2(0) == 1,
        ;
    } else {
        lemma_pow2_adds(k as nat, 1074);
        assert(num * pow2(0) == m * pow2(k as nat) * pow2(1074)) by (nonlinear_arith)
            requires
                num == m * pow2(ka + kb),
                pow2(ka + kb) == pow2(k as nat) * pow2(1074),
                pow2(0) == 1,
        ;
    }
}

/// The rounded product of two finite magnitudes.
fn times_magnitudes(a: u64, b: u64) -> (r: u64)
    requires
        a < INFINITE,
        b < INFINITE,
    ensures
        r == rounding::nearest(
            rounding::units(a as nat) * rounding::units(b as nat),
            pow2(1074),
        ),
        r <= INFINITE,
{
    let (ma, ka) = parts(a);
    let (mb, kb) = parts(b);
    let ghost num = rounding::units(a as nat) * rounding::units(b as nat);
    proof {
        rounding::lemma_two_to_127();
        assert(ma * mb <= (2 * NORMAL) * (2 * NORMAL)) by (nonlinear_arith)
            requires
                ma < 2 * NORMAL,
                mb < 2 * NORMAL,
        ;
        lemma_product_located(ma as nat, ka as nat, mb as nat, kb as nat);
        lemma_pow2_pos(1074);
    }
    round_magnitude(
        ma as u128 * mb as u128,
        ka as i32 + kb as i32 - 1074,
        false,
        Ghost(num),
        Ghost(pow2(1074)),
    )
}

pub proof fn lemma_quotient_located(ma: nat, ka: nat, lift: nat, mb: nat, kb: nat, m: nat, rem: nat)
    requires
        mb > 0,
        ma * pow2(lift) * pow2(64) == m * mb + rem,
        rem < mb,
    ensures
        rounding::located(
            (ma * pow2(ka)) * pow2(1074),
            mb * pow2(kb),
            m,
            ka - lift - 64 - kb + 1074,
            rem > 0,
        ),
{
    lemma2_to64();
    let num = (ma * pow2(ka)) * pow2(1074);
    let den = mb * pow2(kb);
    let k = ka - lift - 64 - kb + 1074;
    let up = pow2(if k < 0 { 0 } else { k as nat });
    let down = pow2(if k < 0 { (-k) as nat } else { 0 });
    // Both sides carry the common power c: num * down = ma * 2^(lift + 64) * c and
    // up * den = mb * c.
    let c = up * pow2(kb);
    lemma_pow2_adds(ka, 1074);
    lemma_pow2_adds(lift, 64);
    if k < 0 {
        lemma_pow2_adds(ka + 1074, (-k) as nat);
        lemma_pow2_adds(lift + 64, kb);
        assert(pow2(ka + 1074) * down == pow2(lift + 64) * pow2(kb));
    } else {
        lemma_pow2_adds(lift + 64, (k as nat) + kb);
        lemma_pow2_adds(k as nat, kb);
    }
    assert(pow2(ka + 1074) * down == pow2(lift + 64) * c) by (nonlinear_arith)
        requires
            k < 0 ==> up == 1 && pow2(ka + 1074) * down == pow2(lift + 64) * pow2(kb),
            k >= 0 ==> down == 1 && pow2(ka + 1074) == pow2(lift + 64) * (up * pow2(kb)),
            c == up * pow2(kb),
            k < 0 || k >= 0,
    ;
    lemma_pow2_pos(kb);
    lemma_pow2_pos(if k < 0 { 0 } else { k as nat });
    assert(c > 0) by (nonlinear_arith)
        requires
            c == up * pow2(kb),
            up > 0,
            pow2(kb) > 0,
    ;
    assert(num * down == (ma * pow2(lift) * pow2(64)) * c) by (nonlinear_arith)
        requires
            num == (ma * pow2(ka)) * pow2(1074),
            pow2(ka + 1074) == pow2(ka) * pow2(1074),
            pow2(lift + 64) == pow2(lift) * pow2(64),
            pow2(ka + 1074) * down == pow2(lift + 64) * c,
    ;
    assert(m * up * den == (m * mb) * c) by (nonlinear_arith)
        requires
            den == mb * pow2(kb),
            c == up * pow2(kb),
    ;
    assert((m + 1) * up * den == (m * mb) * c + mb * c) by (nonlinear_arith)
        requires
            den == mb * pow2(kb),
            c == up * pow2(kb),
    ;
    assert((m * mb + rem) * c == (m * mb) * c + rem * c) by (nonlinear_arith);
    assert(rem * c < mb * c) by (nonlinear_arith)
        requires
            rem < mb,
            c > 0,
    ;
    assert(rem > 0 ==> rem * c > 0) by (nonlinear_arith)
        requires
            c > 0,
    ;
    assert(rem == 0 ==> rem * c == 0) by (nonlinear_arith);
}

/// The rounded quotient of two finite magnitudes.
fn over_magnitudes(a: u64, b: u64) -> (r: u64)
    requires
        0 < a < INFINITE,
        0 < b < INFINITE,
    ensures
        r == rounding::nearest(
            rounding::units(a as nat) * pow2(1074),
            rounding::units(b as nat),
        ),
        r <= INFINITE,
{
    let (ma, ka) = parts(a);
    let (mb, kb) = parts(b);
    let ghost num = rounding::units(a as nat) * pow2(1074);
    let ghost den = rounding::units(b as nat);
    proof {
        rounding::lemma_zero();
        rounding::lemma_ordered(0, a as nat);
        rounding::lemma_ordered(0, b as nat);
        assert(ma > 0 && mb > 0) by (nonlinear_arith)
            requires
                ma * pow2(ka as nat) > 0,
                mb * pow2(kb as nat) > 0,
        ;
        lemma2_to64();
        lemma2_to64_rest();
        rounding::lemma_two_to_127();
    }
    let mut lifted: u64 = ma;
    let mut lift: u32 = 0;
    while lifted < NORMAL
        invariant
            0 < lifted < 2 * NORMAL,
            lift <= 53,
            lifted == ma * pow2(lift as nat),
            pow2(52) == NORMAL,
            ma > 0,
        decreases 2 * NORMAL - lifted,
    {
        proof {
            if lift >= 52 {
                if lift > 52 {
                    lemma_pow2_strictly_increases(52, lift as nat);
                }
                assert(lifted >= NORMAL) by (nonlinear_arith)
                    requires
                        lifted == ma * pow2(lift as nat),
                        ma >= 1,
                        pow2(lift as nat) >= NORMAL,
                ;
            }
            lemma_pow2_unfold((lift + 1) as nat);
            assert(2 * lifted == ma * pow2((lift + 1) as nat)) by (nonlinear_arith)
                requires
                    lifted == ma * pow2(lift as nat),
                    pow2((lift + 1) as nat) == 2 * pow2(lift as nat),
            ;
        }
        lifted = lifted * 2;
        lift = lift + 1;
    }
    let wide: u128 = lifted as u128 * 0x1_0000_0000_0000_0000u128;
    let m: u128 = wide / mb as u128;
    let rem: u128 = wide % mb as u128;
    proof {
        lemma_fundamental_div_mod(wide as int, mb as int);
        assert(wide == m * mb + rem) by (nonlinear_arith)
            requires
                wide == mb * m + rem,
        ;
        lemma_quotient_located(
            ma as nat,
            ka as nat,
            lift as nat,
            mb as nat,
            kb as nat,
            m as nat,
            rem as nat,
        );
        assert(wide < (m + 1) * mb) by (nonlinear_arith)
            requires
                wide == m * mb + rem,
                rem < mb,
        ;
        assert(m >= pow2(54)) by (nonlinear_arith)
            requires
                wide < (m + 1) * mb,
                wide >= NORMAL * 0x1_0000_0000_0000_0000,
                mb < 2 * NORMAL,
                pow2(54) == 0x40_0000_0000_0000,
        ;
        assert(m <= wide) by (nonlinear_arith)
            requires
                wide == mb * m + rem,
                mb >= 1,
                rem >= 0,
                m >= 0,
        ;
    }
    round_magnitude(
        m,
        ka as i32 - lift as i32 - 64 - kb as i32 + 1074,
        rem > 0,
        Ghost(num),
        Ghost(den),
    )
}

impl Binary64 {
    /// `self * other`.
    pub fn times(self, other: Binary64) -> (r: Binary64)
        ensures
            r == self.product(other),
    {
        proof {
            reveal(Binary64::product);
        }
        let a = self.bits % binary64::SIGN;
        let b = other.bits % binary64::SIGN;
        let negative = self.is_negative() != other.is_negative();
        if a > INFINITE || b > INFINITE {
            Binary64 { bits: NOT_A_NUMBER }
        } else if a == INFINITE || b == INFINITE {
            if a == 0 || b == 0 {
                Binary64 { bits: NOT_A_NUMBER }
            } else {
                Binary64::with_sign(negative, INFINITE)
            }
        } else {
            Binary64::with_sign(negative, times_magnitudes(a, b))
        }
    }

    /// `self / other`.
    pub fn over(self, other: Binary64) -> (r: Binary64)
        ensures
            r == self.quotient(other),
    {
        proof {
            reveal(Binary64::quotient);
        }
        let a = self.bits % binary64::SIGN;
        let b = other.bits % binary64::SIGN;
        let negative = self.is_negative() != other.is_negative();
        if a > INFINITE || b > INFINITE {
            Binary64 { bits: NOT_A_NUMBER }
        } else if a == INFINITE {
            if b == INFINITE {
                Binary64 { bits: NOT_A_NUMBER }
            } else {
                Binary64::with_sign(negative, INFINITE)
            }
        } else if b == INFINITE {
            Binary64::with_sign(negative, 0)
        } else if b == 0 {
            if a == 0 {
                Binary64 { bits: NOT_A_NUMBER }
            } else {
                Binary64::with_sign(negative, INFINITE)
            }
        } else if a == 0 {
            proof {
                rounding::lemma_zero();
                rounding::lemma_ordered(0, b as nat);
                assert(0 * pow2(1074) == 0) by (nonlinear_arith);
                assert(0 * rounding::units(b as nat) == 0) by (nonlinear_arith);
                rounding::lemma_exact(0, 0, rounding::units(b as nat));
            }
            Binary64::with_sign(negative, 0)
        } else {
            Binary64::with_sign(negative, over_magnitudes(a, b))
        }
    }
}

pub proof fn lemma_whole_located(n: nat)
    ensures
        rounding::located(n * pow2(1074), 1, n, 1074, false),
{
    lemma_located_exact(n * pow2(1074), n, 1074);
}

/// The magnitude nearest to the whole number `n`.
fn whole_magnitude(n: u64) -> (r: u64)
    ensures
        r == rounding::nearest(n as nat * pow2(1074), 1),
        r <= INFINITE,
{
    proof {
        rounding::lemma_two_to_127();
        lemma_whole_located(n as nat);
    }
    round_magnitude(n as u128, 1074, false, Ghost(n as nat * pow2(1074)), Ghost(1))
}

/// The whole part of `m * 2^k` units and whether anything is left over.
fn whole_part(m: u64, k: u32) -> (r: (u64, bool))
    requires
        k < 1074,
        m < 2 * NORMAL,
    ensures
        r.0 <= m,
        r.0 as nat == (m as nat * pow2(k as nat)) / pow2(1074),
        r.1 == ((m as nat * pow2(k as nat)) % pow2(1074) > 0),
{
    let ghost p = pow2(1074);
    let ghost v = m as nat * pow2(k as nat);
    let d: u32 = 1074 - k;
    proof {
        lemma_pow2_adds(k as nat, d as nat);
        lemma_pow2_pos(k as nat);
        lemma_pow2_pos(d as nat);
        lemma_pow2_pos(1074);
        rounding::lemma_two_to_127();
    }
    if d > 127 {
        proof {
            lemma_pow2_strictly_increases(127, d as nat);
            assert(v < p && (m > 0 ==> v > 0)) by (nonlinear_arith)
                requires
                    v == m as nat * pow2(k as nat),
                    p == pow2(k as nat) * pow2(d as nat),
                    pow2(k as nat) > 0,
                    m < pow2(d as nat),
            ;
            lemma_small_mod(v, p);
            lemma_basic_div(v as int, p as int);
            assert(m == 0 ==> v == 0) by (nonlinear_arith)
                requires
                    v == m as nat * pow2(k as nat),
            ;
        }
        (0, m > 0)
    } else {
        let step = power_of_two(d);
        let q: u128 = m as u128 / step;
        let rem: u128 = m as u128 % step;
        proof {
            let c = pow2(k as nat) as int;
            lemma_fundamental_div_mod(m as int, step as int);
            assert(q <= m) by (nonlinear_arith)
                requires
                    m == step * q + rem,
                    step >= 1,
                    rem >= 0,
                    q >= 0,
            ;
            assert(v == q * p + rem * c) by (nonlinear_arith)
                requires
                    v == m * c,
                    m == step * q + rem,
                    p == c * step,
            ;
            assert(0 <= rem * c < p) by (nonlinear_arith)
                requires
                    0 <= rem < step,
                    p == c * step,
                    c > 0,
            ;
            lemma_fundamental_div_mod_converse(v as int, p as int, q as int, rem * c);
            assert(rem > 0 <==> rem * c > 0) by (nonlinear_arith)
                requires
                    c > 0,
                    rem >= 0,
            ;
        }
        (q as u64, rem > 0)
    }
}

impl Binary64 {
    /// The number nearest to `n`.
    pub fn from_u64(n: u64) -> (r: Binary64)
        ensures
            r == binary64::whole_number(false, n as nat),
    {
        Binary64::with_sign(false, whole_magnitude(n))
    }

    /// The largest whole number that is not above `self`.
    pub fn floor(self) -> (r: Binary64)
        ensures
            r == self.floored(),
    {
        proof {
            reveal(Binary64::floored);
            lemma_pow2_pos(1074);
            binary64::lemma_parts(self);
        }
        let a = self.bits % binary64::SIGN;
        if a > INFINITE {
            return Binary64 { bits: NOT_A_NUMBER };
        }
        if a == INFINITE {
            return self;
        }
        let negative = self.is_negative();
        let (m, k) = parts(a);
        let ghost v = rounding::units(a as nat);
        let ghost p = pow2(1074);
        if k >= 1074 {
            proof {
                let t = (m as nat * pow2((k - 1074) as nat)) as int;
                lemma_pow2_adds((k - 1074) as nat, 1074);
                assert(v == t * p) by (nonlinear_arith)
                    requires
                        v == m as nat * pow2(k as nat),
                        t == m as nat * pow2((k - 1074) as nat),
                        pow2(k as nat) == pow2((k - 1074) as nat) * p,
                ;
                lemma_pow2_pos((k - 1074) as nat);
                assert(t > 0) by (nonlinear_arith)
                    requires
                        t == m as nat * pow2((k - 1074) as nat),
                        m > 0,
                        pow2((k - 1074) as nat) > 0,
                ;
                assert(-v == (-t) * p) by (nonlinear_arith)
                    requires
                        v == t * p,
                ;
                if negative {
                    lemma_fundamental_div_mod_converse(self.value(), p as int, -t, 0);
                } else {
                    lemma_fundamental_div_mod_converse(self.value(), p as int, t, 0);
                }
                rounding::lemma_exact(a as nat, v, 1);
            }
            return self;
        }
        let (q, left) = whole_part(m, k);
        proof {
            let rem = (v % p) as int;
            lemma_fundamental_div_mod(v as int, p as int);
            lemma_mod_bound(v as int, p as int);
            assert(p * q == q * p) by (nonlinear_arith);
            if negative {
                if left {
                    assert(-v == (-(q + 1)) * p + (p - rem)) by (nonlinear_arith)
                        requires
                            v == q * p + rem,
                    ;
                    lemma_fundamental_div_mod_converse(self.value(), p as int, -(q + 1), p - rem);
                } else {
                    assert(-v == (-q) * p) by (nonlinear_arith)
                        requires
                            v == q * p,
                    ;
                    lemma_fundamental_div_mod_converse(self.value(), p as int, -(q as int), 0);
                }
            }
        }
        if negative && left {
            Binary64::with_sign(true, whole_magnitude(q + 1))
        } else if q == 0 {
            Binary64::with_sign(negative, 0)
        } else {
            Binary64::with_sign(negative, whole_magnitude(q))
        }
    }

    /// The smallest whole number that is not below `self`.
    pub fn ceil(self) -> (r: Binary64)
        ensures
            r == self.raised(),
    {
        self.neg().floor().neg()
    }

    /// The whole part of `self`, within the range of `i32`.
    pub fn to_i32(self) -> (r: i32)
        ensures
            r == self.truncated(),
    {
        proof {
            reveal(Binary64::truncated);
            lemma_pow2_pos(1074);
        }
        let a = self.bits % binary64::SIGN;
        if a > INFINITE {
            return 0;
        }
        let negative = self.is_negative();
        let whole: u64;
        if a == INFINITE {
            proof {
                lemma_huge(a as nat);
            }
            whole = 0xffff_ffff;
        } else {
            let (m, k) = parts(a);
            if k >= 1074 {
                proof {
                    lemma_huge(a as nat);
                }
                whole = 0xffff_ffff;
            } else {
                whole = whole_part(m, k).0;
            }
        }
        if negative {
            if whole > 0x8000_0000 {
                i32::MIN
            } else {
                (0 - whole as i64) as i32
            }
        } else if whole > 0x7fff_ffff {
            i32::MAX
        } else {
            whole as i32
        }
    }
}

/// A number whose last place counts at least one is far beyond 2^32.
proof fn lemma_huge(m: nat)
    requires
        rounding::exponent(m) >= 1074,
        m <= INFINITE,
    ensures
        rounding::units(m) / pow2(1074) >= 0x1_0000_0000,
{
    let k = rounding::exponent(m);
    let q = rounding::significand(m);
    rounding::lemma_pattern(m);
    lemma_pow2_pos(1074);
    if k > 1074 {
        lemma_pow2_strictly_increases(1074, k);
    }
    assert(rounding::units(m) >= 0x1_0000_0000 * pow2(1074)) by (nonlinear_arith)
        requires
            rounding::units(m) == q * pow2(k),
            q >= 0x10_0000_0000_0000,
            pow2(k) >= pow2(1074),
            pow2(1074) > 0,
    ;
    lemma_div_is_ordered(
        0x1_0000_0000 * pow2(1074) as int,
        rounding::units(m) as int,
        pow2(1074) as int,
    );
    lemma_div_by_multiple(0x1_0000_0000, pow2(1074) as int);
}

} // verus!
