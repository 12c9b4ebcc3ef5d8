//! Bit patterns of the double precision constants.
use vstd::prelude::*;
use vstd::arithmetic::power2::*;
use crate::binary64;
use crate::binary64::Binary64;
use crate::ordering;
use crate::rounding;
use crate::rounding::INFINITE;

verus! {

/// 0.
pub const ZERO: u64 = 0;

/// 1.
pub const ONE: u64 = 0x3ff0_0000_0000_0000;

/// -1.
pub const MINUS_ONE: u64 = 0xbff0_0000_0000_0000;

/// 2.
pub const TWO: u64 = 0x4000_0000_0000_0000;

/// 12.
pub const TWELVE: u64 = 0x4028_0000_0000_0000;

/// 15.
pub const FIFTEEN: u64 = 0x402e_0000_0000_0000;

/// 20.
pub const TWENTY: u64 = 0x4034_0000_0000_0000;

/// 100.
pub const HUNDRED: u64 = 0x4059_0000_0000_0000;

/// 10000.
pub const TEN_THOUSAND: u64 = 0x40c3_8800_0000_0000;

/// 1000000.
pub const MILLION: u64 = 0x412e_8480_0000_0000;

/// 10.
pub const TEN: u64 = 0x4024_0000_0000_0000;

/// 0.5.
pub const HALF: u64 = 0x3fe0_0000_0000_0000;

/// 0.1.
pub const TENTH: u64 = 0x3fb9_9999_9999_999a;

/// 0.9.
pub const NINE_TENTHS: u64 = 0x3fec_cccc_cccc_cccd;

/// 0.0001.
pub const TEN_THOUSANDTH: u64 = 0x3f1a_36e2_eb1c_432d;

/// 2^-52, the distance from one to the next number.
pub const EPSILON: u64 = 0x3cb0_0000_0000_0000;

/// The number with the given pattern.
pub open spec fn number(bits: u64) -> Binary64 {
    Binary64 { bits }
}

/// A normal magnitude is nearest to `num / den` where the fraction lies
/// strictly between the middles to its neighbours.
proof fn lemma_between(m: nat, q: nat, e: nat, up: nat, num: nat, den: nat)
    requires
        0 < m < INFINITE,
        rounding::significand(m) == q,
        rounding::exponent(m) == e,
        rounding::significand((m - 1) as nat) == q - 1,
        rounding::exponent((m - 1) as nat) == e,
        e + up == 1074,
        den > 0,
        (2 * q - 1) * den < 2 * num * pow2(up) < (2 * q + 1) * den,
    ensures
        rounding::nearest(num * pow2(1074), den) == m,
{
    let p = pow2(e);
    lemma_pow2_pos(e);
    lemma_pow2_adds(e, up);
    rounding::lemma_step(m);
    rounding::lemma_step((m - 1) as nat);
    let v = num * pow2(1074);
    assert(v == num * pow2(up) * p) by (nonlinear_arith)
        requires
            v == num * pow2(1074),
            pow2(1074) == p * pow2(up),
    ;
    assert((rounding::units((m - 1) as nat) + rounding::units(m)) * den == (2 * q - 1) * den * p)
        by (nonlinear_arith)
        requires
            rounding::units((m - 1) as nat) == (q - 1) * p,
            rounding::units(m) == q * p,
    ;
    assert((rounding::units(m) + rounding::units(m + 1)) * den == (2 * q + 1) * den * p)
        by (nonlinear_arith)
        requires
            rounding::units(m) == q * p,
            rounding::units(m + 1) == q * p + p,
    ;
    assert((2 * q - 1) * den * p < 2 * v < (2 * q + 1) * den * p) by (nonlinear_arith)
        requires
            (2 * q - 1) * den < 2 * num * pow2(up) < (2 * q + 1) * den,
            v == num * pow2(up) * p,
            p > 0,
    ;
    assert(rounding::rounds_to(m, v, den));
    rounding::lemma_is_nearest(m, v, den);
}

/// The constants that no number holds exactly are the numbers nearest to them.
pub proof fn law_fractions_are_nearest()
    ensures
        number(TENTH) == binary64::signed(false, rounding::nearest(pow2(1074), 10)),
        number(NINE_TENTHS) == binary64::signed(false, rounding::nearest(9 * pow2(1074), 10)),
        number(TEN_THOUSANDTH) == binary64::signed(false, rounding::nearest(pow2(1074), 10000)),
{
    lemma2_to64();
    lemma2_to64_rest();
    lemma_pow2_adds(56, 0);
    lemma_pow2_adds(64, 2);
    assert(1 * pow2(1074) == pow2(1074));
    assert(rounding::exponent(0x3fb9_9999_9999_999a) == 1018);
    assert(rounding::exponent(0x3fb9_9999_9999_9999) == 1018);
    lemma_between(0x3fb9_9999_9999_999a, 0x19_9999_9999_999a, 1018, 56, 1, 10);
    assert(rounding::exponent(0x3fec_cccc_cccc_cccd) == 1021);
    assert(rounding::exponent(0x3fec_cccc_cccc_cccc) == 1021);
    lemma_between(0x3fec_cccc_cccc_cccd, 0x1c_cccc_cccc_cccd, 1021, 53, 9, 10);
    assert(rounding::exponent(0x3f1a_36e2_eb1c_432d) == 1008);
    assert(rounding::exponent(0x3f1a_36e2_eb1c_432c) == 1008);
    lemma_between(0x3f1a_36e2_eb1c_432d, 0x1a_36e2_eb1c_432d, 1008, 66, 1, 10000);
}

/// The fractions 0.1, 0.5, 0.9 and 1 in their order.
pub proof fn lemma_fractions_ordered()
    ensures
        ordering::zero().below(number(TENTH)),
        number(TENTH).not_above(number(HALF)),
        number(HALF).not_above(number(NINE_TENTHS)),
        number(NINE_TENTHS).not_above(number(ONE)),
        number(TENTH).finite(),
        number(HALF).finite(),
        number(NINE_TENTHS).finite(),
        number(ONE).finite(),
        number(ONE) == ordering::one(),
{
    ordering::lemma_zero_value();
    binary64::lemma_compared(number(TENTH), number(HALF));
    binary64::lemma_compared(number(HALF), number(NINE_TENTHS));
    binary64::lemma_compared(number(NINE_TENTHS), number(ONE));
}

proof fn lemma_whole(m: nat, e: nat, n: nat, shift: nat)
    requires
        m < INFINITE,
        rounding::exponent(m) == e,
        rounding::significand(m) == n * pow2(shift),
        e + shift == 1074,
    ensures
        rounding::units(m) == n * pow2(1074),
{
    lemma_pow2_adds(shift, e);
    assert(n * pow2(shift) * pow2(e) == n * (pow2(shift) * pow2(e))) by (nonlinear_arith);
}

/// The constants that are whole numbers, and a half, are exact.
pub proof fn law_constants_are_exact()
    ensures
        number(ONE).value() == 1 * pow2(1074),
        number(ONE).finite(),
        number(TWO).value() == 2 * pow2(1074),
        number(TWO).finite(),
        number(TEN).value() == 10 * pow2(1074),
        number(TEN).finite(),
        number(TWELVE).value() == 12 * pow2(1074),
        number(TWELVE).finite(),
        number(FIFTEEN).value() == 15 * pow2(1074),
        number(FIFTEEN).finite(),
        number(TWENTY).value() == 20 * pow2(1074),
        number(TWENTY).finite(),
        number(HUNDRED).value() == 100 * pow2(1074),
        number(HUNDRED).finite(),
        number(TEN_THOUSAND).value() == 10000 * pow2(1074),
        number(TEN_THOUSAND).finite(),
        number(MILLION).value() == 1000000 * pow2(1074),
        number(MILLION).finite(),
        number(MINUS_ONE).value() == -pow2(1074),
        number(MINUS_ONE).finite(),
        2 * number(HALF).value() == pow2(1074),
        number(HALF).finite(),
        number(ZERO).value() == 0,
        number(ZERO).finite(),
        number(EPSILON).value() * pow2(52) == pow2(1074),
{
    lemma2_to64();
    lemma2_to64_rest();
    ordering::lemma_zero_value();
    lemma_whole(0x3ff0000000000000, 1022, 1, 52);
    lemma_whole(0x4000000000000000, 1023, 2, 51);
    lemma_whole(0x4024000000000000, 1025, 10, 49);
    lemma_whole(0x4028000000000000, 1025, 12, 49);
    lemma_whole(0x402e000000000000, 1025, 15, 49);
    lemma_whole(0x4034000000000000, 1026, 20, 48);
    lemma_whole(0x4059000000000000, 1028, 100, 46);
    lemma_whole(0x40c3880000000000, 1035, 10000, 39);
    lemma_whole(0x412e848000000000, 1041, 1000000, 33);
    assert(1 * pow2(1074) == pow2(1074));
    lemma_pow2_unfold(1074);
    lemma_pow2_adds(52, 1021);
    lemma_pow2_adds(52, 970);
    lemma_pow2_adds(1022, 52);
    assert(rounding::exponent(0x3fe0_0000_0000_0000) == 1021);
    assert(rounding::exponent(0x3cb0_0000_0000_0000) == 970);
    assert(number(MINUS_ONE).magnitude() == 0x3ff0_0000_0000_0000nat);
}

} // verus!
