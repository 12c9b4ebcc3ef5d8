//! Decimal numerals as double precision numbers.
use vstd::prelude::*;
use vstd::arithmetic::div_mod::*;
use vstd::arithmetic::power::*;
use vstd::arithmetic::power2::*;
use crate::arithmetic;
use crate::arithmetic::parts;
use crate::binary64;
use crate::binary64::{Binary64, NOT_A_NUMBER};
use crate::natural::{Comparison, Natural};
use crate::rounding;
use crate::rounding::{INFINITE, NORMAL, round_magnitude};
use crate::text;
use crate::text::{characters, digit, lower_case};

verus! {

/// 10^n.
pub open spec fn ten_to(n: nat) -> nat {
    pow(10, n) as nat
}

/// The magnitude nearest to `d * 10^e`.
pub open spec fn scaled_magnitude(d: nat, e: int) -> nat {
    if e >= 0 {
        rounding::nearest(d * ten_to(e as nat) * pow2(1074), 1)
    } else {
        rounding::nearest(d * pow2(1074), ten_to((-e) as nat))
    }
}

/// The position of the first `a` or `b`, or the length where there is none.
pub open spec fn position(s: Seq<char>, a: char, b: char) -> nat
    decreases s.len(),
{
    if s.len() == 0 || s[0] == a || s[0] == b {
        0
    } else {
        1 + position(s.skip(1), a, b)
    }
}

/// Decimal digits after a sign or none.
pub open spec fn signed_digits(s: Seq<char>) -> Option<int> {
    let body = unsigned(s);
    if body.len() == 0 || !text::all_digits(body) {
        None
    } else if s[0] == '-' {
        Some(-(text::decimal(body) as int))
    } else {
        Some(text::decimal(body) as int)
    }
}

/// The text without its leading sign.
pub open spec fn unsigned(s: Seq<char>) -> Seq<char> {
    if s.len() > 0 && (s[0] == '+' || s[0] == '-') {
        s.skip(1)
    } else {
        s
    }
}

/// The exponent part of an unsigned numeral, zero where there is none.
pub open spec fn exponent_part(body: Seq<char>) -> Option<int> {
    let p = position(body, 'e', 'E');
    if p < body.len() {
        signed_digits(body.skip(p as int + 1))
    } else {
        Some(0)
    }
}

/// The digits before the point.
pub open spec fn whole_part(body: Seq<char>) -> Seq<char> {
    let mantissa = body.take(position(body, 'e', 'E') as int);
    mantissa.take(position(mantissa, '.', '.') as int)
}

/// The digits after the point.
pub open spec fn fraction_part(body: Seq<char>) -> Seq<char> {
    let mantissa = body.take(position(body, 'e', 'E') as int);
    let q = position(mantissa, '.', '.');
    if q < mantissa.len() {
        mantissa.skip(q as int + 1)
    } else {
        Seq::empty()
    }
}

/// The magnitude of an unsigned numeral: digits with at most one point among
/// them, and then an exponent or none.
pub open spec fn numeral(body: Seq<char>) -> Option<nat> {
    let ds = whole_part(body) + fraction_part(body);
    if ds.len() == 0 || !text::all_digits(ds) || exponent_part(body) is None {
        None
    } else {
        Some(
            scaled_magnitude(
                text::decimal(ds),
                exponent_part(body)->0 - fraction_part(body).len(),
            ),
        )
    }
}

/// The number that a text holds: the number nearest to a decimal numeral, or
/// one of the words for infinity and for what is not a number.
pub open spec fn reading(s: Seq<char>) -> Option<Binary64> {
    let negative = s.len() > 0 && s[0] == '-';
    let word = text::lowered(unsigned(s));
    if word == "inf"@ || word == "infinity"@ {
        Some(binary64::signed(negative, INFINITE as nat))
    } else if word == "nan"@ {
        Some(binary64::signed(negative, NOT_A_NUMBER as nat))
    } else {
        match numeral(unsigned(s)) {
            Some(magnitude) => Some(binary64::signed(negative, magnitude)),
            None => None,
        }
    }
}

pub proof fn lemma_ten_to(n: nat)
    ensures
        ten_to(n) >= pow2(3 * n),
        ten_to(n) > 0,
        ten_to(n) == pow(10, n),
        ten_to(n + 1) == 10 * ten_to(n),
    decreases n,
{
    reveal(pow);
    lemma2_to64();
    if n > 0 {
        lemma_ten_to((n - 1) as nat);
        lemma_pow2_adds(3 * (n - 1) as nat, 3);
    }
    lemma_pow_positive(10, n);
    lemma_pow_positive(10, n + 1);
}

pub proof fn lemma_ten_to_adds(a: nat, b: nat)
    ensures
        ten_to(a + b) == ten_to(a) * ten_to(b),
{
    lemma_ten_to(a);
    lemma_ten_to(b);
    lemma_ten_to(a + b);
    lemma_pow_adds(10, a, b);
}

pub proof fn lemma_position(s: Seq<char>, a: char, b: char, p: nat)
    requires
        p <= s.len(),
        forall|j: int| 0 <= j < p ==> s[j] != a && s[j] != b,
        p < s.len() ==> s[p as int] == a || s[p as int] == b,
    ensures
        position(s, a, b) == p,
    decreases p,
{
    if p > 0 {
        lemma_position(s.skip(1), a, b, (p - 1) as nat);
    }
}

/// Zero stays zero at any scale.
pub proof fn lemma_nothing(e: int)
    ensures
        scaled_magnitude(0, e) == 0,
{
    rounding::lemma_zero();
    if e >= 0 {
        assert(0 * ten_to(e as nat) * pow2(1074) == 0) by (nonlinear_arith);
        rounding::lemma_exact(0, 0, 1);
    } else {
        lemma_ten_to((-e) as nat);
        assert(0 * pow2(1074) == 0) by (nonlinear_arith);
        assert(0 * ten_to((-e) as nat) == 0) by (nonlinear_arith);
        rounding::lemma_exact(0, 0, ten_to((-e) as nat));
    }
}

/// What is beyond 10^400 is infinite.
proof fn lemma_enormous(d: nat, e: int)
    requires
        d > 0,
        e > 400,
    ensures
        scaled_magnitude(d, e) == INFINITE,
{
    let t = ten_to(e as nat);
    lemma_ten_to(e as nat);
    lemma_pow2_strictly_increases(1024, 3 * (e as nat));
    lemma_pow2_pos(1074);
    lemma_pow2_adds(1024, 1074);
    lemma_pow2_adds(52, 2046);
    rounding::lemma_two_to_127();
    let num = d * t * pow2(1074);
    assert(NORMAL as nat * pow2(2046) * 1 <= num) by (nonlinear_arith)
        requires
            num == d * t * pow2(1074),
            d >= 1,
            t >= pow2(1024),
            pow2(2098) == pow2(1024) * pow2(1074),
            pow2(2098) == NORMAL * pow2(2046),
            pow2(1074) > 0,
    ;
    rounding::lemma_overflow(num, 1, NORMAL as nat, 2046);
}

/// What is below 10^-400 is nearest to zero.
proof fn lemma_vanishing(d: nat, n: nat, e: int)
    requires
        d < ten_to(n),
        n + e < -400,
    ensures
        scaled_magnitude(d, e) == 0,
{
    let den = ten_to((-e) as nat);
    lemma_ten_to(n);
    lemma_ten_to(400);
    lemma_ten_to((-e) as nat);
    lemma_ten_to_adds(n, 400);
    lemma_ten_to_adds(n + 400, (-e - n - 400) as nat);
    lemma_ten_to((-e - n - 400) as nat);
    lemma_pow2_strictly_increases(1075, 1200);
    lemma_pow2_unfold(1075);
    lemma_pow2_pos(1074);
    let num = d * pow2(1074);
    let gap = ten_to((-e - n - 400) as nat);
    assert(2 * num <= den) by (nonlinear_arith)
        requires
            num == d * pow2(1074),
            d < ten_to(n),
            2 * pow2(1074) <= ten_to(400),
            pow2(1074) > 0,
            ten_to(n + 400) == ten_to(n) * ten_to(400),
            den == ten_to(n + 400) * gap,
            gap >= 1,
    ;
    rounding::lemma_zero();
    assert((rounding::units(0) + rounding::units(1)) * den == den) by (nonlinear_arith)
        requires
            rounding::units(0) == 0,
            rounding::units(1) == 1,
    ;
    assert(rounding::rounds_to(0, num, den));
    rounding::lemma_is_nearest(0, num, den);
}

/// The value of the digits, where it lies below 2^63.
fn small_value(ds: &Vec<char>) -> (r: Option<u64>)
    requires
        text::all_digits(ds@),
    ensures
        match r {
            Some(v) => v == text::decimal(ds@) && v < 0x8000_0000_0000_0000,
            None => text::decimal(ds@) >= 0x8000_0000_0000_0000,
        },
{
    let mut v: u64 = 0;
    let mut i: usize = 0;
    proof {
        assert(ds@.take(0) =~= Seq::<char>::empty());
    }
    while i < ds.len()
        invariant
            i <= ds@.len(),
            text::all_digits(ds@),
            v == text::decimal(ds@.take(i as int)),
            v < 0x8000_0000_0000_0000,
        decreases ds@.len() - i,
    {
        proof {
            assert(ds@.take(i as int + 1).drop_last() =~= ds@.take(i as int));
            text::lemma_decimal_grows(ds@, (i + 1) as nat);
            assert(text::is_digit(ds@[i as int]));
        }
        let d: u64 = (ds[i] as u32 - 0x30) as u64;
        if v > 922337203685477580 || (v == 922337203685477580 && d > 7) {
            return None;
        }
        v = v * 10 + d;
        i = i + 1;
    }
    proof {
        assert(ds@.take(ds@.len() as int) =~= ds@);
    }
    Some(v)
}

/// The value of the digits.
fn large_value(ds: &Vec<char>) -> (r: Natural)
    requires
        text::all_digits(ds@),
    ensures
        r@ == text::decimal(ds@),
{
    let mut v = Natural::from_u64(0);
    let mut i: usize = 0;
    proof {
        assert(ds@.take(0) =~= Seq::<char>::empty());
    }
    while i < ds.len()
        invariant
            i <= ds@.len(),
            text::all_digits(ds@),
            v@ == text::decimal(ds@.take(i as int)),
        decreases ds@.len() - i,
    {
        proof {
            assert(ds@.take(i as int + 1).drop_last() =~= ds@.take(i as int));
            assert(text::is_digit(ds@[i as int]));
        }
        v.scale(10, ds[i] as u32 - 0x30);
        i = i + 1;
    }
    proof {
        assert(ds@.take(ds@.len() as int) =~= ds@);
    }
    v
}

/// 10^n, where it fits.
fn power_of_ten(n: u32) -> (r: u64)
    requires
        n <= 19,
    ensures
        r == ten_to(n as nat),
        r > 0,
{
    let mut r: u64 = 1;
    let mut i: u32 = 0;
    proof {
        lemma_pow0(10);
    }
    while i < n
        invariant
            i <= n <= 19,
            r == ten_to(i as nat),
            r > 0,
        decreases n - i,
    {
        proof {
            lemma_ten_to(i as nat);
            lemma_ten_to_increases(i as nat, 18);
            assert(ten_to(18) == 1_000_000_000_000_000_000) by {
                assert(pow(10, 18) == 1_000_000_000_000_000_000) by {
                    reveal_with_fuel(pow, 19);
                }
            }
        }
        r = r * 10;
        i = i + 1;
    }
    r
}

proof fn lemma_ten_to_increases(a: nat, b: nat)
    requires
        a <= b,
    ensures
        ten_to(a) <= ten_to(b),
    decreases b - a,
{
    if a < b {
        lemma_ten_to(a);
        lemma_ten_to_increases(a + 1, b);
    }
}

/// The magnitude nearest to `v * 10^e`, by machine words.
pub(crate) fn small_magnitude(v: u64, e: i32) -> (r: u64)
    requires
        0 < v < 0x8000_0000_0000_0000,
        -19 <= e <= 19,
    ensures
        r == scaled_magnitude(v as nat, e as int),
        r <= INFINITE,
{
    proof {
        rounding::lemma_two_to_127();
        lemma2_to64();
        lemma2_to64_rest();
    }
    if e >= 0 {
        let t = power_of_ten(e as u32);
        proof {
            assert(v * t < 0x8000_0000_0000_0000 * 0x1_0000_0000_0000_0000) by (nonlinear_arith)
                requires
                    v < 0x8000_0000_0000_0000,
                    0 < t < 0x1_0000_0000_0000_0000,
            ;
            arithmetic::lemma_whole_located(v as nat * ten_to(e as nat));
        }
        let m: u128 = v as u128 * t as u128;
        round_magnitude(
            m,
            1074,
            false,
            Ghost(v as nat * ten_to(e as nat) * pow2(1074)),
            Ghost(1),
        )
    } else {
        let t = power_of_ten((-e) as u32);
        let mut lifted: u64 = v;
        let mut lift: u32 = 0;
        while lifted < 0x4000_0000_0000_0000
            invariant
                0 < lifted < 0x8000_0000_0000_0000,
                lift <= 63,
                lifted == v * pow2(lift as nat),
                pow2(62) == 0x4000_0000_0000_0000,
                v > 0,
            decreases 0x8000_0000_0000_0000 - lifted,
        {
            proof {
                if lift >= 62 {
                    if lift > 62 {
                        lemma_pow2_strictly_increases(62, lift as nat);
                    }
                    assert(lifted >= 0x4000_0000_0000_0000) by (nonlinear_arith)
                        requires
                            lifted == v * pow2(lift as nat),
                            v >= 1,
                            pow2(lift as nat) >= 0x4000_0000_0000_0000,
                    ;
                }
                lemma_pow2_unfold((lift + 1) as nat);
                assert(2 * lifted == v * pow2((lift + 1) as nat)) by (nonlinear_arith)
                    requires
                        lifted == v * pow2(lift as nat),
                        pow2((lift + 1) as nat) == 2 * pow2(lift as nat),
                ;
            }
            lifted = lifted * 2;
            lift = lift + 1;
        }
        let wide: u128 = lifted as u128 * 0x1_0000_0000_0000_0000u128;
        let m: u128 = wide / t as u128;
        let rem: u128 = wide % t as u128;
        let ghost num = v as nat * pow2(1074);
        proof {
            lemma_fundamental_div_mod(wide as int, t as int);
            assert(wide == m * t + rem) by (nonlinear_arith)
                requires
                    wide == t * m + rem,
            ;
            arithmetic::lemma_quotient_located(
                v as nat,
                0,
                lift as nat,
                t as nat,
                0,
                m as nat,
                rem as nat,
            );
            assert((v as nat * pow2(0)) * pow2(1074) == num);
            assert(t as nat * pow2(0) == t);
            assert(wide < (m + 1) * t) by (nonlinear_arith)
                requires
                    wide == m * t + rem,
                    rem < t,
            ;
            assert(m >= pow2(54)) by (nonlinear_arith)
                requires
                    wide < (m + 1) * t,
                    wide >= 0x4000_0000_0000_0000 * 0x1_0000_0000_0000_0000,
                    0 < t < 0x1_0000_0000_0000_0000,
                    pow2(54) == 0x40_0000_0000_0000,
            ;
            assert(m <= wide) by (nonlinear_arith)
                requires
                    wide == t * m + rem,
                    t >= 1,
                    rem >= 0,
                    m >= 0,
            ;
        }
        round_magnitude(m, 1074 - lift as i32 - 64, rem > 0, Ghost(num), Ghost(t as nat))
    }
}

/// The lower edge of the numbers that round to `m` lies at or below the fraction.
spec fn reached(m: nat, num: nat, den: nat) -> bool {
    m > 0 ==> {
        let edge = (rounding::units((m - 1) as nat) + rounding::units(m)) * den;
        edge < 2 * num || (edge == 2 * num && m % 2 == 0)
    }
}

/// Whether the lower edge of `m` lies at or below `twice / (2 * 10^k)`.
fn is_reached(m: u64, twice: &Natural, k: u128, Ghost(num): Ghost<nat>) -> (r: bool)
    requires
        0 < m <= INFINITE,
        twice@ == 2 * num,
    ensures
        r == reached(m as nat, num, ten_to(k as nat)),
{
    let (q, e) = parts(m - 1);
    let mut edge = Natural::from_u64(2 * q + 1);
    edge.times_power_of_two(e);
    edge.times_power_of_ten(k);
    proof {
        let p = pow2(e as nat);
        let den = ten_to(k as nat);
        rounding::lemma_step((m - 1) as nat);
        lemma_ten_to(k as nat);
        assert((2 * q + 1) as nat * p == (q * p) + (q * p + p)) by (nonlinear_arith);
    }
    match edge.compare(twice) {
        Comparison::Below => true,
        Comparison::Equal => m % 2 == 0,
        Comparison::Above => false,
    }
}

/// The magnitude nearest to `num / 10^k`, by bisection.
pub(crate) fn search_magnitude(twice: &Natural, k: u128, Ghost(num): Ghost<nat>) -> (r: u64)
    requires
        twice@ == 2 * num,
    ensures
        r == rounding::nearest(num, ten_to(k as nat)),
        r <= INFINITE,
{
    let ghost den = ten_to(k as nat);
    let mut low: u64 = 0;
    let mut high: u64 = INFINITE + 1;
    while high - low > 1
        invariant
            low < high <= INFINITE + 1,
            twice@ == 2 * num,
            den == ten_to(k as nat),
            reached(low as nat, num, den),
            high <= INFINITE ==> !reached(high as nat, num, den),
        decreases high - low,
    {
        let middle: u64 = low + (high - low) / 2;
        if is_reached(middle, twice, k, Ghost(num)) {
            low = middle;
        } else {
            high = middle;
        }
    }
    proof {
        lemma_ten_to(k as nat);
        assert(rounding::rounds_to(low as nat, num, den));
        rounding::lemma_is_nearest(low as nat, num, den);
    }
    low
}

/// The magnitude nearest to the digits, scaled by 10^e.
fn digits_magnitude(ds: &Vec<char>, e: i128) -> (r: u64)
    requires
        text::all_digits(ds@),
        -0x1_0000_0000_0000_0000_0000_0000 < e < 0x1_0000_0000_0000_0000_0000_0000,
    ensures
        r == scaled_magnitude(text::decimal(ds@), e as int),
        r <= INFINITE,
{
    let small = small_value(ds);
    if let Some(v) = small {
        if v == 0 {
            proof {
                lemma_nothing(e as int);
            }
            return 0;
        }
        if -19 <= e && e <= 19 {
            return small_magnitude(v, e as i32);
        }
    }
    let ghost d = text::decimal(ds@);
    proof {
        text::lemma_decimal_bounded(ds@);
        lemma_ten_to(ds@.len());
    }
    if e > 400 {
        proof {
            lemma_enormous(d, e as int);
        }
        return INFINITE;
    }
    if e + (ds.len() as i128) < -400 {
        proof {
            lemma_vanishing(d, ds@.len(), e as int);
        }
        return 0;
    }
    let mut twice = large_value(ds);
    twice.times_power_of_two(1075);
    proof {
        lemma_pow2_unfold(1075);
    }
    if e >= 0 {
        let ghost num = d * ten_to(e as nat) * pow2(1074);
        twice.times_power_of_ten(e as u128);
        proof {
            lemma_ten_to(e as nat);
            lemma_pow0(10);
            let t = ten_to(e as nat);
            let p = pow2(1074);
            assert(d * (2 * p) * t == 2 * (d * t * p)) by (nonlinear_arith);
        }
        search_magnitude(&twice, 0, Ghost(num))
    } else {
        let ghost num = d * pow2(1074);
        proof {
            let p = pow2(1074);
            assert(d * (2 * p) == 2 * (d * p)) by (nonlinear_arith);
        }
        search_magnitude(&twice, (-e) as u128, Ghost(num))
    }
}

/// The position of the first `a` or `b` from `from` on and below `to`, or `to`.
fn find(chars: &Vec<char>, from: usize, to: usize, a: char, b: char) -> (r: usize)
    requires
        from <= to <= chars@.len(),
    ensures
        from <= r <= to,
        r - from == position(chars@.subrange(from as int, to as int), a, b),
{
    let ghost part = chars@.subrange(from as int, to as int);
    let mut i: usize = from;
    while i < to
        invariant
            from <= i <= to <= chars@.len(),
            part == chars@.subrange(from as int, to as int),
            forall|j: int| 0 <= j < i - from ==> part[j] != a && part[j] != b,
        decreases to - i,
    {
        if chars[i] == a || chars[i] == b {
            proof {
                assert(part[i - from] == chars@[i as int]);
                lemma_position(part, a, b, (i - from) as nat);
            }
            return i;
        }
        i = i + 1;
    }
    proof {
        lemma_position(part, a, b, (to - from) as nat);
    }
    to
}

/// Whether all characters from `from` on and below `to` are digits.
fn are_digits(chars: &Vec<char>, from: usize, to: usize) -> (r: bool)
    requires
        from <= to <= chars@.len(),
    ensures
        r == text::all_digits(chars@.subrange(from as int, to as int)),
{
    let ghost part = chars@.subrange(from as int, to as int);
    let mut i: usize = from;
    while i < to
        invariant
            from <= i <= to <= chars@.len(),
            part == chars@.subrange(from as int, to as int),
            forall|j: int| 0 <= j < i - from ==> text::is_digit(#[trigger] part[j]),
        decreases to - i,
    {
        if !digit(chars[i]) {
            proof {
                assert(!text::is_digit(part[i - from]));
            }
            return false;
        }
        i = i + 1;
    }
    true
}

/// The largest exponent that is counted exactly.
const FAR: i128 = 0x1000_0000_0000_0000_0000_0000;

/// `n`, cut off at a bound that no text can make up for.
spec fn cut(n: int) -> int {
    if n > FAR {
        FAR as int
    } else if n < -FAR {
        -FAR
    } else {
        n
    }
}

/// The value of the digits from `from` on, cut off.
fn capped_value(chars: &Vec<char>, from: usize) -> (r: i128)
    requires
        from <= chars@.len(),
        text::all_digits(chars@.skip(from as int)),
    ensures
        r == cut(text::decimal(chars@.skip(from as int)) as int),
        0 <= r <= FAR,
{
    let ghost body = chars@.skip(from as int);
    let mut v: i128 = 0;
    let mut i: usize = from;
    proof {
        assert(body.take(0) =~= Seq::<char>::empty());
    }
    while i < chars.len()
        invariant
            from <= i <= chars@.len(),
            body == chars@.skip(from as int),
            text::all_digits(body),
            v == text::decimal(body.take(i - from)),
            0 <= v <= FAR,
        decreases chars@.len() - i,
    {
        proof {
            assert(body.take(i - from + 1).drop_last() =~= body.take(i - from));
            assert(text::is_digit(body[i - from]));
            assert(body[i - from] == chars@[i as int]);
            text::lemma_decimal_grows(body, (i - from + 1) as nat);
        }
        v = v * 10 + (chars[i] as u32 - 0x30) as i128;
        if v > FAR {
            return FAR;
        }
        i = i + 1;
    }
    proof {
        assert(body.take(body.len() as int) =~= body);
    }
    v
}

/// The exponent that stands from `from` on, cut off.
fn exponent(chars: &Vec<char>, from: usize) -> (r: Option<i128>)
    requires
        from <= chars@.len(),
    ensures
        match r {
            Some(e) => signed_digits(chars@.skip(from as int)) is Some && e == cut(
                signed_digits(chars@.skip(from as int))->0,
            ),
            None => signed_digits(chars@.skip(from as int)) is None,
        },
        r is Some ==> -FAR <= r->0 <= FAR,
{
    let ghost s = chars@.skip(from as int);
    let n = chars.len();
    let negative = from < n && chars[from] == '-';
    let start: usize = if from < n && (chars[from] == '-' || chars[from] == '+') {
        from + 1
    } else {
        from
    };
    proof {
        if from < n {
            assert(s[0] == chars@[from as int]);
        }
        assert(unsigned(s) =~= chars@.skip(start as int));
        assert(chars@.subrange(start as int, n as int) =~= chars@.skip(start as int));
    }
    if start == n || !are_digits(chars, start, n) {
        return None;
    }
    let v = capped_value(chars, start);
    if negative {
        Some(-v)
    } else {
        Some(v)
    }
}

/// The magnitude of the unsigned numeral that stands from `from` on.
fn numeral_magnitude(chars: &Vec<char>, from: usize) -> (r: Option<u64>)
    requires
        from <= chars@.len(),
    ensures
        match r {
            Some(m) => numeral(chars@.skip(from as int)) == Some(m as nat) && m <= INFINITE,
            None => numeral(chars@.skip(from as int)) is None,
        },
{
    let ghost body = chars@.skip(from as int);
    let n = chars.len();
    let p = find(chars, from, n, 'e', 'E');
    let ghost mantissa = body.take((p - from) as int);
    proof {
        assert(chars@.subrange(from as int, n as int) =~= body);
        assert(chars@.subrange(from as int, p as int) =~= mantissa);
    }
    let q = find(chars, from, p, '.', '.');
    let ghost whole = mantissa.take((q - from) as int);
    let ghost fraction = fraction_part(body);
    proof {
        assert(chars@.subrange(from as int, q as int) =~= whole);
        assert(whole == whole_part(body));
        if q < p {
            assert(chars@.subrange(q + 1, p as int) =~= fraction);
        }
        if p < n {
            assert(chars@.skip(p + 1) =~= body.skip((p - from) + 1));
        }
        assert(chars@.skip(p as int) =~= body.skip((p - from) as int));
    }
    let mut ds: Vec<char> = Vec::new();
    let mut i: usize = from;
    while i < q
        invariant
            from <= i <= q <= chars@.len(),
            whole == chars@.subrange(from as int, q as int),
            ds@ == whole.take(i - from),
        decreases q - i,
    {
        ds.push(chars[i]);
        i = i + 1;
        proof {
            assert(ds@ =~= whole.take(i - from));
        }
    }
    proof {
        assert(whole.take(whole.len() as int) =~= whole);
    }
    let places: usize = if q < p {
        p - q - 1
    } else {
        0
    };
    let first: usize = p - places;
    i = first;
    proof {
        assert(ds@ =~= whole + fraction.take(0));
        assert(chars@.subrange(first as int, p as int) =~= fraction);
    }
    while i < p
        invariant
            first <= i <= p <= chars@.len(),
            fraction == chars@.subrange(first as int, p as int),
            ds@ == whole + fraction.take(i - first),
        decreases p - i,
    {
        ds.push(chars[i]);
        i = i + 1;
        proof {
            assert(ds@ =~= whole + fraction.take(i - first));
        }
    }
    proof {
        assert(fraction.take(fraction.len() as int) =~= fraction);
        assert(ds@ == whole + fraction);
    }
    let all = are_digits(&ds, 0, ds.len());
    proof {
        assert(ds@.subrange(0, ds@.len() as int) =~= ds@);
    }
    if ds.len() == 0 || !all {
        return None;
    }
    let e: i128 = if p < n {
        match exponent(chars, p + 1) {
            Some(e) => e,
            None => {
                return None;
            },
        }
    } else {
        0
    };
    let ghost exact = exponent_part(body)->0 - fraction.len();
    let scale: i128 = e - places as i128;
    proof {
        assert(e == cut(exponent_part(body)->0));
        let d = text::decimal(ds@);
        if e == FAR || e == -FAR {
            if d == 0 {
                lemma_nothing(exact);
                lemma_nothing(scale as int);
            } else if e == FAR {
                lemma_enormous(d, exact);
                lemma_enormous(d, scale as int);
            } else {
                text::lemma_decimal_bounded(ds@);
                lemma_ten_to(ds@.len());
                lemma_vanishing(d, ds@.len(), exact);
                lemma_vanishing(d, ds@.len(), scale as int);
            }
        }
    }
    Some(digits_magnitude(&ds, scale))
}

/// The number that a text holds.
pub fn read(source: &str) -> (r: Option<Binary64>)
    ensures
        r == reading(source@),
{
    let chars = characters(source);
    let low = lower_case(source);
    let negative = chars.len() > 0 && chars[0] == '-';
    let start: usize = if chars.len() > 0 && (chars[0] == '-' || chars[0] == '+') {
        1
    } else {
        0
    };
    let ghost body = unsigned(source@);
    proof {
        assert(source@.skip(0) =~= source@);
        assert(body =~= source@.skip(start as int));
        assert(text::lowered(body) =~= low@.skip(start as int));
    }
    if ends_with(&low, start, "inf") || ends_with(&low, start, "infinity") {
        return Some(Binary64::with_sign(negative, INFINITE));
    }
    if ends_with(&low, start, "nan") {
        return Some(Binary64::with_sign(negative, NOT_A_NUMBER));
    }
    match numeral_magnitude(&chars, start) {
        Some(m) => Some(Binary64::with_sign(negative, m)),
        None => None,
    }
}

/// Whether the characters from `from` on are those of `word`.
fn ends_with(chars: &Vec<char>, from: usize, word: &str) -> (r: bool)
    requires
        from <= chars@.len(),
    ensures
        r == (chars@.skip(from as int) == word@),
{
    let wanted = characters(word);
    if chars.len() - from != wanted.len() {
        return false;
    }
    let mut i: usize = 0;
    while i < wanted.len()
        invariant
            from + wanted@.len() == chars@.len(),
            chars@.len() <= usize::MAX,
            wanted@ == word@,
            i <= wanted@.len(),
            forall|j: int| 0 <= j < i ==> chars@[from + j] == word@[j],
        decreases wanted@.len() - i,
    {
        if chars[from + i] != wanted[i] {
            proof {
                assert(chars@.skip(from as int)[i as int] != word@[i as int]);
            }
            return false;
        }
        i = i + 1;
    }
    proof {
        assert(chars@.skip(from as int) =~= word@);
    }
    true
}

} // verus!
