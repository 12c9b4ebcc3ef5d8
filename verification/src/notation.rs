//! Double precision numbers as decimal text with a fixed number of places.
use vstd::prelude::*;
use vstd::arithmetic::div_mod::*;
use vstd::arithmetic::power::*;
use vstd::arithmetic::power2::*;
use crate::arithmetic::parts;
use crate::binary64;
use crate::binary64::Binary64;
use crate::decimal;
use crate::decimal::{search_magnitude, small_magnitude};
use crate::natural::Natural;
use crate::rounding;
use crate::rounding::INFINITE;
use crate::text;
use crate::text::push_digit;

verus! {

/// The whole number nearest to `num / den`, the even one of two.
pub open spec fn rounded_quotient(num: nat, den: nat) -> nat {
    let q = num / den;
    let rem = num % den;
    if 2 * rem < den || (2 * rem == den && q % 2 == 0) {
        q
    } else {
        q + 1
    }
}

/// The digits of `scaled / 10^places`, with a point before the last `places`
/// digits.
pub open spec fn pointed(scaled: nat, places: nat) -> Seq<char> {
    let ds = text::padded(scaled, places + 1);
    let cut = ds.len() - places;
    if places == 0 {
        ds
    } else {
        ds.take(cut).push('.') + ds.skip(cut)
    }
}

/// A finite magnitude, rounded to `places` decimal places.
pub open spec fn fixed(magnitude: nat, places: nat) -> Seq<char> {
    pointed(
        rounded_quotient(rounding::units(magnitude) * decimal::ten_to(places), pow2(1074)),
        places,
    )
}

/// The text without the characters `c` at its end.
pub open spec fn stripped(s: Seq<char>, c: char) -> Seq<char>
    decreases s.len(),
{
    if s.len() > 0 && s.last() == c {
        stripped(s.drop_last(), c)
    } else {
        s
    }
}

/// Some decimal with `places` places reads back as the magnitude.
pub open spec fn reads_back(magnitude: nat, places: nat) -> bool {
    exists|d: nat| #[trigger] decimal::scaled_magnitude(d, -(places as int)) == magnitude
}

/// The fewest places, from `places` on, of a decimal that reads back as the
/// magnitude. Every magnitude is a multiple of 2^-1074, so 1074 places are
/// always enough.
pub open spec fn fewest_places(magnitude: nat, places: nat) -> nat
    decreases 1074 - places,
{
    if places >= 1074 || reads_back(magnitude, places) {
        places
    } else {
        fewest_places(magnitude, places + 1)
    }
}

/// A value that is not negative, written with as many places as its step has,
/// without zeros at the end.
pub open spec fn trimmed(value: Binary64, step: Binary64) -> Seq<char> {
    let places = fewest_places(step.magnitude(), 0);
    if value.infinite() {
        "inf"@
    } else if places == 0 {
        fixed(value.magnitude(), 0)
    } else {
        stripped(stripped(fixed(value.magnitude(), places), '0'), '.')
    }
}

/// A finite magnitude times 10^places, in units of 2^-1074.
fn scaled_units(magnitude: u64, places: u32) -> (r: Natural)
    requires
        magnitude < INFINITE,
    ensures
        r@ == rounding::units(magnitude as nat) * decimal::ten_to(places as nat),
{
    let (q, e) = parts(magnitude);
    let mut n = Natural::from_u64(q);
    n.times_power_of_two(e);
    n.times_power_of_ten(places as u128);
    proof {
        decimal::lemma_ten_to(places as nat);
    }
    n
}

/// What halving leaves of the fraction: its highest bit, and whether any bit
/// below it is set.
spec fn fraction_bits(rem: nat, bits: nat, half: bool, rest: bool) -> bool {
    if bits == 0 {
        rem == 0 && !half && !rest
    } else {
        let top = if half {
            pow2((bits - 1) as nat)
        } else {
            0
        };
        top <= rem < top + pow2((bits - 1) as nat) && rest == (rem > top)
    }
}

/// `n / 2^bits`, rounded to the nearest whole number.
fn divide_rounded(n: &mut Natural, bits: u32)
    ensures
        final(n)@ == rounded_quotient(old(n)@, pow2(bits as nat)),
{
    let ghost start = n@;
    let mut half = false;
    let mut rest = false;
    let mut i: u32 = 0;
    let ghost mut rem: nat = 0;
    proof {
        lemma2_to64();
        assert(start == n@ * pow2(0) + 0) by (nonlinear_arith)
            requires
                pow2(0) == 1,
                start == n@,
        ;
    }
    while i < bits
        invariant
            i <= bits,
            start == n@ * pow2(i as nat) + rem,
            rem < pow2(i as nat),
            fraction_bits(rem, i as nat, half, rest),
        decreases bits - i,
    {
        let ghost q = n@;
        let ghost p = pow2(i as nat);
        let bit = n.divide(2);
        proof {
            lemma_fundamental_div_mod(q as int, 2);
            lemma_pow2_unfold((i + 1) as nat);
            let more = rem + bit as nat * p;
            assert(start == n@ * (2 * p) + more) by (nonlinear_arith)
                requires
                    start == q * p + rem,
                    q == 2 * n@ + bit,
                    more == rem + bit as nat * p,
            ;
            assert(bit == 0 ==> bit as nat * p == 0) by (nonlinear_arith);
            assert(bit == 1 ==> bit as nat * p == p) by (nonlinear_arith);
            assert(more == (if bit == 1 { p } else { 0 }) + rem);
            if i > 0 {
                lemma_pow2_pos((i - 1) as nat);
                assert((half || rest) == (rem > 0));
            }
            assert(fraction_bits(more, (i + 1) as nat, bit == 1, half || rest));
            rem = more;
        }
        rest = half || rest;
        half = bit == 1;
        i = i + 1;
    }
    let ghost q = n@;
    let ghost den = pow2(bits as nat);
    proof {
        assert(q * den == den * q) by (nonlinear_arith);
        lemma_fundamental_div_mod_converse(start as int, den as int, q as int, rem as int);
        if bits > 0 {
            lemma_pow2_unfold(bits as nat);
        }
    }
    if half {
        let mut copy = n.duplicate();
        let odd = copy.divide(2) == 1;
        if rest || odd {
            n.scale(1, 1);
            proof {
                assert(q * 1 + 1 == q + 1);
            }
        }
    }
}

/// The decimal digits of a number, lowest first and at least `width` of them.
fn low_digits(n: &mut Natural, width: u32) -> (r: Vec<u8>)
    requires
        width > 0,
    ensures
        r@.len() >= width,
        forall|i: int| 0 <= i < r@.len() ==> r@[i] < 10,
        text_of(r@) == text::padded(old(n)@, width as nat),
{
    let mut out: Vec<u8> = Vec::new();
    let ghost start = n@;
    proof {
        decimal::lemma_ten_to(0);
        lemma_pow0(10);
        assert(start * decimal::ten_to(0) == start) by (nonlinear_arith)
            requires
                decimal::ten_to(0) == 1,
        ;
    }
    loop
        invariant
            forall|i: int| 0 <= i < out@.len() ==> out@[i] < 10,
            start == n@ * decimal::ten_to(out@.len()) + low_number(out@),
            width > 0,
            out@.len() > width ==> out@.last() != 0 || n@ > 0,
            low_number(out@) < decimal::ten_to(out@.len()),
        ensures
            n@ == 0,
            out@.len() >= width,
        decreases n@, width - out@.len(),
    {
        if n.is_zero() && out.len() >= width as usize {
            break;
        }
        let ghost before = n@;
        let ghost shorter = out@;
        let d = n.divide(10);
        out.push(d as u8);
        proof {
            let t = decimal::ten_to(shorter.len());
            decimal::lemma_ten_to(shorter.len());
            lemma_fundamental_div_mod(before as int, 10);
            assert(out@.drop_last() =~= shorter);
            assert(before * t == n@ * (10 * t) + d as nat * t) by (nonlinear_arith)
                requires
                    before == 10 * n@ + d,
            ;
            assert(d as nat * t + t <= 10 * t) by (nonlinear_arith)
                requires
                    d < 10,
            ;
        }
    }
    proof {
        assert(0 * decimal::ten_to(out@.len()) == 0) by (nonlinear_arith);
        lemma_padded(out@, width as nat);
    }
    out
}

/// The number that digits stand for, lowest first.
spec fn low_number(ds: Seq<u8>) -> nat
    decreases ds.len(),
{
    if ds.len() == 0 {
        0
    } else {
        low_number(ds.drop_last()) + ds.last() as nat * decimal::ten_to((ds.len() - 1) as nat)
    }
}

/// The characters of digits, highest first.
spec fn text_of(ds: Seq<u8>) -> Seq<char> {
    Seq::new(ds.len(), |i: int| text::hex_digit(ds[ds.len() - 1 - i] as nat))
}

/// Digits that fill a width, or begin with a digit other than zero, are the
/// padded digits of their number.
proof fn lemma_padded(ds: Seq<u8>, width: nat)
    requires
        ds.len() >= width > 0,
        forall|i: int| 0 <= i < ds.len() ==> ds[i] < 10,
        ds.len() > width ==> ds.last() != 0,
    ensures
        text_of(ds) == text::padded(low_number(ds), width),
    decreases ds.len(),
{
    lemma_low(ds);
    let low = ds[0] as nat;
    let above = ds.drop_first();
    let n = low_number(ds);
    let m = low_number(above);
    if ds.len() == 1 {
        assert(above =~= Seq::<u8>::empty());
        assert(n == low);
        assert(text::digits(n).len() == 1);
        assert(text_of(ds) =~= text::padded(n, width));
    } else {
        assert(n / 10 == m && n % 10 == low);
        assert(text_of(ds) =~= text_of(above).push(text::hex_digit(low)));
        if width > 1 {
            lemma_padded(above, (width - 1) as nat);
        } else {
            lemma_padded(above, 1);
        }
        lemma_low(above);
        if n < 10 {
            // All digits above the lowest are zero.
            assert(m == 0);
            assert(text::digits(m) =~= seq![text::hex_digit(0)]);
            assert(text::digits(n) =~= seq![text::hex_digit(low)]);
            if width == 1 {
                lemma_leading(ds);
                assert(false);
            }
            assert(text::padded(m, (width - 1) as nat) =~= text::zeros((width - 1) as nat));
            assert(text::padded(n, width) =~= text::zeros((width - 1) as nat).push(
                text::hex_digit(low),
            ));
        } else {
            assert(text::digits(n) == text::digits(m).push(text::hex_digit(low)));
            if width > 1 {
                assert(text::padded(n, width) =~= text::padded(m, (width - 1) as nat).push(
                    text::hex_digit(low),
                ));
            } else {
                text::lemma_digits(m);
                assert(text::padded(m, 1) =~= text::digits(m));
                assert(text::padded(n, 1) =~= text::digits(n));
            }
        }
    }
}

proof fn lemma_low(ds: Seq<u8>)
    requires
        ds.len() > 0,
    ensures
        low_number(ds) == ds[0] as nat + 10 * low_number(ds.drop_first()),
    decreases ds.len(),
{
    lemma_pow0(10);
    if ds.len() == 1 {
        assert(ds.drop_last() =~= Seq::<u8>::empty());
        assert(ds.drop_first() =~= Seq::<u8>::empty());
        assert(decimal::ten_to(0) == 1);
    } else {
        let shorter = ds.drop_last();
        lemma_low(shorter);
        assert(shorter.drop_first() =~= ds.drop_first().drop_last());
        decimal::lemma_ten_to((ds.len() - 2) as nat);
        let t = decimal::ten_to((ds.len() - 2) as nat);
        let d = ds.last() as nat;
        assert(d * (10 * t) == 10 * (d * t)) by (nonlinear_arith);
    }
}

/// A highest digit other than zero makes the number at least that power of ten.
proof fn lemma_leading(ds: Seq<u8>)
    requires
        ds.len() > 1,
        ds.last() != 0,
    ensures
        low_number(ds) >= 10,
{
    let n = (ds.len() - 1) as nat;
    decimal::lemma_ten_to((n - 1) as nat);
    let t = decimal::ten_to(n);
    let d = ds.last() as nat;
    assert(d * t >= 10) by (nonlinear_arith)
        requires
            d >= 1,
            t >= 10,
    ;
}

/// Appends a digit or a point.
fn push_mark(out: &mut String, c: char)
    requires
        text::is_digit(c) || c == '.',
    ensures
        final(out)@ == old(out)@.push(c),
{
    let ghost before = out@;
    if c == '.' {
        out.append(".");
        proof {
            reveal_strlit(".");
            assert(out@ =~= before.push(c));
        }
    } else {
        push_digit(out, (c as u32 - 0x30) as u8);
    }
}

/// The characters of a finite magnitude, rounded to `places` decimal places.
fn fixed_marks(magnitude: u64, places: u32) -> (r: Vec<char>)
    requires
        magnitude < INFINITE,
        places < 0xffff_ffff,
    ensures
        r@ == fixed(magnitude as nat, places as nat),
        forall|i: int| 0 <= i < r@.len() ==> text::is_digit(r@[i]) || r@[i] == '.',
{
    let mut n = scaled_units(magnitude, places);
    divide_rounded(&mut n, 1074);
    let ghost scaled = n@;
    let ds = low_digits(&mut n, places + 1);
    let ghost all = text::padded(scaled, places as nat + 1);
    let ghost cut = all.len() - places;
    let mut out: Vec<char> = Vec::new();
    let mut i: usize = ds.len();
    while i > 0
        invariant
            i <= ds@.len(),
            ds@.len() > places,
            all == text_of(ds@),
            cut == ds@.len() - places,
            forall|j: int| 0 <= j < ds@.len() ==> ds@[j] < 10,
            forall|j: int| 0 <= j < out@.len() ==> text::is_digit(out@[j]) || out@[j] == '.',
            out@ == (if i >= places || places == 0 {
                all.take(ds@.len() - i)
            } else {
                all.take(cut).push('.') + all.subrange(cut, ds@.len() - i)
            }),
        decreases i,
    {
        if i == places as usize {
            out.push('.');
            proof {
                assert(out@ =~= all.take(cut).push('.') + all.subrange(cut, cut));
            }
        }
        i = i - 1;
        let c = digit_char(ds[i]);
        out.push(c);
        proof {
            assert(c == all[ds@.len() - 1 - i]);
            if i >= places || places == 0 {
                assert(out@ =~= all.take(ds@.len() - i));
            } else {
                assert(out@ =~= all.take(cut).push('.') + all.subrange(cut, ds@.len() - i));
            }
        }
    }
    proof {
        assert(all.take(ds@.len() as int) =~= all);
        assert(all.subrange(cut, ds@.len() as int) =~= all.skip(cut));
    }
    out
}

fn digit_char(d: u8) -> (c: char)
    requires
        d < 10,
    ensures
        c == text::hex_digit(d as nat),
        text::is_digit(c),
{
    match d {
        0 => '0',
        1 => '1',
        2 => '2',
        3 => '3',
        4 => '4',
        5 => '5',
        6 => '6',
        7 => '7',
        8 => '8',
        _ => '9',
    }
}

/// Removes the characters `c` at the end.
fn strip(chars: &mut Vec<char>, c: char)
    ensures
        final(chars)@ == stripped(old(chars)@, c),
        final(chars)@.len() <= old(chars)@.len(),
        forall|i: int| 0 <= i < final(chars)@.len() ==> final(chars)@[i] == old(chars)@[i],
{
    let ghost before = chars@;
    while chars.len() > 0 && chars[chars.len() - 1] == c
        invariant
            chars@.len() <= before.len(),
            forall|i: int| 0 <= i < chars@.len() ==> chars@[i] == before[i],
            stripped(chars@, c) == stripped(before, c),
        decreases chars@.len(),
    {
        let ghost longer = chars@;
        chars.pop();
        proof {
            assert(chars@ =~= longer.drop_last());
        }
    }
}

/// A decimal reads back as the magnitude exactly where one of the two decimals
/// around the magnitude does.
proof fn lemma_around(magnitude: nat, places: nat, d: nat, below: nat)
    requires
        magnitude < INFINITE,
        below == (rounding::units(magnitude) * decimal::ten_to(places)) / pow2(1074),
        decimal::scaled_magnitude(d, -(places as int)) == magnitude,
    ensures
        decimal::scaled_magnitude(below, -(places as int)) == magnitude
            || decimal::scaled_magnitude(below + 1, -(places as int)) == magnitude,
{
    let p = pow2(1074);
    let t = decimal::ten_to(places);
    let v = rounding::units(magnitude);
    lemma_pow2_pos(1074);
    decimal::lemma_ten_to(places);
    lemma_pow0(10);
    lemma_scaled(d, places);
    lemma_scaled(below, places);
    lemma_scaled(below + 1, places);
    lemma_fundamental_div_mod((v * t) as int, p as int);
    lemma_mod_bound((v * t) as int, p as int);
    assert(below * p <= v * t < (below + 1) * p) by (nonlinear_arith)
        requires
            v * t == p * below + (v * t) % p,
            0 <= (v * t) % p < p,
    ;
    rounding::lemma_exact(magnitude, v * t, t);
    if d <= below {
        assert((d * p) * t <= (below * p) * t) by (nonlinear_arith)
            requires
                d <= below,
                p > 0,
                t > 0,
        ;
        rounding::lemma_nearest_monotone(d * p, t, below * p, t);
        assert((below * p) * t <= (v * t) * t) by (nonlinear_arith)
            requires
                below * p <= v * t,
                t > 0,
        ;
        rounding::lemma_nearest_monotone(below * p, t, v * t, t);
    } else {
        assert(((below + 1) * p) * t <= (d * p) * t) by (nonlinear_arith)
            requires
                below + 1 <= d,
                p > 0,
                t > 0,
        ;
        rounding::lemma_nearest_monotone((below + 1) * p, t, d * p, t);
        assert((v * t) * t <= ((below + 1) * p) * t) by (nonlinear_arith)
            requires
                v * t < (below + 1) * p,
                t > 0,
        ;
        rounding::lemma_nearest_monotone(v * t, t, (below + 1) * p, t);
    }
}

/// A decimal with `places` places as a fraction.
proof fn lemma_scaled(d: nat, places: nat)
    ensures
        decimal::scaled_magnitude(d, -(places as int)) == rounding::nearest(
            d * pow2(1074),
            decimal::ten_to(places),
        ),
{
    if places == 0 {
        lemma_pow0(10);
        assert(d * decimal::ten_to(0) * pow2(1074) == d * pow2(1074)) by (nonlinear_arith)
            requires
                decimal::ten_to(0) == 1,
        ;
    }
}

/// The magnitude nearest to `d / 10^places`.
fn natural_magnitude(d: &Natural, places: u32) -> (r: u64)
    requires
        places <= 1074,
    ensures
        r == decimal::scaled_magnitude(d@, -(places as int)),
        r <= INFINITE,
{
    if places <= 19 {
        if let Some(v) = d.small() {
            if v > 0 {
                return small_magnitude(v, -(places as i32));
            }
        }
    }
    let mut twice = d.duplicate();
    twice.times_power_of_two(1075);
    proof {
        lemma_scaled(d@, places as nat);
        lemma_pow2_unfold(1075);
        let p = pow2(1074);
        assert(d@ * (2 * p) == 2 * (d@ * p)) by (nonlinear_arith);
    }
    search_magnitude(&twice, places as u128, Ghost(d@ * pow2(1074)))
}

/// Whether some decimal with `places` places reads back as the magnitude.
fn is_read_back(magnitude: u64, places: u32) -> (r: bool)
    requires
        magnitude < INFINITE,
        places <= 1074,
    ensures
        r == reads_back(magnitude as nat, places as nat),
{
    let mut d = scaled_units(magnitude, places);
    let ghost units = d@;
    let mut i: u32 = 0;
    proof {
        lemma2_to64();
        lemma_div_basics(units as int);
        lemma_pow2_pos(1074);
    }
    while i < 1074
        invariant
            i <= 1074,
            d@ == units / pow2(i as nat),
        decreases 1074 - i,
    {
        let _bit = d.divide(2);
        proof {
            lemma_pow2_pos(i as nat);
            lemma_pow2_unfold((i + 1) as nat);
            lemma_div_denominator(units as int, pow2(i as nat) as int, 2);
            assert(pow2(i as nat) * 2 == 2 * pow2(i as nat));
        }
        i = i + 1;
    }
    let ghost below = d@;
    let first = natural_magnitude(&d, places);
    d.scale(1, 1);
    let second = natural_magnitude(&d, places);
    proof {
        assert(below * 1 + 1 == below + 1);
        if reads_back(magnitude as nat, places as nat) {
            let any = choose|d: nat| #[trigger]
                decimal::scaled_magnitude(d, -(places as int)) == magnitude as nat;
            lemma_around(magnitude as nat, places as nat, any, below);
        }
    }
    first == magnitude || second == magnitude
}

/// The number of places of the shortest decimal that reads back as the number.
pub fn decimal_places(step: Binary64) -> (r: u32)
    requires
        step.finite(),
    ensures
        r as nat == fewest_places(step.magnitude(), 0),
        r <= 1074,
{
    let magnitude = step.abs().to_bits();
    proof {
        crate::binary64::lemma_parts(step);
        crate::binary64::lemma_signed(false, step.magnitude());
        lemma_small_mod(magnitude as nat, crate::binary64::SIGN as nat);
    }
    let mut places: u32 = 0;
    while places < 1074
        invariant
            places <= 1074,
            magnitude < INFINITE,
            magnitude == step.magnitude(),
            fewest_places(magnitude as nat, 0) == fewest_places(magnitude as nat, places as nat),
        decreases 1074 - places,
    {
        if is_read_back(magnitude, places) {
            return places;
        }
        places = places + 1;
    }
    places
}

/// A value that is not negative, written with as many places as its step has,
/// without zeros at the end.
pub fn trim_decimal(value: Binary64, step: Binary64) -> (r: String)
    requires
        !value.nan(),
        !value.negative(),
        step.finite(),
    ensures
        r@ == trimmed(value, step),
{
    if !value.is_finite() {
        return text::owned("inf");
    }
    let places = decimal_places(step);
    let mut marks = fixed_marks(value.to_bits(), places);
    proof {
        lemma_small_mod(value.bits as nat, crate::binary64::SIGN as nat);
    }
    if places > 0 {
        strip(&mut marks, '0');
        strip(&mut marks, '.');
    }
    let mut out = String::new();
    let mut i: usize = 0;
    while i < marks.len()
        invariant
            i <= marks@.len(),
            forall|j: int| 0 <= j < marks@.len() ==> text::is_digit(marks@[j]) || marks@[j] == '.',
            out@ == marks@.take(i as int),
        decreases marks@.len() - i,
    {
        push_mark(&mut out, marks[i]);
        i = i + 1;
        proof {
            assert(out@ =~= marks@.take(i as int));
        }
    }
    proof {
        assert(marks@.take(marks@.len() as int) =~= marks@);
    }
    out
}

/// What stripping leaves: everything up to the last other character.
proof fn lemma_stripped(s: Seq<char>, c: char) -> (k: int)
    ensures
        0 <= k <= s.len(),
        stripped(s, c) == s.take(k),
        forall|i: int| k <= i < s.len() ==> #[trigger] s[i] == c,
        k > 0 ==> s[k - 1] != c,
    decreases s.len(),
{
    if s.len() > 0 && s.last() == c {
        let k = lemma_stripped(s.drop_last(), c);
        assert(s.drop_last().take(k) =~= s.take(k));
        assert forall|i: int| k <= i < s.len() implies #[trigger] s[i] == c by {
            if i < s.len() - 1 {
                assert(s.drop_last()[i] == c);
            }
        }
        k
    } else {
        assert(s.take(s.len() as int) =~= s);
        s.len() as int
    }
}

/// What is written of a finite number is a plain decimal.
pub proof fn law_trimmed_numbers_are_plain(value: Binary64, step: Binary64)
    requires
        !value.infinite(),
    ensures
        text::is_plain_number(trimmed(value, step)),
{
    let places = fewest_places(step.magnitude(), 0);
    let scaled = rounded_quotient(
        rounding::units(value.magnitude()) * decimal::ten_to(places),
        pow2(1074),
    );
    let ds = text::padded(scaled, places + 1);
    text::lemma_digits(scaled);
    assert(text::all_digits(ds));
    let cut = ds.len() - places;
    let whole = fixed(value.magnitude(), places);
    if places == 0 {
        assert(whole == ds);
    } else {
        assert(whole[cut] == '.');
        assert forall|i: int| 0 <= i < whole.len() && i != cut implies text::is_digit(
            #[trigger] whole[i],
        ) by {
            if i < cut {
                assert(whole[i] == ds[i]);
            } else {
                assert(whole[i] == ds[i - 1]);
            }
        }
        let k = lemma_stripped(whole, '0');
        assert(k > cut) by {
            if k <= cut {
                assert(whole[cut] == '0');
            }
        }
        let rest = stripped(whole, '0');
        let j = lemma_stripped(rest, '.');
        if j < rest.len() {
            assert(rest[j] == '.');
            assert(j == cut);
        } else {
            assert(rest.take(j) =~= rest);
        }
    }
}

/// Digits with a point among them, or without one, read as the number nearest to
/// the decimal that they write.
proof fn lemma_plain_reading(w: Seq<char>, f: Seq<char>, has_point: bool)
    requires
        w.len() > 0,
        text::all_digits(w),
        text::all_digits(f),
        !has_point ==> f.len() == 0,
    ensures
        decimal::reading(
            if has_point {
                w.push('.') + f
            } else {
                w
            },
        ) == Some(
            binary64::signed(
                false,
                rounding::nearest(text::decimal(w + f) * pow2(1074), decimal::ten_to(f.len())),
            ),
        ),
        decimal::numeral(
            if has_point {
                w.push('.') + f
            } else {
                w
            },
        ) == Some(
            rounding::nearest(text::decimal(w + f) * pow2(1074), decimal::ten_to(f.len())),
        ),
{
    let s = if has_point {
        w.push('.') + f
    } else {
        w
    };
    assert forall|i: int| 0 <= i < s.len() implies text::is_digit(#[trigger] s[i]) || s[i]
        == '.' by {
        if i < w.len() {
            assert(s[i] == w[i]);
        } else if i > w.len() {
            assert(s[i] == f[i - w.len() - 1]);
        }
    }
    assert(s[0] == w[0] && text::is_digit(w[0]));
    reveal_strlit("inf");
    reveal_strlit("infinity");
    reveal_strlit("nan");
    assert("inf"@[0] == 'i' && "infinity"@[0] == 'i' && "nan"@[0] == 'n');
    assert(text::lowered(s)[0] == s[0]);
    decimal::lemma_position(s, 'e', 'E', s.len());
    let mantissa = s.take(s.len() as int);
    assert(mantissa =~= s);
    assert forall|j: int| 0 <= j < w.len() implies #[trigger] s[j] != '.' by {
        assert(s[j] == w[j]);
        assert(text::is_digit(w[j]));
    }
    decimal::lemma_position(s, '.', '.', w.len());
    assert(decimal::whole_part(s) =~= w);
    assert(decimal::fraction_part(s) =~= f);
    assert(text::all_digits(w + f));
    let d = text::decimal(w + f);
    decimal::lemma_ten_to(0);
    assert(decimal::ten_to(0) == 1) by {
        lemma_pow0(10);
    }
    assert(d * 1 == d);
}

/// What is written of a number reads as the number nearest to its value, rounded to
/// the places of its step: no farther than half a place away.
pub proof fn law_written_numbers_read_back(value: Binary64, step: Binary64)
    requires
        value.finite(),
    ensures
        ({
            let places = fewest_places(step.magnitude(), 0);
            let exact = rounding::units(value.magnitude()) * decimal::ten_to(places);
            exists|scaled: nat|
                {
                    &&& decimal::reading(trimmed(value, step)) == Some(
                        binary64::signed(
                            false,
                            #[trigger] rounding::nearest(
                                scaled * pow2(1074),
                                decimal::ten_to(places),
                            ),
                        ),
                    )
                    &&& 2 * (scaled * pow2(1074) - exact) <= pow2(1074)
                    &&& 2 * (exact - scaled * pow2(1074)) <= pow2(1074)
                }
        }),
{
    let places = fewest_places(step.magnitude(), 0);
    let exact = rounding::units(value.magnitude()) * decimal::ten_to(places);
    let u = pow2(1074);
    lemma_pow2_pos(1074);
    let scaled = rounded_quotient(exact, u);
    lemma_rounded_quotient(exact, u);
    let ds = text::padded(scaled, places + 1);
    text::law_padding_keeps_the_number(scaled, places + 1);
    let whole = fixed(value.magnitude(), places);
    if places == 0 {
        lemma_plain_reading(ds, Seq::empty(), false);
        assert(ds + Seq::<char>::empty() =~= ds);
    } else {
        let cut = ds.len() - places;
        let w = ds.take(cut);
        let k = lemma_stripped(whole, '0');
        assert(whole[cut] == '.');
        assert(k > cut) by {
            if k <= cut {
                assert(whole[cut] == '0');
            }
        }
        let rest = stripped(whole, '0');
        let j = lemma_stripped(rest, '.');
        let kept = k - 1;
        let f = ds.subrange(cut, kept);
        assert(rest =~= w.push('.') + f);
        assert forall|i: int| kept <= i < ds.len() implies #[trigger] ds[i] == '0' by {
            assert(whole[i + 1] == ds[i]);
        }
        assert(text::all_digits(w));
        assert(text::all_digits(f));
        text::lemma_trailing_zeros(ds, kept as nat);
        assert(w + f =~= ds.take(kept));
        if j < rest.len() {
            assert(rest[j] == '.');
            assert(j == cut) by {
                if j > cut {
                    assert(rest[j] == f[j - cut - 1]);
                    assert(text::is_digit(f[j - cut - 1]));
                } else if j < cut {
                    assert(rest[j] == w[j]);
                    assert(text::is_digit(w[j]));
                }
            }
            assert(f.len() == 0) by {
                if f.len() > 0 {
                    assert(rest[cut + 1] == f[0]);
                    assert(text::is_digit(f[0]));
                }
            }
            assert(rest.take(j) =~= w);
            assert(w + Seq::<char>::empty() =~= w);
            assert(f =~= Seq::<char>::empty());
            lemma_plain_reading(w, Seq::empty(), false);
        } else {
            assert(rest.take(j) =~= rest);
            lemma_plain_reading(w, f, true);
        }
        let short = text::decimal(w + f);
        let more = (ds.len() - kept) as nat;
        let fl = f.len();
        decimal::lemma_ten_to(more);
        decimal::lemma_ten_to(fl);
        decimal::lemma_ten_to(places);
        decimal::lemma_ten_to_adds(fl, more);
        assert(fl + more == places);
        let a = decimal::ten_to(fl);
        let b = decimal::ten_to(more);
        assert(scaled == short * b);
        assert((short * u) * (a * b) == ((short * b) * u) * a) by (nonlinear_arith);
        rounding::lemma_nearest_monotone(short * u, a, scaled * u, a * b);
        rounding::lemma_nearest_monotone(scaled * u, a * b, short * u, a);
    }
    assert(rounding::nearest(scaled * pow2(1074), decimal::ten_to(places)) == rounding::nearest(
        scaled * u,
        decimal::ten_to(places),
    ));
}

proof fn lemma_rounded_quotient(num: nat, den: nat)
    requires
        den > 0,
    ensures
        2 * (rounded_quotient(num, den) * den - num) <= den,
        2 * (num - rounded_quotient(num, den) * den) <= den,
{
    lemma_fundamental_div_mod(num as int, den as int);
    let q = num / den;
    let rem = num % den;
    assert(q * den + rem == num) by (nonlinear_arith)
        requires
            num == den * q + rem,
    ;
    assert((q + 1) * den == q * den + den) by (nonlinear_arith);
}

/// The step of a number is written with as few places as read back as the step.
pub proof fn law_steps_are_written_short(magnitude: nat, places: nat)
    requires
        places <= 1074,
    ensures
        ({
            let found = fewest_places(magnitude, places);
            &&& places <= found <= 1074
            &&& found < 1074 ==> reads_back(magnitude, found)
            &&& forall|fewer: nat| places <= fewer < found ==> !#[trigger] reads_back(
                magnitude,
                fewer,
            )
        }),
    decreases 1074 - places,
{
    if places < 1074 && !reads_back(magnitude, places) {
        law_steps_are_written_short(magnitude, places + 1);
        assert forall|fewer: nat| places <= fewer < fewest_places(magnitude, places) implies
            !#[trigger] reads_back(magnitude, fewer) by {
            if fewer > places {
                assert(places + 1 <= fewer);
            }
        }
    }
}

/// Digits with a point before the last `f` of them read as the number nearest to
/// their value over 10^f, and behind a minus sign as its opposite.
pub proof fn law_decimals_read_as_the_nearest_number(w: Seq<char>, f: Seq<char>)
    requires
        w.len() > 0,
        text::all_digits(w),
        text::all_digits(f),
    ensures
        ({
            let plain = w.push('.') + f;
            let nearest = rounding::nearest(
                text::decimal(w + f) * pow2(1074),
                decimal::ten_to(f.len()),
            );
            &&& decimal::reading(w) == Some(
                binary64::signed(false, rounding::nearest(text::decimal(w) * pow2(1074), 1)),
            )
            &&& decimal::reading(plain) == Some(binary64::signed(false, nearest))
            &&& decimal::reading(seq!['-'] + plain) == Some(binary64::signed(true, nearest))
            &&& decimal::reading(Seq::empty()) is None
        }),
{
    let plain = w.push('.') + f;
    lemma_plain_reading(w, f, true);
    lemma_plain_reading(w, Seq::empty(), false);
    assert(w + Seq::<char>::empty() =~= w);
    lemma_pow0(10);
    assert((seq!['-'] + plain).skip(1) =~= plain);
    assert(plain[0] == w[0] && text::is_digit(w[0]));
    assert(decimal::unsigned(seq!['-'] + plain) == plain);
    assert(decimal::unsigned(plain) == plain);
    reveal_strlit("inf");
    reveal_strlit("infinity");
    reveal_strlit("nan");
    assert("inf"@[0] == 'i' && "infinity"@[0] == 'i' && "nan"@[0] == 'n');
    assert(text::lowered(plain)[0] == plain[0]);
    let none = Seq::<char>::empty();
    assert(decimal::unsigned(none) =~= none);
    assert(text::lowered(none).len() == 0);
    decimal::lemma_position(none, 'e', 'E', 0);
    assert(none.take(0) =~= none);
    decimal::lemma_position(none, '.', '.', 0);
    assert(decimal::whole_part(none) + decimal::fraction_part(none) =~= none);
}

} // verus!
