//! Text: comparison, decimal numbers, and the character classes that the
//! configuration and the exchange frames rely on.
use vstd::prelude::*;
use vstd::arithmetic::power::*;

verus! {

/// The characters of a text.
pub fn characters(text: &str) -> (r: Vec<char>)
    ensures
        r@ == text@,
{
    let mut out: Vec<char> = Vec::new();
    for c in it: text.chars()
        invariant
            out@ == it.seq().take(it.index() as int),
            it.seq() == text@,
    {
        out.push(c);
    }
    proof {
        assert(text@.take(text@.len() as int) =~= text@);
    }
    out
}

/// Whether two texts hold the same characters.
pub fn same(a: &str, b: &str) -> (r: bool)
    ensures
        r == (a@ == b@),
{
    let x = characters(a);
    let y = characters(b);
    if x.len() != y.len() {
        return false;
    }
    let mut i: usize = 0;
    while i < x.len()
        invariant
            x@ == a@,
            y@ == b@,
            x@.len() == y@.len(),
            i <= x@.len(),
            forall|j: int| 0 <= j < i ==> a@[j] == b@[j],
        decreases x@.len() - i,
    {
        if x[i] != y[i] {
            return false;
        }
        i = i + 1;
    }
    proof {
        assert(a@ =~= b@);
    }
    true
}

/// The characters of an optional text.
pub open spec fn optional_text(source: Option<String>) -> Option<Seq<char>> {
    match source {
        Some(inner) => Some(inner@),
        None => None,
    }
}

/// The characters of texts.
pub open spec fn characters_of(texts: Seq<String>) -> Seq<Seq<char>> {
    Seq::new(texts.len(), |i: int| texts[i]@)
}

pub open spec fn is_digit(c: char) -> bool {
    0x30 <= c as u32 <= 0x39
}

pub open spec fn all_digits(s: Seq<char>) -> bool {
    forall|i: int| 0 <= i < s.len() ==> is_digit(#[trigger] s[i])
}

/// A plain decimal: digits with a point or without one. A fraction does not end
/// in a zero, nor in the point.
pub open spec fn is_plain_number(s: Seq<char>) -> bool {
    &&& s.len() > 0
    &&& forall|i: int| 0 <= i < s.len() ==> is_digit(#[trigger] s[i]) || s[i] == '.'
    &&& s.contains('.') ==> s.last() != '0' && s.last() != '.'
}

/// The number that decimal digits stand for.
pub open spec fn decimal(s: Seq<char>) -> nat
    decreases s.len(),
{
    if s.len() == 0 {
        0
    } else {
        10 * decimal(s.drop_last()) + (s.last() as u32 - 0x30) as nat
    }
}

/// The decimal digits of a number, without leading zeros.
pub open spec fn digits(n: nat) -> Seq<char>
    decreases n,
{
    if n < 10 {
        seq![hex_digit(n)]
    } else {
        digits(n / 10).push(hex_digit(n % 10))
    }
}

/// The character of a hexadecimal digit.
pub open spec fn hex_digit(d: nat) -> char {
    if d < 10 {
        (0x30 + d) as char
    } else {
        (0x61 + d - 10) as char
    }
}

/// The digits of `n`, with zeros before them up to `width` characters.
pub open spec fn padded(n: nat, width: nat) -> Seq<char> {
    if digits(n).len() < width {
        zeros((width - digits(n).len()) as nat) + digits(n)
    } else {
        digits(n)
    }
}

pub open spec fn zeros(n: nat) -> Seq<char> {
    Seq::new(n, |i: int| '0')
}

/// Two hexadecimal digits for each byte.
pub open spec fn hex(bytes: Seq<u8>) -> Seq<char>
    decreases bytes.len(),
{
    if bytes.len() == 0 {
        Seq::empty()
    } else {
        hex(bytes.drop_last()).push(hex_digit((bytes.last() / 16) as nat)).push(
            hex_digit((bytes.last() % 16) as nat),
        )
    }
}

/// The number that a text holds: decimal digits, after a plus sign or none,
/// within the range of `u64`.
pub open spec fn whole(s: Seq<char>) -> Option<u64> {
    let body = if s.len() > 0 && s[0] == '+' {
        s.skip(1)
    } else {
        s
    };
    if body.len() == 0 || !all_digits(body) || decimal(body) > u64::MAX {
        None
    } else {
        Some(decimal(body) as u64)
    }
}

/// Leading digits never make a number smaller.
pub proof fn lemma_decimal_grows(s: Seq<char>, n: nat)
    requires
        n <= s.len(),
        all_digits(s),
    ensures
        decimal(s.take(n as int)) <= decimal(s),
    decreases s.len(),
{
    if n < s.len() {
        lemma_decimal_grows(s.drop_last(), n);
        assert(s.drop_last().take(n as int) =~= s.take(n as int));
    } else {
        assert(s.take(n as int) =~= s);
    }
}

/// The value of `n` digits lies below 10^n.
pub proof fn lemma_decimal_bounded(s: Seq<char>)
    requires
        all_digits(s),
    ensures
        decimal(s) < pow(10, s.len()),
    decreases s.len(),
{
    reveal(pow);
    if s.len() > 0 {
        lemma_decimal_bounded(s.drop_last());
        assert(is_digit(s.last()));
    }
}

/// Reads the digits of a number back.
pub proof fn lemma_digits(n: nat)
    ensures
        all_digits(digits(n)),
        decimal(digits(n)) == n,
        digits(n).len() > 0,
    decreases n,
{
    let s = digits(n);
    if n < 10 {
        assert(s.drop_last() =~= Seq::<char>::empty());
        assert(decimal(s.drop_last()) == 0);
    } else {
        lemma_digits(n / 10);
        assert(s.drop_last() =~= digits(n / 10));
    }
}

/// Zeros before a number leave it as it is.
pub proof fn lemma_leading_zeros(k: nat, s: Seq<char>)
    requires
        all_digits(s),
    ensures
        decimal(zeros(k) + s) == decimal(s),
        all_digits(zeros(k) + s),
    decreases k + s.len(),
{
    if s.len() > 0 {
        assert((zeros(k) + s).drop_last() =~= zeros(k) + s.drop_last());
        lemma_leading_zeros(k, s.drop_last());
    } else if k > 0 {
        assert((zeros(k) + s).drop_last() =~= zeros((k - 1) as nat) + s);
        lemma_leading_zeros((k - 1) as nat, s);
        assert((zeros(k) + s).last() == '0');
    } else {
        assert(zeros(0) + s =~= s);
    }
}

/// Padded digits stand for their number.
pub proof fn law_padding_keeps_the_number(n: nat, width: nat)
    ensures
        decimal(padded(n, width)) == n,
        all_digits(padded(n, width)),
        padded(n, width).len() >= width,
        padded(n, width).len() > 0,
{
    lemma_digits(n);
    if digits(n).len() < width {
        lemma_leading_zeros((width - digits(n).len()) as nat, digits(n));
    }
}

/// A number of no more digits than the width fills it exactly.
pub proof fn lemma_padded_width(n: nat, width: nat)
    requires
        n < pow(10, width),
        width > 0,
    ensures
        padded(n, width).len() == width,
        decimal(padded(n, width)) == n,
{
    law_padding_keeps_the_number(n, width);
    lemma_digit_count(n, width);
}

/// A number below 10^width has no more digits than that.
proof fn lemma_digit_count(n: nat, width: nat)
    requires
        n < pow(10, width),
        width > 0,
    ensures
        digits(n).len() <= width,
    decreases width,
{
    reveal(pow);
    if n >= 10 {
        assert(pow(10, 1) == 10 * pow(10, 0));
        assert(width > 1);
        lemma_digit_count(n / 10, (width - 1) as nat);
    }
}

/// Zeros behind the first `n` digits only scale the number.
pub proof fn lemma_trailing_zeros(s: Seq<char>, n: nat)
    requires
        n <= s.len(),
        forall|i: int| n <= i < s.len() ==> #[trigger] s[i] == '0',
    ensures
        decimal(s) == decimal(s.take(n as int)) * pow(10, (s.len() - n) as nat),
    decreases s.len(),
{
    reveal(pow);
    let d = decimal(s.take(n as int)) as int;
    if n < s.len() {
        lemma_trailing_zeros(s.drop_last(), n);
        assert(s.drop_last().take(n as int) =~= s.take(n as int));
        assert(s.last() == '0');
        let k = (s.len() - n) as nat;
        let p = pow(10, (k - 1) as nat);
        assert(pow(10, k) == 10 * p);
        assert(10 * (d * p) == d * (10 * p)) by (nonlinear_arith);
    } else {
        assert(s.take(n as int) =~= s);
        assert(d * 1 == d);
    }
}

/// Different numbers have different digits.
pub proof fn law_digits_are_unique(a: nat, b: nat)
    requires
        digits(a) == digits(b),
    ensures
        a == b,
{
    lemma_digits(a);
    lemma_digits(b);
}

/// Whether a character is a decimal digit.
pub fn digit(c: char) -> (r: bool)
    ensures
        r == is_digit(c),
{
    c as u32 >= 0x30 && c as u32 <= 0x39
}

/// The number that a text holds, as `u64` reads it.
pub fn parse_u64(text: &str) -> (r: Option<u64>)
    ensures
        r == whole(text@),
{
    let chars = characters(text);
    let start: usize = if chars.len() > 0 && chars[0] == '+' {
        1
    } else {
        0
    };
    let ghost body = text@.skip(start as int);
    proof {
        assert(text@.skip(0) =~= text@);
        assert(body.take(0) =~= Seq::<char>::empty());
    }
    if chars.len() == start {
        return None;
    }
    let mut value: u64 = 0;
    let mut i: usize = start;
    while i < chars.len()
        invariant
            start <= i <= chars@.len(),
            chars@ == text@,
            body == text@.skip(start as int),
            whole(text@) == (if body.len() == 0 || !all_digits(body) || decimal(body) > u64::MAX {
                None
            } else {
                Some(decimal(body) as u64)
            }),
            all_digits(body.take(i - start)),
            value == decimal(body.take(i - start)),
        decreases chars@.len() - i,
    {
        let c = chars[i];
        proof {
            assert(body[i - start] == c);
            assert(body.take(i - start + 1).drop_last() =~= body.take(i - start));
        }
        if !digit(c) {
            return None;
        }
        let d: u64 = (c as u32 - 0x30) as u64;
        let ghost longer = body.take(i - start + 1);
        proof {
            assert forall|j: int| 0 <= j < longer.len() implies is_digit(#[trigger] longer[j]) by {
                if j < i - start {
                    assert(longer[j] == body.take(i - start)[j]);
                }
            }
            if all_digits(body) {
                lemma_decimal_grows(body, (i - start + 1) as nat);
            }
        }
        if value > 1844674407370955161 || (value == 1844674407370955161 && d > 5) {
            return None;
        }
        value = value * 10 + d;
        i = i + 1;
    }
    proof {
        assert(body.take(body.len() as int) =~= body);
    }
    Some(value)
}

/// Appends a hexadecimal digit.
pub fn push_digit(out: &mut String, d: u8)
    requires
        d < 16,
    ensures
        final(out)@ == old(out)@.push(hex_digit(d as nat)),
{
    let piece: &str = match d {
        0 => "0",
        1 => "1",
        2 => "2",
        3 => "3",
        4 => "4",
        5 => "5",
        6 => "6",
        7 => "7",
        8 => "8",
        9 => "9",
        10 => "a",
        11 => "b",
        12 => "c",
        13 => "d",
        14 => "e",
        _ => "f",
    };
    proof {
        reveal_strlit("0");
        reveal_strlit("1");
        reveal_strlit("2");
        reveal_strlit("3");
        reveal_strlit("4");
        reveal_strlit("5");
        reveal_strlit("6");
        reveal_strlit("7");
        reveal_strlit("8");
        reveal_strlit("9");
        reveal_strlit("a");
        reveal_strlit("b");
        reveal_strlit("c");
        reveal_strlit("d");
        reveal_strlit("e");
        reveal_strlit("f");
    }
    let ghost before = out@;
    out.append(piece);
    proof {
        assert(piece@ =~= seq![hex_digit(d as nat)]);
        assert(out@ =~= before.push(hex_digit(d as nat)));
    }
}

/// Appends the decimal digits of a number.
pub fn push_number(out: &mut String, n: u64)
    ensures
        final(out)@ == old(out)@ + digits(n as nat),
    decreases n,
{
    let ghost before = out@;
    if n >= 10 {
        push_number(out, n / 10);
    }
    push_digit(out, (n % 10) as u8);
    proof {
        assert(out@ =~= before + digits(n as nat));
    }
}

/// Appends the decimal digits of a number, with zeros before them.
pub fn push_padded(out: &mut String, n: u64, width: usize)
    ensures
        final(out)@ == old(out)@ + padded(n as nat, width as nat),
{
    let mut text = String::new();
    push_number(&mut text, n);
    let ghost before = out@;
    let mut length: usize = text.as_str().unicode_len();
    let ghost lead = length;
    proof {
        assert(text@ =~= digits(n as nat));
        assert(out@ =~= before + zeros(0));
    }
    while length < width
        invariant
            lead <= length,
            lead <= width ==> length <= width,
            lead > width ==> length == lead,
            out@ == before + zeros((length - lead) as nat),
        decreases width - length,
    {
        push_digit(out, 0);
        length = length + 1;
        proof {
            assert(out@ =~= before + zeros((length - lead) as nat));
        }
    }
    out.append(text.as_str());
    proof {
        assert(out@ =~= before + padded(n as nat, width as nat));
    }
}

/// Two hexadecimal digits for each byte.
pub fn hex_text(bytes: &[u8]) -> (r: String)
    ensures
        r@ == hex(bytes@),
{
    let mut out = String::new();
    let mut i: usize = 0;
    proof {
        assert(bytes@.take(0) =~= Seq::<u8>::empty());
    }
    while i < bytes.len()
        invariant
            i <= bytes@.len(),
            out@ == hex(bytes@.take(i as int)),
        decreases bytes@.len() - i,
    {
        let b = bytes[i];
        push_digit(&mut out, b / 16);
        push_digit(&mut out, b % 16);
        proof {
            assert(bytes@.take(i as int + 1).drop_last() =~= bytes@.take(i as int));
        }
        i = i + 1;
    }
    proof {
        assert(bytes@.take(bytes@.len() as int) =~= bytes@);
    }
    out
}

/// `prefix`, followed by the digits of `n`.
pub fn numbered(prefix: &str, n: u64) -> (r: String)
    ensures
        r@ == prefix@ + digits(n as nat),
{
    let mut out = prefix.to_owned();
    push_number(&mut out, n);
    out
}

/// A copy of a text.
pub fn owned(text: &str) -> (r: String)
    ensures
        r@ == text@,
{
    text.to_owned()
}

/// The character in lower case, where it is an ASCII letter.
pub open spec fn lowered_char(c: char) -> char {
    if 0x41 <= c as u32 <= 0x5a {
        (c as u32 + 0x20) as char
    } else {
        c
    }
}

/// The text with its ASCII letters in lower case.
pub open spec fn lowered(s: Seq<char>) -> Seq<char> {
    s.map_values(|c: char| lowered_char(c))
}

/// Whether `part` occurs in `s`.
pub open spec fn holds_part(s: Seq<char>, part: Seq<char>) -> bool {
    exists|i: int| part_at(s, part, i)
}

pub open spec fn part_at(s: Seq<char>, part: Seq<char>, i: int) -> bool {
    0 <= i && i + part.len() <= s.len() && s.subrange(i, i + part.len() as int) == part
}

fn lower(c: char) -> (r: char)
    ensures
        r == lowered_char(c),
{
    match c {
        'A' => 'a',
        'B' => 'b',
        'C' => 'c',
        'D' => 'd',
        'E' => 'e',
        'F' => 'f',
        'G' => 'g',
        'H' => 'h',
        'I' => 'i',
        'J' => 'j',
        'K' => 'k',
        'L' => 'l',
        'M' => 'm',
        'N' => 'n',
        'O' => 'o',
        'P' => 'p',
        'Q' => 'q',
        'R' => 'r',
        'S' => 's',
        'T' => 't',
        'U' => 'u',
        'V' => 'v',
        'W' => 'w',
        'X' => 'x',
        'Y' => 'y',
        'Z' => 'z',
        _ => c,
    }
}

/// The characters of a text with its ASCII letters in lower case.
pub fn lower_case(text: &str) -> (r: Vec<char>)
    ensures
        r@ == lowered(text@),
{
    let chars = characters(text);
    let mut out: Vec<char> = Vec::new();
    let mut i: usize = 0;
    while i < chars.len()
        invariant
            chars@ == text@,
            i <= chars@.len(),
            out@ == lowered(text@).take(i as int),
        decreases chars@.len() - i,
    {
        out.push(lower(chars[i]));
        i = i + 1;
        proof {
            assert(out@ =~= lowered(text@).take(i as int));
        }
    }
    proof {
        assert(lowered(text@).take(text@.len() as int) =~= lowered(text@));
    }
    out
}

/// Whether the characters of `part` stand in `chars` at position `at`.
fn stands_at(chars: &Vec<char>, part: &Vec<char>, at: usize) -> (r: bool)
    requires
        at + part@.len() <= chars@.len(),
    ensures
        r == part_at(chars@, part@, at as int),
{
    let room: usize = chars.len();
    let mut i: usize = 0;
    while i < part.len()
        invariant
            at + part@.len() <= chars@.len(),
            room == chars@.len(),
            i <= part@.len(),
            forall|j: int| 0 <= j < i ==> chars@[at + j] == part@[j],
        decreases part@.len() - i,
    {
        if chars[at + i] != part[i] {
            proof {
                assert(chars@.subrange(at as int, at + part@.len())[i as int] != part@[i as int]);
            }
            return false;
        }
        i = i + 1;
    }
    proof {
        assert(chars@.subrange(at as int, at + part@.len()) =~= part@);
    }
    true
}

/// Whether `part` occurs among the characters.
pub fn contains(chars: &Vec<char>, part: &str) -> (r: bool)
    ensures
        r == holds_part(chars@, part@),
{
    let wanted = characters(part);
    if wanted.len() > chars.len() {
        return false;
    }
    let last: usize = chars.len() - wanted.len();
    let mut i: usize = 0;
    while i <= last
        invariant
            wanted@ == part@,
            last == chars@.len() - wanted@.len(),
            i <= last + 1,
            forall|j: int| 0 <= j < i ==> !part_at(chars@, part@, j),
        decreases last + 1 - i,
    {
        if stands_at(chars, &wanted, i) {
            return true;
        }
        if i == last {
            return false;
        }
        i = i + 1;
    }
    false
}

/// Whether the characters are those of `text`.
pub fn spells(chars: &Vec<char>, text: &str) -> (r: bool)
    ensures
        r == (chars@ == text@),
{
    let wanted = characters(text);
    if wanted.len() != chars.len() {
        return false;
    }
    let r = stands_at(chars, &wanted, 0);
    proof {
        assert(chars@.subrange(0, chars@.len() as int) =~= chars@);
    }
    r
}

/// The characters that Unicode lists as white space.
pub open spec fn is_white_space(c: char) -> bool {
    let n = c as u32;
    ||| 0x09 <= n <= 0x0d
    ||| n == 0x20
    ||| n == 0x85
    ||| n == 0xa0
    ||| n == 0x1680
    ||| 0x2000 <= n <= 0x200a
    ||| n == 0x2028
    ||| n == 0x2029
    ||| n == 0x202f
    ||| n == 0x205f
    ||| n == 0x3000
}

/// Nothing but white space.
pub open spec fn blank(s: Seq<char>) -> bool {
    forall|i: int| 0 <= i < s.len() ==> is_white_space(#[trigger] s[i])
}

/// Whether a text holds nothing but white space.
pub fn is_blank(text: &str) -> (r: bool)
    ensures
        r == blank(text@),
{
    let chars = characters(text);
    let mut i: usize = 0;
    while i < chars.len()
        invariant
            chars@ == text@,
            i <= chars@.len(),
            forall|j: int| 0 <= j < i ==> is_white_space(#[trigger] text@[j]),
        decreases chars@.len() - i,
    {
        let n: u32 = chars[i] as u32;
        let white = (0x09 <= n && n <= 0x0d) || n == 0x20 || n == 0x85 || n == 0xa0 || n == 0x1680
            || (0x2000 <= n && n <= 0x200a) || n == 0x2028 || n == 0x2029 || n == 0x202f || n
            == 0x205f || n == 0x3000;
        proof {
            assert(white == is_white_space(text@[i as int]));
        }
        if !white {
            return false;
        }
        i = i + 1;
    }
    true
}

} // verus!
