use queue_aware_smdp::binary64::Binary64;
use queue_aware_smdp::decimal::read;
use queue_aware_smdp::notation::{decimal_places, trim_decimal};

fn number(x: f64) -> Binary64 {
    Binary64::from_bits(x.to_bits())
}

fn value(x: Binary64) -> f64 {
    f64::from_bits(x.to_bits())
}

struct Generator(u64);

impl Generator {
    fn next(&mut self) -> u64 {
        self.0 ^= self.0 << 13;
        self.0 ^= self.0 >> 7;
        self.0 ^= self.0 << 17;
        self.0
    }

    // Patterns of every size, with many near each other.
    fn pattern(&mut self) -> u64 {
        let bits = self.next();
        match self.next() % 6 {
            0 => bits,
            1 => (bits & 0x800f_ffff_ffff_ffff) | ((1013 + self.next() % 20) << 52),
            2 => bits & 0x800f_ffff_ffff_ffff,
            3 => (bits & 0x8000_0000_0000_ffff) | ((1003 + self.next() % 60) << 52),
            4 => bits & 0x8000_0000_0000_0007,
            _ => (bits & 0x8000_0000_0000_0000) | 0x7ff0_0000_0000_0000 | (bits & 1),
        }
    }
}

fn agree(ours: Binary64, theirs: f64) {
    if theirs.is_nan() {
        assert!(ours.is_nan());
    } else {
        assert_eq!(ours.to_bits(), theirs.to_bits(), "expected {theirs:e}");
    }
}

#[test]
fn arithmetic_agrees_with_the_machine() {
    let mut random = Generator(0x9e37_79b9_7f4a_7c15);
    for _ in 0..60_000 {
        let a = f64::from_bits(random.pattern());
        let b = f64::from_bits(random.pattern());
        let (x, y) = (number(a), number(b));
        agree(x.plus(y), a + b);
        agree(x.minus(y), a - b);
        agree(x.times(y), a * b);
        agree(x.over(y), a / b);
        assert_eq!(x.lt(y), a < b);
        assert_eq!(x.le(y), a <= b);
        agree(x.floor(), a.floor());
        agree(x.ceil(), a.ceil());
        assert_eq!(x.to_i32(), a as i32);
        agree(x.abs(), a.abs());
        agree(x.neg(), -a);
        if !(a == 0.0 && b == 0.0) {
            agree(x.max(y), a.max(b));
        }
        if a <= b {
            let c = f64::from_bits(random.pattern());
            agree(number(c).clamp(x, y), c.clamp(a, b));
        }
    }
}

#[test]
fn whole_numbers_round_to_the_nearest() {
    let mut random = Generator(77);
    for _ in 0..20_000 {
        let n = random.next() >> (random.next() % 64);
        agree(Binary64::from_u64(n), n as f64);
    }
    agree(Binary64::from_u64(u64::MAX), u64::MAX as f64);
}

#[test]
fn addition_rounds_ties_to_even() {
    assert_eq!(value(number(9007199254740992.0).plus(number(1.0))), 9007199254740992.0);
    assert_eq!(value(number(9007199254740994.0).plus(number(1.0))), 9007199254740996.0);
    assert_eq!(value(number(0.1).plus(number(0.2))), 0.30000000000000004);
}

#[test]
fn numerals_read_as_the_nearest_number() {
    for text in [
        "0", "-0", "1", "29500", "0.0003", "29577.9", ".5", "5.", "+2.5e3", "1E-7", "1e23",
        "9007199254740993", "9007199254740992.5", "123456789012345678901234567890",
        "0.1000000000000000055511151231257827021181583404541015625", "4.9e-324", "2.4703282292062327e-324",
        "2.4703282292062328e-324", "1.7976931348623157e308", "1.7976931348623159e308", "1e309",
        "-1e400", "1e-400", "2.2250738585072011e-308", "0e99999999999999999999999",
        "1e99999999999999999999999", "1e-99999999999999999999999", "000000000000000000000001.50",
        "179769313486231580793728971405301199e273", "inf", "-Infinity", "nan", "iNF",
        "8.5e-20", "1234567.1234567890123456789",
    ] {
        let expected: f64 = text.parse().unwrap();
        agree(read(text).unwrap(), expected);
    }
    for text in ["", "+", "-", ".", "e5", "1e", "1e+", "1.2.3", "0x10", "1_000", " 1", "1 ", "--1", "infi", "12a"] {
        assert!(text.parse::<f64>().is_err(), "{text}");
        assert!(read(text).is_none(), "{text}");
    }
}

#[test]
fn random_numerals_read_as_the_machine_reads_them() {
    let mut random = Generator(4242);
    for _ in 0..1_500 {
        let x = f64::from_bits(random.next());
        if x.is_finite() {
            agree(read(&format!("{x}")).unwrap(), x);
            agree(read(&format!("{x:e}")).unwrap(), x);
        }
        let digits = random.next() % 100_000_000;
        let text = format!("{}.{:0width$}", digits / 997, digits % 997, width = (random.next() % 12) as usize);
        agree(read(&text).unwrap(), text.parse().unwrap());
    }
}

fn trimmed_by_the_machine(value: f64, step: f64) -> String {
    let decimals = step
        .to_string()
        .split_once('.')
        .map(|(_, fraction)| fraction.trim_end_matches('0').len())
        .unwrap_or(0);
    let text = format!("{value:.decimals$}");
    if text.contains('.') {
        text.trim_end_matches('0').trim_end_matches('.').to_string()
    } else {
        text
    }
}

#[test]
fn fixed_places_are_written_as_the_machine_writes_them() {
    for (value, step) in [
        (29577.0, 1.0), (29577.9, 0.1), (0.0005, 0.0001), (0.00049999999999999999, 0.0001),
        (1.25, 0.1), (1.35, 0.1), (2.5, 1.0), (3.5, 1.0), (0.0, 0.01), (100.0, 0.01), (1e22, 10.0),
        (123456.789, 0.001), (0.30000000000000004, 0.1), (f64::INFINITY, 0.01), (5e-324, 1.0),
        (1.0, 0.000001), (7.0, 1e21), (0.125, 0.01), (0.375, 0.01), (1e300, 0.5),
    ] {
        assert_eq!(trim_decimal(number(value), number(step)), trimmed_by_the_machine(value, step));
    }
    let mut random = Generator(99);
    for _ in 0..150 {
        let value = (random.next() % 1_000_000_000) as f64 / (1 + random.next() % 100_000) as f64;
        let step = 1.0 / (1 + random.next() % 4_000) as f64;
        assert_eq!(trim_decimal(number(value), number(step)), trimmed_by_the_machine(value, step));
    }
    assert_eq!(decimal_places(number(0.1)), 1);
    assert_eq!(decimal_places(number(1e-6)), 6);
    assert_eq!(decimal_places(number(1e21)), 0);
    assert_eq!(decimal_places(number(0.30000000000000004)), 17);
}
