//! Natural numbers of any size, as little-endian digits in base 2^32.
use vstd::prelude::*;
use vstd::arithmetic::div_mod::*;
use vstd::arithmetic::power::*;
use vstd::arithmetic::power2::*;

verus! {

/// The base of the digits.
pub const BASE: u64 = 0x1_0000_0000;

/// The number that a sequence of digits stands for.
pub open spec fn number(digits: Seq<u32>) -> nat
    decreases digits.len(),
{
    if digits.len() == 0 {
        0
    } else {
        number(digits.drop_last()) + digits.last() as nat * pow2(32 * (digits.len() - 1) as nat)
    }
}

/// A natural number.
#[derive(Debug)]
pub struct Natural {
    digits: Vec<u32>,
}

/// How two numbers compare.
#[derive(Clone, Copy, Debug, PartialEq, Eq, Structural)]
pub enum Comparison {
    Below,
    Equal,
    Above,
}

/// How `a` compares to `b`.
pub open spec fn comparison(a: int, b: int) -> Comparison {
    if a < b {
        Comparison::Below
    } else if a == b {
        Comparison::Equal
    } else {
        Comparison::Above
    }
}

proof fn lemma_weights(i: nat)
    ensures
        pow2(32 * (i + 1)) == pow2(32 * i) * BASE,
        pow2(32 * i) > 0,
{
    lemma2_to64();
    lemma_pow2_adds(32 * i, 32);
    lemma_pow2_pos(32 * i);
}

proof fn lemma_bounded(digits: Seq<u32>)
    ensures
        number(digits) < pow2(32 * digits.len()),
    decreases digits.len(),
{
    lemma2_to64();
    if digits.len() > 0 {
        let n = (digits.len() - 1) as nat;
        lemma_bounded(digits.drop_last());
        lemma_weights(n);
        let w = pow2(32 * n);
        let d = digits.last() as nat;
        assert(d * w + w <= w * BASE) by (nonlinear_arith)
            requires
                d < 0x1_0000_0000,
                BASE == 0x1_0000_0000,
        ;
    }
}

proof fn lemma_next_digit(digits: Seq<u32>, i: nat)
    requires
        i < digits.len(),
    ensures
        number(digits.take(i as int + 1)) == number(digits.take(i as int)) + digits[i as int] as nat
            * pow2(32 * i),
{
    let longer = digits.take(i as int + 1);
    assert(longer.drop_last() =~= digits.take(i as int));
    assert(longer.last() == digits[i as int]);
}

/// A number by its lowest digit and the number above it.
proof fn lemma_lowest_digit(digits: Seq<u32>)
    requires
        digits.len() > 0,
    ensures
        number(digits) == digits[0] as nat + BASE * number(digits.drop_first()),
    decreases digits.len(),
{
    lemma2_to64();
    if digits.len() == 1 {
        assert(digits.drop_last() =~= Seq::<u32>::empty());
        assert(digits.drop_first() =~= Seq::<u32>::empty());
        assert(digits.last() as nat * pow2(0) == digits[0]);
    } else {
        let n = (digits.len() - 2) as nat;
        let shorter = digits.drop_last();
        lemma_lowest_digit(shorter);
        assert(shorter.drop_first() =~= digits.drop_first().drop_last());
        lemma_weights(n);
        let d = digits.last() as nat;
        let w = pow2(32 * n);
        let rest = number(shorter.drop_first());
        assert(pow2(32 * (digits.len() - 1) as nat) == w * BASE);
        assert(BASE * rest + d * (w * BASE) == BASE * (rest + d * w)) by (nonlinear_arith);
    }
}

impl Natural {
    pub closed spec fn view(self) -> nat {
        number(self.digits@)
    }

    /// The number `n`.
    pub fn from_u64(n: u64) -> (r: Natural)
        ensures
            r@ == n,
    {
        let mut digits: Vec<u32> = Vec::new();
        let low: u32 = (n % BASE) as u32;
        let high: u32 = (n / BASE) as u32;
        digits.push(low);
        digits.push(high);
        proof {
            lemma_lowest_digit(digits@);
            lemma_lowest_digit(digits@.drop_first());
            assert(digits@.drop_first().drop_first() =~= Seq::<u32>::empty());
            lemma_fundamental_div_mod(n as int, BASE as int);
        }
        Natural { digits }
    }

    /// The same number.
    pub fn duplicate(&self) -> (r: Natural)
        ensures
            r@ == self@,
    {
        let digits = self.digits.clone();
        proof {
            assert(digits@ =~= self.digits@);
        }
        Natural { digits }
    }

    /// The number, where it lies below 2^63.
    pub fn small(&self) -> (r: Option<u64>)
        ensures
            match r {
                Some(v) => v == self@ && v < 0x8000_0000_0000_0000,
                None => self@ >= 0x8000_0000_0000_0000,
            },
    {
        let bound = Natural::from_u64(0x8000_0000_0000_0000);
        if self.compare(&bound) != Comparison::Below {
            return None;
        }
        let n = self.digits.len();
        let low: u64 = if n > 0 { self.digits[0] as u64 } else { 0 };
        let high: u64 = if n > 1 { self.digits[1] as u64 } else { 0 };
        proof {
            let s = self.digits@;
            if n > 0 {
                lemma_lowest_digit(s);
                if n > 1 {
                    lemma_lowest_digit(s.drop_first());
                    let rest = number(s.drop_first().drop_first());
                    assert(rest == 0) by (nonlinear_arith)
                        requires
                            self@ == low + BASE * (high + BASE * rest),
                            self@ < 0x8000_0000_0000_0000,
                            low >= 0,
                            high >= 0,
                            rest >= 0,
                            BASE == 0x1_0000_0000,
                    ;
                } else {
                    assert(s.drop_first() =~= Seq::<u32>::empty());
                }
            }
            assert(self@ == low + BASE * high);
        }
        Some(low + high * BASE)
    }

    /// Replaces the number by `self * factor + addend`.
    pub fn scale(&mut self, factor: u32, addend: u32)
        ensures
            final(self)@ == old(self)@ * factor + addend,
    {
        let n = self.digits.len();
        let mut carry: u64 = addend as u64;
        let mut i: usize = 0;
        let ghost before = self.digits@;
        proof {
            lemma2_to64();
            assert(before.take(0) =~= Seq::<u32>::empty());
            assert(carry as nat * pow2(0) == carry) by (nonlinear_arith)
                requires
                    pow2(0) == 1,
            ;
            assert(0 * factor == 0) by (nonlinear_arith);
        }
        while i < n
            invariant
                i <= n,
                n == self.digits@.len(),
                n == before.len(),
                carry < BASE,
                forall|j: int| i <= j < n ==> self.digits@[j] == before[j],
                number(self.digits@.take(i as int)) + carry as nat * pow2(32 * i as nat) == number(
                    before.take(i as int),
                ) * factor + addend,
            decreases n - i,
        {
            let d = self.digits[i];
            proof {
                assert(d * factor <= 0xffff_ffff * 0xffff_ffff) by (nonlinear_arith)
                    requires
                        d <= 0xffff_ffff,
                        factor <= 0xffff_ffff,
                ;
            }
            let t: u64 = d as u64 * factor as u64 + carry;
            let ghost kept = self.digits@.take(i as int);
            let ghost old_carry = carry as nat;
            self.digits.set(i, (t % BASE) as u32);
            carry = t / BASE;
            proof {
                let w = pow2(32 * i as nat);
                let low = (t % BASE) as nat;
                lemma_fundamental_div_mod(t as int, BASE as int);
                assert(self.digits@.take(i as int) =~= kept);
                lemma_next_digit(self.digits@, i as nat);
                lemma_next_digit(before, i as nat);
                lemma_weights(i as nat);
                assert(carry < BASE) by (nonlinear_arith)
                    requires
                        t == BASE * carry + low,
                        low >= 0,
                        t <= 0xffff_ffff * 0xffff_ffff + 0xffff_ffff,
                        BASE == 0x1_0000_0000,
                ;
                assert(low * w + carry as nat * (w * BASE) == t * w) by (nonlinear_arith)
                    requires
                        t == BASE * carry + low,
                ;
                assert(t * w == (d as nat * w) * factor + old_carry * w) by (nonlinear_arith)
                    requires
                        t == d * factor + old_carry,
                ;
                assert((number(before.take(i as int)) + d as nat * w) * factor == number(
                    before.take(i as int),
                ) * factor + (d as nat * w) * factor) by (nonlinear_arith);
            }
            i = i + 1;
        }
        proof {
            assert(before.take(n as int) =~= before);
            assert(self.digits@.take(n as int) =~= self.digits@);
        }
        let ghost full = self.digits@;
        self.digits.push(carry as u32);
        proof {
            assert(self.digits@.drop_last() =~= full);
        }
    }

    /// Replaces the number by `self / divisor` and returns the remainder.
    pub fn divide(&mut self, divisor: u32) -> (rem: u32)
        requires
            divisor > 0,
        ensures
            final(self)@ == old(self)@ / (divisor as nat),
            rem as nat == old(self)@ % (divisor as nat),
    {
        let n = self.digits.len();
        let ghost before = self.digits@;
        let mut rem: u64 = 0;
        let mut i: usize = n;
        proof {
            assert(before.skip(n as int) =~= Seq::<u32>::empty());
            assert(divisor as nat * 0 == 0) by (nonlinear_arith);
        }
        while i > 0
            invariant
                i <= n,
                n == self.digits@.len(),
                n == before.len(),
                rem < divisor,
                forall|j: int| 0 <= j < i ==> self.digits@[j] == before[j],
                number(before.skip(i as int)) == divisor as nat * number(self.digits@.skip(i as int))
                    + rem as nat,
            decreases i,
        {
            let ghost above = self.digits@.skip(i as int);
            i = i - 1;
            let d = self.digits[i];
            proof {
                assert(rem * BASE + d < divisor * BASE) by (nonlinear_arith)
                    requires
                        rem + 1 <= divisor,
                        d < BASE,
                ;
            }
            let t: u64 = rem * BASE + d as u64;
            let ghost old_rem = rem;
            let q: u64 = t / divisor as u64;
            rem = t % divisor as u64;
            proof {
                lemma_fundamental_div_mod(t as int, divisor as int);
                assert(q < BASE) by (nonlinear_arith)
                    requires
                        t == divisor * q + rem,
                        t < divisor * BASE,
                        divisor > 0,
                        rem >= 0,
                ;
            }
            self.digits.set(i, q as u32);
            proof {
                let now = self.digits@;
                assert(now.skip(i as int).drop_first() =~= above);
                assert(before.skip(i as int).drop_first() =~= before.skip(i as int + 1));
                lemma_lowest_digit(now.skip(i as int));
                lemma_lowest_digit(before.skip(i as int));
                let high = number(above);
                assert(d + BASE * (divisor as nat * high + old_rem) == divisor as nat * (q + BASE
                    * high) + rem) by (nonlinear_arith)
                    requires
                        old_rem * BASE + d == divisor * q + rem,
                ;
            }
        }
        proof {
            assert(before.skip(0) =~= before);
            assert(self.digits@.skip(0) =~= self.digits@);
            let q = number(self.digits@);
            assert(divisor as nat * q == q * divisor as nat) by (nonlinear_arith);
            lemma_fundamental_div_mod_converse(
                number(before) as int,
                divisor as int,
                q as int,
                rem as int,
            );
        }
        rem as u32
    }

    /// Replaces the number by `self * 2^k`.
    pub fn times_power_of_two(&mut self, k: u32)
        ensures
            final(self)@ == old(self)@ * pow2(k as nat),
    {
        let ghost before = self@;
        let mut i: u32 = 0;
        proof {
            lemma2_to64();
            assert(before * pow2(0) == before);
        }
        while k - i >= 31
            invariant
                i <= k,
                self@ == before * pow2(i as nat),
            decreases k - i,
        {
            self.scale(0x8000_0000, 0);
            proof {
                lemma2_to64();
                lemma_pow2_adds(i as nat, 31);
                assert(before * pow2(i as nat) * 0x8000_0000 == before * (pow2(i as nat)
                    * 0x8000_0000)) by (nonlinear_arith);
            }
            i = i + 31;
        }
        while i < k
            invariant
                i <= k,
                self@ == before * pow2(i as nat),
            decreases k - i,
        {
            self.scale(2, 0);
            proof {
                lemma_pow2_unfold((i + 1) as nat);
                assert(before * pow2(i as nat) * 2 == before * (2 * pow2(i as nat)))
                    by (nonlinear_arith);
            }
            i = i + 1;
        }
    }

    /// Replaces the number by `self * 10^k`.
    pub fn times_power_of_ten(&mut self, k: u128)
        ensures
            final(self)@ == old(self)@ * pow(10, k as nat),
    {
        let ghost before = self@;
        let mut i: u128 = 0;
        proof {
            lemma_pow0(10);
            assert(before * pow(10, 0) == before);
        }
        while k - i >= 9
            invariant
                i <= k,
                self@ == before * pow(10, i as nat),
            decreases k - i,
        {
            self.scale(1_000_000_000, 0);
            proof {
                lemma_pow_adds(10, i as nat, 9);
                assert(pow(10, 9) == 1_000_000_000) by {
                    reveal_with_fuel(pow, 10);
                }
                assert(before * pow(10, i as nat) * 1_000_000_000 == before * (pow(10, i as nat)
                    * 1_000_000_000)) by (nonlinear_arith);
            }
            i = i + 9;
        }
        while i < k
            invariant
                i <= k,
                self@ == before * pow(10, i as nat),
            decreases k - i,
        {
            self.scale(10, 0);
            proof {
                reveal(pow);
                assert(before * pow(10, i as nat) * 10 == before * (10 * pow(10, i as nat)))
                    by (nonlinear_arith);
            }
            i = i + 1;
        }
    }

    /// How the number compares to `other`.
    pub fn compare(&self, other: &Natural) -> (r: Comparison)
        ensures
            r == comparison(self@ as int, other@ as int),
    {
        let a = self.digits.len();
        let b = other.digits.len();
        let n = if a < b { b } else { a };
        let mut r = Comparison::Equal;
        let mut i: usize = 0;
        let ghost x = padded(self.digits@, n as nat);
        let ghost y = padded(other.digits@, n as nat);
        proof {
            lemma_padded(self.digits@, n as nat);
            lemma_padded(other.digits@, n as nat);
            assert(x.take(0) =~= Seq::<u32>::empty());
            assert(y.take(0) =~= Seq::<u32>::empty());
        }
        while i < n
            invariant
                i <= n,
                a == self.digits@.len(),
                b == other.digits@.len(),
                x == padded(self.digits@, n as nat),
                y == padded(other.digits@, n as nat),
                r == comparison(number(x.take(i as int)) as int, number(y.take(i as int)) as int),
            decreases n - i,
        {
            let p: u32 = if i < a { self.digits[i] } else { 0 };
            let q: u32 = if i < b { other.digits[i] } else { 0 };
            proof {
                lemma_next_digit(x, i as nat);
                lemma_next_digit(y, i as nat);
                lemma_bounded(x.take(i as int));
                lemma_bounded(y.take(i as int));
                let w = pow2(32 * i as nat) as int;
                assert(p < q ==> p * w + w <= q * w) by (nonlinear_arith)
                    requires
                        w > 0,
                ;
                assert(q < p ==> q * w + w <= p * w) by (nonlinear_arith)
                    requires
                        w > 0,
                ;
            }
            if p < q {
                r = Comparison::Below;
            } else if q < p {
                r = Comparison::Above;
            }
            i = i + 1;
        }
        proof {
            assert(x.take(n as int) =~= x);
            assert(y.take(n as int) =~= y);
        }
        r
    }

    /// Whether the number is zero.
    pub fn is_zero(&self) -> (r: bool)
        ensures
            r == (self@ == 0),
    {
        self.compare(&Natural::from_u64(0)) == Comparison::Equal
    }
}

/// The digits with zeros above them, up to a length of `n`.
spec fn padded(digits: Seq<u32>, n: nat) -> Seq<u32> {
    Seq::new(n, |i: int| if i < digits.len() { digits[i] } else { 0u32 })
}

proof fn lemma_padded(digits: Seq<u32>, n: nat)
    requires
        digits.len() <= n,
    ensures
        number(padded(digits, n)) == number(digits),
    decreases n,
{
    if digits.len() == n {
        assert(padded(digits, n) =~= digits);
    } else {
        let fewer = (n - 1) as nat;
        lemma_padded(digits, fewer);
        assert(padded(digits, n).drop_last() =~= padded(digits, fewer));
        assert(0nat * pow2(32 * fewer) == 0) by (nonlinear_arith);
    }
}

} // verus!
