//! Natural numbers of any size.
//!
//! Just what exact arithmetic on double-precision numbers needs: the quotient of two of them, in
//! units of the smallest one, has some thousand digits.
use vstd::prelude::*;
use vstd::arithmetic::power2::pow2;
use crate::text;

verus! {

/// What the digit at a position counts; digits are words of 32 bits.
pub open spec fn place(n: nat) -> nat
    decreases n,
{
    if n == 0 {
        1
    } else {
        0x1_0000_0000 * place((n - 1) as nat)
    }
}

/// The number that digits stand for, the least one first.
pub open spec fn value(digits: Seq<u32>) -> nat
    decreases digits.len(),
{
    if digits.len() == 0 {
        0
    } else {
        value(digits.drop_last()) + digits.last() as nat * place((digits.len() - 1) as nat)
    }
}

/// A natural number.
#[derive(Debug)]
pub struct Big {
    pub digits: Vec<u32>,
}

impl View for Big {
    type V = nat;

    open spec fn view(&self) -> nat {
        value(self.digits@)
    }
}

/// The digit at a position; beyond the last one it is zero.
spec fn digit_at(digits: Seq<u32>, i: int) -> nat {
    if 0 <= i < digits.len() {
        digits[i] as nat
    } else {
        0
    }
}

/// The number that the first digits stand for.
spec fn low(digits: Seq<u32>, i: int) -> nat {
    if i >= digits.len() {
        value(digits)
    } else {
        value(digits.take(i))
    }
}

proof fn lemma_place(n: nat)
    ensures
        place(n) > 0,
        place(n + 1) == 0x1_0000_0000 * place(n),
    decreases n,
{
    if n > 0 {
        lemma_place((n - 1) as nat);
    }
}

proof fn lemma_low(digits: Seq<u32>, i: int)
    requires
        i >= 0,
    ensures
        low(digits, i + 1) == low(digits, i) + digit_at(digits, i) * place(i as nat),
        low(digits, 0) == 0,
{
    assert(digits.take(0).len() == 0);
    if i < digits.len() {
        assert(digits.take(i + 1).drop_last() =~= digits.take(i));
        assert(digits.take(digits.len() as int) =~= digits);
    } else {
        assert(0 * place(i as nat) == 0) by (nonlinear_arith);
    }
}

proof fn lemma_bound(digits: Seq<u32>)
    ensures
        value(digits) < place(digits.len()),
    decreases digits.len(),
{
    if digits.len() > 0 {
        lemma_bound(digits.drop_last());
        let n = (digits.len() - 1) as nat;
        lemma_place(n);
        let d = digits.last() as nat;
        assert(d * place(n) + place(n) <= 0x1_0000_0000 * place(n)) by (nonlinear_arith)
            requires
                d < 0x1_0000_0000,
        ;
    }
}

proof fn lemma_low_bound(digits: Seq<u32>, i: int)
    requires
        i >= 0,
    ensures
        low(digits, i) < place(i as nat),
    decreases i,
{
    if i > 0 {
        lemma_low_bound(digits, i - 1);
        lemma_low(digits, i - 1);
        lemma_place((i - 1) as nat);
        let d = digit_at(digits, i - 1);
        let p = place((i - 1) as nat);
        assert(d * p + p <= 0x1_0000_0000 * p) by (nonlinear_arith)
            requires
                d < 0x1_0000_0000,
        ;
    } else {
        lemma_low(digits, 0);
    }
}

proof fn lemma_push(digits: Seq<u32>, d: u32)
    ensures
        value(digits.push(d)) == value(digits) + d as nat * place(digits.len()),
{
    assert(digits.push(d).drop_last() =~= digits);
}

/// A number below 2^64 stands in its first two digits.
proof fn lemma_small(digits: Seq<u32>)
    requires
        value(digits) < 0x1_0000_0000_0000_0000,
    ensures
        value(digits) == digit_at(digits, 0) + digit_at(digits, 1) * 0x1_0000_0000,
    decreases digits.len(),
{
    lemma_place(0);
    lemma_place(1);
    assert(place(0) == 1 && place(1) == 0x1_0000_0000 && place(2) == 0x1_0000_0000_0000_0000);
    if digits.len() > 2 {
        let n = (digits.len() - 1) as nat;
        let d = digits.last() as nat;
        lemma_place_grows(2, n);
        if d > 0 {
            assert(d * place(n) >= place(n)) by (nonlinear_arith)
                requires
                    d >= 1,
            ;
        }
        assert(d == 0);
        assert(d * place(n) == 0) by (nonlinear_arith)
            requires
                d == 0,
        ;
        lemma_small(digits.drop_last());
    } else {
        lemma_low(digits, 0);
        lemma_low(digits, 1);
        assert(low(digits, 2) == value(digits));
        assert(digit_at(digits, 0) * 1 == digit_at(digits, 0));
    }
}

proof fn lemma_place_grows(a: nat, b: nat)
    requires
        a <= b,
    ensures
        place(a) <= place(b),
    decreases b,
{
    if a < b {
        lemma_place_grows(a, (b - 1) as nat);
        lemma_place((b - 1) as nat);
    }
}

proof fn lemma_place_adds(a: nat, b: nat)
    ensures
        place(a + b) == place(a) * place(b),
    decreases b,
{
    if b == 0 {
        assert(place(a) * 1 == place(a));
    } else {
        lemma_place_adds(a, (b - 1) as nat);
        lemma_place((a + b - 1) as nat);
        lemma_place((b - 1) as nat);
        let p = place(a) as int;
        let q = place((b - 1) as nat) as int;
        assert(0x1_0000_0000 * (p * q) == p * (0x1_0000_0000 * q)) by (nonlinear_arith);
    }
}

/// A place is a power of two.
pub proof fn lemma_place_is_power(n: nat)
    ensures
        place(n) == pow2(32 * n),
    decreases n,
{
    vstd::arithmetic::power2::lemma2_to64();
    if n > 0 {
        lemma_place_is_power((n - 1) as nat);
        lemma_place((n - 1) as nat);
        vstd::arithmetic::power2::lemma_pow2_adds(32, (32 * (n - 1)) as nat);
    }
}

impl Big {
    fn digit(&self, i: usize) -> (r: u32)
        ensures
            r == digit_at(self.digits@, i as int),
    {
        if i < self.digits.len() {
            self.digits[i]
        } else {
            0
        }
    }

    /// A number that a word of 64 bits holds.
    pub fn from_word(n: u64) -> (r: Big)
        ensures
            r@ == n,
    {
        let mut digits: Vec<u32> = Vec::new();
        let a: u32 = (n % 0x1_0000_0000) as u32;
        let b: u32 = (n / 0x1_0000_0000) as u32;
        proof {
            lemma_place(0);
            lemma_place(1);
            lemma_push(digits@, a);
            lemma_push(digits@.push(a), b);
            assert(value(digits@) == 0);
            assert(place(0) == 1 && place(1) == 0x1_0000_0000);
            assert(a as nat * 1 == a as nat);
        }
        digits.push(a);
        digits.push(b);
        Big { digits }
    }

    /// The number as a word of 64 bits.
    pub fn word(&self) -> (r: u64)
        requires
            self@ < 0x1_0000_0000_0000_0000,
        ensures
            r == self@,
    {
        proof {
            lemma_small(self.digits@);
        }
        self.digit(0) as u64 + self.digit(1) as u64 * 0x1_0000_0000
    }

    /// Whether the number is smaller than another one.
    pub fn less(&self, other: &Big) -> (r: bool)
        ensures
            r == (self@ < other@),
    {
        let n: usize = if self.digits.len() < other.digits.len() {
            other.digits.len()
        } else {
            self.digits.len()
        };
        let mut smaller = false;
        let mut i: usize = 0;
        proof {
            lemma_low(self.digits@, 0);
            lemma_low(other.digits@, 0);
        }
        while i < n
            invariant
                i <= n,
                smaller == (low(self.digits@, i as int) < low(other.digits@, i as int)),
            decreases n - i,
        {
            let a: u32 = self.digit(i);
            let b: u32 = other.digit(i);
            proof {
                lemma_low(self.digits@, i as int);
                lemma_low(other.digits@, i as int);
                lemma_low_bound(self.digits@, i as int);
                lemma_low_bound(other.digits@, i as int);
                let p = place(i as nat);
                if a < b {
                    assert(a * p + p <= b * p) by (nonlinear_arith)
                        requires
                            a < b,
                    ;
                } else if b < a {
                    assert(b * p + p <= a * p) by (nonlinear_arith)
                        requires
                            b < a,
                    ;
                }
            }
            if a < b {
                smaller = true;
            } else if b < a {
                smaller = false;
            }
            i = i + 1;
        }
        smaller
    }

    /// The number times a small one, and a small one more.
    pub fn times_plus(&self, k: u32, c: u32) -> (r: Big)
        ensures
            r@ == self@ * k + c,
    {
        let mut out: Vec<u32> = Vec::new();
        let mut carry: u64 = c as u64;
        let mut i: usize = 0;
        proof {
            lemma_low(self.digits@, 0);
            lemma_place(0);
            assert(place(0) == 1 && value(out@) == 0);
            assert(carry * 1 == carry);
            assert(low(self.digits@, 0) * k == 0) by (nonlinear_arith)
                requires
                    low(self.digits@, 0) == 0,
            ;
        }
        while i < self.digits.len()
            invariant
                i <= self.digits@.len(),
                out@.len() == i,
                carry < 0x1_0000_0000,
                value(out@) + carry * place(i as nat) == low(self.digits@, i as int) * k + c,
            decreases self.digits.len() - i,
        {
            let d: u32 = self.digits[i];
            assert(d * k + carry < 0x1_0000_0000 * 0x1_0000_0000) by (nonlinear_arith)
                requires
                    d < 0x1_0000_0000,
                    k < 0x1_0000_0000,
                    carry < 0x1_0000_0000,
            ;
            let x: u64 = d as u64 * k as u64 + carry;
            let rest: u32 = (x % 0x1_0000_0000) as u32;
            let next: u64 = x / 0x1_0000_0000;
            proof {
                lemma_low(self.digits@, i as int);
                lemma_place(i as nat);
                lemma_push(out@, rest);
                let p = place(i as nat) as int;
                let before = low(self.digits@, i as int) as int;
                assert(next * (0x1_0000_0000 * p) + rest * p == x * p) by (nonlinear_arith)
                    requires
                        x == next * 0x1_0000_0000 + rest,
                ;
                assert(x * p == d * k * p + carry * p) by (nonlinear_arith)
                    requires
                        x == d * k + carry,
                ;
                assert((before + d * p) * k == before * k + d * k * p) by (nonlinear_arith);
            }
            out.push(rest);
            carry = next;
            i = i + 1;
        }
        if carry > 0 {
            proof {
                lemma_push(out@, carry as u32);
            }
            out.push(carry as u32);
        } else {
            assert(0 * place(i as nat) == 0);
        }
        Big { digits: out }
    }

    /// The sum of two numbers.
    pub fn plus(&self, other: &Big) -> (r: Big)
        ensures
            r@ == self@ + other@,
    {
        let n: usize = if self.digits.len() < other.digits.len() {
            other.digits.len()
        } else {
            self.digits.len()
        };
        let mut out: Vec<u32> = Vec::new();
        let mut carry: u64 = 0;
        let mut i: usize = 0;
        proof {
            lemma_low(self.digits@, 0);
            lemma_low(other.digits@, 0);
        }
        while i < n
            invariant
                i <= n,
                out@.len() == i,
                carry <= 1,
                value(out@) + carry * place(i as nat) == low(self.digits@, i as int) + low(
                    other.digits@,
                    i as int,
                ),
            decreases n - i,
        {
            let a: u32 = self.digit(i);
            let b: u32 = other.digit(i);
            let x: u64 = a as u64 + b as u64 + carry;
            let rest: u32 = (x % 0x1_0000_0000) as u32;
            let next: u64 = x / 0x1_0000_0000;
            proof {
                lemma_low(self.digits@, i as int);
                lemma_low(other.digits@, i as int);
                lemma_place(i as nat);
                lemma_push(out@, rest);
                let p = place(i as nat) as int;
                assert(next * (0x1_0000_0000 * p) + rest * p == a * p + b * p + carry * p)
                    by (nonlinear_arith)
                    requires
                        a + b + carry == next * 0x1_0000_0000 + rest,
                ;
            }
            out.push(rest);
            carry = next;
            i = i + 1;
        }
        if carry > 0 {
            proof {
                lemma_push(out@, 1);
            }
            out.push(1);
        } else {
            assert(0 * place(i as nat) == 0);
        }
        Big { digits: out }
    }

    /// The number without a smaller one.
    pub fn minus(&self, other: &Big) -> (r: Big)
        requires
            other@ <= self@,
        ensures
            r@ == self@ - other@,
    {
        let n: usize = if self.digits.len() < other.digits.len() {
            other.digits.len()
        } else {
            self.digits.len()
        };
        let mut out: Vec<u32> = Vec::new();
        let mut borrow: u64 = 0;
        let mut i: usize = 0;
        proof {
            lemma_low(self.digits@, 0);
            lemma_low(other.digits@, 0);
        }
        while i < n
            invariant
                i <= n,
                out@.len() == i,
                borrow <= 1,
                value(out@) + low(other.digits@, i as int) == low(self.digits@, i as int) + borrow
                    * place(i as nat),
            decreases n - i,
        {
            let a: u32 = self.digit(i);
            let b: u32 = other.digit(i);
            let x: u64 = 0x1_0000_0000 + a as u64 - b as u64 - borrow;
            let rest: u32 = (x % 0x1_0000_0000) as u32;
            let next: u64 = 1 - x / 0x1_0000_0000;
            proof {
                lemma_low(self.digits@, i as int);
                lemma_low(other.digits@, i as int);
                lemma_place(i as nat);
                lemma_push(out@, rest);
                let p = place(i as nat) as int;
                assert(rest * p + b * p + borrow * p == a * p + next * (0x1_0000_0000 * p))
                    by (nonlinear_arith)
                    requires
                        rest + b + borrow == a + next * 0x1_0000_0000,
                ;
            }
            out.push(rest);
            borrow = next;
            i = i + 1;
        }
        proof {
            lemma_bound(out@);
            if borrow == 1 {
                assert(1 * place(i as nat) == place(i as nat));
            } else {
                assert(0 * place(i as nat) == 0);
            }
        }
        Big { digits: out }
    }

    /// The number with so many zero digits in front of its least one.
    pub fn raised(&self, n: usize) -> (r: Big)
        ensures
            r@ == self@ * place(n as nat),
    {
        let mut out: Vec<u32> = Vec::new();
        let mut i: usize = 0;
        while i < n
            invariant
                i <= n,
                out@.len() == i,
                value(out@) == 0,
            decreases n - i,
        {
            proof {
                lemma_push(out@, 0);
                assert(0 * place(i as nat) == 0);
            }
            out.push(0);
            i = i + 1;
        }
        let mut j: usize = 0;
        proof {
            lemma_low(self.digits@, 0);
            assert(0 * place(n as nat) == 0);
        }
        while j < self.digits.len()
            invariant
                j <= self.digits@.len(),
                out@.len() == n + j,
                value(out@) == low(self.digits@, j as int) * place(n as nat),
            decreases self.digits.len() - j,
        {
            let d: u32 = self.digits[j];
            proof {
                lemma_low(self.digits@, j as int);
                lemma_push(out@, d);
                lemma_place_adds(n as nat, j as nat);
                let before = low(self.digits@, j as int) as int;
                let p = place(n as nat) as int;
                let q = place(j as nat) as int;
                assert((before + d * q) * p == before * p + d * (p * q)) by (nonlinear_arith);
            }
            out.push(d);
            j = j + 1;
        }
        Big { digits: out }
    }

    /// A copy.
    pub fn copy(&self) -> (r: Big)
        ensures
            r@ == self@,
    {
        let r = self.times_plus(1, 0);
        assert(self@ * 1 == self@);
        r
    }

    /// How often another number fits, and what is left over.
    pub fn divided_by(&self, other: &Big) -> (r: (Big, Big))
        requires
            other@ > 0,
        ensures
            r.0@ == self@ / other@,
            r.1@ == self@ % other@,
        decreases if self@ >= other@ {
            self@ - other@ + 1
        } else {
            0
        },
    {
        if self.less(other) {
            proof {
                vstd::arithmetic::div_mod::lemma_small_mod(self@, other@);
                vstd::arithmetic::div_mod::lemma_basic_div(self@ as int, other@ as int);
            }
            return (Big::from_word(0), self.copy());
        }
        let twice = other.times_plus(2, 0);
        let (q, rest) = self.divided_by(&twice);
        proof {
            lemma_halved_divisor(self@, other@);
        }
        if rest.less(other) {
            (q.times_plus(2, 0), rest)
        } else {
            (q.times_plus(2, 1), rest.minus(other))
        }
    }

    /// The number in decimal digits.
    pub fn decimal(&self) -> (r: String)
        ensures
            r@ == text::decimal(self@),
        decreases self@,
    {
        let ten = Big::from_word(10);
        let (q, rest) = self.divided_by(&ten);
        let d: u64 = rest.word();
        let c: char = (d as u8 + 48) as char;
        assert(c == text::digit((self@ % 10) as int));
        let mut out = if self.less(&ten) {
            String::new()
        } else {
            q.decimal()
        };
        out.push(c);
        assert(self@ < 10 ==> out@ =~= seq![text::digit(self@ as int)]);
        out
    }
}

/// Dividing by the double of a number leaves one more bit of the quotient open.
proof fn lemma_halved_divisor(a: nat, b: nat)
    requires
        b > 0,
    ensures
        a % (2 * b) < b ==> a / b == 2 * (a / (2 * b)) && a % b == a % (2 * b),
        a % (2 * b) >= b ==> a / b == 2 * (a / (2 * b)) + 1 && a % b == a % (2 * b) - b,
{
    let q = (a / (2 * b)) as int;
    let r = (a % (2 * b)) as int;
    vstd::arithmetic::div_mod::lemma_fundamental_div_mod(a as int, 2 * b as int);
    vstd::arithmetic::div_mod::lemma_mod_bound(a as int, 2 * b as int);
    assert(2 * b * q == (2 * q) * b) by (nonlinear_arith);
    if r < b {
        vstd::arithmetic::div_mod::lemma_fundamental_div_mod_converse(
            a as int,
            b as int,
            2 * q,
            r,
        );
    } else {
        assert((2 * q + 1) * b == (2 * q) * b + b) by (nonlinear_arith);
        vstd::arithmetic::div_mod::lemma_fundamental_div_mod_converse(
            a as int,
            b as int,
            2 * q + 1,
            r - b,
        );
    }
}

} // verus!
