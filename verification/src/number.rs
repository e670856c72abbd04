//! Measured quantities: decibels, megabytes, frame counters.
//!
//! OBS reports them as double-precision numbers. Here such a number is held by its bits, and what is
//! computed of it is computed on whole numbers: every finite one is a count of 2^-1074, the smallest
//! of them. Comparing and printing are exact, and a difference, a quotient or a product is the
//! double-precision number nearest to the exact one, as IEEE 754 has it.
use vstd::prelude::*;
use vstd::arithmetic::power2::pow2;
use crate::big::Big;
use crate::text;

verus! {

/// A measured quantity: a double-precision number, given by its bits.
#[derive(Clone, Copy, PartialEq, Eq, Structural, Debug)]
pub struct Reading {
    pub bits: u64,
}

/// The bit of the sign.
pub const SIGN: u64 = 0x8000_0000_0000_0000;

/// The bits of the infinite number; those above it are no numbers.
pub const INFINITE: u64 = 0x7FF0_0000_0000_0000;

/// The bits of what is no number.
pub const NOT_A_NUMBER: u64 = 0x7FF8_0000_0000_0000;

/// One in the last place of the exponent. A mantissa has one bit more than stand below it.
pub const STEP: u64 = 0x10_0000_0000_0000;

/// Whether the sign bit of a double-precision number is set.
pub open spec fn float_negative(bits: u64) -> bool {
    bits >= SIGN
}

/// The whole mantissa of a double-precision number.
pub open spec fn float_mantissa(bits: u64) -> nat {
    let fraction = (bits % STEP) as nat;
    if (bits / STEP) % 2048 == 0 {
        fraction
    } else {
        fraction + STEP as nat
    }
}

/// The power of two by which the mantissa is multiplied, in units of 2^-1074.
pub open spec fn float_exponent(bits: u64) -> nat {
    let biased = ((bits / STEP) % 2048) as nat;
    if biased == 0 {
        0
    } else {
        (biased - 1) as nat
    }
}

/// Whether a double-precision number is below a positive one, both given by their bits.
///
/// Among numbers without a sign the order is that of their bits.
pub open spec fn float_below(bits: u64, limit: u64) -> bool {
    float_negative(bits) || bits < limit
}

/// How many of the smallest numbers make one.
pub open spec fn one() -> nat {
    pow2(1074)
}

impl Reading {
    /// The bits without the sign.
    pub open spec fn size(self) -> u64 {
        (self.bits % SIGN) as u64
    }

    /// Whether it is no number.
    pub open spec fn nan(self) -> bool {
        self.size() > INFINITE
    }

    /// Whether it is infinite.
    pub open spec fn infinite(self) -> bool {
        self.size() == INFINITE
    }

    /// The size, as a count of the smallest numbers. An infinite one has the count that would follow
    /// the largest finite one.
    pub open spec fn count(self) -> nat {
        float_mantissa(self.bits) * pow2(float_exponent(self.bits))
    }

    /// The quantity, as a count of the smallest numbers.
    pub open spec fn counted(self) -> int {
        if float_negative(self.bits) {
            -(self.count() as int)
        } else {
            self.count() as int
        }
    }

    /// Whether the quantity is below a whole number.
    pub open spec fn lt(self, n: int) -> bool {
        !self.nan() && self.counted() < n * one()
    }

    /// Whether the quantity is above a whole number.
    pub open spec fn gt(self, n: int) -> bool {
        !self.nan() && self.counted() > n * one()
    }

    /// Whether the quantity is above another one.
    pub open spec fn exceeds(self, other: Reading) -> bool {
        !self.nan() && !other.nan() && self.counted() > other.counted()
    }

    /// The quantity zero.
    pub fn zero() -> (r: Reading)
        ensures
            r.bits == 0,
    {
        Reading { bits: 0 }
    }

    /// Whether it is no number.
    pub fn is_nan(&self) -> (r: bool)
        ensures
            r == self.nan(),
    {
        self.bits % SIGN > INFINITE
    }

    fn is_infinite(&self) -> (r: bool)
        ensures
            r == self.infinite(),
    {
        self.bits % SIGN == INFINITE
    }

    fn is_negative(&self) -> (r: bool)
        ensures
            r == float_negative(self.bits),
    {
        self.bits >= SIGN
    }

    fn big_count(&self) -> (r: Big)
        ensures
            r@ == self.count(),
    {
        let biased: u64 = (self.bits / STEP) % 2048;
        let fraction: u64 = self.bits % STEP;
        if biased == 0 {
            shifted(Big::from_word(fraction), 0)
        } else {
            shifted(Big::from_word(fraction + STEP), (biased - 1) as u32)
        }
    }

    /// Whether the quantity is below a whole number.
    pub fn below(&self, n: i32) -> (r: bool)
        ensures
            r == self.lt(n as int),
    {
        if self.is_nan() {
            return false;
        }
        let size = self.big_count();
        let limit = whole_count(n);
        proof {
            lemma_one();
            lemma_whole_sign(n as int);
        }
        if self.is_negative() {
            n > 0 || limit.less(&size)
        } else {
            n > 0 && size.less(&limit)
        }
    }

    /// Whether the quantity is above a whole number.
    pub fn above(&self, n: i32) -> (r: bool)
        ensures
            r == self.gt(n as int),
    {
        if self.is_nan() {
            return false;
        }
        let size = self.big_count();
        let limit = whole_count(n);
        proof {
            lemma_one();
            lemma_whole_sign(n as int);
        }
        if self.is_negative() {
            n < 0 && size.less(&limit)
        } else {
            n < 0 || limit.less(&size)
        }
    }

    /// Whether the quantity is above another one.
    pub fn is_above(&self, other: &Reading) -> (r: bool)
        ensures
            r == self.exceeds(*other),
    {
        if self.is_nan() || other.is_nan() {
            return false;
        }
        let a = self.big_count();
        let b = other.big_count();
        let none = Big::from_word(0);
        match (self.is_negative(), other.is_negative()) {
            (false, false) => b.less(&a),
            (true, true) => a.less(&b),
            (false, true) => none.less(&a) || none.less(&b),
            (true, false) => false,
        }
    }
}

proof fn lemma_one()
    ensures
        one() > 0,
{
    vstd::arithmetic::power2::lemma_pow2_pos(1074);
}

proof fn lemma_whole_sign(n: int)
    ensures
        n > 0 ==> n * one() >= one(),
        n < 0 ==> n * one() <= -one(),
        n == 0 ==> n * one() == 0,
        n < 0 ==> n * one() == -((-n) * one()),
{
    let o = one() as int;
    lemma_one();
    assert(n > 0 ==> n * o >= o) by (nonlinear_arith)
        requires
            o > 0,
    ;
    assert(n < 0 ==> n * o <= -o) by (nonlinear_arith)
        requires
            o > 0,
    ;
    assert(n * o == -((-n) * o)) by (nonlinear_arith);
}

/// A number times a power of two.
fn shifted(n: Big, k: u32) -> (r: Big)
    ensures
        r@ == n@ * pow2(k as nat),
{
    let places: u32 = k / 32;
    let high = n.raised(places as usize);
    let mut r = high;
    let mut i: u32 = 32 * places;
    proof {
        crate::big::lemma_place_is_power(places as nat);
    }
    while i < k
        invariant
            i <= k,
            r@ == n@ * pow2(i as nat),
        decreases k - i,
    {
        proof {
            vstd::arithmetic::power2::lemma_pow2_unfold((i + 1) as nat);
            let start = n@ as int;
            let p = pow2(i as nat) as int;
            assert((start * p) * 2 == start * (2 * p)) by (nonlinear_arith);
        }
        r = r.times_plus(2, 0);
        i = i + 1;
    }
    r
}

/// The size of a whole number, as a count of the smallest numbers.
fn whole_count(n: i32) -> (r: Big)
    ensures
        r@ == (if n < 0 {
            -n as nat
        } else {
            n as nat
        }) * one(),
{
    let size: i64 = if n < 0 {
        -(n as i64)
    } else {
        n as i64
    };
    shifted(Big::from_word(size as u64), 1074)
}

// ---------------------------------------------------------------------------------------------
// Rounding
// ---------------------------------------------------------------------------------------------
/// The whole number nearest to a fraction; of two equally near, the even one.
pub open spec fn nearest(num: nat, den: nat) -> nat {
    let q = num / den;
    let twice = 2 * (num % den);
    if twice < den || (twice == den && q % 2 == 0) {
        q
    } else {
        q + 1
    }
}

fn round(num: &Big, den: &Big) -> (r: Big)
    requires
        den@ > 0,
    ensures
        r@ == nearest(num@, den@),
{
    let (q, rest) = num.divided_by(den);
    let twice = rest.times_plus(2, 0);
    if twice.less(den) {
        return q;
    }
    if den.less(&twice) {
        return q.times_plus(1, 1);
    }
    let (_, odd) = q.divided_by(&Big::from_word(2));
    if odd.word() == 0 {
        q
    } else {
        q.times_plus(1, 1)
    }
}

/// The bits of the double-precision number nearest to a fraction of the smallest one, without a
/// bound on the exponent.
///
/// A fraction below 2^53 is rounded to a whole count. A larger one is rounded to a whole count of
/// the double, the fourfold and so on, until the count has 53 bits; with each of these steps the
/// exponent grows by one.
pub open spec fn unbounded_bits(num: nat, den: nat) -> nat
    decreases
            if num >= den * 0x20_0000_0000_0000 && den > 0 {
                num - den + 1
            } else {
                0
            },
{
    if den == 0 || num < den * 0x20_0000_0000_0000 {
        nearest(num, den)
    } else {
        STEP as nat + unbounded_bits(num, 2 * den)
    }
}

/// The bits of the double-precision number nearest to a fraction of the smallest one; beyond the
/// largest finite one it is infinite.
pub open spec fn nearest_bits(num: nat, den: nat) -> u64 {
    if unbounded_bits(num, den) >= INFINITE {
        INFINITE
    } else {
        unbounded_bits(num, den) as u64
    }
}

/// So many steps at once: as long as the fraction is too large, each adds one to the exponent.
proof fn lemma_steps(num: nat, den: nat, j: nat)
    requires
        den > 0,
        j > 0 ==> num >= den * pow2((j - 1) as nat) * 0x20_0000_0000_0000,
    ensures
        unbounded_bits(num, den) == j * STEP + unbounded_bits(num, den * pow2(j)),
        den * pow2(j) > 0,
    decreases j,
{
    vstd::arithmetic::power2::lemma2_to64();
    vstd::arithmetic::power2::lemma_pow2_pos(j);
    let d = den as int;
    let p = pow2(j) as int;
    assert(d * p > 0) by (nonlinear_arith)
        requires
            d > 0,
            p > 0,
    ;
    if j == 0 {
        assert(den * 1 == den);
    } else {
        let h = pow2((j - 1) as nat) as int;
        vstd::arithmetic::power2::lemma_pow2_unfold(j);
        vstd::arithmetic::power2::lemma_pow2_pos((j - 1) as nat);
        if j > 1 {
            let g = pow2((j - 2) as nat) as int;
            vstd::arithmetic::power2::lemma_pow2_unfold((j - 1) as nat);
            vstd::arithmetic::power2::lemma_pow2_pos((j - 2) as nat);
            assert(d * g * 0x20_0000_0000_0000 <= d * h * 0x20_0000_0000_0000) by (nonlinear_arith)
                requires
                    d > 0,
                    g > 0,
                    h == 2 * g,
            ;
        }
        lemma_steps(num, den, (j - 1) as nat);
        assert(d * p == 2 * (d * h)) by (nonlinear_arith)
            requires
                p == 2 * h,
        ;
        assert((j - 1) * STEP + STEP == j * STEP) by (nonlinear_arith);
    }
}

fn rounded_bits(num: &Big, den: Big) -> (r: u64)
    requires
        den@ > 0,
    ensures
        r == nearest_bits(num@, den@),
        r <= INFINITE,
{
    let ghost first = den@;
    let mut unit = den;
    let mut top = shifted(unit.copy(), 53);
    let mut steps: u64 = 0;
    proof {
        vstd::arithmetic::power2::lemma2_to64();
        vstd::arithmetic::power2::lemma2_to64_rest();
        crate::big::lemma_place_is_power(1);
    }
    let mut far = top.raised(1);
    while steps <= 2000 && !num.less(&far)
        invariant
            unit@ > 0,
            pow2(32) == 0x1_0000_0000,
            pow2(31) == 0x8000_0000,
            crate::big::place(1) == 0x1_0000_0000,
            top@ == unit@ * 0x20_0000_0000_0000,
            far@ == top@ * 0x1_0000_0000,
            steps <= 2032,
            unbounded_bits(num@, first) == steps * STEP + unbounded_bits(num@, unit@),
        decreases 2033 - steps,
    {
        proof {
            let u = unit@ as int;
            assert(u * 0x8000_0000 * 0x20_0000_0000_0000 <= u * 0x20_0000_0000_0000
                * 0x1_0000_0000) by (nonlinear_arith)
                requires
                    u > 0,
            ;
            lemma_steps(num@, unit@, 32);
            assert((u * 0x20_0000_0000_0000) * 0x1_0000_0000 == (u * 0x1_0000_0000)
                * 0x20_0000_0000_0000) by (nonlinear_arith);
        }
        unit = unit.raised(1);
        top = far.copy();
        far = far.raised(1);
        steps = steps + 32;
    }
    while !num.less(&top)
        invariant
            unit@ > 0,
            first == den@,
            top@ == unit@ * 0x20_0000_0000_0000,
            steps <= 2046,
            unbounded_bits(num@, first) == steps * STEP + unbounded_bits(num@, unit@),
        decreases 2047 - steps,
    {
        if steps == 2046 {
            assert(unbounded_bits(num@, unit@) >= STEP);
            return INFINITE;
        }
        unit = unit.times_plus(2, 0);
        top = top.times_plus(2, 0);
        steps = steps + 1;
    }
    let m = round(num, &unit);
    proof {
        lemma_nearest_bound(num@, unit@, 0x20_0000_0000_0000);
    }
    let mantissa: u64 = m.word();
    let bits: u64 = steps * STEP + mantissa;
    if bits >= INFINITE {
        INFINITE
    } else {
        bits
    }
}

/// What is below a whole number does not round beyond it.
proof fn lemma_nearest_bound(num: nat, den: nat, limit: nat)
    requires
        den > 0,
        num < den * limit,
    ensures
        nearest(num, den) <= limit,
{
    let q = num / den;
    vstd::arithmetic::div_mod::lemma_fundamental_div_mod(num as int, den as int);
    assert(q < limit) by (nonlinear_arith)
        requires
            num < den * limit,
            num >= den * q,
            den > 0,
    ;
}

/// Rounding is off by at most one half.
pub proof fn law_rounding_is_near(num: nat, den: nat)
    requires
        den > 0,
    ensures
        2 * num - den <= 2 * den * nearest(num, den) <= 2 * num + den,
{
    let q = num / den;
    assert(num == den * q + num % den) by {
        vstd::arithmetic::div_mod::lemma_fundamental_div_mod(num as int, den as int);
    }
    assert(2 * den * (q + 1) == 2 * (den * q) + 2 * den) by (nonlinear_arith);
    assert(2 * den * q == 2 * (den * q)) by (nonlinear_arith);
}

// ---------------------------------------------------------------------------------------------
// Arithmetic
// ---------------------------------------------------------------------------------------------
/// The number with this sign and these bits without a sign.
pub open spec fn with_sign(negative: bool, size: u64) -> Reading {
    Reading {
        bits: if negative {
            (SIGN + size) as u64
        } else {
            size
        },
    }
}

fn signed(negative: bool, size: u64) -> (r: Reading)
    requires
        size <= INFINITE,
    ensures
        r == with_sign(negative, size),
{
    Reading {
        bits: if negative {
            SIGN + size
        } else {
            size
        },
    }
}

/// The difference of two quantities.
pub open spec fn difference(a: Reading, b: Reading) -> Reading {
    let d = a.counted() - b.counted();
    if a.nan() || b.nan() || (a.infinite() && a.bits == b.bits) {
        Reading { bits: NOT_A_NUMBER }
    } else if a.infinite() {
        a
    } else if b.infinite() {
        with_sign(!float_negative(b.bits), INFINITE)
    } else if d == 0 {
        with_sign(float_negative(a.bits) && !float_negative(b.bits), 0)
    } else if d < 0 {
        with_sign(true, nearest_bits((-d) as nat, 1))
    } else {
        with_sign(false, nearest_bits(d as nat, 1))
    }
}

/// The quotient of two quantities.
pub open spec fn quotient(a: Reading, b: Reading) -> Reading {
    let negative = float_negative(a.bits) != float_negative(b.bits);
    if a.nan() || b.nan() || (a.infinite() && b.infinite()) || (a.size() == 0 && b.size() == 0) {
        Reading { bits: NOT_A_NUMBER }
    } else if a.infinite() || b.size() == 0 {
        with_sign(negative, INFINITE)
    } else if b.infinite() {
        with_sign(negative, 0)
    } else {
        with_sign(negative, nearest_bits(a.count() * one(), b.count()))
    }
}

/// A quantity taken so many times.
pub open spec fn multiple(a: Reading, n: u32) -> Reading {
    if a.nan() || a.infinite() {
        a
    } else {
        with_sign(float_negative(a.bits), nearest_bits(a.count() * n as nat, 1))
    }
}

/// The double-precision number nearest to a whole one.
pub open spec fn whole(n: int) -> Reading {
    if n < 0 {
        with_sign(true, nearest_bits((-n) as nat * one(), 1))
    } else {
        with_sign(false, nearest_bits(n as nat * one(), 1))
    }
}

impl Reading {
    /// The difference of two quantities.
    pub fn minus(&self, other: &Reading) -> (r: Reading)
        ensures
            r == difference(*self, *other),
    {
        if self.is_nan() || other.is_nan() || (self.is_infinite() && self.bits == other.bits) {
            return Reading { bits: NOT_A_NUMBER };
        }
        if self.is_infinite() {
            return *self;
        }
        if other.is_infinite() {
            return signed(!other.is_negative(), INFINITE);
        }
        let a = self.big_count();
        let b = other.big_count();
        if self.is_negative() != other.is_negative() {
            let sum = a.plus(&b);
            proof {
                lemma_nothing_is_zero();
            }
            return signed(self.is_negative(), rounded_bits(&sum, Big::from_word(1)));
        }
        if a.less(&b) {
            return signed(
                !self.is_negative(),
                rounded_bits(&b.minus(&a), Big::from_word(1)),
            );
        }
        if b.less(&a) {
            return signed(self.is_negative(), rounded_bits(&a.minus(&b), Big::from_word(1)));
        }
        Reading { bits: 0 }
    }

    /// The quotient of two quantities.
    pub fn over(&self, other: &Reading) -> (r: Reading)
        ensures
            r == quotient(*self, *other),
    {
        let negative: bool = self.is_negative() != other.is_negative();
        let nothing: bool = self.bits % SIGN == 0;
        let by_nothing: bool = other.bits % SIGN == 0;
        if self.is_nan() || other.is_nan() || (self.is_infinite() && other.is_infinite()) || (
        nothing && by_nothing) {
            return Reading { bits: NOT_A_NUMBER };
        }
        if self.is_infinite() || by_nothing {
            return signed(negative, INFINITE);
        }
        if other.is_infinite() {
            return signed(negative, 0);
        }
        proof {
            lemma_positive(*other);
        }
        let num = shifted(self.big_count(), 1074);
        signed(negative, rounded_bits(&num, other.big_count()))
    }

    /// A quantity taken so many times.
    pub fn times(&self, n: u32) -> (r: Reading)
        ensures
            r == multiple(*self, n),
    {
        if self.is_nan() || self.is_infinite() {
            return *self;
        }
        let num = self.big_count().times_plus(n, 0);
        signed(self.is_negative(), rounded_bits(&num, Big::from_word(1)))
    }
}

/// The double-precision number nearest to a whole one.
pub fn reading_of_int(n: i64) -> (r: Reading)
    ensures
        r == whole(n as int),
{
    if n < 0 {
        let size: u64 = (-(n as i128)) as u64;
        Reading { bits: SIGN + reading_of_word(size).bits }
    } else {
        reading_of_word(n as u64)
    }
}

/// The double-precision number nearest to a whole one that has no sign.
pub fn reading_of_word(n: u64) -> (r: Reading)
    ensures
        r == whole(n as int),
        r.bits <= INFINITE,
{
    let count = shifted(Big::from_word(n), 1074);
    signed(false, rounded_bits(&count, Big::from_word(1)))
}

proof fn lemma_nothing_is_zero()
    ensures
        nearest_bits(0, 1) == 0,
{
    assert(0nat / 1 == 0 && 0nat % 1 == 0);
}

/// A number that is not zero counts something.
proof fn lemma_positive(r: Reading)
    requires
        r.size() != 0,
    ensures
        r.count() > 0,
{
    let m = float_mantissa(r.bits);
    let p = pow2(float_exponent(r.bits));
    vstd::arithmetic::power2::lemma_pow2_pos(float_exponent(r.bits));
    assert(m > 0);
    assert(m * p > 0) by (nonlinear_arith)
        requires
            m > 0,
            p > 0,
    ;
}

// ---------------------------------------------------------------------------------------------
// Printing
// ---------------------------------------------------------------------------------------------
/// A fraction rounded to one place after the point.
pub open spec fn tenths(num: nat, den: nat) -> Seq<char> {
    let t = nearest(10 * num, den);
    text::decimal(t / 10) + seq!['.', text::digit((t % 10) as int)]
}

/// A quantity with a sign in front of a negative one, and these digits.
pub open spec fn signed_text(r: Reading, digits: Seq<char>) -> Seq<char> {
    if r.nan() {
        "NaN"@
    } else {
        let size = if r.infinite() {
            "inf"@
        } else {
            digits
        };
        if float_negative(r.bits) {
            "-"@ + size
        } else {
            size
        }
    }
}

/// A quantity rounded to a whole number.
pub open spec fn no_places(r: Reading) -> Seq<char> {
    signed_text(r, text::decimal(nearest(r.count(), one())))
}

/// A quantity rounded to one place after the point.
pub open spec fn one_place(r: Reading) -> Seq<char> {
    signed_text(r, tenths(r.count(), one()))
}

impl Reading {
    fn signed_text(&self, digits: String) -> (r: String)
        ensures
            r@ == signed_text(*self, digits@),
    {
        if self.is_nan() {
            return "NaN".to_owned();
        }
        let size = if self.is_infinite() {
            "inf".to_owned()
        } else {
            digits
        };
        if self.is_negative() {
            text::join2("-", size.as_str())
        } else {
            size
        }
    }

    /// The quantity rounded to a whole number, as text.
    pub fn with_no_places(&self) -> (r: String)
        ensures
            r@ == no_places(*self),
    {
        proof {
            lemma_one();
            assert(1 * one() == one());
        }
        let unit = whole_count(1);
        let digits = round(&self.big_count(), &unit).decimal();
        self.signed_text(digits)
    }

    /// The quantity rounded to one place after the point, as text.
    pub fn with_one_place(&self) -> (r: String)
        ensures
            r@ == one_place(*self),
    {
        proof {
            lemma_one();
            assert(1 * one() == one());
        }
        let unit = whole_count(1);
        let t = round(&self.big_count().times_plus(10, 0), &unit);
        let (q, rest) = t.divided_by(&Big::from_word(10));
        let mut digits = q.decimal();
        digits.push('.');
        let d: u64 = rest.word();
        digits.push((d as u8 + 48) as char);
        assert(digits@ =~= tenths(self.count(), one()));
        self.signed_text(digits)
    }
}

// ---------------------------------------------------------------------------------------------
// Laws
// ---------------------------------------------------------------------------------------------
/// A finite double-precision number is nearest to itself: rounding changes none.
pub proof fn law_rounding_keeps_doubles(r: Reading)
    requires
        !r.nan(),
    ensures
        nearest_bits(r.count(), 1) == r.size(),
{
    let k = float_exponent(r.bits);
    let m = float_mantissa(r.bits);
    vstd::arithmetic::power2::lemma2_to64();
    assert(k > 0 ==> m >= STEP);
    assert(m < 0x20_0000_0000_0000);
    assert(r.size() as nat == k * STEP + m);
    lemma_rounding_keeps(m, k, 1);
}

proof fn lemma_rounding_keeps(m: nat, k: nat, den: nat)
    requires
        den > 0,
        m < 0x20_0000_0000_0000,
        k > 0 ==> m >= STEP,
    ensures
        unbounded_bits((m * pow2(k)) * den, den) == k * STEP + m,
    decreases k,
{
    let p = pow2(k) as int;
    let num = (m * pow2(k)) * den;
    if k == 0 {
        vstd::arithmetic::power2::lemma2_to64();
        assert(num == m * den) by (nonlinear_arith)
            requires
                num == (m * p) * den,
                p == 1,
        ;
        assert(m * den < den * 0x20_0000_0000_0000) by (nonlinear_arith)
            requires
                m < 0x20_0000_0000_0000,
                den > 0,
        ;
        vstd::arithmetic::div_mod::lemma_div_multiples_vanish(m as int, den as int);
        vstd::arithmetic::div_mod::lemma_mod_multiples_basic(m as int, den as int);
        assert(den * m == m * den) by (nonlinear_arith);
    } else {
        vstd::arithmetic::power2::lemma_pow2_unfold(k);
        vstd::arithmetic::power2::lemma_pow2_pos((k - 1) as nat);
        let h = pow2((k - 1) as nat) as int;
        assert(num >= den * 0x20_0000_0000_0000) by (nonlinear_arith)
            requires
                num == (m * p) * den,
                p == 2 * h,
                h >= 1,
                m >= 0x10_0000_0000_0000,
                den > 0,
        ;
        assert(num == (m * h) * (2 * den)) by (nonlinear_arith)
            requires
                num == (m * p) * den,
                p == 2 * h,
        ;
        lemma_rounding_keeps(m, (k - 1) as nat, 2 * den);
        assert((k - 1) * STEP + STEP == k * STEP) by (nonlinear_arith);
    }
}


/// A double-precision number that is exactly a fraction is the nearest to it.
proof fn lemma_exact_fraction(r: Reading, num: nat, den: nat)
    requires
        !r.nan(),
        den > 0,
        num == r.count() * den,
    ensures
        nearest_bits(num, den) == r.size(),
{
    let k = float_exponent(r.bits);
    let m = float_mantissa(r.bits);
    vstd::arithmetic::power2::lemma2_to64();
    assert(k > 0 ==> m >= STEP);
    assert(m < 0x20_0000_0000_0000);
    assert(r.size() as nat == k * STEP + m);
    lemma_rounding_keeps(m, k, den);
}

/// A whole number that a double-precision number holds exactly is that number.
pub proof fn law_whole_numbers_are_exact(n: int, r: Reading)
    requires
        !r.nan(),
        n > 0 ==> !float_negative(r.bits) && r.count() == n * one(),
        n < 0 ==> float_negative(r.bits) && r.count() == -n * one(),
        n == 0 ==> r.bits == 0,
    ensures
        whole(n) == r,
{
    law_rounding_keeps_doubles(r);
    if n == 0 {
        vstd::arithmetic::power2::lemma2_to64();
        assert(r.count() == 0) by (nonlinear_arith)
            requires
                r.count() == float_mantissa(r.bits) * pow2(float_exponent(r.bits)),
                float_mantissa(r.bits) == 0,
        ;
        assert(0 * one() == 0);
    }
}

/// A difference that a double-precision number holds exactly is that number: nothing is rounded where
/// nothing has to be.
pub proof fn law_exact_differences_are_kept(a: Reading, b: Reading, r: Reading)
    requires
        !a.nan() && !a.infinite(),
        !b.nan() && !b.infinite(),
        !r.nan(),
        r.counted() == a.counted() - b.counted(),
        r.counted() != 0,
    ensures
        difference(a, b) == r,
{
    law_rounding_keeps_doubles(r);
}

/// A quotient that a double-precision number holds exactly is that number.
pub proof fn law_exact_quotients_are_kept(a: Reading, b: Reading, r: Reading)
    requires
        !a.nan() && !a.infinite(),
        !b.nan() && !b.infinite() && b.count() > 0 && b.size() > 0,
        !r.nan(),
        a.count() * one() == r.count() * b.count(),
        float_negative(r.bits) <==> float_negative(a.bits) != float_negative(b.bits),
    ensures
        quotient(a, b) == r,
{
    lemma_exact_fraction(r, a.count() * one(), b.count());
}

/// A multiple that a double-precision number holds exactly is that number.
pub proof fn law_exact_multiples_are_kept(a: Reading, n: u32, r: Reading)
    requires
        !a.nan() && !a.infinite(),
        !r.nan(),
        r.count() == a.count() * n as nat,
        float_negative(r.bits) <==> float_negative(a.bits),
    ensures
        multiple(a, n) == r,
{
    law_rounding_keeps_doubles(r);
}

/// A quantity is written with its digits: rounded to the nearest whole number, or to the nearest tenth
/// with a point before the last digit, and with a sign where it is negative.
pub proof fn law_quantities_are_written_in_digits(r: Reading)
    requires
        !r.nan(),
        !r.infinite(),
    ensures
        ({
            let digits = if float_negative(r.bits) {
                no_places(r).skip(1)
            } else {
                no_places(r)
            };
            let places = if float_negative(r.bits) {
                one_place(r).skip(1)
            } else {
                one_place(r)
            };
            let whole_part = nearest(r.count(), one());
            let tenth = nearest(10 * r.count(), one());
            &&& float_negative(r.bits) ==> no_places(r)[0] == '-' && one_place(r)[0] == '-'
            &&& digits == text::decimal(whole_part)
            &&& 2 * r.count() - one() <= 2 * one() * whole_part <= 2 * r.count() + one()
            &&& places == text::decimal(tenth / 10) + seq!['.', text::digit((tenth % 10) as int)]
            &&& 20 * r.count() - one() <= 2 * one() * tenth <= 20 * r.count() + one()
        }),
{
    lemma_one();
    reveal_strlit("-");
    let a = text::decimal(nearest(r.count(), one()));
    let b = tenths(r.count(), one());
    assert(("-"@ + a).skip(1) =~= a);
    assert(("-"@ + b).skip(1) =~= b);
    law_rounding_is_near(r.count(), one());
    law_rounding_is_near(10 * r.count(), one());
}

/// What is no number is neither below nor above anything, and of two quantities at most one is above
/// the other.
pub proof fn law_the_order_is_sound(a: Reading, b: Reading, n: int, m: int)
    ensures
        a.nan() ==> !a.lt(n) && !a.gt(n) && !a.exceeds(b) && !b.exceeds(a),
        !(a.lt(n) && a.gt(n)),
        !(a.exceeds(b) && b.exceeds(a)),
        a.lt(n) && n <= m ==> a.lt(m),
        a.gt(n) && m <= n ==> a.gt(m),
        a.gt(n) && b.lt(n) ==> a.exceeds(b),
{
    if n <= m {
        assert(n * one() <= m * one()) by (nonlinear_arith)
            requires
                n <= m,
                one() >= 0,
        ;
    }
    if m <= n {
        assert(m * one() <= n * one()) by (nonlinear_arith)
            requires
                m <= n,
                one() >= 0,
        ;
    }
}

} // verus!
