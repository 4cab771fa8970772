//! Fixed-point decimal numbers: the magnitudes of all dimensional values.

use core::cmp::Ordering;
use vstd::prelude::*;

verus! {

/// How many raw units make one whole: a number carries six decimal places.
pub const SCALE: i64 = 1_000_000;

/// A decimal number, held as a count of millionths.
///
/// The view of a number is that count. Arithmetic on numbers is exact where
/// the result is representable and saturates at the ends of the range.
#[derive(Clone, Copy, Debug, PartialEq, Eq, Hash)]
pub struct Number {
    pub micros: i64,
}

impl View for Number {
    type V = int;

    open spec fn view(&self) -> int {
        self.micros as int
    }
}

/// The nearest representable count to `x`.
pub open spec fn clamp(x: int) -> int {
    if x < i64::MIN {
        i64::MIN as int
    } else if x > i64::MAX {
        i64::MAX as int
    } else {
        x
    }
}

/// The quotient of a non-negative `n` by a positive `d`, rounded to nearest,
/// a tie going up.
pub open spec fn round_div_nat(n: int, d: int) -> int {
    n / d + if 2 * (n % d) >= d { 1int } else { 0int }
}

/// The quotient `n / d` for a positive `d`, rounded to the nearest integer,
/// a tie going away from zero.
pub open spec fn round_div(n: int, d: int) -> int {
    if n >= 0 {
        round_div_nat(n, d)
    } else {
        -round_div_nat(-n, d)
    }
}

/// How the count `a` stands to the count `b`.
pub open spec fn ordering_of(a: int, b: int) -> Ordering {
    if a < b {
        Ordering::Less
    } else if a == b {
        Ordering::Equal
    } else {
        Ordering::Greater
    }
}

/// The decimal digit `d` as a character.
pub open spec fn digit_char(d: int) -> char {
    if d == 0 {
        '0'
    } else if d == 1 {
        '1'
    } else if d == 2 {
        '2'
    } else if d == 3 {
        '3'
    } else if d == 4 {
        '4'
    } else if d == 5 {
        '5'
    } else if d == 6 {
        '6'
    } else if d == 7 {
        '7'
    } else if d == 8 {
        '8'
    } else {
        '9'
    }
}

/// The decimal digits of `n`, most significant first, without leading zeros.
pub open spec fn nat_digits(n: nat) -> Seq<char>
    decreases n,
{
    if n < 10 {
        seq![digit_char(n as int)]
    } else {
        nat_digits(n / 10).push(digit_char((n % 10) as int))
    }
}

/// The digits after the decimal point of the fraction `f / SCALE`, where
/// `width` places are still to be written: trailing zeros are left out.
pub open spec fn fraction_digits(f: nat, width: nat) -> Seq<char>
    decreases width,
{
    if width == 0 || f == 0 {
        Seq::empty()
    } else {
        seq![digit_char((f / 100_000) as int)] + fraction_digits(
            ((f % 100_000) * 10) as nat,
            (width - 1) as nat,
        )
    }
}

/// The absolute value of `x`.
pub open spec fn magnitude(x: int) -> nat {
    if x < 0 {
        (-x) as nat
    } else {
        x as nat
    }
}

/// The shortest CSS text of the number of `m` millionths: a bare `0` for
/// zero; otherwise a `-` if negative, the integer digits unless the integer
/// part is zero, and a point with the fraction digits unless the fraction is
/// zero.
pub open spec fn number_text(m: int) -> Seq<char> {
    if m == 0 {
        seq!['0']
    } else {
        let a = magnitude(m);
        let sign = if m < 0 { seq!['-'] } else { Seq::<char>::empty() };
        let whole = if a / 1_000_000 > 0 { nat_digits(a / 1_000_000) } else { Seq::<char>::empty() };
        let part = if a % 1_000_000 > 0 {
            seq!['.'] + fraction_digits(a % 1_000_000, 6)
        } else {
            Seq::<char>::empty()
        };
        sign + whole + part
    }
}

/// The value of the decimal digit `c`.
pub open spec fn digit_value(c: char) -> int {
    c as int - '0' as int
}

/// Whether `c` is a decimal digit.
pub open spec fn is_digit(c: char) -> bool {
    '0' <= c <= '9'
}

/// The number that the digits `s` write, the most significant first.
pub open spec fn whole_value(s: Seq<char>) -> int
    decreases s.len(),
{
    if s.len() == 0 {
        0
    } else {
        whole_value(s.drop_last()) * 10 + digit_value(s.last())
    }
}

/// The count of millionths that the digits `s` write after a decimal point:
/// the first is worth a tenth, each further one a tenth of the one before.
pub open spec fn fraction_value(s: Seq<char>) -> int
    decreases s.len(),
{
    if s.len() == 0 {
        0
    } else {
        digit_value(s[0]) * 100_000 + fraction_value(s.drop_first()) / 10
    }
}

/// Where the first decimal point stands in `s`; the length of `s` if it has
/// none.
pub open spec fn first_point(s: Seq<char>) -> int
    decreases s.len(),
{
    if s.len() == 0 || s[0] == '.' {
        0
    } else {
        1 + first_point(s.drop_first())
    }
}

/// The count of millionths that the text `s` writes without a sign: digits,
/// and optionally a point with digits after it.
pub open spec fn unsigned_value(s: Seq<char>) -> int {
    let point = first_point(s);
    let whole = s.subrange(0, point);
    let part = if point < s.len() {
        s.subrange(point + 1, s.len() as int)
    } else {
        Seq::<char>::empty()
    };
    whole_value(whole) * 1_000_000 + fraction_value(part)
}

/// The count of millionths that the text `s` writes in decimal notation: an
/// optional `-`, digits, and optionally a point with digits after it.
pub open spec fn decimal_value(s: Seq<char>) -> int {
    if s.len() > 0 && s[0] == '-' {
        -unsigned_value(s.drop_first())
    } else {
        unsigned_value(s)
    }
}

/// What one of the last `width` of six decimal places is worth, in
/// millionths of the first: a fraction with `width` places still to write
/// is a multiple of it.
pub open spec fn place(width: nat) -> int {
    if width >= 6 {
        1
    } else if width == 5 {
        10
    } else if width == 4 {
        100
    } else if width == 3 {
        1_000
    } else if width == 2 {
        10_000
    } else if width == 1 {
        100_000
    } else {
        1_000_000
    }
}

/// The digits of a number are digits, there is at least one, and they write
/// that number.
pub proof fn lemma_nat_digits(n: nat)
    ensures
        nat_digits(n).len() >= 1,
        forall|i: int| 0 <= i < nat_digits(n).len() ==> is_digit(#[trigger] nat_digits(n)[i]),
        whole_value(nat_digits(n)) == n,
    decreases n,
{
    if n < 10 {
        let s = nat_digits(n);
        assert(s.drop_last() =~= Seq::<char>::empty());
        assert(whole_value(s.drop_last()) == 0);
        assert(s.last() == digit_char(n as int));
    } else {
        lemma_nat_digits(n / 10);
        let s = nat_digits(n);
        assert(s.drop_last() =~= nat_digits(n / 10));
        assert(s.last() == digit_char((n % 10) as int));
    }
}

/// The digits after the point are digits, and write the fraction they were
/// made from.
pub proof fn lemma_fraction_digits(f: nat, width: nat)
    requires
        f < 1_000_000,
        width <= 6,
        f % (place(width) as nat) == 0,
    ensures
        forall|i: int|
            0 <= i < fraction_digits(f, width).len() ==> is_digit(
                #[trigger] fraction_digits(f, width)[i],
            ),
        fraction_value(fraction_digits(f, width)) == f,
    decreases width,
{
    if width == 0 || f == 0 {
        if width == 0 {
            assert(f % 1_000_000 == 0);
        }
        assert(f == 0);
        assert(fraction_digits(f, width) =~= Seq::<char>::empty());
    } else {
        let rest = ((f % 100_000) * 10) as nat;
        let first = f / 100_000;
        assert(0 <= first <= 9);
        assert(digit_value(digit_char(first as int)) == first);
        assert(rest % (place((width - 1) as nat) as nat) == 0) by {
            if width == 6 {
                assert(rest % 10 == 0);
            } else if width == 5 {
                assert(f % 10 == 0);
                assert(rest % 100 == 0);
            } else if width == 4 {
                assert(f % 100 == 0);
                assert(rest % 1_000 == 0);
            } else if width == 3 {
                assert(f % 1_000 == 0);
                assert(rest % 10_000 == 0);
            } else if width == 2 {
                assert(f % 10_000 == 0);
                assert(rest % 100_000 == 0);
            } else {
                assert(f % 100_000 == 0);
                assert(rest == 0);
            }
        }
        lemma_fraction_digits(rest, (width - 1) as nat);
        let s = fraction_digits(f, width);
        let tail = fraction_digits(rest, (width - 1) as nat);
        assert(s =~= seq![digit_char((f / 100_000) as int)] + tail);
        assert(s.drop_first() =~= tail);
        assert(s[0] == digit_char((f / 100_000) as int));
        assert forall|i: int| 0 <= i < s.len() implies is_digit(#[trigger] s[i]) by {
            if i > 0 {
                assert(s[i] == tail[i - 1]);
            }
        }
        assert(fraction_value(tail) == rest);
        assert(rest / 10 == f % 100_000);
        assert(fraction_value(s) == first * 100_000 + fraction_value(tail) / 10);
    }
}

/// The first point of a text that begins with digits stands after them, or
/// further on.
pub proof fn lemma_first_point_after_digits(digits: Seq<char>, rest: Seq<char>)
    requires
        forall|i: int| 0 <= i < digits.len() ==> is_digit(#[trigger] digits[i]),
    ensures
        first_point(digits + rest) == digits.len() + first_point(rest),
    decreases digits.len(),
{
    if digits.len() == 0 {
        assert(digits + rest =~= rest);
    } else {
        let s = digits + rest;
        assert(is_digit(digits[0]));
        assert(s[0] == digits[0]);
        assert(s.drop_first() =~= digits.drop_first() + rest);
        lemma_first_point_after_digits(digits.drop_first(), rest);
    }
}

/// The digits of a whole part and a fraction, with a point between them
/// where there is a fraction, write the two, and do not begin with a `-`.
pub proof fn lemma_unsigned_text(ip: nat, fp: nat)
    requires
        fp < 1_000_000,
        ip > 0 || fp > 0,
    ensures
        ({
            let whole = if ip > 0 { nat_digits(ip) } else { Seq::<char>::empty() };
            let part = if fp > 0 {
                seq!['.'] + fraction_digits(fp, 6)
            } else {
                Seq::<char>::empty()
            };
            &&& (whole + part).len() > 0
            &&& (whole + part)[0] != '-'
            &&& unsigned_value(whole + part) == ip * 1_000_000 + fp
        }),
{
    let whole = if ip > 0 { nat_digits(ip) } else { Seq::<char>::empty() };
    let digits = fraction_digits(fp, 6);
    let part = if fp > 0 { seq!['.'] + digits } else { Seq::<char>::empty() };
    let body = whole + part;
    lemma_nat_digits(ip);
    lemma_fraction_digits(fp, 6);
    lemma_first_point_after_digits(whole, part);
    assert(first_point(part) == 0);
    assert(first_point(body) == whole.len());
    assert(whole_value(whole) == ip);
    assert(body.subrange(0, whole.len() as int) =~= whole);
    if ip > 0 {
        assert(is_digit(whole[0]));
        assert(body[0] == whole[0]);
    } else {
        assert(body[0] == '.');
    }
    if fp > 0 {
        assert(body.subrange(whole.len() as int + 1, body.len() as int) =~= digits);
    } else {
        assert(body =~= whole);
        assert(fraction_value(Seq::<char>::empty()) == 0);
    }
}

/// The shortest text of a number writes that number: nothing is lost in
/// writing it.
pub proof fn lemma_number_text_is_lossless(m: int)
    ensures
        decimal_value(number_text(m)) == m,
{
    if m == 0 {
        let s = seq!['0'];
        assert(s.drop_first() =~= Seq::<char>::empty());
        assert(first_point(s) == 1) by {
            assert(first_point(s.drop_first()) == 0);
        }
        assert(s.subrange(0, 1) =~= s);
        assert(s.drop_last() =~= Seq::<char>::empty());
        assert(whole_value(s) == 0) by {
            assert(whole_value(s.drop_last()) == 0);
        }
        assert(fraction_value(Seq::<char>::empty()) == 0);
    } else {
        let a = magnitude(m);
        let ip = a / 1_000_000;
        let fp = a % 1_000_000;
        let whole = if ip > 0 { nat_digits(ip) } else { Seq::<char>::empty() };
        let part = if fp > 0 {
            seq!['.'] + fraction_digits(fp, 6)
        } else {
            Seq::<char>::empty()
        };
        let body = whole + part;
        let s = number_text(m);
        lemma_unsigned_text(ip, fp);
        if m < 0 {
            assert(s =~= seq!['-'] + body);
            assert(s[0] == '-');
            assert(s.drop_first() =~= body);
        } else {
            assert(s =~= body);
        }
    }
}

fn digit_str(d: u64) -> (s: &'static str)
    requires
        d < 10,
    ensures
        s@ == seq![digit_char(d as int)],
{
    proof {
        reveal_strlit("0");
        reveal_strlit("1");
        reveal_strlit("2");
        reveal_strlit("3");
        reveal_strlit("4");
        reveal_strlit("5");
        reveal_strlit("6");
        reveal_strlit("7");
        reveal_strlit("8");
        reveal_strlit("9");
    }
    let s = if d == 0 {
        "0"
    } else if d == 1 {
        "1"
    } else if d == 2 {
        "2"
    } else if d == 3 {
        "3"
    } else if d == 4 {
        "4"
    } else if d == 5 {
        "5"
    } else if d == 6 {
        "6"
    } else if d == 7 {
        "7"
    } else if d == 8 {
        "8"
    } else {
        "9"
    };
    assert(s@ =~= seq![digit_char(d as int)]);
    s
}

fn append_nat(dest: &mut String, n: u64)
    ensures
        final(dest)@ == old(dest)@ + nat_digits(n as nat),
    decreases n,
{
    if n >= 10 {
        append_nat(dest, n / 10);
    }
    dest.append(digit_str(n % 10));
    assert(dest@ =~= old(dest)@ + nat_digits(n as nat));
}

fn append_fraction(dest: &mut String, f: u64, width: u64)
    requires
        f < 1_000_000,
    ensures
        final(dest)@ == old(dest)@ + fraction_digits(f as nat, width as nat),
    decreases width,
{
    if width == 0 || f == 0 {
        assert(dest@ =~= old(dest)@ + fraction_digits(f as nat, width as nat));
    } else {
        dest.append(digit_str(f / 100_000));
        append_fraction(dest, (f % 100_000) * 10, width - 1);
        assert(dest@ =~= old(dest)@ + fraction_digits(f as nat, width as nat));
    }
}

impl Number {
    /// The sum of two numbers as a number: exact, or the end of the range
    /// that the exact sum lies beyond.
    pub open spec fn add_spec(self, other: Number) -> Number {
        Number { micros: clamp(self@ + other@) as i64 }
    }

    /// The negation as a number.
    pub open spec fn neg_spec(self) -> Number {
        Number { micros: clamp(-self@) as i64 }
    }

    /// This number times `num / den` as a number, rounded and saturated.
    pub open spec fn mul_ratio_spec(self, num: int, den: int) -> Number {
        Number { micros: clamp(round_div(self@ * num, den)) as i64 }
    }

    /// The product of two numbers as a number, rounded and saturated.
    pub open spec fn mul_spec(self, other: Number) -> Number {
        self.mul_ratio_spec(other@, 1_000_000)
    }

    /// The number of `micros` millionths.
    pub fn from_micros(micros: i64) -> (r: Number)
        ensures
            r@ == micros,
    {
        Number { micros }
    }

    /// The whole number `n`.
    pub fn from_int(n: i32) -> (r: Number)
        ensures
            r@ == n * 1_000_000,
    {
        let wide: i64 = n as i64;
        Number { micros: wide * SCALE }
    }

    /// Zero.
    pub fn zero() -> (r: Number)
        ensures
            r@ == 0,
    {
        Number { micros: 0 }
    }

    /// The count of millionths.
    pub fn micros(&self) -> (r: i64)
        ensures
            r == self@,
    {
        self.micros
    }

    pub fn is_zero(&self) -> (r: bool)
        ensures
            r == (self@ == 0),
    {
        self.micros == 0
    }

    pub fn is_negative(&self) -> (r: bool)
        ensures
            r == (self@ < 0),
    {
        self.micros < 0
    }

    pub fn is_positive(&self) -> (r: bool)
        ensures
            r == (self@ > 0),
    {
        self.micros > 0
    }

    /// How this number stands to `other`.
    pub fn ordering(&self, other: Number) -> (r: Ordering)
        ensures
            r == ordering_of(self@, other@),
    {
        if self.micros < other.micros {
            Ordering::Less
        } else if self.micros == other.micros {
            Ordering::Equal
        } else {
            Ordering::Greater
        }
    }

    /// The sum, saturating at the ends of the range.
    pub fn add(self, other: Number) -> (r: Number)
        ensures
            r == self.add_spec(other),
    {
        let wide: i128 = self.micros as i128 + other.micros as i128;
        Number { micros: saturate(wide) }
    }

    /// The negation, saturating at the upper end of the range.
    pub fn neg(self) -> (r: Number)
        ensures
            r == self.neg_spec(),
    {
        let wide: i128 = -(self.micros as i128);
        Number { micros: saturate(wide) }
    }

    /// This number times `num / den`, rounded to the nearest millionth (a tie
    /// away from zero) and saturating at the ends of the range.
    pub fn mul_ratio(self, num: i64, den: i64) -> (r: Number)
        requires
            den > 0,
        ensures
            r == self.mul_ratio_spec(num as int, den as int),
    {
        let a: i128 = self.micros as i128;
        let b: i128 = num as i128;
        assert(-0x4000_0000_0000_0000_0000_0000_0000_0000 <= a * b
            <= 0x4000_0000_0000_0000_0000_0000_0000_0000) by (nonlinear_arith)
            requires
                -0x8000_0000_0000_0000 <= a <= 0x7fff_ffff_ffff_ffff,
                -0x8000_0000_0000_0000 <= b <= 0x7fff_ffff_ffff_ffff,
        ;
        let n: i128 = a * b;
        let negative = n < 0;
        let m: u128 = if negative { (-n) as u128 } else { n as u128 };
        let d: u128 = den as u128;
        let q: u128 = m / d;
        let rem: u128 = m % d;
        let rounded: u128 = if 2 * rem >= d { q + 1 } else { q };
        assert(rounded == round_div_nat(m as int, d as int));
        let signed: i128 = if negative { -(rounded as i128) } else { rounded as i128 };
        assert(signed == round_div(n as int, den as int));
        Number { micros: saturate(signed) }
    }

    /// The product, rounded to the nearest millionth (a tie away from zero)
    /// and saturating at the ends of the range.
    pub fn mul(self, other: Number) -> (r: Number)
        ensures
            r == self.mul_spec(other),
    {
        self.mul_ratio(other.micros, SCALE)
    }

    /// Appends the shortest CSS text of this number to `dest`.
    pub fn to_css(&self, dest: &mut String)
        ensures
            final(dest)@ == old(dest)@ + number_text(self@),
    {
        if self.micros == 0 {
            proof {
                reveal_strlit("0");
            }
            dest.append("0");
            assert(dest@ =~= old(dest)@ + number_text(self@));
            return ;
        }
        let negative = self.micros < 0;
        let wide: i128 = self.micros as i128;
        let a: u64 = if negative { (-wide) as u64 } else { wide as u64 };
        let ghost start = dest@;
        if negative {
            proof {
                reveal_strlit("-");
            }
            dest.append("-");
        }
        let whole: u64 = a / 1_000_000;
        let part: u64 = a % 1_000_000;
        if whole > 0 {
            append_nat(dest, whole);
        }
        if part > 0 {
            proof {
                reveal_strlit(".");
            }
            dest.append(".");
            append_fraction(dest, part, 6);
        }
        assert(dest@ =~= start + number_text(self@));
    }
}

fn saturate(x: i128) -> (r: i64)
    ensures
        r == clamp(x as int),
{
    if x < i64::MIN as i128 {
        i64::MIN
    } else if x > i64::MAX as i128 {
        i64::MAX
    } else {
        x as i64
    }
}

} // verus!
