//! Numbers: exact decimals with six places after the point, held as a scaled
//! integer. Every operation either gives the exact result the contract names
//! or reports that it cannot be represented.

use vstd::prelude::*;
use crate::text::{decimal, digit_char, digit_of, digit_value, push_decimal, value_of_digit};

verus! {

/// How many units of a [`Number`] make one.
pub const SCALE: i64 = 1_000_000;

/// How many decimal places a [`Number`] keeps after the point.
pub const PLACES: u32 = 6;

/// A number: `scaled` millionths.
#[derive(Clone, Copy, Debug, PartialEq, Eq, Structural)]
pub struct Number {
    pub scaled: i64,
}

impl View for Number {
    type V = int;

    open spec fn view(&self) -> int {
        self.scaled as int
    }
}

/// Whether a count of millionths fits a [`Number`].
pub open spec fn representable(scaled: int) -> bool {
    i64::MIN <= scaled <= i64::MAX
}

/// `a / b` rounded towards zero, for a positive or negative `b`.
pub open spec fn quotient_towards_zero(a: int, b: int) -> int
    recommends
        b != 0,
{
    if a >= 0 && b > 0 {
        a / b
    } else if a < 0 && b > 0 {
        -((-a) / b)
    } else if a >= 0 && b < 0 {
        -(a / (-b))
    } else {
        (-a) / (-b)
    }
}

/// What is left of `a` after taking out `quotient_towards_zero(a, b)` times `b`:
/// it has the sign of `a`.
pub open spec fn remainder_towards_zero(a: int, b: int) -> int
    recommends
        b != 0,
{
    a - quotient_towards_zero(a, b) * b
}

/// The model of a result that may not be representable.
pub open spec fn fitted(scaled: int) -> Option<int> {
    if representable(scaled) {
        Some(scaled)
    } else {
        None
    }
}

/// The model of an optional number.
pub open spec fn optional(n: Option<Number>) -> Option<int> {
    match n {
        Some(n) => Some(n@),
        None => None,
    }
}

pub open spec fn sum(a: int, b: int) -> Option<int> {
    fitted(a + b)
}

pub open spec fn difference(a: int, b: int) -> Option<int> {
    fitted(a - b)
}

/// The product of two numbers, rounded towards zero to six places.
pub open spec fn product(a: int, b: int) -> Option<int> {
    fitted(quotient_towards_zero(a * b, SCALE as int))
}

/// The ratio of two numbers, rounded towards zero to six places; none for a
/// zero divisor.
pub open spec fn ratio(a: int, b: int) -> Option<int> {
    if b == 0 {
        None
    } else {
        fitted(quotient_towards_zero(a * SCALE, b))
    }
}

pub open spec fn magnitude(a: int) -> Option<int> {
    fitted(if a < 0 {
        -a
    } else {
        a
    })
}

/// Whether a number has no fractional part.
pub open spec fn integral(a: int) -> bool {
    a % (SCALE as int) == 0
}

/// The whole part of a number, rounded towards zero.
pub open spec fn whole_part(a: int) -> int {
    quotient_towards_zero(a, SCALE as int)
}

/// The number that stands for the integer `n`.
pub open spec fn of_integer(n: int) -> Option<int> {
    fitted(n * SCALE)
}

fn fit(wide: i128) -> (r: Option<Number>)
    ensures
        optional(r) == fitted(wide as int),
{
    if wide < i64::MIN as i128 || wide > i64::MAX as i128 {
        None
    } else {
        Some(Number { scaled: wide as i64 })
    }
}

fn divide_towards_zero(a: i128, b: i128) -> (q: i128)
    requires
        b != 0,
        -0x4000_0000_0000_0000_0000_0000_0000_0000 <= a <= 0x4000_0000_0000_0000_0000_0000_0000_0000,
        -0x4000_0000_0000_0000_0000_0000_0000_0000 <= b <= 0x4000_0000_0000_0000_0000_0000_0000_0000,
    ensures
        q == quotient_towards_zero(a as int, b as int),
{
    if a >= 0 && b > 0 {
        a / b
    } else if a < 0 && b > 0 {
        -((-a) / b)
    } else if a >= 0 && b < 0 {
        -(a / (-b))
    } else {
        (-a) / (-b)
    }
}

/// The product of two integers of magnitude at most `m` has magnitude at most `m * m`.
pub proof fn lemma_product_bound(a: int, b: int, m: int)
    requires
        -m <= a <= m,
        -m <= b <= m,
    ensures
        -(m * m) <= a * b <= m * m,
{
    assert((m - a) * (m + b) >= 0) by (nonlinear_arith)
        requires
            m - a >= 0,
            m + b >= 0,
    ;
    assert((m + a) * (m - b) >= 0) by (nonlinear_arith)
        requires
            m + a >= 0,
            m - b >= 0,
    ;
    assert((m - a) * (m - b) >= 0) by (nonlinear_arith)
        requires
            m - a >= 0,
            m - b >= 0,
    ;
    assert((m + a) * (m + b) >= 0) by (nonlinear_arith)
        requires
            m + a >= 0,
            m + b >= 0,
    ;
    assert((m - a) * (m + b) + (m + a) * (m - b) == 2 * (m * m) - 2 * (a * b))
        by (nonlinear_arith);
    assert((m - a) * (m - b) + (m + a) * (m + b) == 2 * (m * m) + 2 * (a * b))
        by (nonlinear_arith);
}

impl Number {
    pub fn zero() -> (r: Number)
        ensures
            r@ == 0,
    {
        Number { scaled: 0 }
    }

    pub fn one() -> (r: Number)
        ensures
            r@ == SCALE,
    {
        Number { scaled: SCALE }
    }

    pub fn from_integer(n: i64) -> (r: Option<Number>)
        ensures
            optional(r) == of_integer(n as int),
    {
        fit(n as i128 * SCALE as i128)
    }

    pub fn add(self, other: Number) -> (r: Option<Number>)
        ensures
            optional(r) == sum(self@, other@),
    {
        fit(self.scaled as i128 + other.scaled as i128)
    }

    pub fn subtract(self, other: Number) -> (r: Option<Number>)
        ensures
            optional(r) == difference(self@, other@),
    {
        fit(self.scaled as i128 - other.scaled as i128)
    }

    pub fn negate(self) -> (r: Option<Number>)
        ensures
            optional(r) == difference(0, self@),
    {
        fit(0 - self.scaled as i128)
    }

    pub fn multiply(self, other: Number) -> (r: Option<Number>)
        ensures
            optional(r) == product(self@, other@),
    {
        let a = self.scaled as i128;
        let b = other.scaled as i128;
        proof {
            lemma_product_bound(a as int, b as int, 0x8000_0000_0000_0000);
        }
        fit(divide_towards_zero(a * b, 1_000_000))
    }

    pub fn divide(self, other: Number) -> (r: Option<Number>)
        ensures
            optional(r) == ratio(self@, other@),
    {
        if other.scaled == 0 {
            None
        } else {
            let a = self.scaled as i128;
            fit(divide_towards_zero(a * 1_000_000, other.scaled as i128))
        }
    }

    pub fn abs(self) -> (r: Option<Number>)
        ensures
            optional(r) == magnitude(self@),
    {
        if self.scaled < 0 {
            fit(0 - self.scaled as i128)
        } else {
            Some(self)
        }
    }

    pub fn is_zero(self) -> (r: bool)
        ensures
            r == (self@ == 0),
    {
        self.scaled == 0
    }

    pub fn is_integral(self) -> (r: bool)
        ensures
            r == integral(self@),
    {
        self.scaled % SCALE == 0
    }

    /// The whole part, rounded towards zero.
    pub fn whole(self) -> (r: i64)
        ensures
            r == whole_part(self@),
    {
        self.scaled / SCALE
    }
}

/// The digits of a fraction, most significant first and without trailing
/// zeros: `part` counts millionths and `unit` is what the next digit is worth.
pub open spec fn fraction_text(part: nat, unit: nat) -> Seq<char>
    decreases unit,
{
    if part == 0 || unit == 0 {
        Seq::<char>::empty()
    } else {
        seq![digit_char((part / unit) as int)] + fraction_text(part % unit, unit / 10)
    }
}

/// How a number is written: a minus sign if it is negative, the whole part,
/// and, unless the number is integral, a point and the fraction's digits.
pub open spec fn number_text(a: int) -> Seq<char> {
    let m = if a < 0 {
        -a
    } else {
        a
    };
    let sign = if a < 0 {
        seq!['-']
    } else {
        Seq::<char>::empty()
    };
    let whole = decimal((m / (SCALE as int)) as nat);
    if m % (SCALE as int) == 0 {
        sign + whole
    } else {
        sign + whole + seq!['.'] + fraction_text((m % (SCALE as int)) as nat, 100_000)
    }
}

/// What the characters of `text` from position `i` on add to the magnitude
/// `so_far`, in millionths. Before the point each digit multiplies what was
/// read by ten; after it each digit is worth `unit`, a tenth of the one
/// before, and digits beyond the sixth place are dropped. None where a
/// character is neither a digit nor the one point, where no digit was read,
/// or where the magnitude leaves the range.
pub open spec fn read_digits(
    text: Seq<char>,
    i: int,
    after_point: bool,
    unit: int,
    so_far: int,
    any_digit: bool,
) -> Option<int>
    decreases text.len() - i,
{
    if i < 0 || i >= text.len() {
        if any_digit {
            Some(so_far)
        } else {
            None
        }
    } else if text[i] == '.' {
        if after_point {
            None
        } else {
            read_digits(text, i + 1, true, 100_000, so_far, any_digit)
        }
    } else {
        match digit_value(text[i]) {
            None => None,
            Some(d) => {
                let next = if after_point {
                    so_far + d * unit
                } else {
                    so_far * 10 + d * SCALE
                };
                if next > i64::MAX {
                    None
                } else {
                    read_digits(
                        text,
                        i + 1,
                        after_point,
                        if after_point {
                            unit / 10
                        } else {
                            unit
                        },
                        next,
                        true,
                    )
                }
            },
        }
    }
}

/// The number that a numeral denotes: an optional sign, then digits with at
/// most one point among them.
pub open spec fn parse_number(text: Seq<char>) -> Option<int> {
    if text.len() == 0 {
        None
    } else if text[0] == '-' {
        match read_digits(text, 1, false, 0, 0, false) {
            Some(m) => Some(-m),
            None => None,
        }
    } else if text[0] == '+' {
        read_digits(text, 1, false, 0, 0, false)
    } else {
        read_digits(text, 0, false, 0, 0, false)
    }
}

impl Number {
    /// Appends the number, as it is written, to `out`.
    pub fn write(self, out: &mut String)
        ensures
            final(out)@ == old(out)@ + number_text(self@),
    {
        let wide = self.scaled as i128;
        let m: i128 = if wide < 0 {
            -wide
        } else {
            wide
        };
        if wide < 0 {
            out.push('-');
        }
        let ghost signed = out@;
        push_decimal(out, (m / 1_000_000) as u64);
        let mut part: u64 = (m % 1_000_000) as u64;
        if part != 0 {
            out.push('.');
            let ghost start = out@;
            let ghost whole_part = part;
            let mut unit: u64 = 100_000;
            while part != 0 && unit != 0
                invariant
                    part < 10 * unit || part == 0,
                    unit == 100_000 || unit == 10_000 || unit == 1_000 || unit == 100 || unit == 10
                        || unit == 1 || unit == 0,
                    out@ + fraction_text(part as nat, unit as nat) == start + fraction_text(
                        whole_part as nat,
                        100_000,
                    ),
                decreases unit,
            {
                let d = part / unit;
                assert(d < 10) by (nonlinear_arith)
                    requires
                        d == part / unit,
                        part < 10 * unit,
                        unit > 0,
                ;
                let ghost before = out@;
                out.push(digit_of(d as u8));
                assert(part % unit < unit) by (nonlinear_arith)
                    requires
                        unit > 0,
                ;
                assert(before + fraction_text(part as nat, unit as nat) =~= out@ + fraction_text(
                    (part % unit) as nat,
                    (unit / 10) as nat,
                ));
                part = part % unit;
                unit = unit / 10;
            }
            assert(fraction_text(part as nat, unit as nat) =~= Seq::<char>::empty());
            assert(out@ =~= start + fraction_text(whole_part as nat, 100_000));
            assert(out@ =~= old(out)@ + number_text(self@));
        } else {
            assert(out@ =~= old(out)@ + number_text(self@));
        }
    }

    /// Reads a numeral.
    pub fn parse(text: &Vec<char>) -> (r: Option<Number>)
        ensures
            optional(r) == parse_number(text@),
    {
        if text.len() == 0 {
            return None;
        }
        let negative = text[0] == '-';
        let mut i: usize = if text[0] == '-' || text[0] == '+' {
            1
        } else {
            0
        };
        let ghost first = i;
        let mut after_point = false;
        let mut unit: i128 = 0;
        let mut so_far: i128 = 0;
        let mut any_digit = false;
        while i < text.len()
            invariant
                i <= text.len(),
                text.len() > 0,
                negative == (text[0] == '-'),
                first == (if text[0] == '-' || text[0] == '+' {
                    1int
                } else {
                    0int
                }),
                0 <= so_far <= i64::MAX,
                0 <= unit <= 100_000,
                read_digits(text@, i as int, after_point, unit as int, so_far as int, any_digit)
                    == read_digits(text@, first as int, false, 0, 0, false),
            decreases text.len() - i,
        {
            let c = text[i];
            if c == '.' {
                if after_point {
                    return None;
                }
                after_point = true;
                unit = 100_000;
            } else {
                match value_of_digit(c) {
                    None => {
                        return None;
                    },
                    Some(d) => {
                        let next: i128 = if after_point {
                            so_far + d as i128 * unit
                        } else {
                            so_far * 10 + d as i128 * 1_000_000
                        };
                        if next > i64::MAX as i128 {
                            return None;
                        }
                        so_far = next;
                        if after_point {
                            unit = unit / 10;
                        }
                        any_digit = true;
                    },
                }
            }
            i += 1;
        }
        if !any_digit {
            None
        } else if negative {
            Some(Number { scaled: (0 - so_far) as i64 })
        } else {
            Some(Number { scaled: so_far as i64 })
        }
    }
}

/// A digit's character stands for the digit, and is neither a sign nor the
/// point.
pub proof fn lemma_digit_round_trip(d: int)
    requires
        0 <= d <= 9,
    ensures
        digit_value(digit_char(d)) == Some(d),
        digit_char(d) != '.',
        digit_char(d) != '-',
        digit_char(d) != '+',
{
}

/// A numeral of a whole number begins with a digit.
pub proof fn lemma_decimal_begins_with_a_digit(n: nat)
    ensures
        decimal(n).len() >= 1,
        digit_value(decimal(n)[0]) is Some,
    decreases n,
{
    if n < 10 {
        lemma_digit_round_trip(n as int);
    } else {
        lemma_decimal_begins_with_a_digit(n / 10);
        assert(decimal(n)[0] == decimal(n / 10)[0]);
    }
}

/// Reading the numeral of the whole number `n`, where it stands in a text
/// before any point, gives `n`.
pub proof fn lemma_decimal_is_read(text: Seq<char>, i: int, n: nat, unit: int, any_digit: bool)
    requires
        0 <= i,
        i + decimal(n).len() <= text.len(),
        text.subrange(i, i + decimal(n).len()) == decimal(n),
        n * SCALE <= i64::MAX,
    ensures
        read_digits(text, i, false, unit, 0, any_digit) == read_digits(
            text,
            i + decimal(n).len(),
            false,
            unit,
            n * SCALE,
            true,
        ),
    decreases n,
{
    let numeral = decimal(n);
    if n < 10 {
        lemma_digit_round_trip(n as int);
        assert(text[i] == numeral[0]);
    } else {
        let front = decimal(n / 10);
        let last = i + numeral.len() - 1;
        lemma_digit_round_trip((n % 10) as int);
        assert(numeral == front.push(digit_char((n % 10) as int)));
        assert(text.subrange(i, last) =~= front) by {
            assert forall|k: int| 0 <= k < front.len() implies text.subrange(i, last)[k]
                == front[k] by {
                assert(text.subrange(i, i + numeral.len())[k] == numeral[k]);
            }
        }
        assert((n / 10) * SCALE <= i64::MAX) by (nonlinear_arith)
            requires
                n * SCALE <= i64::MAX,
                SCALE > 0,
                n >= 0,
        ;
        lemma_decimal_is_read(text, i, n / 10, unit, any_digit);
        assert(text[last] == digit_char((n % 10) as int)) by {
            assert(text.subrange(i, i + numeral.len())[numeral.len() - 1] == numeral[numeral.len()
                - 1]);
        }
        assert((n / 10) * SCALE * 10 + (n % 10) * SCALE == n * SCALE) by (nonlinear_arith)
            requires
                n == (n / 10) * 10 + n % 10,
        ;
    }
}

/// Reading the digits of a fraction, where they end a text after its point,
/// adds the fraction.
pub proof fn lemma_fraction_is_read(text: Seq<char>, j: int, part: nat, unit: nat, so_far: int)
    requires
        0 <= j,
        j + fraction_text(part, unit).len() == text.len(),
        text.subrange(j, text.len() as int) == fraction_text(part, unit),
        part < 10 * unit || part == 0,
        unit == 100_000 || unit == 10_000 || unit == 1_000 || unit == 100 || unit == 10 || unit == 1
            || unit == 0,
        0 <= so_far,
        so_far + part <= i64::MAX,
    ensures
        read_digits(text, j, true, unit as int, so_far, true) == Some(so_far + part),
    decreases unit,
{
    if part == 0 || unit == 0 {
        assert(fraction_text(part, unit).len() == 0);
    } else {
        let d = part / unit;
        let rest = fraction_text(part % unit, unit / 10);
        assert(d < 10) by (nonlinear_arith)
            requires
                d == part / unit,
                part < 10 * unit,
                unit > 0,
        ;
        lemma_digit_round_trip(d as int);
        assert(fraction_text(part, unit) == seq![digit_char(d as int)] + rest);
        assert(text[j] == digit_char(d as int)) by {
            assert(text.subrange(j, text.len() as int)[0] == fraction_text(part, unit)[0]);
        }
        assert(text.subrange(j + 1, text.len() as int) =~= rest) by {
            assert forall|k: int| 0 <= k < rest.len() implies text.subrange(
                j + 1,
                text.len() as int,
            )[k] == rest[k] by {
                assert(text.subrange(j, text.len() as int)[k + 1] == fraction_text(part, unit)[k
                    + 1]);
            }
        }
        assert(part == d * unit + part % unit && part % unit < unit) by (nonlinear_arith)
            requires
                d == part / unit,
                unit > 0,
        ;
        lemma_fraction_is_read(text, j + 1, part % unit, unit / 10, so_far + d * unit);
    }
}

/// A number is read as it is written: reading the text that `write` gives
/// for a number gives the number. The least number of all is left out: its
/// magnitude has no numeral that is read.
pub proof fn law_numbers_are_read_as_written(a: int)
    requires
        i64::MIN < a <= i64::MAX,
    ensures
        parse_number(number_text(a)) == Some(a),
{
    let m = if a < 0 {
        -a
    } else {
        a
    };
    let whole = (m / (SCALE as int)) as nat;
    let part = (m % (SCALE as int)) as nat;
    let numeral = decimal(whole);
    let text = number_text(a);
    let start: int = if a < 0 {
        1
    } else {
        0
    };
    lemma_decimal_begins_with_a_digit(whole);
    assert(m == whole * SCALE + part);
    assert(text.subrange(start, start + numeral.len()) =~= numeral);
    assert(text[start] == numeral[0]);
    assert(text[0] != '+');
    lemma_decimal_is_read(text, start, whole, 0, false);
    let after = start + numeral.len();
    if part == 0 {
        assert(text.len() == after);
    } else {
        assert(text[after] == '.');
        let digits = fraction_text(part, 100_000);
        assert(text.subrange(after + 1, text.len() as int) =~= digits);
        lemma_fraction_is_read(text, after + 1, part, 100_000, whole * SCALE);
    }
}

} // verus!
