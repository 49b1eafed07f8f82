//! Fixed-point decimal numbers.
//!
//! Every real-valued quantity of the engine (prices, volumes, indicator
//! values, rule weights, scores, percentages) is a [`Decimal`]: a signed count
//! of units of 10^-8. Arithmetic on it is exact integer arithmetic, so every
//! result can be stated in a contract.

use crate::text::{
    digit_run, digit_str, digit_char, digit_value, digits_value, is_digit, nat_text, nat_to_text,
    read_digits, char_digit,
};
use vstd::prelude::*;
use vstd::string::StrSliceExecFns;
use vstd::string::StringExecFns;

verus! {

/// Number of units in the value one.
pub const SCALE: i64 = 100_000_000;

/// A signed fixed-point number: `units` counts hundred-millionths.
#[derive(Clone, Copy, Debug, PartialEq, Eq, Structural)]
pub struct Decimal {
    pub units: i64,
}

/// Why a text is not a [`Decimal`].
#[derive(Clone, Copy, Debug, PartialEq, Eq, Structural)]
pub enum DecimalError {
    /// The text is not `sign? digits ('.' digits)?`.
    Malformed,
    /// The text is a decimal number whose value does not fit.
    OutOfRange,
}

/// The absolute value of an integer.
pub open spec fn magnitude(a: int) -> int {
    if a >= 0 {
        a
    } else {
        -a
    }
}

/// Integer division that rounds toward zero.
pub open spec fn trunc_div(a: int, b: int) -> int
    recommends
        b > 0,
{
    if a >= 0 {
        a / b
    } else {
        -((-a) / b)
    }
}

/// The fixed-point product of two unit counts, rounded toward zero.
pub open spec fn scale_product(a: int, b: int) -> int {
    trunc_div(a * b, SCALE as int)
}

/// Whether an integer is a representable unit count.
pub open spec fn fits_i64(a: int) -> bool {
    i64::MIN <= a <= i64::MAX
}

impl Decimal {
    /// The number with the given count of units.
    pub fn new(units: i64) -> (r: Decimal)
        ensures
            r.units == units,
    {
        Decimal { units }
    }

    /// Zero.
    pub fn zero() -> (r: Decimal)
        ensures
            r.units == 0,
    {
        Decimal { units: 0 }
    }

    /// One.
    pub fn one() -> (r: Decimal)
        ensures
            r.units == SCALE,
    {
        Decimal { units: SCALE }
    }

    /// The whole number `n`.
    pub fn from_int(n: i32) -> (r: Decimal)
        ensures
            r.units == n * SCALE,
    {
        let wide: i64 = n as i64;
        assert(-0x8000_0000 * 100_000_000 <= wide * 100_000_000 <= 0x8000_0000 * 100_000_000)
            by (nonlinear_arith)
            requires
                -0x8000_0000 <= wide <= 0x8000_0000,
        ;
        Decimal { units: wide * SCALE }
    }

    /// The absolute value of the unit count.
    pub fn abs_units(&self) -> (r: u64)
        ensures
            r == magnitude(self.units as int),
    {
        if self.units >= 0 {
            self.units as u64
        } else if self.units == i64::MIN {
            0x8000_0000_0000_0000u64
        } else {
            (-self.units) as u64
        }
    }

    /// Whether the number is below zero.
    pub fn is_negative(&self) -> (r: bool)
        ensures
            r == (self.units < 0),
    {
        self.units < 0
    }

    /// The sum, where it is representable.
    pub fn plus(&self, other: Decimal) -> (r: Option<Decimal>)
        ensures
            fits_i64(self.units + other.units) ==> r == Some(
                Decimal { units: (self.units + other.units) as i64 },
            ),
            !fits_i64(self.units + other.units) ==> r is None,
    {
        let wide: i128 = self.units as i128 + other.units as i128;
        narrow(wide)
    }

    /// The fixed-point product rounded toward zero, where it is representable.
    pub fn times(&self, other: Decimal) -> (r: Option<Decimal>)
        ensures
            fits_i64(scale_product(self.units as int, other.units as int)) ==> r == Some(
                Decimal { units: scale_product(self.units as int, other.units as int) as i64 },
            ),
            !fits_i64(scale_product(self.units as int, other.units as int)) ==> r is None,
    {
        let wide: i128 = scaled_product(self.units, other.units);
        narrow(wide)
    }

    /// The larger of two numbers.
    pub fn max(self, other: Decimal) -> (r: Decimal)
        ensures
            r.units == if self.units >= other.units {
                self.units
            } else {
                other.units
            },
    {
        if self.units >= other.units {
            self
        } else {
            other
        }
    }
}

/// The unit count as a machine integer, where it fits.
pub fn narrow(wide: i128) -> (r: Option<Decimal>)
    ensures
        fits_i64(wide as int) ==> r == Some(Decimal { units: wide as i64 }),
        !fits_i64(wide as int) ==> r is None,
{
    if wide < -0x8000_0000_0000_0000i128 || wide > 0x7fff_ffff_ffff_ffffi128 {
        None
    } else {
        Some(Decimal { units: wide as i64 })
    }
}

/// The fixed-point product of two unit counts, rounded toward zero.
pub fn scaled_product(a: i64, b: i64) -> (r: i128)
    ensures
        r == scale_product(a as int, b as int),
{
    let x: i128 = a as i128;
    let y: i128 = b as i128;
    assert(-0x4000_0000_0000_0000_0000_0000_0000_0000 <= x * y
        <= 0x4000_0000_0000_0000_0000_0000_0000_0000) by (nonlinear_arith)
        requires
            -0x8000_0000_0000_0000 <= x < 0x8000_0000_0000_0000,
            -0x8000_0000_0000_0000 <= y < 0x8000_0000_0000_0000,
    ;
    let p: i128 = x * y;
    let s: i128 = SCALE as i128;
    if p >= 0 {
        p / s
    } else {
        let m: i128 = -p;
        let q: i128 = m / s;
        assert(0 <= m / 100_000_000 <= m) by (nonlinear_arith)
            requires
                m >= 0,
        ;
        -q
    }
}

/// The largest whole part that a representable number can have.
pub const MAX_WHOLE: u64 = 92_233_720_368;

/// Whether a decimal text starts with a minus sign.
pub open spec fn text_is_negative(s: Seq<char>) -> bool {
    s.len() > 0 && s[0] == '-'
}

/// A decimal text without its sign.
pub open spec fn text_body(s: Seq<char>) -> Seq<char> {
    if s.len() > 0 && (s[0] == '-' || s[0] == '+') {
        s.skip(1)
    } else {
        s
    }
}

/// The value of the first `k` fractional places of the digits `f`, places
/// beyond the end of `f` counting as zero.
pub open spec fn fraction_prefix(f: Seq<char>, k: nat) -> nat
    decreases k,
{
    if k == 0 {
        0
    } else {
        let place = if k - 1 < f.len() {
            digit_value(f[k - 1])
        } else {
            0
        };
        (fraction_prefix(f, (k - 1) as nat) * 10 + place) as nat
    }
}

/// The units that the fractional digits `f` stand for: digits beyond the
/// eighth are dropped.
pub open spec fn fraction_units(f: Seq<char>) -> nat {
    fraction_prefix(f, 8)
}

/// The unit count that a decimal text writes: an optional sign, one or more
/// digits, and optionally a point followed by one or more digits.
pub open spec fn decimal_text_units(s: Seq<char>) -> Option<int> {
    let body = text_body(s);
    let n = digit_run(body) as int;
    let magnitude = if n == 0 {
        None
    } else if n == body.len() {
        Some(digits_value(body) * SCALE)
    } else if body[n] == '.' && n + 1 < body.len() && digit_run(body.skip(n + 1)) == body.len() - n
        - 1 {
        Some(digits_value(body.take(n)) * SCALE + fraction_units(body.skip(n + 1)))
    } else {
        None
    };
    match magnitude {
        Some(m) => Some(
            if text_is_negative(s) {
                -m
            } else {
                m
            },
        ),
        None => None,
    }
}

/// What reading a decimal text gives: the number it writes, or why there is
/// none.
pub open spec fn parsed_decimal(s: Seq<char>) -> Result<Decimal, DecimalError> {
    match decimal_text_units(s) {
        None => Err(DecimalError::Malformed),
        Some(v) => if fits_i64(v) {
            Ok(Decimal { units: v as i64 })
        } else {
            Err(DecimalError::OutOfRange)
        },
    }
}

/// A natural number written with exactly `width` digits, the most
/// significant ones dropped where it has more.
pub open spec fn fixed_width_text(n: nat, width: nat) -> Seq<char>
    decreases width,
{
    if width == 0 {
        Seq::empty()
    } else {
        fixed_width_text(n / 10, (width - 1) as nat).push(digit_char((n % 10) as int))
    }
}

/// How a unit count is written: a minus sign where it is negative, the whole
/// part, a point, and eight fractional digits.
pub open spec fn decimal_text(units: int) -> Seq<char> {
    let m = magnitude(units);
    let sign = if units < 0 {
        seq!['-']
    } else {
        Seq::<char>::empty()
    };
    sign + nat_text((m / (SCALE as int)) as nat) + seq!['.'] + fixed_width_text(
        (m % (SCALE as int)) as nat,
        8,
    )
}

/// Writes a natural number with exactly `width` digits.
fn fixed_width_to_text(n: u64, width: u8) -> (s: String)
    ensures
        s@ == fixed_width_text(n as nat, width as nat),
    decreases width,
{
    if width == 0 {
        String::new()
    } else {
        let mut s = fixed_width_to_text(n / 10, width - 1);
        s.append(digit_str((n % 10) as u8));
        assert(s@ =~= fixed_width_text(n as nat, width as nat));
        s
    }
}

/// The first eight fractional places of the digits of `text` in
/// `from..to`.
fn read_fraction(text: &str, from: usize, to: usize) -> (r: u64)
    requires
        from <= to <= text@.len(),
        forall|i: int| from <= i < to ==> is_digit(#[trigger] text@[i]),
    ensures
        r == fraction_units(text@.subrange(from as int, to as int)),
        r < SCALE,
{
    let ghost f = text@.subrange(from as int, to as int);
    let mut k: usize = 0;
    let mut acc: u64 = 0;
    while k < 8
        invariant
            k <= 8,
            from <= to <= text@.len(),
            f == text@.subrange(from as int, to as int),
            forall|i: int| from <= i < to ==> is_digit(#[trigger] text@[i]),
            acc == fraction_prefix(f, k as nat),
            acc < crate::text::pow10(k as nat),
            crate::text::pow10(k as nat) <= 100_000_000,
        decreases 8 - k,
    {
        let place: u64 = if k < to - from {
            let c = text.get_char(from + k);
            assert(f[k as int] == text@[from + k]);
            match char_digit(c) {
                Some(d) => d as u64,
                None => 0,
            }
        } else {
            0
        };
        proof {
            reveal_with_fuel(crate::text::pow10, 10);
            assert(crate::text::pow10((k + 1) as nat) == 10 * crate::text::pow10(k as nat));
            assert(k < 8 ==> crate::text::pow10((k + 1) as nat) <= 100_000_000) by {
                assert(crate::text::pow10(8) == 100_000_000);
                lemma_pow10_monotone((k + 1) as nat, 8);
            }
        }
        acc = acc * 10 + place;
        k = k + 1;
    }
    proof {
        reveal_with_fuel(crate::text::pow10, 10);
        assert(crate::text::pow10(8) == 100_000_000);
    }
    acc
}

/// Powers of ten grow with the exponent.
pub proof fn lemma_pow10_monotone(a: nat, b: nat)
    requires
        a <= b,
    ensures
        crate::text::pow10(a) <= crate::text::pow10(b),
        crate::text::pow10(a) >= 1,
    decreases b,
{
    if a < b {
        lemma_pow10_monotone(a, (b - 1) as nat);
    } else if a > 0 {
        lemma_pow10_monotone((a - 1) as nat, (b - 1) as nat);
    }
}

impl Decimal {
    /// Reads a number from decimal text: an optional sign, digits, and
    /// optionally a point and more digits. Fractional digits beyond the eighth
    /// are dropped.
    pub fn parse(text: &str) -> (r: Result<Decimal, DecimalError>)
        ensures
            r == parsed_decimal(text@),
    {
        let len: usize = text.unicode_len();
        let mut start: usize = 0;
        let mut negative = false;
        if len > 0 {
            let first = text.get_char(0);
            if first == '-' {
                negative = true;
                start = 1;
            } else if first == '+' {
                start = 1;
            }
        }
        let ghost body = text_body(text@);
        assert(body =~= text@.skip(start as int));
        let (whole_end, whole) = read_digits(text, start, MAX_WHOLE);
        let ghost n = digit_run(body) as int;
        assert(whole_end == start + n);
        if whole_end == start {
            return Err(DecimalError::Malformed);
        }
        assert(text@.subrange(start as int, whole_end as int) =~= body.take(n));
        let mut fraction: u64 = 0;
        if whole_end < len {
            let c = text.get_char(whole_end);
            assert(body[n] == c);
            if c != '.' || whole_end + 1 >= len {
                return Err(DecimalError::Malformed);
            }
            let (fraction_end, _) = read_digits(text, whole_end + 1, 0);
            assert(text@.skip(whole_end as int + 1) =~= body.skip(n + 1));
            if fraction_end < len {
                return Err(DecimalError::Malformed);
            }
            proof {
                let tail = text@.skip(whole_end as int + 1);
                crate::text::lemma_digit_run_digits(tail);
                assert forall|i: int| whole_end + 1 <= i < len implies is_digit(
                    #[trigger] text@[i],
                ) by {
                    assert(tail[i - whole_end - 1] == text@[i]);
                }
                assert(text@.subrange(whole_end as int + 1, len as int) =~= body.skip(n + 1));
            }
            fraction = read_fraction(text, whole_end + 1, len);
        } else {
            assert(body.take(n) =~= body);
        }
        let ghost whole_value = digits_value(body.take(n));
        let ghost m: int = if whole_end < len {
            whole_value * SCALE + fraction_units(body.skip(n + 1))
        } else {
            whole_value * SCALE
        };
        assert(whole_end >= len ==> fraction == 0);
        assert(m == whole_value * SCALE + fraction);
        match whole {
            None => {
                assert(m >= 92_233_720_369 * 100_000_000) by (nonlinear_arith)
                    requires
                        m == whole_value * 100_000_000 + fraction,
                        whole_value > 92_233_720_368,
                        fraction >= 0,
                ;
                Err(DecimalError::OutOfRange)
            },
            Some(w) => {
                assert(w * 100_000_000 <= 92_233_720_368 * 100_000_000) by (nonlinear_arith)
                    requires
                        0 <= w <= 92_233_720_368,
                ;
                let wide: i128 = (w as i128) * (SCALE as i128) + fraction as i128;
                let signed: i128 = if negative {
                    -wide
                } else {
                    wide
                };
                match narrow(signed) {
                    Some(d) => Ok(d),
                    None => Err(DecimalError::OutOfRange),
                }
            },
        }
    }

    /// Writes the number as decimal text with eight fractional digits.
    pub fn render(&self) -> (s: String)
        ensures
            s@ == decimal_text(self.units as int),
    {
        let m: u64 = self.abs_units();
        let mut s = if self.units < 0 {
            String::from_str("-")
        } else {
            String::new()
        };
        proof {
            reveal_strlit("-");
            reveal_strlit(".");
            assert("-"@ =~= seq!['-']);
            assert("."@ =~= seq!['.']);
        }
        let whole = nat_to_text(m / (SCALE as u64));
        s.append(whole.as_str());
        s.append(".");
        let fraction = fixed_width_to_text(m % (SCALE as u64), 8);
        s.append(fraction.as_str());
        assert(s@ =~= decimal_text(self.units as int));
        s
    }
}

} // verus!
