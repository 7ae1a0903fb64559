//! Exact fixed-point decimal arithmetic for money, prices and quantities.
//!
//! A [`Dec`] holds a signed count of billionths (nine fractional decimal
//! digits). All arithmetic is integer arithmetic on that count: addition and
//! subtraction are exact, multiplication and division round the exact result
//! down (toward negative infinity), and `round_dp` rounds to a given number
//! of decimal places with ties rounded up. Every operation states its result
//! exactly in its contract.

use vstd::arithmetic::div_mod::{lemma_fundamental_div_mod, lemma_fundamental_div_mod_converse};
use vstd::prelude::*;

verus! {

/// Scaled units per whole unit: one `Dec` unit is `1 / SCALE`.
pub const SCALE: i128 = 1_000_000_000;

/// Largest magnitude, in scaled units, of a single market value (price,
/// balance, quantity) that the library accepts from the wire; parsing
/// rejects anything larger. Chosen so that the product of two in-range
/// unit counts still fits in an `i128`.
pub const MAX_UNITS: i128 = 10_000_000_000_000_000_000;

/// Whether a unit count is within the range parsed market values occupy.
pub open spec fn in_range(u: int) -> bool {
    -(MAX_UNITS as int) <= u <= MAX_UNITS as int
}

/// Mathematical floor division, defined for any non-zero divisor.
pub open spec fn div_floor(x: int, d: int) -> int {
    if d > 0 {
        x / d
    } else {
        (-x) / (-d)
    }
}

/// `x * 10^e`, the power-of-ten scaling used by decimal places.
pub open spec fn pow10(e: nat) -> int
    decreases e,
{
    if e == 0 {
        1
    } else {
        10 * pow10((e - 1) as nat)
    }
}

/// A fixed-point decimal: `units / SCALE`.
#[derive(Debug, Clone, Copy, PartialEq, Eq, Structural)]
pub struct Dec {
    pub units: i128,
}

/// Floor division of `a` by a positive divisor `b`.
pub(crate) fn div_units(a: i128, b: i128) -> (q: i128)
    requires
        b > 0,
        a > i128::MIN,
    ensures
        q == div_floor(a as int, b as int),
{
    if a >= 0 {
        let ua: u128 = a as u128;
        let ub: u128 = b as u128;
        let uq: u128 = ua / ub;
        proof {
            vstd::arithmetic::div_mod::lemma_div_nonincreasing(ua as int, ub as int);
        }
        uq as i128
    } else {
        let m: u128 = (-a) as u128;
        let ub: u128 = b as u128;
        let uq: u128 = (m + ub - 1) / ub;
        proof {
            lemma_ceil_div(m as int, ub as int);
            // a / b == -ceil(m / b) for a == -m, m > 0, b > 0
            lemma_fundamental_div_mod(m as int, b as int);
            let t = m as int / b as int;
            let r = m as int % b as int;
            if r == 0 {
                assert((-t) * (b as int) == -((b as int) * t)) by (nonlinear_arith);
                lemma_fundamental_div_mod_converse(a as int, b as int, -t, 0);
            } else {
                assert((-t - 1) * (b as int) == -((b as int) * t) - (b as int))
                    by (nonlinear_arith);
                lemma_fundamental_div_mod_converse(a as int, b as int, -t - 1, b - r);
            }
        }
        -(uq as i128)
    }
}

/// `(m + b - 1) / b` is the ceiling of `m / b` for positive `b`, and is
/// bounded by `m`.
proof fn lemma_ceil_div(m: int, b: int)
    requires
        m >= 0,
        b > 0,
    ensures
        m % b == 0 ==> (m + b - 1) / b == m / b,
        m % b != 0 ==> (m + b - 1) / b == m / b + 1,
        (m + b - 1) / b <= m,
{
    lemma_fundamental_div_mod(m, b);
    let t = m / b;
    let r = m % b;
    vstd::arithmetic::div_mod::lemma_div_nonincreasing(m, b);
    vstd::arithmetic::div_mod::lemma_div_pos_is_pos(m, b);
    if r == 0 {
        assert(t * b == b * t) by (nonlinear_arith);
        lemma_fundamental_div_mod_converse(m + b - 1, b, t, b - 1);
    } else {
        assert((t + 1) * b == b * t + b) by (nonlinear_arith);
        lemma_fundamental_div_mod_converse(m + b - 1, b, t + 1, r - 1);
        // t < m: otherwise m == b * t + r forces r <= 0
        assert(b * t >= t) by (nonlinear_arith)
            requires
                t >= 0,
                b >= 1,
        ;
    }
}

/// A non-positive value divided by a positive divisor stays within one
/// divisor of itself and is non-positive.
pub proof fn lemma_div_floor_neg_bounds(y: int, b: int)
    requires
        y <= 0,
        b >= 1,
    ensures
        y - b < y / b <= 0,
{
    lemma_fundamental_div_mod(y, b);
    vstd::arithmetic::div_mod::lemma_mod_division_less_than_divisor(y, b);
    vstd::arithmetic::div_mod::lemma_div_is_ordered(y, 0, b);
    vstd::arithmetic::div_mod::lemma_div_of0(b);
    let q = y / b;
    assert(b * q <= q) by (nonlinear_arith)
        requires
            q <= 0,
            b >= 1,
    ;
}

/// Rounding a non-negative value to a multiple of `p` moves it up by less
/// than `p` and never below zero.
pub proof fn lemma_round_bounds(u: int, p: int)
    requires
        u >= 0,
        p >= 1,
    ensures
        0 <= round_units(u, p) <= u + p,
{
    lemma_fundamental_div_mod(u, p);
    vstd::arithmetic::div_mod::lemma_mod_division_less_than_divisor(u, p);
    vstd::arithmetic::div_mod::lemma_div_pos_is_pos(u, p);
    let q = u / p;
    assert(p * (q + 1) == p * q + p) by (nonlinear_arith);
    assert(p * q >= 0) by (nonlinear_arith)
        requires
            p >= 1,
            q >= 0,
    ;
}

// ---------------------------------------------------------------------------
// Rendering decimal strings
// ---------------------------------------------------------------------------
/// The character of one decimal digit.
pub open spec fn digit_char(n: int) -> char {
    if n == 0 {
        '0'
    } else if n == 1 {
        '1'
    } else if n == 2 {
        '2'
    } else if n == 3 {
        '3'
    } else if n == 4 {
        '4'
    } else if n == 5 {
        '5'
    } else if n == 6 {
        '6'
    } else if n == 7 {
        '7'
    } else if n == 8 {
        '8'
    } else {
        '9'
    }
}

/// The decimal digits of a non-negative number, most significant first.
pub open spec fn spec_digits(n: int) -> Seq<char>
    decreases n,
{
    if 0 <= n < 10 {
        seq![digit_char(n)]
    } else if n >= 10 {
        spec_digits(n / 10).push(digit_char(n % 10))
    } else {
        Seq::empty()
    }
}

/// Exactly `width` decimal digits of `f`, leading zeros kept.
pub open spec fn fixed_digits(f: int, width: nat) -> Seq<char>
    decreases width,
{
    if width == 0 {
        Seq::empty()
    } else {
        fixed_digits(f / 10, (width - 1) as nat).push(digit_char(f % 10))
    }
}

/// A fraction of `width` digits with its trailing zeros trimmed.
pub open spec fn frac_str(f: int, width: nat) -> Seq<char>
    decreases width,
{
    if width == 0 {
        Seq::empty()
    } else if f % 10 == 0 {
        frac_str(f / 10, (width - 1) as nat)
    } else {
        fixed_digits(f, width)
    }
}

/// The canonical decimal rendering of a unit count: an optional minus, the
/// whole part, and a fraction only when it is non-zero, trailing zeros
/// trimmed.
pub open spec fn dec_str(units: int) -> Seq<char> {
    let mag = if units >= 0 {
        units
    } else {
        -units
    };
    let whole = mag / SCALE as int;
    let frac = mag % SCALE as int;
    let body = if frac == 0 {
        spec_digits(whole)
    } else {
        spec_digits(whole) + seq!['.'] + frac_str(frac, 9)
    };
    if units < 0 {
        seq!['-'] + body
    } else {
        body
    }
}

/// One decimal digit as a string slice.
fn digit_str(d: u64) -> (r: &'static str)
    requires
        d < 10,
    ensures
        r@ == seq![digit_char(d as int)],
{
    let r: &'static str = match d {
        0 => "0",
        1 => "1",
        2 => "2",
        3 => "3",
        4 => "4",
        5 => "5",
        6 => "6",
        7 => "7",
        8 => "8",
        _ => "9",
    };
    proof {
        reveal_strlit("0");
        reveal_strlit("1");
        reveal_strlit("2");
        reveal_strlit("3");
        reveal_strlit("4");
        reveal_strlit("5");
        reveal_strlit("6");
        reveal_strlit("7");
        reveal_strlit("8");
        reveal_strlit("9");
        assert(r@ =~= seq![digit_char(d as int)]);
    }
    r
}

/// Append the decimal digits of a number.
pub(crate) fn push_digits(s: &mut String, n: u128)
    ensures
        final(s)@ == old(s)@ + spec_digits(n as int),
    decreases n,
{
    if n < 10 {
        s.append(digit_str(n as u64));
    } else {
        push_digits(s, n / 10);
        s.append(digit_str((n % 10) as u64));
        proof {
            assert(s@ =~= old(s)@ + spec_digits(n as int));
        }
    }
}

/// Append exactly `width` decimal digits of `f`, leading zeros kept.
fn push_fixed_digits(s: &mut String, f: u128, width: u32)
    ensures
        final(s)@ == old(s)@ + fixed_digits(f as int, width as nat),
    decreases width,
{
    if width > 0 {
        push_fixed_digits(s, f / 10, width - 1);
        s.append(digit_str((f % 10) as u64));
        proof {
            assert(s@ =~= old(s)@ + fixed_digits(f as int, width as nat));
        }
    }
}

/// Digit characters carry their value and are digits.
proof fn lemma_digit_char(n: int)
    requires
        0 <= n <= 9,
    ensures
        spec_is_digit(digit_char(n)),
        digit_val(digit_char(n)) == n,
        digit_char(n) != '.',
        digit_char(n) != '-',
{
}

/// The rendered digits of a non-negative number denote it.
proof fn lemma_spec_digits_val(n: int)
    requires
        n >= 0,
    ensures
        all_digits(spec_digits(n)),
        digits_val(spec_digits(n)) == n,
        spec_digits(n).len() >= 1,
        forall|i: int|
            0 <= i < spec_digits(n).len() ==> #[trigger] spec_digits(n)[i] != '.' && spec_digits(
                n,
            )[i] != '-',
    decreases n,
{
    if n < 10 {
        lemma_digit_char(n);
        let s = seq![digit_char(n)];
        assert(s.len() == 1);
        assert(s[0] == digit_char(n));
        assert(s.last() == digit_char(n));
        assert(s.drop_last() =~= Seq::<char>::empty());
        assert(digits_val(s.drop_last()) == 0);
        assert(digits_val(s) == digit_val(digit_char(n)));
    } else {
        lemma_spec_digits_val(n / 10);
        lemma_digit_char(n % 10);
        let s = spec_digits(n / 10);
        let c = digit_char(n % 10);
        assert(s.push(c).drop_last() =~= s);
        assert(s.push(c).last() == c);
        assert(spec_digits(n) == s.push(c));
        assert(digits_val(s.push(c)) == 10 * digits_val(s) + digit_val(c));
        lemma_fundamental_div_mod(n, 10);
        assert forall|i: int| 0 <= i < s.push(c).len() implies spec_is_digit(
            #[trigger] s.push(c)[i],
        ) && s.push(c)[i] != '.' && s.push(c)[i] != '-' by {
            if i < s.len() {
                assert(s.push(c)[i] == s[i]);
            }
        }
    }
}

/// A fixed-width rendering denotes its value.
proof fn lemma_fixed_digits_val(f: int, width: nat)
    requires
        0 <= f < pow10(width),
    ensures
        all_digits(fixed_digits(f, width)),
        fixed_digits(f, width).len() == width,
        digits_val(fixed_digits(f, width)) == f,
        forall|i: int|
            0 <= i < width ==> #[trigger] fixed_digits(f, width)[i] != '.' && fixed_digits(
                f,
                width,
            )[i] != '-',
    decreases width,
{
    if width == 0 {
    } else {
        lemma_fundamental_div_mod(f, 10);
        vstd::arithmetic::div_mod::lemma_mod_division_less_than_divisor(f, 10);
        assert(f / 10 < pow10((width - 1) as nat)) by {
            lemma_pow10_step((width - 1) as nat);
            vstd::arithmetic::div_mod::lemma_div_pos_is_pos(f, 10);
        }
        lemma_fixed_digits_val(f / 10, (width - 1) as nat);
        lemma_digit_char(f % 10);
        let s = fixed_digits(f / 10, (width - 1) as nat);
        let c = digit_char(f % 10);
        assert(s.push(c).drop_last() =~= s);
        assert forall|i: int| 0 <= i < s.push(c).len() implies spec_is_digit(
            #[trigger] s.push(c)[i],
        ) && s.push(c)[i] != '.' && s.push(c)[i] != '-' by {
            if i < s.len() {
                assert(s.push(c)[i] == s[i]);
            }
        }
    }
}

/// A trimmed fraction rendering, rescaled by the trimmed width, denotes its
/// value.
proof fn lemma_frac_str_val(f: int, width: nat)
    requires
        0 < f < pow10(width),
        width >= 1,
    ensures
        all_digits(frac_str(f, width)),
        1 <= frac_str(f, width).len() <= width,
        digits_val(frac_str(f, width)) * pow10((width - frac_str(f, width).len()) as nat) == f,
        forall|i: int|
            0 <= i < frac_str(f, width).len() ==> #[trigger] frac_str(f, width)[i] != '.'
                && frac_str(f, width)[i] != '-',
    decreases width,
{
    if f % 10 != 0 {
        lemma_fixed_digits_val(f, width);
        assert(pow10((width - width) as nat) == 1);
        assert(digits_val(fixed_digits(f, width)) * 1 == f) by (nonlinear_arith)
            requires
                digits_val(fixed_digits(f, width)) == f,
        ;
    } else {
        lemma_fundamental_div_mod(f, 10);
        vstd::arithmetic::div_mod::lemma_div_pos_is_pos(f, 10);
        assert(f / 10 < pow10((width - 1) as nat)) by {
            lemma_pow10_step((width - 1) as nat);
        }
        if width == 1 {
            assert(f < 10);
            assert(f % 10 == f);
        }
        assert(f / 10 > 0);
        lemma_frac_str_val(f / 10, (width - 1) as nat);
        let s = frac_str(f / 10, (width - 1) as nat);
        let z = (width - 1 - s.len()) as nat;
        lemma_pow10_step(z);
        // digits * pow10(z + 1) == (digits * pow10(z)) * 10 == (f / 10) * 10 == f
        assert(digits_val(s) * (10 * pow10(z)) == (digits_val(s) * pow10(z)) * 10)
            by (nonlinear_arith);
    }
}

/// Rendering an in-range unit count and parsing it back returns the same
/// count: the decimal codec is lossless on the values the library trades
/// in.
pub proof fn lemma_render_parse_round_trip(u: int)
    requires
        in_range(u),
    ensures
        parse_units(dec_str(u)) == Some(u),
{
    let mag = if u >= 0 {
        u
    } else {
        -u
    };
    let whole = mag / SCALE as int;
    let frac = mag % SCALE as int;
    lemma_fundamental_div_mod(mag, SCALE as int);
    vstd::arithmetic::div_mod::lemma_mod_division_less_than_divisor(mag, SCALE as int);
    vstd::arithmetic::div_mod::lemma_div_pos_is_pos(mag, SCALE as int);
    lemma_spec_digits_val(whole);
    let w = spec_digits(whole);
    assert(pow10(9) == 1_000_000_000) by {
        reveal_with_fuel(pow10, 10);
    }
    let body = if frac == 0 {
        w
    } else {
        w + seq!['.'] + frac_str(frac, 9)
    };
    if frac == 0 {
        lemma_first_dot_at(body, body.len() as int);
        assert(body.subrange(0, body.len() as int) =~= body);
        assert(whole * SCALE as int == mag);
        assert(parse_unsigned_units(body) == Some(mag));
    } else {
        lemma_frac_str_val(frac, 9);
        let fs = frac_str(frac, 9);
        assert forall|j: int| 0 <= j < w.len() implies body[j] != '.' by {
            assert(body[j] == w[j]);
        }
        assert(body[w.len() as int] == '.');
        lemma_first_dot_at(body, w.len() as int);
        assert(body.subrange(0, w.len() as int) =~= w);
        assert(body.subrange(w.len() as int + 1, body.len() as int) =~= fs);
        assert(whole * SCALE as int + frac == mag);
        assert(parse_unsigned_units(body) == Some(mag));
    }
    if u < 0 {
        let s = dec_str(u);
        assert(s =~= seq!['-'] + body);
        assert(s[0] == '-');
        assert(s.subrange(1, s.len() as int) =~= body);
    } else {
        assert(dec_str(u) == body);
    }
}

/// The string `"0"` parses to zero units.
pub proof fn lemma_parse_zero()
    ensures
        parse_default_units("0"@) == 0,
{
    reveal_strlit("0");
    let s = "0"@;
    assert(s.len() == 1);
    assert(s[0] == '0');
    assert(s.subrange(1, 1).len() == 0);
    assert(first_dot(s.subrange(1, 1)) == 0);
    assert(first_dot(s) == 1);
    let ip = s.subrange(0, 1);
    assert(ip =~= s);
    assert(ip.drop_last().len() == 0);
    assert(digits_val(ip.drop_last()) == 0);
    assert(digits_val(ip) == 0);
    assert(parse_unsigned_units(s) == Some(0int));
}

impl Dec {
    /// The zero value.
    pub fn zero() -> (r: Dec)
        ensures
            r.units == 0,
    {
        Dec { units: 0 }
    }

    /// A decimal from a whole number.
    pub fn from_int(i: i64) -> (r: Dec)
        requires
            -10_000_000_000 <= i <= 10_000_000_000,
        ensures
            r.units == i * SCALE,
    {
        Dec { units: (i as i128) * SCALE }
    }

    /// A decimal from a mantissa and a number of decimal places, as in
    /// `Dec::new(12345, 2)` for `123.45`.
    pub fn new(mantissa: i64, dp: u32) -> (r: Dec)
        requires
            dp <= 9,
            -(MAX_UNITS as int) <= mantissa * pow10((9 - dp) as nat) <= MAX_UNITS as int,
        ensures
            r.units == mantissa * pow10((9 - dp) as nat),
    {
        let p: i128 = pow10_exec(9 - dp);
        proof {
            lemma_pow10_bounds((9 - dp) as nat);
        }
        Dec { units: (mantissa as i128) * p }
    }

    /// Exact sum.
    pub fn add(self, other: Dec) -> (r: Dec)
        requires
            i128::MIN <= self.units + other.units <= i128::MAX,
        ensures
            r.units == self.units + other.units,
    {
        Dec { units: self.units + other.units }
    }

    /// Exact difference.
    pub fn sub(self, other: Dec) -> (r: Dec)
        requires
            i128::MIN <= self.units - other.units <= i128::MAX,
        ensures
            r.units == self.units - other.units,
    {
        Dec { units: self.units - other.units }
    }

    /// Product, rounded toward negative infinity at the ninth decimal place.
    pub fn mul(self, other: Dec) -> (r: Dec)
        requires
            -(i128::MAX as int) <= self.units * other.units <= i128::MAX as int,
        ensures
            r.units == div_floor(self.units * other.units, SCALE as int),
    {
        let p: i128 = self.units * other.units;
        Dec { units: div_units(p, SCALE) }
    }

    /// Quotient, rounded toward negative infinity at the ninth decimal
    /// place. The divisor must be non-zero.
    pub fn div(self, other: Dec) -> (r: Dec)
        requires
            other.units != 0,
            other.units > i128::MIN,
            -(i128::MAX as int) <= self.units * SCALE <= i128::MAX as int,
        ensures
            r.units == div_floor(self.units * SCALE, other.units as int),
    {
        let p: i128 = self.units * SCALE;
        if other.units > 0 {
            Dec { units: div_units(p, other.units) }
        } else {
            Dec { units: div_units(-p, -other.units) }
        }
    }

    /// Absolute value.
    pub fn abs(self) -> (r: Dec)
        requires
            self.units > i128::MIN,
        ensures
            r.units == if self.units >= 0 {
                self.units as int
            } else {
                -(self.units as int)
            },
    {
        if self.units >= 0 {
            self
        } else {
            Dec { units: -self.units }
        }
    }

    /// The smaller of the two values.
    pub fn min(self, other: Dec) -> (r: Dec)
        ensures
            r.units == if self.units <= other.units {
                self.units
            } else {
                other.units
            },
    {
        if self.units <= other.units {
            self
        } else {
            other
        }
    }

    /// Strictly less than.
    pub fn lt(self, other: Dec) -> (r: bool)
        ensures
            r == (self.units < other.units),
    {
        self.units < other.units
    }

    /// Less than or equal.
    pub fn le(self, other: Dec) -> (r: bool)
        ensures
            r == (self.units <= other.units),
    {
        self.units <= other.units
    }

    /// Strictly greater than.
    pub fn gt(self, other: Dec) -> (r: bool)
        ensures
            r == (self.units > other.units),
    {
        self.units > other.units
    }

    /// Greater than or equal.
    pub fn ge(self, other: Dec) -> (r: bool)
        ensures
            r == (self.units >= other.units),
    {
        self.units >= other.units
    }

    /// Whether the value is zero.
    pub fn is_zero(self) -> (r: bool)
        ensures
            r == (self.units == 0),
    {
        self.units == 0
    }

    /// Round to `dp` decimal places; ties round up (toward positive
    /// infinity).
    pub fn round_dp(self, dp: u32) -> (r: Dec)
        requires
            dp <= 9,
            i128::MIN + SCALE < self.units,
            self.units + SCALE <= i128::MAX,
        ensures
            r.units == round_units(self.units as int, pow10((9 - dp) as nat)),
    {
        let p: i128 = pow10_exec(9 - dp);
        proof {
            lemma_pow10_bounds((9 - dp) as nat);
        }
        let q: i128 = div_units(self.units, p);
        proof {
            lemma_fundamental_div_mod(self.units as int, p as int);
            vstd::arithmetic::div_mod::lemma_mod_division_less_than_divisor(
                self.units as int,
                p as int,
            );
            assert((p as int) * (q + 1) == (p as int) * q + p) by (nonlinear_arith);
        }
        let rem: i128 = self.units - p * q;
        if 2 * rem >= p {
            Dec { units: p * (q + 1) }
        } else {
            Dec { units: p * q }
        }
    }
}

/// The nearest multiple of `p` (ties toward positive infinity).
pub open spec fn round_units(u: int, p: int) -> int {
    let q = u / p;
    let r = u - p * q;
    if 2 * r >= p {
        p * (q + 1)
    } else {
        p * q
    }
}

/// `10^e` as an `i128`, for exponents up to nine.
pub fn pow10_exec(e: u32) -> (r: i128)
    requires
        e <= 9,
    ensures
        r == pow10(e as nat),
{
    proof {
        lemma_pow10_bounds(e as nat);
    }
    let mut r: i128 = 1;
    let mut i: u32 = 0;
    while i < e
        invariant
            i <= e <= 9,
            r == pow10(i as nat),
            pow10(e as nat) <= SCALE as int,
            1 <= r <= pow10(e as nat),
        decreases e - i,
    {
        proof {
            lemma_pow10_step(i as nat);
            lemma_pow10_le((i + 1) as nat, e as nat);
        }
        r = r * 10;
        i = i + 1;
    }
    r
}

/// Ten to a small power is positive and bounded by `SCALE`.
pub proof fn lemma_pow10_bounds(e: nat)
    requires
        e <= 9,
    ensures
        1 <= pow10(e) <= SCALE as int,
{
    lemma_pow10_le(e, 9);
    assert(pow10(9) == 1_000_000_000) by {
        reveal_with_fuel(pow10, 10);
    }
}

proof fn lemma_pow10_step(e: nat)
    ensures
        pow10(e + 1) == 10 * pow10(e),
{
}

// ---------------------------------------------------------------------------
// Parsing decimal strings
// ---------------------------------------------------------------------------
/// Whether `c` is an ASCII decimal digit.
pub open spec fn spec_is_digit(c: char) -> bool {
    48 <= c as int <= 57
}

/// Numeric value of an ASCII digit.
pub open spec fn digit_val(c: char) -> int {
    c as int - 48
}

/// Whether every character of `s` is an ASCII digit.
pub open spec fn all_digits(s: Seq<char>) -> bool {
    forall|i: int| 0 <= i < s.len() ==> spec_is_digit(#[trigger] s[i])
}

/// The number a string of digits denotes, most significant first.
pub open spec fn digits_val(s: Seq<char>) -> int
    decreases s.len(),
{
    if s.len() == 0 {
        0
    } else {
        10 * digits_val(s.drop_last()) + digit_val(s.last())
    }
}

/// Index of the first `'.'` in `s`, or `s.len()` if there is none.
pub open spec fn first_dot(s: Seq<char>) -> int
    decreases s.len(),
{
    if s.len() == 0 {
        0
    } else if s[0] == '.' {
        0
    } else {
        1 + first_dot(s.subrange(1, s.len() as int))
    }
}

/// The unit count an unsigned decimal literal denotes: one or more integer
/// digits, optionally followed by a dot and one to nine fraction digits.
/// `None` when the shape is wrong or the value exceeds `MAX_UNITS`.
pub open spec fn parse_unsigned_units(s: Seq<char>) -> Option<int> {
    let d = first_dot(s);
    let ip = s.subrange(0, d);
    if d == s.len() {
        if ip.len() >= 1 && all_digits(ip) && digits_val(ip) * SCALE <= MAX_UNITS {
            Some(digits_val(ip) * SCALE)
        } else {
            None
        }
    } else {
        let fp = s.subrange(d + 1, s.len() as int);
        if ip.len() >= 1 && all_digits(ip) && 1 <= fp.len() <= 9 && all_digits(fp) {
            let v = digits_val(ip) * SCALE + digits_val(fp) * pow10((9 - fp.len()) as nat);
            if v <= MAX_UNITS {
                Some(v)
            } else {
                None
            }
        } else {
            None
        }
    }
}

/// The unit count a decimal literal denotes, with an optional leading minus.
pub open spec fn parse_units(s: Seq<char>) -> Option<int> {
    if s.len() >= 1 && s[0] == '-' {
        match parse_unsigned_units(s.subrange(1, s.len() as int)) {
            Some(v) => Some(-v),
            None => None,
        }
    } else {
        parse_unsigned_units(s)
    }
}

/// The unit count a decimal literal denotes, or zero when it denotes none.
pub open spec fn parse_default_units(s: Seq<char>) -> int {
    match parse_units(s) {
        Some(v) => v,
        None => 0,
    }
}

proof fn lemma_first_dot_char(s: Seq<char>)
    ensures
        0 <= first_dot(s) <= s.len(),
        first_dot(s) < s.len() ==> s[first_dot(s)] == '.',
        forall|j: int| 0 <= j < first_dot(s) ==> s[j] != '.',
    decreases s.len(),
{
    if s.len() > 0 && s[0] != '.' {
        let t = s.subrange(1, s.len() as int);
        lemma_first_dot_char(t);
        assert forall|j: int| 0 <= j < first_dot(s) implies s[j] != '.' by {
            if j > 0 {
                assert(t[j - 1] == s[j]);
            }
        }
    }
}

proof fn lemma_first_dot_at(s: Seq<char>, k: int)
    requires
        0 <= k <= s.len(),
        forall|j: int| 0 <= j < k ==> s[j] != '.',
        k < s.len() ==> s[k] == '.',
    ensures
        first_dot(s) == k,
    decreases k,
{
    if k == 0 {
    } else {
        let t = s.subrange(1, s.len() as int);
        assert forall|j: int| 0 <= j < k - 1 implies t[j] != '.' by {
            assert(t[j] == s[j + 1]);
        }
        lemma_first_dot_at(t, k - 1);
    }
}

proof fn lemma_digits_val_nonneg(s: Seq<char>)
    requires
        all_digits(s),
    ensures
        digits_val(s) >= 0,
    decreases s.len(),
{
    if s.len() > 0 {
        lemma_digits_val_nonneg(s.drop_last());
    }
}

proof fn lemma_digits_val_upper(s: Seq<char>)
    requires
        all_digits(s),
    ensures
        0 <= digits_val(s) < pow10(s.len()),
    decreases s.len(),
{
    if s.len() == 0 {
    } else {
        lemma_digits_val_upper(s.drop_last());
    }
}

proof fn lemma_digits_prefix(s: Seq<char>, k: int)
    requires
        all_digits(s),
        0 <= k <= s.len(),
    ensures
        digits_val(s.subrange(0, k)) <= digits_val(s),
    decreases s.len(),
{
    lemma_digits_val_nonneg(s);
    if k == s.len() {
        assert(s.subrange(0, k) =~= s);
    } else {
        let head = s.drop_last();
        lemma_digits_val_nonneg(head);
        assert(s.subrange(0, k) =~= head.subrange(0, k));
        lemma_digits_prefix(head, k);
    }
}

/// Once the integer digits alone exceed the cap, no suffix can make the
/// literal parse: its value would exceed `MAX_UNITS`.
proof fn lemma_unsigned_overflow(u: Seq<char>, k: int)
    requires
        0 <= k <= u.len(),
        all_digits(u.subrange(0, k)),
        digits_val(u.subrange(0, k)) > 10_000_000_000,
    ensures
        parse_unsigned_units(u) is None,
{
    let pre = u.subrange(0, k);
    lemma_first_dot_char(u);
    let d = first_dot(u);
    if d < k {
        assert(spec_is_digit(pre[d]));
    }
    let ip = u.subrange(0, d);
    if ip.len() >= 1 && all_digits(ip) {
        assert(ip.subrange(0, k) =~= pre);
        lemma_digits_prefix(ip, k);
        vstd::arithmetic::mul::lemma_mul_inequality(
            10_000_000_001,
            digits_val(ip),
            SCALE as int,
        );
        if d < u.len() {
            let fp = u.subrange(d + 1, u.len() as int);
            if 1 <= fp.len() <= 9 && all_digits(fp) {
                lemma_digits_val_nonneg(fp);
                lemma_pow10_pos((9 - fp.len()) as nat);
                vstd::arithmetic::mul::lemma_mul_nonnegative(
                    digits_val(fp),
                    pow10((9 - fp.len()) as nat),
                );
            }
        }
    }
}

/// Whether the character at index `i` is an ASCII digit.
fn is_digit_at(s: &str, i: usize) -> (r: bool)
    requires
        i < s@.len(),
    ensures
        r == spec_is_digit(s@[i as int]),
{
    let c: char = s.get_char(i);
    let cu: u32 = c as u32;
    48 <= cu && cu <= 57
}

impl Dec {
    /// Parse a decimal literal: an optional minus sign, integer digits, and
    /// optionally a dot with one to nine fraction digits. `None` when the
    /// shape is wrong or the magnitude exceeds `MAX_UNITS`.
    pub fn parse(s: &str) -> (r: Option<Dec>)
        ensures
            r is Some <==> parse_units(s@) is Some,
            r matches Some(d) ==> parse_units(s@) == Some(d.units as int) && in_range(
                d.units as int,
            ),
    {
        let n: usize = s.unicode_len();
        let neg: bool = n > 0 && s.get_char(0) == '-';
        let off: usize = if neg {
            1
        } else {
            0
        };
        let ghost u: Seq<char> = s@.subrange(off as int, n as int);
        proof {
            if !neg {
                assert(u =~= s@);
            }
        }
        // integer digits
        let mut i: usize = off;
        let mut acc: i128 = 0;
        while i < n && is_digit_at(s, i)
            invariant
                off <= i <= n,
                n == s@.len(),
                off == if neg { 1int } else { 0int },
                neg ==> s@.len() > 0 && s@[0] == '-',
                !neg ==> !(s@.len() > 0 && s@[0] == '-'),
                !neg ==> u == s@,
                u == s@.subrange(off as int, n as int),
                acc == digits_val(u.subrange(0, i - off)),
                all_digits(u.subrange(0, i - off)),
                0 <= acc <= 100_000_000_009,
            decreases n - i,
        {
            if acc > 10_000_000_000 {
                proof {
                    lemma_unsigned_overflow(u, i - off);
                }
                return None;
            }
            let c: char = s.get_char(i);
            let d: u32 = (c as u32) - 48;
            acc = acc * 10 + (d as i128);
            proof {
                assert(u.subrange(0, i + 1 - off).drop_last() =~= u.subrange(0, i - off));
                assert(u.subrange(0, i + 1 - off).last() == s@[i as int]);
            }
            i = i + 1;
        }
        let int_end: usize = i;
        if int_end == off {
            // no integer digits: the literal cannot parse
            proof {
                lemma_first_dot_char(u);
                if u.len() > 0 && u[0] != '.' {
                    let d = first_dot(u);
                    assert(!spec_is_digit(u.subrange(0, d)[0]));
                }
            }
            return None;
        }
        if i == n {
            // digits only: a whole number
            proof {
                assert(u.subrange(0, (n - off) as int) =~= u);
                assert forall|j: int| 0 <= j < u.len() implies u[j] != '.' by {
                    assert(spec_is_digit(u[j]));
                }
                lemma_first_dot_at(u, u.len() as int);
                assert(u.subrange(0, u.len() as int) =~= u);
            }
            let units: i128 = acc * SCALE;
            if units > MAX_UNITS {
                return None;
            }
            let r: i128 = if neg {
                -units
            } else {
                units
            };
            return Some(Dec { units: r });
        }
        let c: char = s.get_char(i);
        if c != '.' {
            // an integer digit run ended at a character that is neither a
            // digit nor a dot
            proof {
                lemma_first_dot_char(u);
                let d = first_dot(u);
                if d < i - off {
                    assert(spec_is_digit(u.subrange(0, (i - off) as int)[d]));
                }
                assert(!spec_is_digit(u.subrange(0, d)[(i - off) as int]));
            }
            return None;
        }
        i = i + 1;
        let ghost dpos: int = i - 1 - off;
        proof {
            assert forall|j: int| 0 <= j < dpos implies u[j] != '.' by {
                assert(spec_is_digit(u.subrange(0, dpos)[j]));
            }
            lemma_first_dot_at(u, dpos);
        }
        // fraction digits
        let frac_start: usize = i;
        let mut facc: i128 = 0;
        while i < n && is_digit_at(s, i)
            invariant
                frac_start <= i <= n,
                n == s@.len(),
                off == if neg { 1int } else { 0int },
                neg ==> s@.len() > 0 && s@[0] == '-',
                !neg ==> !(s@.len() > 0 && s@[0] == '-'),
                !neg ==> u == s@,
                off + 1 <= frac_start,
                frac_start - off - 1 == dpos,
                u == s@.subrange(off as int, n as int),
                dpos == first_dot(u),
                i - frac_start <= 9,
                facc == digits_val(u.subrange(frac_start - off, i - off)),
                all_digits(u.subrange(frac_start - off, i - off)),
            decreases n - i,
        {
            if i - frac_start == 9 {
                // a tenth fraction digit: the fraction part is too long
                proof {
                    assert(u.subrange(dpos + 1, u.len() as int).len() >= 10);
                }
                return None;
            }
            proof {
                lemma_digits_val_upper(u.subrange(frac_start - off, i - off));
                lemma_pow10_bounds((i - frac_start) as nat);
                lemma_pow10_le((i - frac_start) as nat, 8);
                assert(pow10(8) == 100_000_000) by {
                    reveal_with_fuel(pow10, 9);
                }
            }
            let c2: char = s.get_char(i);
            let d2: u32 = (c2 as u32) - 48;
            facc = facc * 10 + (d2 as i128);
            proof {
                assert(u.subrange(frac_start - off, i + 1 - off).drop_last() =~= u.subrange(
                    frac_start - off,
                    i - off,
                ));
                assert(u.subrange(frac_start - off, i + 1 - off).last() == s@[i as int]);
            }
            i = i + 1;
        }
        if i < n {
            // a non-digit inside the fraction part
            proof {
                let fp = u.subrange(dpos + 1, u.len() as int);
                assert(!spec_is_digit(fp[i - off - (dpos + 1)]));
            }
            return None;
        }
        let frac_len: usize = n - frac_start;
        if frac_len == 0 {
            // a dot with no fraction digits
            proof {
                assert(u.subrange(dpos + 1, u.len() as int).len() == 0);
            }
            return None;
        }
        proof {
            assert(u.subrange(dpos + 1, u.len() as int) =~= u.subrange(
                frac_start - off,
                n - off,
            ));
            lemma_digits_val_upper(u.subrange(frac_start - off, n - off));
            lemma_pow10_bounds(frac_len as nat);
            lemma_pow10_bounds((9 - frac_len) as nat);
            assert(u.subrange(0, dpos) =~= u.subrange(0, int_end - off));
        }
        let p: i128 = pow10_exec(9 - (frac_len as u32));
        proof {
            assert(0 <= facc * p <= 1_000_000_000_000_000_000) by (nonlinear_arith)
                requires
                    0 <= facc <= 1_000_000_000,
                    0 <= p <= 1_000_000_000,
            ;
        }
        let units: i128 = acc * SCALE + facc * p;
        if units > MAX_UNITS {
            return None;
        }
        let r: i128 = if neg {
            -units
        } else {
            units
        };
        Some(Dec { units: r })
    }

    /// Parse a decimal literal, or give zero when it does not parse.
    /// Render the value canonically: an optional minus sign, the whole
    /// part, and the fraction with its trailing zeros trimmed.
    pub fn to_decimal_string(&self) -> (r: String)
        requires
            self.units > i128::MIN,
        ensures
            r@ == dec_str(self.units as int),
    {
        let neg: bool = self.units < 0;
        let mag: u128 = if neg {
            (-self.units) as u128
        } else {
            self.units as u128
        };
        let whole: u128 = mag / 1_000_000_000;
        let frac0: u128 = mag % 1_000_000_000;
        let mut s: String = String::new();
        if neg {
            s.append("-");
            proof {
                reveal_strlit("-");
                assert(s@ =~= seq!['-']);
            }
        }
        push_digits(&mut s, whole);
        if frac0 != 0 {
            s.append(".");
            proof {
                reveal_strlit(".");
            }
            let mut f: u128 = frac0;
            let mut width: u32 = 9;
            proof {
                assert(pow10(9) == 1_000_000_000) by {
                    reveal_with_fuel(pow10, 10);
                }
            }
            while f % 10 == 0
                invariant
                    1 <= width <= 9,
                    0 < f,
                    f < pow10(width as nat),
                    frac_str(f as int, width as nat) == frac_str(frac0 as int, 9),
                decreases width,
            {
                proof {
                    lemma_pow10_step((width - 1) as nat);
                    lemma_fundamental_div_mod(f as int, 10);
                    if width == 1 {
                        assert(f < 10);
                        assert(f % 10 == f);
                    }
                }
                f = f / 10;
                width = width - 1;
            }
            push_fixed_digits(&mut s, f, width);
            proof {
                assert(frac_str(f as int, width as nat) == fixed_digits(f as int, width as nat));
                assert(s@ =~= dec_str(self.units as int));
            }
        } else {
            proof {
                assert(s@ =~= dec_str(self.units as int));
            }
        }
        s
    }

    pub fn parse_or_zero(s: &str) -> (r: Dec)
        ensures
            r.units == parse_default_units(s@),
            in_range(r.units as int),
    {
        match Dec::parse(s) {
            Some(d) => d,
            None => Dec { units: 0 },
        }
    }
}

proof fn lemma_pow10_pos(e: nat)
    ensures
        pow10(e) >= 1,
    decreases e,
{
    if e > 0 {
        lemma_pow10_pos((e - 1) as nat);
    }
}

proof fn lemma_pow10_le(a: nat, b: nat)
    requires
        a <= b,
    ensures
        1 <= pow10(a) <= pow10(b),
    decreases b,
{
    lemma_pow10_pos(a);
    if a < b {
        lemma_pow10_le(a, (b - 1) as nat);
        lemma_pow10_pos((b - 1) as nat);
    }
}

} // verus!
