//! The arithmetic that levels and palettes need, done exactly on decimal numbers.

use vstd::prelude::*;
use vstd::string::StringExecFns;
use crate::json;
use crate::json::{JView, Json, Number, NumberView};
use crate::text;
use crate::wire;

verus! {

/// A decimal number: `digits` times ten to the power `exp`, negated where `neg` is set.
#[derive(Clone, Copy, Debug, PartialEq)]
pub struct Decimal {
    pub neg: bool,
    pub digits: u64,
    pub exp: i32,
}

/// The most digits that a fraction may have, and the largest exponent that is read.
pub const MOST: u64 = 1_000_000;

/// Whether a character is a decimal digit.
pub open spec fn is_digit(c: char) -> bool {
    48 <= c as u32 <= 57
}

/// Whether the characters from `lo` up to `hi` are digits.
pub open spec fn digits_between(t: Seq<char>, lo: int, hi: int) -> bool {
    forall|k: int| lo <= k < hi ==> is_digit(#[trigger] t[k])
}

/// The number that `acc` becomes when the digits from `lo` up to `hi` are written behind it.
pub open spec fn extended(acc: nat, t: Seq<char>, lo: int, hi: int) -> nat
    decreases hi - lo,
{
    if hi <= lo {
        acc
    } else {
        (10 * extended(acc, t, lo, hi - 1) + (t[hi - 1] as u32 - 48)) as nat
    }
}

/// Where one of two characters first stands from `lo` on, or `hi`.
pub open spec fn first_of(t: Seq<char>, lo: int, hi: int, a: char, b: char) -> int
    decreases hi - lo,
{
    if lo >= hi {
        hi
    } else if t[lo] == a || t[lo] == b {
        lo
    } else {
        first_of(t, lo + 1, hi, a, b)
    }
}

/// The decimal number that a text spells: an optional minus sign, digits, an optional fraction and
/// an optional exponent. Nothing where the text is no such number, where its digits do not fit, or
/// where its fraction or exponent is beyond [`MOST`].
pub open spec fn reading(t: Seq<char>) -> Option<Decimal> {
    let len = t.len() as int;
    let neg = len > 0 && t[0] == '-';
    let start: int = if neg {
        1
    } else {
        0
    };
    let e = first_of(t, start, len, 'e', 'E');
    let p = first_of(t, start, e, '.', '.');
    let fraction: int = if p < e {
        e - p - 1
    } else {
        0
    };
    let mantissa = extended(extended(0, t, start, p), t, p + 1, e);
    let signed = e + 1 < len && (t[e + 1] == '-' || t[e + 1] == '+');
    let minus = e + 1 < len && t[e + 1] == '-';
    let from = if signed {
        e + 2
    } else {
        e + 1
    };
    let power = extended(0, t, from, len);
    if p <= start || !digits_between(t, start, p) || (p < e && fraction == 0) || !digits_between(
        t,
        p + 1,
        e,
    ) || mantissa > u64::MAX || fraction > MOST {
        None
    } else if e >= len {
        Some(Decimal { neg, digits: mantissa as u64, exp: (0 - fraction) as i32 })
    } else if from >= len || !digits_between(t, from, len) || power > MOST {
        None
    } else if minus {
        Some(Decimal { neg, digits: mantissa as u64, exp: (0 - power - fraction) as i32 })
    } else {
        Some(Decimal { neg, digits: mantissa as u64, exp: (power - fraction) as i32 })
    }
}

/// The decimal number that a JSON number is.
pub open spec fn decimal_of(n: NumberView) -> Option<Decimal> {
    match n {
        NumberView::PosInt(u) => Some(Decimal { neg: false, digits: u, exp: 0 }),
        NumberView::NegInt(i) => Some(
            Decimal {
                neg: true,
                digits: if i < 0 {
                    (0 - i) as u64
                } else {
                    0
                },
                exp: 0,
            },
        ),
        NumberView::Float(t) => reading(t),
    }
}

/// Ten to the power `k`.
pub open spec fn pow10(k: nat) -> nat
    decreases k,
{
    if k == 0 {
        1
    } else {
        10 * pow10((k - 1) as nat)
    }
}

/// The magnitude of a decimal number, rounded to the nearest integer, halves away from zero.
pub open spec fn rounded(d: Decimal) -> nat {
    if d.exp >= 0 {
        d.digits as nat * pow10(d.exp as nat)
    } else {
        let p = pow10((0 - d.exp) as nat);
        (2 * d.digits as nat + p) / (2 * p)
    }
}

/// The level of a light that is on: its brightness rounded, at least 1 and at most 100.
pub open spec fn level_of(d: Decimal) -> u64 {
    if d.neg || rounded(d) < 1 {
        1
    } else if rounded(d) > 100 {
        100
    } else {
        rounded(d) as u64
    }
}

/// Whether the magnitude of a decimal number is more than `k`.
pub open spec fn above(d: Decimal, k: nat) -> bool {
    if d.exp >= 0 {
        d.digits as nat * pow10(d.exp as nat) > k
    } else {
        d.digits as nat > k * pow10((0 - d.exp) as nat)
    }
}

/// Whether a decimal number is at least 0 and at most 1.
pub open spec fn within_unit(d: Decimal) -> bool {
    if d.neg {
        d.digits == 0
    } else {
        !above(d, 1)
    }
}

/// The level that a brightness stands for, where there is one.
pub open spec fn brightness(v: Option<JView>) -> Option<u64> {
    match json::as_number(v) {
        Some(n) => match decimal_of(n) {
            Some(d) => Some(level_of(d)),
            None => None,
        },
        None => None,
    }
}

/// A number brought between 0 and 100.
pub open spec fn percent(n: NumberView) -> NumberView {
    match decimal_of(n) {
        Some(d) => if d.neg && d.digits > 0 {
            NumberView::Float("0.0"@)
        } else if !d.neg && above(d, 100) {
            NumberView::Float("100.0"@)
        } else {
            n
        },
        None => n,
    }
}

/// A number as a floating-point number is written.
pub open spec fn floated(n: NumberView) -> Option<NumberView> {
    match n {
        NumberView::PosInt(u) => Some(NumberView::Float(wire::float_spelling(u))),
        NumberView::NegInt(i) => Some(
            NumberView::Float(
                "-"@ + wire::float_spelling(
                    if i < 0 {
                        (0 - i) as u64
                    } else {
                        0
                    },
                ),
            ),
        ),
        NumberView::Float(t) => if reading(t) is Some {
            Some(n)
        } else {
            None
        },
    }
}

/// A whole number as a floating-point number is written.
pub open spec fn whole(n: u8) -> JView {
    JView::Num(NumberView::Float(text::decimal(n as nat) + ".0"@))
}

proof fn extended_grows(acc: nat, t: Seq<char>, lo: int, mid: int, hi: int)
    requires
        lo <= mid <= hi,
        digits_between(t, lo, hi),
    ensures
        extended(acc, t, lo, mid) <= extended(acc, t, lo, hi),
    decreases hi - mid,
{
    if mid < hi {
        extended_grows(acc, t, lo, mid, hi - 1);
        assert(is_digit(t[hi - 1]));
    }
}

proof fn first_of_bounds(t: Seq<char>, lo: int, hi: int, a: char, b: char)
    requires
        lo <= hi,
    ensures
        lo <= first_of(t, lo, hi, a, b) <= hi,
    decreases hi - lo,
{
    if lo < hi && t[lo] != a && t[lo] != b {
        first_of_bounds(t, lo + 1, hi, a, b);
    }
}

fn first_place(t: &Vec<char>, lo: usize, hi: usize, a: char, b: char) -> (r: usize)
    requires
        lo <= hi <= t.len(),
    ensures
        r == first_of(t@, lo as int, hi as int, a, b),
        lo <= r <= hi,
{
    let mut i: usize = lo;
    while i < hi && t[i] != a && t[i] != b
        invariant
            lo <= i <= hi <= t.len(),
            first_of(t@, lo as int, hi as int, a, b) == first_of(t@, i as int, hi as int, a, b),
        decreases hi - i,
    {
        i = i + 1;
    }
    i
}

/// Writes the digits from `lo` up to `hi` behind `acc`.
fn extend(acc: u64, t: &Vec<char>, lo: usize, hi: usize) -> (r: Option<u64>)
    requires
        lo <= hi <= t.len(),
    ensures
        match r {
            Some(n) => digits_between(t@, lo as int, hi as int) && n == extended(
                acc as nat,
                t@,
                lo as int,
                hi as int,
            ),
            None => !digits_between(t@, lo as int, hi as int) || extended(
                acc as nat,
                t@,
                lo as int,
                hi as int,
            ) > u64::MAX,
        },
{
    let mut n: u64 = acc;
    let mut i: usize = lo;
    while i < hi
        invariant
            lo <= i <= hi <= t.len(),
            digits_between(t@, lo as int, i as int),
            n == extended(acc as nat, t@, lo as int, i as int),
        decreases hi - i,
    {
        let c = t[i] as u32;
        if c < 48 || c > 57 {
            assert(!is_digit(t@[i as int]));
            return None;
        }
        let wide: u128 = 10 * (n as u128) + ((c - 48) as u128);
        assert(wide == extended(acc as nat, t@, lo as int, i + 1));
        if wide > u64::MAX as u128 {
            proof {
                if digits_between(t@, lo as int, hi as int) {
                    extended_grows(acc as nat, t@, lo as int, i + 1, hi as int);
                }
            }
            return None;
        }
        n = wide as u64;
        i = i + 1;
    }
    Some(n)
}

/// Reads the decimal number that a text spells.
pub fn read(s: &str) -> (r: Option<Decimal>)
    ensures
        r == reading(s@),
{
    let t = text::chars(s);
    let len = t.len();
    let neg = len > 0 && t[0] == '-';
    let start: usize = if neg {
        1
    } else {
        0
    };
    let e = first_place(&t, start, len, 'e', 'E');
    let p = first_place(&t, start, e, '.', '.');
    if p <= start {
        return None;
    }
    let whole_part = match extend(0, &t, start, p) {
        Some(n) => n,
        None => {
            proof {
                if digits_between(s@, start as int, p as int) && digits_between(s@, p + 1, e as int)
                {
                    extended_keeps(extended(0, s@, start as int, p as int), s@, p + 1, e as int);
                }
            }
            return None;
        },
    };
    let fraction: usize = if p < e {
        e - p - 1
    } else {
        0
    };
    if p < e && fraction == 0 {
        return None;
    }
    let digits = if p < e {
        match extend(whole_part, &t, p + 1, e) {
            Some(n) => n,
            None => {
                return None;
            },
        }
    } else {
        whole_part
    };
    if fraction as u64 > MOST {
        return None;
    }
    if e >= len {
        return Some(Decimal { neg, digits, exp: 0 - (fraction as i32) });
    }
    let minus = e + 1 < len && t[e + 1] == '-';
    let signed = e + 1 < len && (t[e + 1] == '-' || t[e + 1] == '+');
    let from: usize = if signed {
        e + 2
    } else {
        e + 1
    };
    if from >= len {
        return None;
    }
    match extend(0, &t, from, len) {
        Some(power) => {
            if power > MOST {
                None
            } else if minus {
                Some(Decimal { neg, digits, exp: 0 - (power as i32) - (fraction as i32) })
            } else {
                Some(Decimal { neg, digits, exp: (power as i32) - (fraction as i32) })
            }
        },
        None => None,
    }
}

proof fn extended_keeps(acc: nat, t: Seq<char>, lo: int, hi: int)
    requires
        digits_between(t, lo, hi),
    ensures
        extended(acc, t, lo, hi) >= acc,
    decreases hi - lo,
{
    if lo < hi {
        extended_keeps(acc, t, lo, hi - 1);
        assert(is_digit(t[hi - 1]));
    }
}

/// The decimal number that a JSON number is.
pub fn as_decimal(n: &Number) -> (r: Option<Decimal>)
    ensures
        r == decimal_of(n@),
{
    match n {
        Number::PosInt(u) => Some(Decimal { neg: false, digits: *u, exp: 0 }),
        Number::NegInt(i) => Some(Decimal { neg: true, digits: magnitude(*i), exp: 0 }),
        Number::Float(t) => read(t.as_str()),
    }
}

fn magnitude(i: i64) -> (r: u64)
    ensures
        r == if i < 0 {
            (0 - i) as u64
        } else {
            0
        },
{
    if i < 0 {
        if i == i64::MIN {
            9223372036854775808
        } else {
            (0 - i) as u64
        }
    } else {
        0
    }
}

proof fn pow10_positive(k: nat)
    ensures
        pow10(k) >= 1,
    decreases k,
{
    if k > 0 {
        pow10_positive((k - 1) as nat);
    }
}

proof fn pow10_grows(i: nat, j: nat)
    requires
        i <= j,
    ensures
        pow10(i) <= pow10(j),
    decreases j,
{
    if i < j {
        pow10_grows(i, (j - 1) as nat);
    }
}

proof fn pow10_large(k: nat)
    requires
        k >= 20,
    ensures
        pow10(k) >= 100_000_000_000_000_000_000,
    decreases k,
{
    if k == 20 {
        reveal_with_fuel(pow10, 21);
    } else {
        pow10_large((k - 1) as nat);
    }
}

/// Ten to the power `k`, for the powers that can matter.
fn power_of_ten(k: u32) -> (r: u128)
    requires
        k < 20,
    ensures
        r == pow10(k as nat),
        1 <= r <= 10_000_000_000_000_000_000,
{
    let mut r: u128 = 1;
    let mut i: u32 = 0;
    assert(pow10(19) == 10_000_000_000_000_000_000) by {
        reveal_with_fuel(pow10, 20);
    }
    while i < k
        invariant
            i <= k < 20,
            r == pow10(i as nat),
            1 <= r,
            r <= 10_000_000_000_000_000_000,
            pow10(19) == 10_000_000_000_000_000_000,
        decreases k - i,
    {
        i = i + 1;
        proof {
            pow10_grows(i as nat, 19);
        }
        r = r * 10;
    }
    r
}

/// The magnitude of a decimal number with a non-negative exponent, or 101 where it is more.
fn scaled(d: Decimal) -> (r: u64)
    requires
        d.exp >= 0,
    ensures
        r <= 101,
        d.digits as nat * pow10(d.exp as nat) <= 100 ==> r == d.digits as nat * pow10(d.exp as nat),
        d.digits as nat * pow10(d.exp as nat) > 100 ==> r == 101,
{
    let ghost product = d.digits as nat * pow10(d.exp as nat);
    let mut v: u64 = d.digits;
    let mut k: i32 = d.exp;
    while k > 0 && v <= 100 && v > 0
        invariant
            0 <= k <= d.exp,
            product == v as nat * pow10(k as nat),
        decreases k,
    {
        assert(v as nat * pow10(k as nat) == (v * 10) as nat * pow10((k - 1) as nat))
            by (nonlinear_arith)
            requires
                pow10(k as nat) == 10 * pow10((k - 1) as nat),
        ;
        v = v * 10;
        k = k - 1;
    }
    proof {
        pow10_positive(k as nat);
        assert(v > 100 ==> v as nat * pow10(k as nat) > 100) by (nonlinear_arith)
            requires
                pow10(k as nat) >= 1,
        ;
        assert(v == 0 ==> v as nat * pow10(k as nat) == 0) by (nonlinear_arith);
        assert(k == 0 ==> v as nat * pow10(k as nat) == v) by (nonlinear_arith)
            requires
                k == 0 ==> pow10(k as nat) == 1,
        ;
    }
    if v > 100 {
        101
    } else {
        v
    }
}

/// The level of a light that is on.
pub fn level(d: Decimal) -> (r: u64)
    ensures
        r == level_of(d),
        1 <= r <= 100,
{
    if d.neg {
        return 1;
    }
    let n: u64 = if d.exp >= 0 {
        scaled(d)
    } else if d.exp <= -20 {
        proof {
            let p = pow10((0 - d.exp) as nat);
            pow10_large((0 - d.exp) as nat);
            assert((2 * d.digits as nat + p) / (2 * p) == 0) by (nonlinear_arith)
                requires
                    2 * d.digits as nat + p < 2 * p,
                    p > 0,
            ;
        }
        0
    } else {
        let p = power_of_ten((0 - d.exp) as u32);
        let q: u128 = (2 * (d.digits as u128) + p) / (2 * p);
        if q > 100 {
            101
        } else {
            q as u64
        }
    };
    if n < 1 {
        1
    } else if n > 100 {
        100
    } else {
        n
    }
}

/// Whether the magnitude of a decimal number is more than `k`.
pub fn is_above(d: Decimal, k: u64) -> (r: bool)
    requires
        1 <= k <= 100,
    ensures
        r == above(d, k as nat),
{
    if d.exp >= 0 {
        scaled(d) > k
    } else if d.exp <= -20 {
        proof {
            let p = pow10((0 - d.exp) as nat);
            pow10_large((0 - d.exp) as nat);
            assert(k as nat * p >= p) by (nonlinear_arith)
                requires
                    k >= 1,
            ;
        }
        false
    } else {
        let p = power_of_ten((0 - d.exp) as u32);
        assert(k as nat * p as nat <= 100 * 10_000_000_000_000_000_000) by (nonlinear_arith)
            requires
                k <= 100,
                p <= 10_000_000_000_000_000_000,
        ;
        (d.digits as u128) > (k as u128) * p
    }
}

/// Whether a number is at least 0 and at most 1.
pub fn is_within_unit(d: Decimal) -> (r: bool)
    ensures
        r == within_unit(d),
{
    if d.neg {
        d.digits == 0
    } else {
        !is_above(d, 1)
    }
}

/// The level that a brightness stands for, where there is one.
pub fn brightness_of(v: Option<&Json>) -> (r: Option<u64>)
    ensures
        r == brightness(text::view_of(v)),
        r matches Some(n) ==> 1 <= n <= 100,
{
    match json::number_of(v) {
        Some(n) => match as_decimal(n) {
            Some(d) => Some(level(d)),
            None => None,
        },
        None => None,
    }
}

/// A number brought between 0 and 100.
pub fn as_percent(n: &Number) -> (r: Number)
    ensures
        r@ == percent(n@),
{
    match as_decimal(n) {
        Some(d) => {
            if d.neg && d.digits > 0 {
                Number::Float("0.0".to_string())
            } else if !d.neg && is_above(d, 100) {
                Number::Float("100.0".to_string())
            } else {
                n.clone()
            }
        },
        None => n.clone(),
    }
}

/// A number as a floating-point number is written.
pub fn as_float(n: &Number) -> (r: Option<Number>)
    ensures
        text::view_of(r) == floated(n@),
{
    match n {
        Number::PosInt(u) => Some(Number::Float(wire::float_text(*u))),
        Number::NegInt(i) => {
            let mut t = "-".to_string();
            let digits = wire::float_text(magnitude(*i));
            t.append(digits.as_str());
            Some(Number::Float(t))
        },
        Number::Float(t) => match read(t.as_str()) {
            Some(_) => Some(n.clone()),
            None => None,
        },
    }
}

/// A whole number as a floating-point number is written.
pub fn whole_float(n: u8) -> (r: Json)
    ensures
        r@ == whole(n),
{
    let mut t = text::decimal_text(n as u64);
    t.append(".0");
    Json::Num(Number::Float(t))
}

/// The colour temperature of so many kelvin in mireds, as far as a bulb goes.
pub open spec fn mirek_of(kelvin: u64) -> u64 {
    let k: u64 = if kelvin < 1 {
        1
    } else {
        kelvin
    };
    let m: u64 = 1_000_000u64 / k;
    if m < 153 {
        153
    } else if m > 500 {
        500
    } else {
        m
    }
}

/// The colour temperature of so many kelvin in mireds, as far as a bulb goes.
pub fn mirek(kelvin: u64) -> (r: u64)
    ensures
        r == mirek_of(kelvin),
        153 <= r <= 500,
{
    let k: u64 = if kelvin < 1 {
        1
    } else {
        kelvin
    };
    let m: u64 = 1_000_000 / k;
    if m < 153 {
        153
    } else if m > 500 {
        500
    } else {
        m
    }
}

} // verus!
