//! Laws of texts and numbers: what is written, what is read, and how it is ordered.

use vstd::prelude::*;
use crate::json::{JView, NumberView};
use crate::number;
use crate::number::Decimal;
use crate::text;

verus! {

/// A number below ten is written with its digit, and any other with its last digit behind the rest.
pub proof fn a_number_is_written_in_decimal(q: nat, r: nat)
    requires
        r < 10,
    ensures
        text::decimal(r) == seq![(48 + r) as char],
        q > 0 ==> text::decimal(10 * q + r) == text::decimal(q).push((48 + r) as char),
{
    assert((10 * q + r) / 10 == q && (10 * q + r) % 10 == r) by (nonlinear_arith)
        requires
            r < 10,
    ;
}

/// A number is written in hexadecimal, in capitals, with its last digit behind the rest, and filled
/// up with zeros in front.
pub proof fn a_number_is_written_in_hexadecimal(q: nat, r: nat, width: nat)
    requires
        r < 16,
    ensures
        text::hex(16 * q + r, width + 1) == text::hex(q, width).push("0123456789ABCDEF"@[r as int]),
        text::hex(q, 0) == Seq::<char>::empty(),
        text::hex(q, width).len() == width,
{
    reveal_strlit("0123456789ABCDEF");
    assert((16 * q + r) / 16 == q && (16 * q + r) % 16 == r) by (nonlinear_arith)
        requires
            r < 16,
    ;
    hex_length(q, width);
}

proof fn hex_length(n: nat, width: nat)
    ensures
        text::hex(n, width).len() == width,
    decreases width,
{
    if width > 0 {
        hex_length(n / 16, (width - 1) as nat);
    }
}

/// Whether a text is nothing but space.
pub open spec fn is_blank(s: Seq<char>) -> bool {
    forall|i: int| 0 <= i < s.len() ==> text::is_space(#[trigger] s[i])
}

/// Trimming takes the space in front of a text and behind it, and nothing else.
pub proof fn trimming_takes_the_space_around(s: Seq<char>) -> (cut: (Seq<char>, Seq<char>))
    ensures
        s == cut.0 + text::trimmed(s) + cut.1,
        is_blank(cut.0),
        is_blank(cut.1),
        text::trimmed(s).len() > 0 ==> !text::is_space(text::trimmed(s)[0]) && !text::is_space(
            text::trimmed(s).last(),
        ),
    decreases s.len(),
{
    let none = Seq::<char>::empty();
    if s.len() == 0 {
        assert(s =~= none + s + none);
        (none, none)
    } else if text::is_space(s[0]) {
        let (a, b) = trimming_takes_the_space_around(s.drop_first());
        assert(s =~= seq![s[0]] + s.drop_first());
        assert(s =~= (seq![s[0]] + a) + text::trimmed(s) + b);
        (seq![s[0]] + a, b)
    } else if text::is_space(s.last()) {
        let (a, b) = trimming_takes_the_space_around(s.drop_last());
        assert(s =~= s.drop_last().push(s.last()));
        assert(s =~= a + text::trimmed(s) + b.push(s.last()));
        (a, b.push(s.last()))
    } else {
        assert(s =~= none + s + none);
        (none, none)
    }
}

/// Space is what counts as white space in any script, and nothing that is seen.
pub proof fn space_is_not_seen(c: char)
    requires
        33 <= c as u32 <= 126,
    ensures
        !text::is_space(c),
        text::is_space(' '),
        text::is_space('\t'),
        text::is_space('\n'),
        text::is_space('\r'),
{
}

/// The first label of a name is what stands before its first point, or all of it.
pub proof fn a_label_ends_at_the_first_point(s: Seq<char>)
    ensures
        ({
            let label = text::first_label(s);
            &&& label.len() <= s.len()
            &&& s.take(label.len() as int) == label
            &&& forall|i: int| 0 <= i < label.len() ==> #[trigger] label[i] != '.'
            &&& label.len() < s.len() ==> s[label.len() as int] == '.'
        }),
    decreases s.len(),
{
    let label = text::first_label(s);
    if s.len() > 0 && s[0] != '.' {
        let rest = s.drop_first();
        a_label_ends_at_the_first_point(rest);
        let tail = text::first_label(rest);
        assert(label =~= seq![s[0]] + tail);
        assert forall|i: int| 0 <= i < label.len() implies #[trigger] label[i] != '.' && s[i]
            == label[i] by {
            if i > 0 {
                assert(label[i] == tail[i - 1]);
                assert(rest.take(tail.len() as int)[i - 1] == tail[i - 1]);
            }
        }
        assert(s.take(label.len() as int) =~= label);
    } else {
        assert(s.take(0) =~= seq![]);
    }
}

/// The first characters of a text are as many of it as there are, up to a number.
pub proof fn a_prefix_is_as_long_as_it_may_be(s: Seq<char>, n: nat)
    ensures
        text::first_chars(s, n).len() == if s.len() < n {
            s.len()
        } else {
            n
        },
        text::first_chars(s, n) == s.take(text::first_chars(s, n).len() as int),
{
    assert(s.take(s.len() as int) =~= s);
}

/// Joining two lists is joining each and putting the separator between them; one text joined is
/// itself, and none is nothing.
pub proof fn joining_puts_a_separator_between(
    a: Seq<Seq<char>>,
    b: Seq<Seq<char>>,
    separator: Seq<char>,
)
    requires
        a.len() > 0,
        b.len() > 0,
    ensures
        text::joined(a + b, (a + b).len(), separator) == text::joined(a, a.len(), separator)
            + separator + text::joined(b, b.len(), separator),
        text::joined(seq![a[0]], 1, separator) == a[0],
        text::joined(a, 0, separator) == Seq::<char>::empty(),
{
    joined_upto(a, b, b.len(), separator);
}

proof fn joined_upto(a: Seq<Seq<char>>, b: Seq<Seq<char>>, n: nat, separator: Seq<char>)
    requires
        a.len() > 0,
        1 <= n <= b.len(),
    ensures
        text::joined(a + b, a.len() + n, separator) == text::joined(a, a.len(), separator)
            + separator + text::joined(b, n, separator),
    decreases n,
{
    if n == 1 {
        joined_same(a + b, a, a.len(), separator);
        assert((a + b)[a.len() as int] == b[0]);
    } else {
        joined_upto(a, b, (n - 1) as nat, separator);
        let x = text::joined(a, a.len(), separator);
        let y = text::joined(b, (n - 1) as nat, separator);
        let last = b[n - 1];
        assert((a + b)[a.len() + n - 1] == last);
        assert((x + separator + y) + separator + last =~= x + separator + (y + separator + last));
    }
}

proof fn joined_same(a: Seq<Seq<char>>, b: Seq<Seq<char>>, n: nat, separator: Seq<char>)
    requires
        n <= a.len(),
        n <= b.len(),
        forall|i: int| 0 <= i < n ==> a[i] == b[i],
    ensures
        text::joined(a, n, separator) == text::joined(b, n, separator),
    decreases n,
{
    if n > 1 {
        joined_same(a, b, (n - 1) as nat, separator);
    }
}

/// Whether two texts differ first at a place, where the one is over or has the lesser character.
pub open spec fn parts_at(a: Seq<char>, b: Seq<char>, i: int) -> bool {
    &&& 0 <= i < b.len()
    &&& i <= a.len()
    &&& a.take(i) == b.take(i)
    &&& i < a.len() ==> (a[i] as u32) < (b[i] as u32)
}

/// One text comes before another exactly where it is over first, or has the lesser character, at
/// the first place where they differ.
pub proof fn texts_come_by_their_first_difference(a: Seq<char>, b: Seq<char>)
    ensures
        text::less(a, b) <==> exists|i: int| #[trigger] parts_at(a, b, i),
{
    if text::less(a, b) {
        assert(a.take(0) =~= b.take(0));
        let i = first_difference(a, b, 0);
        assert(parts_at(a, b, i));
    }
    if exists|i: int| #[trigger] parts_at(a, b, i) {
        let i = choose|i: int| #[trigger] parts_at(a, b, i);
        difference_decides(a, b, 0, i as nat);
    }
}

proof fn first_difference(a: Seq<char>, b: Seq<char>, i: nat) -> (k: int)
    requires
        text::less_from(a, b, i),
        i <= a.len(),
        i <= b.len(),
        a.take(i as int) == b.take(i as int),
    ensures
        parts_at(a, b, k),
    decreases a.len() - i,
{
    if i < a.len() && a[i as int] == b[i as int] {
        assert(a.take((i + 1) as int) =~= a.take(i as int).push(a[i as int]));
        assert(b.take((i + 1) as int) =~= b.take(i as int).push(b[i as int]));
        first_difference(a, b, i + 1)
    } else {
        i as int
    }
}

proof fn difference_decides(a: Seq<char>, b: Seq<char>, i: nat, k: nat)
    requires
        parts_at(a, b, k as int),
        i <= k,
    ensures
        text::less_from(a, b, i),
    decreases k - i,
{
    if i < k {
        assert(a.take(k as int)[i as int] == b.take(k as int)[i as int]);
        difference_decides(a, b, i + 1, k);
    }
}

/// Whether two characters are the same letter, or the same otherwise.
pub open spec fn is_same_letter(a: char, b: char) -> bool {
    ||| a == b
    ||| (65 <= a as u32 <= 90 && b as u32 == a as u32 + 32)
    ||| (65 <= b as u32 <= 90 && a as u32 == b as u32 + 32)
}

/// Two texts are the same but for case exactly where they are as long, and each character of the
/// one is the same letter as that of the other.
pub proof fn case_makes_no_difference(a: Seq<char>, b: Seq<char>)
    ensures
        text::same_letters(a, b) <==> a.len() == b.len() && forall|i: int|
            0 <= i < a.len() ==> is_same_letter(#[trigger] a[i], b[i]),
{
    assert forall|i: int| 0 <= i < a.len() && i < b.len() implies (text::lower(a[i])
        == text::lower(b[i]) <==> is_same_letter(#[trigger] a[i], b[i])) by {
        letters(a[i], b[i]);
    }
}

proof fn letters(a: char, b: char)
    ensures
        text::lower(a) == text::lower(b) <==> is_same_letter(a, b),
{
}

/// The value of a row of digits.
pub open spec fn value(digits: Seq<char>) -> nat
    decreases digits.len(),
{
    if digits.len() == 0 {
        0
    } else {
        10 * value(digits.drop_last()) + (digits.last() as u32 - 48) as nat
    }
}

/// Whether a text is a row of digits.
pub open spec fn are_digits(s: Seq<char>) -> bool {
    forall|i: int| 0 <= i < s.len() ==> 48 <= (#[trigger] s[i]) as u32 <= 57
}

/// What is written in decimal is read back.
pub proof fn a_written_number_has_its_value(n: nat)
    ensures
        are_digits(text::decimal(n)),
        text::decimal(n).len() > 0,
        value(text::decimal(n)) == n,
    decreases n,
{
    if n >= 10 {
        a_written_number_has_its_value(n / 10);
        let rest = text::decimal(n / 10);
        let all = text::decimal(n);
        assert(all.drop_last() =~= rest);
        assert(n == 10 * (n / 10) + n % 10);
        assert forall|i: int| 0 <= i < all.len() implies 48 <= (#[trigger] all[i]) as u32 <= 57 by {
            if i < rest.len() {
                assert(all[i] == rest[i]);
            }
        }
    } else {
        let all = text::decimal(n);
        assert(all.drop_last() =~= seq![]);
        assert(value(all.drop_last()) == 0);
    }
}

proof fn extending_is_writing_behind(
    front: Seq<char>,
    t: Seq<char>,
    lo: int,
    hi: int,
)
    requires
        0 <= lo <= hi <= t.len(),
        forall|k: int| lo <= k < hi ==> 48 <= (#[trigger] t[k]) as u32 <= 57,
    ensures
        number::extended(value(front), t, lo, hi) == value(front + t.subrange(lo, hi)),
    decreases hi - lo,
{
    if lo < hi {
        extending_is_writing_behind(front, t, lo, hi - 1);
        let all = front + t.subrange(lo, hi);
        assert(all.drop_last() =~= front + t.subrange(lo, hi - 1));
        assert(all.last() == t[hi - 1]);
    } else {
        assert(front + t.subrange(lo, hi) =~= front);
    }
}

proof fn stands_first(t: Seq<char>, lo: int, k: int, hi: int, a: char, b: char)
    requires
        lo <= k <= hi,
        forall|i: int| lo <= i < k ==> #[trigger] t[i] != a && t[i] != b,
        k < hi ==> t[k] == a || t[k] == b,
    ensures
        number::first_of(t, lo, hi, a, b) == k,
    decreases k - lo,
{
    if lo < k {
        assert(t[lo] != a && t[lo] != b);
        stands_first(t, lo + 1, k, hi, a, b);
    }
}

/// The sign in front of a number.
pub open spec fn sign(neg: bool) -> Seq<char> {
    if neg {
        seq!['-']
    } else {
        seq![]
    }
}

/// The fraction behind a number.
pub open spec fn fraction(digits: Seq<char>) -> Seq<char> {
    if digits.len() > 0 {
        seq!['.'] + digits
    } else {
        seq![]
    }
}

/// A number is read as it is written, without an exponent: its sign, its digits before and behind
/// the point as one row, and how many of them stand behind it.
pub proof fn a_number_is_read_as_written(neg: bool, whole: Seq<char>, part: Seq<char>)
    requires
        whole.len() > 0,
        are_digits(whole),
        are_digits(part),
        part.len() <= number::MOST,
        value(whole + part) <= u64::MAX,
    ensures
        number::reading(sign(neg) + whole + fraction(part)) == Some(
            Decimal { neg, digits: value(whole + part) as u64, exp: (0 - part.len()) as i32 },
        ),
{
    let t = sign(neg) + whole + fraction(part);
    let len = t.len() as int;
    let start = sign(neg).len() as int;
    let p = start + whole.len();
    assert(forall|k: int| start <= k < p ==> #[trigger] t[k] == whole[k - start]);
    assert(forall|k: int| p < k < len ==> #[trigger] t[k] == part[k - p - 1]);
    assert(p < len ==> t[p] == '.');
    assert(t[0] == '-' <==> neg);
    assert forall|k: int| start <= k < len implies #[trigger] t[k] != 'e' && t[k] != 'E' by {
        if k < p {
            assert(48 <= whole[k - start] as u32 <= 57);
        } else if k > p {
            assert(48 <= part[k - p - 1] as u32 <= 57);
        }
    }
    stands_first(t, start, len, len, 'e', 'E');
    assert forall|k: int| start <= k < p implies #[trigger] t[k] != '.' by {
        assert(48 <= whole[k - start] as u32 <= 57);
    }
    stands_first(t, start, p, len, '.', '.');
    digits_are_read(t, start, p, len, whole, part);
}

proof fn digits_are_read(
    t: Seq<char>,
    start: int,
    p: int,
    e: int,
    whole: Seq<char>,
    part: Seq<char>,
)
    requires
        0 <= start,
        p == start + whole.len(),
        e == if part.len() > 0 {
            p + 1 + part.len()
        } else {
            p
        },
        e <= t.len(),
        are_digits(whole),
        are_digits(part),
        forall|k: int| start <= k < p ==> #[trigger] t[k] == whole[k - start],
        forall|k: int| p < k < e ==> #[trigger] t[k] == part[k - p - 1],
    ensures
        number::digits_between(t, start, p),
        number::digits_between(t, p + 1, e),
        number::extended(number::extended(0, t, start, p), t, p + 1, e) == value(whole + part),
{
    assert forall|k: int| start <= k < p implies number::is_digit(#[trigger] t[k]) by {
        assert(48 <= whole[k - start] as u32 <= 57);
    }
    assert forall|k: int| p + 1 <= k < e implies number::is_digit(#[trigger] t[k]) by {
        assert(48 <= part[k - p - 1] as u32 <= 57);
    }
    let none = Seq::<char>::empty();
    assert(value(none) == 0);
    extending_is_writing_behind(none, t, start, p);
    assert(none + t.subrange(start, p) =~= whole);
    if part.len() > 0 {
        extending_is_writing_behind(whole, t, p + 1, e);
        assert(t.subrange(p + 1, e) =~= part);
    } else {
        assert(whole + part =~= whole);
    }
}

/// The exponent behind a number: the letter, a sign where there is one, and its digits.
pub open spec fn exponent(capital: bool, signed: bool, minus: bool, digits: Seq<char>) -> Seq<
    char,
> {
    seq![
        if capital {
            'E'
        } else {
            'e'
        },
    ] + if minus {
        seq!['-']
    } else if signed {
        seq!['+']
    } else {
        seq![]
    } + digits
}

/// A number with an exponent is read as it is written: as the number before it, times ten to the
/// power of the exponent.
pub proof fn an_exponent_is_read_as_written(
    neg: bool,
    whole: Seq<char>,
    part: Seq<char>,
    capital: bool,
    signed: bool,
    minus: bool,
    power: Seq<char>,
)
    requires
        whole.len() > 0,
        are_digits(whole),
        are_digits(part),
        part.len() <= number::MOST,
        value(whole + part) <= u64::MAX,
        power.len() > 0,
        are_digits(power),
        value(power) <= number::MOST,
    ensures
        number::reading(
            sign(neg) + whole + fraction(part) + exponent(capital, signed, minus, power),
        ) == Some(
            Decimal {
                neg,
                digits: value(whole + part) as u64,
                exp: if minus {
                    (0 - value(power) - part.len()) as i32
                } else {
                    (value(power) - part.len()) as i32
                },
            },
        ),
{
    let tail = exponent(capital, signed, minus, power);
    let t = sign(neg) + whole + fraction(part) + tail;
    let len = t.len() as int;
    let start = sign(neg).len() as int;
    let p = start + whole.len();
    let e = p + fraction(part).len();
    let from = if minus || signed {
        e + 2
    } else {
        e + 1
    };
    assert(forall|k: int| start <= k < p ==> #[trigger] t[k] == whole[k - start]);
    assert(forall|k: int| p < k < e ==> #[trigger] t[k] == part[k - p - 1]);
    assert(p < e ==> t[p] == '.');
    assert(t[0] == '-' <==> neg);
    assert(t[e] == tail[0]);
    assert(forall|k: int| from <= k < len ==> #[trigger] t[k] == power[k - from]);
    assert forall|k: int| start <= k < e implies #[trigger] t[k] != 'e' && t[k] != 'E' by {
        if k < p {
            assert(48 <= whole[k - start] as u32 <= 57);
        } else if k > p {
            assert(48 <= part[k - p - 1] as u32 <= 57);
        }
    }
    stands_first(t, start, e, len, 'e', 'E');
    assert forall|k: int| start <= k < p implies #[trigger] t[k] != '.' by {
        assert(48 <= whole[k - start] as u32 <= 57);
    }
    stands_first(t, start, p, e, '.', '.');
    digits_are_read(t, start, p, e, whole, part);
    assert(48 <= power[0] as u32 <= 57);
    assert(e + 1 < len);
    assert(t[e + 1] == '-' <==> minus);
    assert((t[e + 1] == '-' || t[e + 1] == '+') <==> (minus || signed));
    assert forall|k: int| from <= k < len implies number::is_digit(#[trigger] t[k]) by {
        assert(48 <= power[k - from] as u32 <= 57);
    }
    let none = Seq::<char>::empty();
    assert(value(none) == 0);
    extending_is_writing_behind(none, t, from, len);
    assert(none + t.subrange(from, len) =~= power);
}

/// Ten to a power is ten times ten to the power before it.
pub proof fn a_power_of_ten_is_one(k: nat)
    ensures
        number::pow10(k) == vstd::arithmetic::power::pow(10, k),
        number::pow10(k) > 0,
    decreases k,
{
    reveal(vstd::arithmetic::power::pow);
    if k > 0 {
        a_power_of_ten_is_one((k - 1) as nat);
    }
}

/// A whole brightness is the level itself, at least one and at most a hundred.
pub proof fn a_whole_brightness_is_the_level(n: u64, i: i64)
    ensures
        number::brightness(Some(JView::Num(NumberView::PosInt(n)))) == Some(
            if n < 1 {
                1
            } else if n > 100 {
                100
            } else {
                n
            },
        ),
        number::brightness(Some(JView::Num(NumberView::NegInt(i)))) == Some(1u64),
{
    assert(number::pow10(0) == 1);
    assert(n as nat * 1 == n);
}

/// A brightness with a fraction is the nearest level, halves up, at least one and at most a
/// hundred; and one that is no number is none.
pub proof fn a_brightness_is_the_nearest_level(t: Seq<char>)
    ensures
        match number::reading(t) {
            Some(d) => {
                let scale = vstd::arithmetic::power::pow(
                    10,
                    if d.exp < 0 {
                        (-d.exp) as nat
                    } else {
                        d.exp as nat
                    },
                );
                number::brightness(Some(JView::Num(NumberView::Float(t)))) matches Some(level) && 1
                    <= level <= 100 && (d.neg ==> level == 1) && (!d.neg && d.exp < 0 ==> (level > 1
                    ==> (2 * level - 1) * scale <= 2 * d.digits || level == 100 && 199 * scale <= 2
                    * d.digits) && (level < 100 ==> 2 * d.digits < (2 * level + 1) * scale)) && (
                !d.neg && d.exp >= 0 ==> level == if d.digits * scale < 1 {
                    1
                } else if d.digits * scale > 100 {
                    100
                } else {
                    d.digits * scale
                })
            },
            None => number::brightness(Some(JView::Num(NumberView::Float(t)))) is None,
        },
{
    match number::reading(t) {
        Some(d) => {
            let k: nat = if d.exp < 0 {
                (-d.exp) as nat
            } else {
                d.exp as nat
            };
            a_power_of_ten_is_one(k);
            let p = number::pow10(k) as int;
            if d.exp < 0 {
                let n = d.digits as int;
                let q = (2 * n + p) / (2 * p);
                let level = number::level_of(d) as int;
                assert(q * (2 * p) <= 2 * n + p < (q + 1) * (2 * p)) by (nonlinear_arith)
                    requires
                        p > 0,
                        n >= 0,
                        q == (2 * n + p) / (2 * p),
                ;
                assert(number::rounded(d) == q);
                assert((2 * q - 1) * p <= 2 * n) by (nonlinear_arith)
                    requires
                        q * (2 * p) <= 2 * n + p,
                ;
                assert(2 * n < (2 * q + 1) * p) by (nonlinear_arith)
                    requires
                        2 * n + p < (q + 1) * (2 * p),
                ;
                if q > 100 {
                    assert(199 * p <= (2 * q - 1) * p) by (nonlinear_arith)
                        requires
                            q > 100,
                            p > 0,
                    ;
                }
                if q < 1 {
                    assert((2 * q + 1) * p <= 3 * p) by (nonlinear_arith)
                        requires
                            q < 1,
                            p > 0,
                    ;
                }
            }
        },
        None => {},
    }
}

} // verus!
