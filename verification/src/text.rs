//! Text as the rest of the library needs it: comparing, searching, cutting and joining strings,
//! and writing numbers down.
//!
//! Every function here states its result over the characters of its arguments.

use vstd::prelude::*;
use vstd::string::StrSliceExecFns;
use vstd::string::StringExecFns;

verus! {

/// The views of the elements of a sequence.
pub open spec fn views<T: View>(s: Seq<T>) -> Seq<T::V> {
    s.map_values(|x: T| x@)
}

/// The view of what an option holds.
pub open spec fn view_of<T: View>(o: Option<T>) -> Option<T::V> {
    match o {
        Some(x) => Some(x@),
        None => None,
    }
}

/// Pushing an element pushes its view.
pub broadcast proof fn views_push<T: View>(s: Seq<T>, x: T)
    ensures
        #[trigger] views(s.push(x)) == views(s).push(x@),
{
    assert(views(s.push(x)) =~= views(s).push(x@));
}

/// Whether `a` comes before `b`, reading both from character `i` on.
pub open spec fn less_from(a: Seq<char>, b: Seq<char>, i: nat) -> bool
    decreases a.len() - i,
{
    if i >= b.len() {
        false
    } else if i >= a.len() {
        true
    } else if a[i as int] == b[i as int] {
        less_from(a, b, i + 1)
    } else {
        (a[i as int] as u32) < (b[i as int] as u32)
    }
}

/// Lexicographic order by code point, which is the order of Rust's strings.
pub open spec fn less(a: Seq<char>, b: Seq<char>) -> bool {
    less_from(a, b, 0)
}

/// Nothing comes before itself.
pub proof fn less_irreflexive(a: Seq<char>, i: nat)
    ensures
        !less_from(a, a, i),
    decreases a.len() - i,
{
    if i < a.len() {
        less_irreflexive(a, i + 1);
    }
}

/// What comes before something comes before everything that it comes before.
pub proof fn less_transitive(a: Seq<char>, b: Seq<char>, c: Seq<char>, i: nat)
    requires
        less_from(a, b, i),
        less_from(b, c, i),
    ensures
        less_from(a, c, i),
    decreases a.len() - i,
{
    if i < a.len() && a[i as int] == b[i as int] && b[i as int] == c[i as int] {
        less_transitive(a, b, c, i + 1);
    }
}

proof fn codes_differ(a: char, b: char)
    requires
        a != b,
    ensures
        a as u32 != b as u32,
{
}

/// Of two different strings that agree up to character `i`, one comes before the other.
pub proof fn less_total(a: Seq<char>, b: Seq<char>, i: nat)
    requires
        i <= a.len(),
        i <= b.len(),
        forall|k: int| 0 <= k < i ==> #[trigger] a[k] == b[k],
    ensures
        a == b || less_from(a, b, i) || less_from(b, a, i),
    decreases a.len() - i,
{
    if i < a.len() && i < b.len() && a[i as int] == b[i as int] {
        less_total(a, b, i + 1);
    } else if i == a.len() && i == b.len() {
        assert(a =~= b);
    } else if i < a.len() && i < b.len() {
        codes_differ(a[i as int], b[i as int]);
    }
}

/// Whether a list is in ascending order, without repeats.
pub open spec fn is_ascending(list: Seq<Seq<char>>) -> bool {
    forall|i: int, j: int| 0 <= i < j < list.len() ==> less(#[trigger] list[i], #[trigger] list[j])
}

/// The characters of a string.
pub fn chars(s: &str) -> (r: Vec<char>)
    ensures
        r@ == s@,
{
    let mut r: Vec<char> = Vec::new();
    for c in it: s.chars()
        invariant
            r@ == s@.take(it.index()),
            it.seq() == s@,
    {
        r.push(c);
        assert(s@.take(it.index() + 1) =~= s@.take(it.index()).push(c));
    }
    assert(s@.take(s@.len() as int) =~= s@);
    r
}

/// Whether two strings are the same.
pub fn same(a: &str, b: &str) -> (r: bool)
    ensures
        r == (a@ == b@),
{
    a.to_string() == b.to_string()
}

/// Whether a text is empty.
pub fn is_empty(s: &str) -> (r: bool)
    ensures
        r == (s@.len() == 0),
{
    proof {
        reveal_strlit("");
    }
    assert(s@.len() == 0 ==> s@ =~= ""@);
    same(s, "")
}

/// Whether `a` comes strictly before `b`.
pub fn before(a: &str, b: &str) -> (r: bool)
    ensures
        r == less(a@, b@),
{
    let x = chars(a);
    let y = chars(b);
    let mut i: usize = 0;
    while i < x.len() && i < y.len() && x[i] == y[i]
        invariant
            i <= x.len(),
            i <= y.len(),
            less_from(x@, y@, 0) == less_from(x@, y@, i as nat),
        decreases x.len() - i,
    {
        i = i + 1;
    }
    if i >= y.len() {
        false
    } else if i >= x.len() {
        true
    } else {
        (x[i] as u32) < (y[i] as u32)
    }
}


/// The decimal digit `d`.
pub open spec fn digit(d: nat) -> char {
    (48 + d) as char
}

/// A number in decimal, without leading zeros.
pub open spec fn decimal(n: nat) -> Seq<char>
    decreases n,
{
    if n < 10 {
        seq![digit(n)]
    } else {
        decimal(n / 10).push(digit(n % 10))
    }
}

/// Different numbers are written differently.
pub proof fn decimal_injective(a: nat, b: nat)
    ensures
        decimal(a) == decimal(b) ==> a == b,
    decreases a,
{
    if decimal(a) == decimal(b) {
        decimal_length(a);
        decimal_length(b);
        if a < 10 && b < 10 {
            assert(decimal(a)[0] == decimal(b)[0]);
        } else if a >= 10 && b >= 10 {
            assert(decimal(a).drop_last() =~= decimal(a / 10));
            assert(decimal(b).drop_last() =~= decimal(b / 10));
            assert(decimal(a).last() == decimal(b).last());
            decimal_injective(a / 10, b / 10);
        }
    }
}

proof fn decimal_length(n: nat)
    ensures
        decimal(n).len() >= 1,
        n >= 10 ==> decimal(n).len() >= 2,
    decreases n,
{
    if n >= 10 {
        decimal_length(n / 10);
    }
}

/// The upper-case hexadecimal digit `d`.
pub open spec fn hex_digit(d: nat) -> char {
    if d < 10 {
        (48 + d) as char
    } else {
        (55 + d) as char
    }
}

/// The last `width` hexadecimal digits of a number, padded with zeros.
pub open spec fn hex(n: nat, width: nat) -> Seq<char>
    decreases width,
{
    if width == 0 {
        seq![]
    } else {
        hex(n / 16, (width - 1) as nat).push(hex_digit(n % 16))
    }
}

fn hex_digit_text(d: u32) -> (r: &'static str)
    requires
        d < 16,
    ensures
        r@ == seq![hex_digit(d as nat)],
{
    proof {
        reveal_strlit("0");
        reveal_strlit("1");
        reveal_strlit("2");
        reveal_strlit("3");
        reveal_strlit("4");
        reveal_strlit("5");
        reveal_strlit("6");
        reveal_strlit("7");
        reveal_strlit("8");
        reveal_strlit("9");
        reveal_strlit("A");
        reveal_strlit("B");
        reveal_strlit("C");
        reveal_strlit("D");
        reveal_strlit("E");
        reveal_strlit("F");
    }
    match d {
        0 => "0",
        1 => "1",
        2 => "2",
        3 => "3",
        4 => "4",
        5 => "5",
        6 => "6",
        7 => "7",
        8 => "8",
        9 => "9",
        10 => "A",
        11 => "B",
        12 => "C",
        13 => "D",
        14 => "E",
        _ => "F",
    }
}

/// Writes a number in decimal.
pub fn decimal_text(n: u64) -> (r: String)
    ensures
        r@ == decimal(n as nat),
    decreases n,
{
    let last = hex_digit_text((n % 10) as u32);
    if n < 10 {
        last.to_string()
    } else {
        let mut r = decimal_text(n / 10);
        r.append(last);
        assert(r@ =~= decimal(n as nat / 10).push(digit(n as nat % 10)));
        r
    }
}

/// Writes the last `width` hexadecimal digits of a number.
pub fn hex_text(n: u32, width: u32) -> (r: String)
    ensures
        r@ == hex(n as nat, width as nat),
    decreases width,
{
    if width == 0 {
        String::new()
    } else {
        let mut r = hex_text(n / 16, width - 1);
        r.append(hex_digit_text(n % 16));
        assert(r@ =~= hex(n as nat / 16, (width - 1) as nat).push(hex_digit(n as nat % 16)));
        r
    }
}

/// Whether `s` begins with `prefix`.
pub open spec fn begins(s: Seq<char>, prefix: Seq<char>) -> bool {
    prefix.len() <= s.len() && s.take(prefix.len() as int) == prefix
}

/// Whether `s` ends with `suffix`.
pub open spec fn ends(s: Seq<char>, suffix: Seq<char>) -> bool {
    suffix.len() <= s.len() && s.skip(s.len() - suffix.len()) == suffix
}

/// Whether `part` stands in `s` at position `i`.
pub open spec fn stands_at(s: Seq<char>, part: Seq<char>, i: int) -> bool {
    0 <= i && i + part.len() <= s.len() && s.subrange(i, i + part.len()) == part
}

/// Whether `part` stands anywhere in `s`.
pub open spec fn holds(s: Seq<char>, part: Seq<char>) -> bool {
    exists|i: int| stands_at(s, part, i)
}

fn stands(s: &Vec<char>, part: &Vec<char>, at: usize) -> (r: bool)
    requires
        at + part.len() <= s.len(),
    ensures
        r == stands_at(s@, part@, at as int),
{
    let mut i: usize = 0;
    while i < part.len()
        invariant
            i <= part.len(),
            at + part.len() <= s.len(),
            forall|k: int| 0 <= k < i ==> s@[at + k] == part@[k],
        decreases part.len() - i,
    {
        if s[at + i] != part[i] {
            assert(s@.subrange(at as int, at + part.len())[i as int] != part@[i as int]);
            return false;
        }
        i = i + 1;
    }
    assert(s@.subrange(at as int, at + part.len()) =~= part@);
    true
}

/// Whether `s` begins with `prefix`.
pub fn starts_with(s: &str, prefix: &str) -> (r: bool)
    ensures
        r == begins(s@, prefix@),
{
    let x = chars(s);
    let y = chars(prefix);
    if y.len() > x.len() {
        return false;
    }
    assert(s@.take(y.len() as int) =~= s@.subrange(0, 0 + y.len()));
    stands(&x, &y, 0)
}

/// Whether `s` ends with `suffix`.
pub fn ends_with(s: &str, suffix: &str) -> (r: bool)
    ensures
        r == ends(s@, suffix@),
{
    let x = chars(s);
    let y = chars(suffix);
    if y.len() > x.len() {
        return false;
    }
    let at = x.len() - y.len();
    assert(s@.skip(at as int) =~= s@.subrange(at as int, at + y.len()));
    stands(&x, &y, at)
}

/// Whether `part` stands anywhere in `s`.
pub fn contains(s: &str, part: &str) -> (r: bool)
    ensures
        r == holds(s@, part@),
{
    let x = chars(s);
    let y = chars(part);
    if y.len() > x.len() {
        return false;
    }
    let last = x.len() - y.len();
    let mut i: usize = 0;
    while i <= last
        invariant
            x@ == s@,
            y@ == part@,
            i <= last + 1,
            last + y.len() == x.len(),
            forall|k: int| 0 <= k < i ==> !stands_at(s@, part@, k),
        decreases last + 1 - i,
    {
        if stands(&x, &y, i) {
            return true;
        }
        if i == last {
            return false;
        }
        i = i + 1;
    }
    false
}

/// The characters that Unicode counts as white space.
pub open spec fn is_space(c: char) -> bool {
    let n = c as u32;
    ||| 9 <= n <= 13
    ||| n == 32
    ||| n == 0x85
    ||| n == 0xA0
    ||| n == 0x1680
    ||| 0x2000 <= n <= 0x200A
    ||| n == 0x2028
    ||| n == 0x2029
    ||| n == 0x202F
    ||| n == 0x205F
    ||| n == 0x3000
}

fn space(c: char) -> (r: bool)
    ensures
        r == is_space(c),
{
    let n = c as u32;
    (9 <= n && n <= 13) || n == 32 || n == 0x85 || n == 0xA0 || n == 0x1680 || (0x2000 <= n && n
        <= 0x200A) || n == 0x2028 || n == 0x2029 || n == 0x202F || n == 0x205F || n == 0x3000
}

/// A string without the white space before it and after it.
pub open spec fn trimmed(s: Seq<char>) -> Seq<char>
    decreases s.len(),
{
    if s.len() == 0 {
        s
    } else if is_space(s[0]) {
        trimmed(s.drop_first())
    } else if is_space(s.last()) {
        trimmed(s.drop_last())
    } else {
        s
    }
}

/// A string without the white space before it and after it.
pub fn trim(s: &str) -> (r: String)
    ensures
        r@ == trimmed(s@),
{
    let x = chars(s);
    let mut lo: usize = 0;
    let mut hi: usize = x.len();
    assert(s@.subrange(0, hi as int) =~= s@);
    while lo < hi && space(x[lo])
        invariant
            x@ == s@,
            lo <= hi,
            hi == x.len(),
            trimmed(s@) == trimmed(s@.subrange(lo as int, hi as int)),
        decreases hi - lo,
    {
        assert(s@.subrange(lo as int, hi as int).drop_first() =~= s@.subrange(lo + 1, hi as int));
        lo = lo + 1;
    }
    while lo < hi && space(x[hi - 1])
        invariant
            x@ == s@,
            lo <= hi <= x.len(),
            lo < hi ==> !is_space(s@[lo as int]),
            trimmed(s@) == trimmed(s@.subrange(lo as int, hi as int)),
        decreases hi,
    {
        assert(s@.subrange(lo as int, hi as int).drop_last() =~= s@.subrange(lo as int, hi - 1));
        hi = hi - 1;
    }
    s.substring_char(lo, hi).to_string()
}

/// The part of a string before its first `.`, or all of it.
pub open spec fn first_label(s: Seq<char>) -> Seq<char>
    decreases s.len(),
{
    if s.len() == 0 || s[0] == '.' {
        seq![]
    } else {
        seq![s[0]] + first_label(s.drop_first())
    }
}

proof fn first_label_is_prefix(s: Seq<char>, n: int)
    requires
        0 <= n <= s.len(),
        forall|k: int| 0 <= k < n ==> s[k] != '.',
        n < s.len() ==> s[n] == '.',
    ensures
        first_label(s) == s.take(n),
    decreases s.len(),
{
    if n == 0 {
        assert(s.take(0) =~= seq![]);
    } else {
        first_label_is_prefix(s.drop_first(), n - 1);
        assert(s.take(n) =~= seq![s[0]] + s.drop_first().take(n - 1));
    }
}

/// The part of a string before its first `.`, or all of it.
pub fn up_to_dot(s: &str) -> (r: String)
    ensures
        r@ == first_label(s@),
{
    let x = chars(s);
    let mut n: usize = 0;
    while n < x.len() && x[n] != '.'
        invariant
            x@ == s@,
            n <= x.len(),
            forall|k: int| 0 <= k < n ==> s@[k] != '.',
        decreases x.len() - n,
    {
        n = n + 1;
    }
    proof {
        first_label_is_prefix(s@, n as int);
        assert(s@.subrange(0, n as int) =~= s@.take(n as int));
    }
    s.substring_char(0, n).to_string()
}

/// At most the first `n` characters of a string.
pub open spec fn first_chars(s: Seq<char>, n: nat) -> Seq<char> {
    if s.len() <= n {
        s
    } else {
        s.take(n as int)
    }
}

/// At most the first `n` characters of a string.
pub fn prefix(s: &str, n: usize) -> (r: String)
    ensures
        r@ == first_chars(s@, n as nat),
{
    let len = chars(s).len();
    if len <= n {
        s.to_string()
    } else {
        assert(s@.subrange(0, n as int) =~= s@.take(n as int));
        s.substring_char(0, n).to_string()
    }
}

/// A character with ASCII letters brought to lower case.
pub open spec fn lower(c: char) -> u32 {
    if 65 <= c as u32 <= 90 {
        (c as u32 + 32) as u32
    } else {
        c as u32
    }
}

/// Whether two strings differ at most in the case of ASCII letters.
pub open spec fn same_letters(a: Seq<char>, b: Seq<char>) -> bool {
    a.len() == b.len() && forall|i: int| 0 <= i < a.len() ==> lower(a[i]) == lower(b[i])
}

fn lower_of(c: char) -> (r: u32)
    ensures
        r == lower(c),
{
    let n = c as u32;
    if 65 <= n && n <= 90 {
        n + 32
    } else {
        n
    }
}

/// Whether two strings differ at most in the case of ASCII letters.
pub fn same_ignoring_case(a: &str, b: &str) -> (r: bool)
    ensures
        r == same_letters(a@, b@),
{
    let x = chars(a);
    let y = chars(b);
    if x.len() != y.len() {
        return false;
    }
    let mut i: usize = 0;
    while i < x.len()
        invariant
            x@ == a@,
            y@ == b@,
            x.len() == y.len(),
            i <= x.len(),
            forall|k: int| 0 <= k < i ==> lower(x@[k]) == lower(y@[k]),
        decreases x.len() - i,
    {
        if lower_of(x[i]) != lower_of(y[i]) {
            return false;
        }
        i = i + 1;
    }
    true
}

/// The first `n` strings of a list, with a separator between each two.
pub open spec fn joined(list: Seq<Seq<char>>, n: nat, separator: Seq<char>) -> Seq<char>
    decreases n,
{
    if n == 0 {
        seq![]
    } else if n == 1 {
        list[0]
    } else {
        joined(list, (n - 1) as nat, separator) + separator + list[n - 1]
    }
}

/// The strings of a list, with a separator between each two.
pub fn join(list: &Vec<String>, separator: &str) -> (r: String)
    ensures
        r@ == joined(views(list@), list.len() as nat, separator@),
{
    let mut r = String::new();
    let mut i: usize = 0;
    while i < list.len()
        invariant
            i <= list.len(),
            r@ == joined(views(list@), i as nat, separator@),
        decreases list.len() - i,
    {
        if i > 0 {
            r.append(separator);
        }
        r.append(list[i].as_str());
        i = i + 1;
        assert(r@ =~= joined(views(list@), i as nat, separator@));
    }
    r
}

/// Whether a list of strings has one of these characters.
pub fn has(list: &Vec<String>, s: &str) -> (r: bool)
    ensures
        r == views(list@).contains(s@),
{
    let mut i: usize = 0;
    while i < list.len()
        invariant
            i <= list.len(),
            forall|k: int| 0 <= k < i ==> views(list@)[k] != s@,
        decreases list.len() - i,
    {
        if same(list[i].as_str(), s) {
            assert(views(list@)[i as int] == s@);
            return true;
        }
        i = i + 1;
    }
    false
}

/// How many strings from position `i` on come before `s`, stopping at the first that does not,
/// counted from the start of the list.
pub open spec fn rank_from(list: Seq<Seq<char>>, s: Seq<char>, i: nat) -> nat
    decreases list.len() - i,
{
    if i < list.len() && less(list[i as int], s) {
        rank_from(list, s, i + 1)
    } else {
        i
    }
}

/// Where `s` belongs in an ascending list.
pub open spec fn rank(list: Seq<Seq<char>>, s: Seq<char>) -> nat {
    rank_from(list, s, 0)
}

/// A rank is a position of the list or its end, and everything before it comes before `s`.
pub proof fn rank_bounds(list: Seq<Seq<char>>, s: Seq<char>, i: nat)
    requires
        i <= list.len(),
    ensures
        i <= rank_from(list, s, i) <= list.len(),
        forall|k: int| i <= k < rank_from(list, s, i) ==> less(#[trigger] list[k], s),
        rank_from(list, s, i) < list.len() ==> !less(list[rank_from(list, s, i) as int], s),
    decreases list.len() - i,
{
    if i < list.len() && less(list[i as int], s) {
        rank_bounds(list, s, i + 1);
    }
}

/// A string put where it belongs keeps a list ascending.
pub proof fn insert_ascending(list: Seq<Seq<char>>, s: Seq<char>)
    requires
        is_ascending(list),
        !(rank(list, s) < list.len() && list[rank(list, s) as int] == s),
    ensures
        is_ascending(list.insert(rank(list, s) as int, s)),
{
    let r = rank(list, s);
    rank_bounds(list, s, 0);
    let after = list.insert(r as int, s);
    assert forall|i: int, j: int| 0 <= i < j < after.len() implies less(
        #[trigger] after[i],
        #[trigger] after[j],
    ) by {
        if r < list.len() {
            less_total(list[r as int], s, 0);
        }
        if i == r {
            if j > r + 1 {
                less_transitive(s, list[r as int], list[j - 1], 0);
            }
        } else if j == r {
            assert(less(list[i], s));
        } else {
            let x = if i < r {
                i
            } else {
                i - 1
            };
            let y = if j < r {
                j
            } else {
                j - 1
            };
            assert(less(list[x], list[y]));
        }
    }
}

/// An ascending list without repeats, with `s` in it.
pub open spec fn with_one(list: Seq<Seq<char>>, s: Seq<char>) -> Seq<Seq<char>> {
    let i = rank(list, s);
    if i < list.len() && list[i as int] == s {
        list
    } else {
        list.insert(i as int, s)
    }
}

/// The first `n` strings of a list in ascending order, each once.
pub open spec fn ascending(list: Seq<Seq<char>>, n: nat) -> Seq<Seq<char>>
    decreases n,
{
    if n == 0 {
        seq![]
    } else {
        with_one(ascending(list, (n - 1) as nat), list[n - 1])
    }
}

/// Adding a string to an ascending list keeps it ascending, adds nothing else, and adds nothing at
/// all where the string is there already.
pub proof fn with_one_adds_one(list: Seq<Seq<char>>, s: Seq<char>)
    requires
        is_ascending(list),
    ensures
        is_ascending(with_one(list, s)),
        list.contains(s) ==> with_one(list, s) == list,
        !list.contains(s) ==> with_one(list, s).len() == list.len() + 1,
        forall|x: Seq<char>|
            #[trigger] with_one(list, s).contains(x) <==> x == s || list.contains(x),
{
    let r = rank(list, s);
    rank_bounds(list, s, 0);
    let after = with_one(list, s);
    if r < list.len() && list[r as int] == s {
        assert(list.contains(s));
    } else {
        insert_ascending(list, s);
        if list.contains(s) {
            let k = choose|k: int| 0 <= k < list.len() && list[k] == s;
            less_irreflexive(s, 0);
            assert(k > r);
            assert(less(list[r as int], list[k]));
        }
        assert forall|x: Seq<char>|
            #[trigger] after.contains(x) <==> x == s || list.contains(x) by {
            if x == s {
                assert(after[r as int] == s);
            }
            if list.contains(x) {
                let k = choose|k: int| 0 <= k < list.len() && list[k] == x;
                if k < r {
                    assert(after[k] == x);
                } else {
                    assert(after[k + 1] == x);
                }
            }
            if after.contains(x) {
                let k = choose|k: int| 0 <= k < after.len() && after[k] == x;
                if k < r {
                    assert(list[k] == x);
                } else if k > r {
                    assert(list[k - 1] == x);
                }
            }
        }
    }
}

/// Putting strings in ascending order keeps each of them, once, and adds nothing.
pub proof fn ascending_keeps_strings(list: Seq<Seq<char>>, n: nat)
    requires
        n <= list.len(),
    ensures
        is_ascending(ascending(list, n)),
        forall|x: Seq<char>|
            #[trigger] ascending(list, n).contains(x) <==> list.take(n as int).contains(x),
    decreases n,
{
    if n > 0 {
        ascending_keeps_strings(list, (n - 1) as nat);
        let rest = ascending(list, (n - 1) as nat);
        with_one_adds_one(rest, list[n - 1]);
        let some = list.take(n - 1);
        let all = list.take(n as int);
        assert(all =~= some.push(list[n - 1]));
        assert forall|x: Seq<char>|
            #[trigger] ascending(list, n).contains(x) <==> all.contains(x) by {
            assert(rest.contains(x) <==> some.contains(x));
            if some.contains(x) {
                let k = choose|k: int| 0 <= k < some.len() && some[k] == x;
                assert(all[k] == x);
            }
            if x == list[n - 1] {
                assert(all[n - 1] == x);
            }
            if all.contains(x) {
                let k = choose|k: int| 0 <= k < all.len() && all[k] == x;
                if k < n - 1 {
                    assert(some[k] == x);
                }
            }
        }
    }
}

/// A list with one more string has that one and those it had.
pub proof fn contains_push(list: Seq<Seq<char>>, x: Seq<char>, y: Seq<char>)
    ensures
        list.push(x).contains(y) <==> list.contains(y) || x == y,
{
    let after = list.push(x);
    if list.contains(y) {
        let k = choose|k: int| 0 <= k < list.len() && list[k] == y;
        assert(after[k] == y);
    }
    if x == y {
        assert(after[list.len() as int] == y);
    }
    if after.contains(y) {
        let k = choose|k: int| 0 <= k < after.len() && after[k] == y;
        if k < list.len() {
            assert(list[k] == y);
        }
    }
}

/// Puts a string into an ascending list unless it is there already.
pub fn add_one(list: &mut Vec<String>, s: &str)
    ensures
        views(final(list)@) == with_one(views(old(list)@), s@),
{
    let mut i: usize = 0;
    while i < list.len() && before(list[i].as_str(), s)
        invariant
            i <= list.len(),
            list@ == old(list)@,
            rank(views(list@), s@) == rank_from(views(list@), s@, i as nat),
        decreases list.len() - i,
    {
        i = i + 1;
    }
    assert(rank(views(list@), s@) == i);
    if i < list.len() && same(list[i].as_str(), s) {
        return;
    }
    list.insert(i, s.to_string());
    assert(views(list@) =~= views(old(list)@).insert(i as int, s@));
}

} // verus!
