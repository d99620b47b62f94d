//! JSON values: what a bridge answers, what a device remembers and what a request carries.

use vstd::prelude::*;
use crate::text;

verus! {

/// A JSON number. An integer is held as one; any other number is held as the decimal text it is
/// written with.
#[derive(Debug, PartialEq)]
pub enum Number {
    PosInt(u64),
    /// Always less than zero.
    NegInt(i64),
    Float(String),
}

/// A JSON number, seen by its characters.
pub enum NumberView {
    PosInt(u64),
    NegInt(i64),
    Float(Seq<char>),
}

/// A JSON value.
#[derive(Debug, PartialEq)]
pub enum Json {
    Null,
    Bool(bool),
    Num(Number),
    Str(String),
    Arr(Vec<Json>),
    Obj(Object),
}

/// The members of a JSON object, in ascending order of their keys.
#[derive(Debug, PartialEq)]
pub struct Object {
    pub entries: Vec<(String, Json)>,
}

/// A JSON value, seen by its characters. An object is the sequence of its members.
pub enum JView {
    Null,
    Bool(bool),
    Num(NumberView),
    Str(Seq<char>),
    Arr(Seq<JView>),
    Obj(Seq<(Seq<char>, JView)>),
}

/// The members of an object: keys with values.
pub type Members = Seq<(Seq<char>, JView)>;

impl View for Number {
    type V = NumberView;

    open spec fn view(&self) -> NumberView {
        match self {
            Number::PosInt(n) => NumberView::PosInt(*n),
            Number::NegInt(n) => NumberView::NegInt(*n),
            Number::Float(t) => NumberView::Float(t@),
        }
    }
}

/// What a JSON value is.
pub open spec fn json_view(j: Json) -> JView
    decreases j,
{
    match j {
        Json::Null => JView::Null,
        Json::Bool(b) => JView::Bool(b),
        Json::Num(n) => JView::Num(n@),
        Json::Str(s) => JView::Str(s@),
        Json::Arr(items) => JView::Arr(
            Seq::new(
                items@.len(),
                |i: int|
                    if 0 <= i < items@.len() {
                        json_view(items@[i])
                    } else {
                        JView::Null
                    },
            ),
        ),
        Json::Obj(o) => JView::Obj(
            Seq::new(
                o.entries@.len(),
                |i: int|
                    if 0 <= i < o.entries@.len() {
                        (o.entries@[i].0@, json_view(o.entries@[i].1))
                    } else {
                        (Seq::empty(), JView::Null)
                    },
            ),
        ),
    }
}

impl View for Json {
    type V = JView;

    open spec fn view(&self) -> JView {
        json_view(*self)
    }
}

impl View for Object {
    type V = Members;

    open spec fn view(&self) -> Members {
        text::views(self.entries@)
    }
}

/// The view of a JSON array is the array of its items' views.
pub broadcast proof fn array_view(items: Vec<Json>)
    ensures
        #[trigger] Json::Arr(items)@ == JView::Arr(text::views(items@)),
{
    assert(Json::Arr(items)@->Arr_0 =~= text::views(items@));
}

/// The view of a JSON object is the object of its members.
pub broadcast proof fn object_view(o: Object)
    ensures
        #[trigger] Json::Obj(o)@ == JView::Obj(o@),
{
    assert(Json::Obj(o)@->Obj_0 =~= o@);
}

/// The value of the first of the first `n` members that has this key.
pub open spec fn find(members: Members, n: nat, key: Seq<char>) -> Option<JView>
    decreases n,
{
    if n == 0 {
        None
    } else {
        match find(members, (n - 1) as nat, key) {
            Some(v) => Some(v),
            None => if members[n - 1].0 == key {
                Some(members[n - 1].1)
            } else {
                None
            },
        }
    }
}

/// The value that an object has under a key.
pub open spec fn lookup(members: Members, key: Seq<char>) -> Option<JView> {
    find(members, members.len(), key)
}

/// What is found among the first members stays found.
pub proof fn find_stays(members: Members, n: nat, m: nat, key: Seq<char>)
    requires
        n <= m,
        find(members, n, key) is Some,
    ensures
        find(members, m, key) == find(members, n, key),
    decreases m,
{
    if n < m {
        find_stays(members, n, (m - 1) as nat, key);
    }
}

/// The keys of an object.
pub open spec fn keys(members: Members) -> Seq<Seq<char>> {
    members.map_values(|e: (Seq<char>, JView)| e.0)
}

/// An object with one key set.
pub open spec fn put(members: Members, key: Seq<char>, value: JView) -> Members {
    let i = text::rank(keys(members), key);
    if i < members.len() && members[i as int].0 == key {
        members.update(i as int, (key, value))
    } else {
        members.insert(i as int, (key, value))
    }
}

/// The first `n` members of an object but those with a key.
pub open spec fn without_upto(members: Members, n: nat, key: Seq<char>) -> Members
    decreases n,
{
    if n == 0 {
        seq![]
    } else {
        let rest = without_upto(members, (n - 1) as nat, key);
        if members[n - 1].0 == key {
            rest
        } else {
            rest.push(members[n - 1])
        }
    }
}

/// An object without a key.
pub open spec fn without(members: Members, key: Seq<char>) -> Members {
    without_upto(members, members.len(), key)
}

proof fn find_after_update(
    members: Members,
    i: int,
    n: nat,
    key: Seq<char>,
    value: JView,
    other: Seq<char>,
)
    requires
        0 <= i < members.len(),
        n <= members.len(),
        members[i].0 == key,
        other != key,
    ensures
        find(members.update(i, (key, value)), n, other) == find(members, n, other),
    decreases n,
{
    if n > 0 {
        find_after_update(members, i, (n - 1) as nat, key, value, other);
    }
}

proof fn find_after_insert(
    members: Members,
    i: int,
    n: nat,
    key: Seq<char>,
    value: JView,
    other: Seq<char>,
)
    requires
        0 <= i <= members.len(),
        n <= members.len() + 1,
        other != key,
    ensures
        n <= i ==> find(members.insert(i, (key, value)), n, other) == find(members, n, other),
        n > i ==> find(members.insert(i, (key, value)), n, other) == find(
            members,
            (n - 1) as nat,
            other,
        ),
    decreases n,
{
    if n > 0 {
        find_after_insert(members, i, (n - 1) as nat, key, value, other);
    }
}

proof fn find_none_before(members: Members, n: nat, key: Seq<char>)
    requires
        n <= members.len(),
        forall|k: int| 0 <= k < n ==> (#[trigger] members[k]).0 != key,
    ensures
        find(members, n, key) is None,
    decreases n,
{
    if n > 0 {
        find_none_before(members, (n - 1) as nat, key);
    }
}

/// What was put under a key is found there, and every other key keeps what it had.
pub broadcast proof fn lookup_put(members: Members, key: Seq<char>, value: JView, other: Seq<char>)
    ensures
        #[trigger] lookup(put(members, key, value), other) == if other == key {
            Some(value)
        } else {
            lookup(members, other)
        },
{
    let i = text::rank(keys(members), key);
    let after = put(members, key, value);
    text::rank_bounds(keys(members), key, 0);
    if other == key {
        assert forall|k: int| 0 <= k < i implies (#[trigger] after[k]).0 != key by {
            assert(text::less(keys(members)[k], key));
            assert(after[k] == members[k]);
            text::less_irreflexive(key, 0);
        }
        find_none_before(after, i, key);
        assert(after[i as int] == (key, value));
        find_stays(after, i + 1, after.len(), key);
    } else if i < members.len() && members[i as int].0 == key {
        find_after_update(members, i as int, members.len(), key, value, other);
    } else {
        find_after_insert(members, i as int, members.len() + 1, key, value, other);
    }
}

/// Of two values set under one key, the second stays.
pub proof fn put_put(members: Members, key: Seq<char>, first: JView, second: JView)
    ensures
        put(put(members, key, first), key, second) == put(members, key, second),
{
    let list = keys(members);
    let i = text::rank(list, key);
    text::rank_bounds(list, key, 0);
    text::less_irreflexive(key, 0);
    let once = put(members, key, first);
    let again = keys(once);
    assert(again[i as int] == key);
    assert forall|k: int| 0 <= k < i implies text::less(#[trigger] again[k], key) by {
        assert(again[k] == list[k]);
    }
    rank_is(again, key, 0, i);
    assert(put(once, key, second) =~= put(members, key, second));
}

proof fn rank_is(list: Seq<Seq<char>>, s: Seq<char>, i: nat, at: nat)
    requires
        i <= at < list.len(),
        !text::less(list[at as int], s),
        forall|k: int| 0 <= k < at ==> text::less(#[trigger] list[k], s),
    ensures
        text::rank_from(list, s, i) == at,
    decreases at - i,
{
    if i < at {
        rank_is(list, s, i + 1, at);
    }
}

proof fn find_push(members: Members, entry: (Seq<char>, JView), key: Seq<char>, n: nat)
    requires
        n <= members.len(),
    ensures
        find(members.push(entry), n, key) == find(members, n, key),
    decreases n,
{
    if n > 0 {
        find_push(members, entry, key, (n - 1) as nat);
    }
}

proof fn lookup_without_upto(members: Members, n: nat, key: Seq<char>, other: Seq<char>)
    requires
        n <= members.len(),
    ensures
        lookup(without_upto(members, n, key), other) == if other == key {
            None
        } else {
            find(members, n, other)
        },
    decreases n,
{
    if n > 0 {
        let rest = without_upto(members, (n - 1) as nat, key);
        lookup_without_upto(members, (n - 1) as nat, key, other);
        if members[n - 1].0 != key {
            find_push(rest, members[n - 1], other, rest.len());
        }
    }
}

/// A key that was removed is not found, and every other key keeps what it had.
pub broadcast proof fn lookup_without(members: Members, key: Seq<char>, other: Seq<char>)
    ensures
        #[trigger] lookup(without(members, key), other) == if other == key {
            None
        } else {
            lookup(members, other)
        },
{
    lookup_without_upto(members, members.len(), key, other);
}

/// Whether the keys of an object ascend, each once.
pub open spec fn ordered(members: Members) -> bool {
    text::is_ascending(keys(members))
}

/// Setting a key keeps the keys of an object ascending.
pub proof fn put_ordered(members: Members, key: Seq<char>, value: JView)
    requires
        ordered(members),
    ensures
        ordered(put(members, key, value)),
{
    let list = keys(members);
    let i = text::rank(list, key);
    text::rank_bounds(list, key, 0);
    let after = put(members, key, value);
    if i < members.len() && members[i as int].0 == key {
        assert(keys(after) =~= list);
    } else {
        text::insert_ascending(list, key);
        assert(keys(after) =~= list.insert(i as int, key));
    }
}

proof fn without_upto_ordered(members: Members, n: nat, key: Seq<char>)
    requires
        ordered(members),
        n <= members.len(),
    ensures
        ordered(without_upto(members, n, key)),
        forall|k: int|
            0 <= k < without_upto(members, n, key).len() ==> exists|i: int|
                0 <= i < n && members[i] == #[trigger] without_upto(members, n, key)[k],
    decreases n,
{
    if n > 0 {
        without_upto_ordered(members, (n - 1) as nat, key);
        let rest = without_upto(members, (n - 1) as nat, key);
        let after = without_upto(members, n, key);
        let last = keys(members)[n - 1];
        if members[n - 1].0 != key {
            assert forall|i: int, j: int| 0 <= i < j < keys(after).len() implies text::less(
                #[trigger] keys(after)[i],
                #[trigger] keys(after)[j],
            ) by {
                if j < rest.len() {
                    assert(text::less(keys(rest)[i], keys(rest)[j]));
                } else {
                    let m = choose|m: int| 0 <= m < n - 1 && members[m] == rest[i];
                    assert(text::less(keys(members)[m], last));
                }
            }
            assert forall|k: int| 0 <= k < after.len() implies exists|i: int|
                0 <= i < n && members[i] == #[trigger] after[k] by {
                if k < rest.len() {
                    assert(after[k] == rest[k]);
                    let m = choose|m: int| 0 <= m < n - 1 && members[m] == rest[k];
                    assert(members[m] == after[k]);
                } else {
                    assert(members[n - 1] == after[k]);
                }
            }
        }
    }
}

/// Removing a key keeps the keys of an object ascending.
pub proof fn without_ordered(members: Members, key: Seq<char>)
    requires
        ordered(members),
    ensures
        ordered(without(members, key)),
{
    without_upto_ordered(members, members.len(), key);
}

impl JView {
    /// The member of an object that has this key.
    pub open spec fn get(self, key: Seq<char>) -> Option<JView> {
        match self {
            JView::Obj(members) => lookup(members, key),
            _ => None,
        }
    }

    /// The member `b` of the member `a`.
    pub open spec fn get2(self, a: Seq<char>, b: Seq<char>) -> Option<JView> {
        match self.get(a) {
            Some(v) => v.get(b),
            None => None,
        }
    }

    /// The member `c` of the member `b` of the member `a`.
    pub open spec fn get3(self, a: Seq<char>, b: Seq<char>, c: Seq<char>) -> Option<JView> {
        match self.get2(a, b) {
            Some(v) => v.get(c),
            None => None,
        }
    }
}

/// The characters of a value that is a string.
pub open spec fn as_str(v: Option<JView>) -> Option<Seq<char>> {
    match v {
        Some(JView::Str(s)) => Some(s),
        _ => None,
    }
}

/// The truth of a value that is a Boolean.
pub open spec fn as_bool(v: Option<JView>) -> Option<bool> {
    match v {
        Some(JView::Bool(b)) => Some(b),
        _ => None,
    }
}

/// The number of a value that is a non-negative integer.
pub open spec fn as_u64(v: Option<JView>) -> Option<u64> {
    match v {
        Some(JView::Num(NumberView::PosInt(n))) => Some(n),
        _ => None,
    }
}

/// The number of a value that is one.
pub open spec fn as_number(v: Option<JView>) -> Option<NumberView> {
    match v {
        Some(JView::Num(n)) => Some(n),
        _ => None,
    }
}

/// The items of a value that is an array.
pub open spec fn as_array(v: Option<JView>) -> Option<Seq<JView>> {
    match v {
        Some(JView::Arr(items)) => Some(items),
        _ => None,
    }
}

/// The members of a value that is an object.
pub open spec fn as_object(v: Option<JView>) -> Option<Members> {
    match v {
        Some(JView::Obj(members)) => Some(members),
        _ => None,
    }
}

/// An optional string, or another one.
pub open spec fn str_or(v: Option<Seq<char>>, other: Seq<char>) -> Seq<char> {
    match v {
        Some(s) => s,
        None => other,
    }
}

/// An optional list, or the empty one.
pub open spec fn list_or_empty(v: Option<Seq<JView>>) -> Seq<JView> {
    match v {
        Some(s) => s,
        None => seq![],
    }
}

/// A value, or null where there is none.
pub open spec fn or_null(v: Option<JView>) -> JView {
    match v {
        Some(v) => v,
        None => JView::Null,
    }
}

/// The strings among the first `n` items.
pub open spec fn strings_upto(items: Seq<JView>, n: nat) -> Seq<Seq<char>>
    decreases n,
{
    if n == 0 {
        seq![]
    } else {
        let rest = strings_upto(items, (n - 1) as nat);
        match as_str(Some(items[n - 1])) {
            Some(s) => rest.push(s),
            None => rest,
        }
    }
}

/// The strings among the items of an array.
pub open spec fn strings(items: Seq<JView>) -> Seq<Seq<char>> {
    strings_upto(items, items.len())
}

/// The array of some strings.
pub open spec fn string_array(list: Seq<Seq<char>>) -> JView {
    JView::Arr(list.map_values(|s: Seq<char>| JView::Str(s)))
}

proof fn strings_of_strings(list: Seq<Seq<char>>, n: nat)
    requires
        n <= list.len(),
    ensures
        strings_upto(list.map_values(|s: Seq<char>| JView::Str(s)), n) == list.take(n as int),
    decreases n,
{
    if n > 0 {
        strings_of_strings(list, (n - 1) as nat);
        assert(list.take(n as int) =~= list.take(n - 1).push(list[n - 1]));
    } else {
        assert(list.take(0) =~= seq![]);
    }
}

/// A list of strings is read back as it was written.
pub proof fn strings_are_read_back(list: Seq<Seq<char>>)
    ensures
        as_array(Some(string_array(list))) matches Some(items) && strings(items)
            == list,
{
    strings_of_strings(list, list.len());
    assert(list.take(list.len() as int) =~= list);
}

/// The integer `n`.
pub open spec fn int_value(n: u64) -> JView {
    JView::Num(NumberView::PosInt(n))
}

/// An object with one member.
pub open spec fn one(key: Seq<char>, value: JView) -> Members {
    put(seq![], key, value)
}

/// An object with one key has that member and no other.
pub broadcast proof fn one_is_one(key: Seq<char>, value: JView)
    ensures
        #[trigger] one(key, value) == seq![(key, value)],
{
    let empty = Members::empty();
    assert(keys(empty) =~= seq![]);
    assert(put(empty, key, value) =~= seq![(key, value)]);
}

impl Clone for Number {
    fn clone(&self) -> (r: Self)
        ensures
            r@ == self@,
    {
        match self {
            Number::PosInt(n) => Number::PosInt(*n),
            Number::NegInt(n) => Number::NegInt(*n),
            Number::Float(t) => Number::Float(t.clone()),
        }
    }
}

impl Clone for Json {
    fn clone(&self) -> (r: Self)
        ensures
            r@ == self@,
        decreases self,
    {
        broadcast use array_view, object_view;

        match self {
            Json::Null => Json::Null,
            Json::Bool(b) => Json::Bool(*b),
            Json::Num(n) => Json::Num(n.clone()),
            Json::Str(s) => Json::Str(s.clone()),
            Json::Arr(items) => {
                let mut out: Vec<Json> = Vec::new();
                let mut i: usize = 0;
                while i < items.len()
                    invariant
                        i <= items.len(),
                        out.len() == i,
                        forall|k: int| 0 <= k < i ==> out@[k]@ == items@[k]@,
                        self == Json::Arr(*items),
                    decreases items.len() - i,
                {
                    assert(decreases_to!(*self => self->Arr_0@[i as int]));
                    out.push(items[i].clone());
                    i = i + 1;
                }
                assert(text::views(out@) =~= text::views(items@));
                Json::Arr(out)
            },
            Json::Obj(o) => {
                let mut out: Vec<(String, Json)> = Vec::new();
                let mut i: usize = 0;
                while i < o.entries.len()
                    invariant
                        i <= o.entries.len(),
                        out.len() == i,
                        forall|k: int| 0 <= k < i ==> out@[k]@ == o.entries@[k]@,
                        self == Json::Obj(*o),
                    decreases o.entries.len() - i,
                {
                    assert(decreases_to!(*self => self->Obj_0.entries@[i as int].1));
                    out.push((o.entries[i].0.clone(), o.entries[i].1.clone()));
                    i = i + 1;
                }
                assert(text::views(out@) =~= text::views(o.entries@));
                Json::Obj(Object { entries: out })
            },
        }
    }
}

impl Clone for Object {
    fn clone(&self) -> (r: Self)
        ensures
            r@ == self@,
    {
        let mut out: Vec<(String, Json)> = Vec::new();
        let mut i: usize = 0;
        while i < self.entries.len()
            invariant
                i <= self.entries.len(),
                out.len() == i,
                forall|k: int| 0 <= k < i ==> out@[k]@ == self.entries@[k]@,
            decreases self.entries.len() - i,
        {
            out.push((self.entries[i].0.clone(), self.entries[i].1.clone()));
            i = i + 1;
        }
        assert(text::views(out@) =~= text::views(self.entries@));
        Object { entries: out }
    }
}

impl Object {
    /// The object without members.
    pub fn new() -> (r: Self)
        ensures
            r@ == Members::empty(),
            ordered(r@),
    {
        let r = Object { entries: Vec::new() };
        assert(r@ =~= Members::empty());
        r
    }

    /// The value under a key.
    pub fn get(&self, key: &str) -> (r: Option<&Json>)
        ensures
            text::view_of(r) == lookup(self@, key@),
    {
        let mut i: usize = 0;
        while i < self.entries.len()
            invariant
                i <= self.entries.len(),
                find(self@, i as nat, key@) is None,
            decreases self.entries.len() - i,
        {
            if text::same(self.entries[i].0.as_str(), key) {
                proof {
                    find_stays(self@, (i + 1) as nat, self@.len(), key@);
                }
                return Some(&self.entries[i].1);
            }
            i = i + 1;
        }
        None
    }

    /// Sets a key.
    pub fn insert(&mut self, key: &str, value: Json)
        ensures
            final(self)@ == put(old(self)@, key@, value@),
            ordered(old(self)@) ==> ordered(final(self)@),
    {
        proof {
            if ordered(self@) {
                put_ordered(self@, key@, value@);
            }
        }
        let mut i: usize = 0;
        while i < self.entries.len() && text::before(self.entries[i].0.as_str(), key)
            invariant
                i <= self.entries.len(),
                self.entries@ == old(self).entries@,
                text::rank(keys(self@), key@) == text::rank_from(keys(self@), key@, i as nat),
            decreases self.entries.len() - i,
        {
            i = i + 1;
        }
        if i < self.entries.len() && text::same(self.entries[i].0.as_str(), key) {
            self.entries.set(i, (key.to_string(), value));
            assert(self@ =~= old(self)@.update(i as int, (key@, value@)));
        } else {
            self.entries.insert(i, (key.to_string(), value));
            assert(self@ =~= old(self)@.insert(i as int, (key@, value@)));
        }
    }

    /// This object with a key set.
    pub fn with(self, key: &str, value: Json) -> (r: Self)
        ensures
            r@ == put(self@, key@, value@),
            ordered(self@) ==> ordered(r@),
    {
        let mut r = self;
        r.insert(key, value);
        r
    }

    /// Removes a key.
    pub fn remove(&mut self, key: &str)
        ensures
            final(self)@ == without(old(self)@, key@),
            ordered(old(self)@) ==> ordered(final(self)@),
    {
        proof {
            if ordered(self@) {
                without_ordered(self@, key@);
            }
        }
        let mut out: Vec<(String, Json)> = Vec::new();
        let mut i: usize = 0;
        while i < self.entries.len()
            invariant
                i <= self.entries.len(),
                self.entries@ == old(self).entries@,
                text::views(out@) == without_upto(self@, i as nat, key@),
            decreases self.entries.len() - i,
        {
            broadcast use text::views_push;

            if !text::same(self.entries[i].0.as_str(), key) {
                out.push((self.entries[i].0.clone(), self.entries[i].1.clone()));
            }
            i = i + 1;
        }
        self.entries = out;
    }

    /// Whether a key is set.
    pub fn contains_key(&self, key: &str) -> (r: bool)
        ensures
            r == (lookup(self@, key@) is Some),
    {
        self.get(key).is_some()
    }
}

impl Json {
    /// The string `s`.
    pub fn text(s: &str) -> (r: Self)
        ensures
            r@ == JView::Str(s@),
    {
        Json::Str(s.to_string())
    }

    /// The integer `n`.
    pub fn integer(n: u64) -> (r: Self)
        ensures
            r@ == int_value(n),
    {
        Json::Num(Number::PosInt(n))
    }

    /// The object with these members.
    pub fn object(o: Object) -> (r: Self)
        ensures
            r@ == JView::Obj(o@),
    {
        broadcast use object_view;

        Json::Obj(o)
    }

    /// The array of these items.
    pub fn array(items: Vec<Json>) -> (r: Self)
        ensures
            r@ == JView::Arr(text::views(items@)),
    {
        broadcast use array_view;

        Json::Arr(items)
    }

    /// The array of some strings.
    pub fn texts(list: &Vec<String>) -> (r: Self)
        ensures
            r@ == string_array(text::views(list@)),
    {
        let mut items: Vec<Json> = Vec::new();
        let mut i: usize = 0;
        while i < list.len()
            invariant
                i <= list.len(),
                items.len() == i,
                forall|k: int| 0 <= k < i ==> items@[k]@ == JView::Str(list@[k]@),
            decreases list.len() - i,
        {
            items.push(Json::Str(list[i].clone()));
            i = i + 1;
        }
        assert(text::views(items@) =~= text::views(list@).map_values(
            |s: Seq<char>| JView::Str(s),
        ));
        Json::array(items)
    }

    /// The member of an object that has this key.
    pub fn get(&self, key: &str) -> (r: Option<&Json>)
        ensures
            text::view_of(r) == self@.get(key@),
    {
        broadcast use object_view;

        match self {
            Json::Obj(o) => o.get(key),
            _ => None,
        }
    }

    /// The member `b` of the member `a`.
    pub fn get2(&self, a: &str, b: &str) -> (r: Option<&Json>)
        ensures
            text::view_of(r) == self@.get2(a@, b@),
    {
        match self.get(a) {
            Some(v) => v.get(b),
            None => None,
        }
    }

    /// The member `c` of the member `b` of the member `a`.
    pub fn get3(&self, a: &str, b: &str, c: &str) -> (r: Option<&Json>)
        ensures
            text::view_of(r) == self@.get3(a@, b@, c@),
    {
        match self.get2(a, b) {
            Some(v) => v.get(c),
            None => None,
        }
    }
}

/// The characters of a value that is a string.
pub fn str_of(v: Option<&Json>) -> (r: Option<&str>)
    ensures
        text::view_of(r) == as_str(text::view_of(v)),
{
    match v {
        Some(Json::Str(s)) => Some(s.as_str()),
        _ => None,
    }
}

/// The truth of a value that is a Boolean.
pub fn bool_of(v: Option<&Json>) -> (r: Option<bool>)
    ensures
        r == as_bool(text::view_of(v)),
{
    match v {
        Some(Json::Bool(b)) => Some(*b),
        _ => None,
    }
}

/// The number of a value that is a non-negative integer.
pub fn u64_of(v: Option<&Json>) -> (r: Option<u64>)
    ensures
        r == as_u64(text::view_of(v)),
{
    match v {
        Some(Json::Num(Number::PosInt(n))) => Some(*n),
        _ => None,
    }
}

/// The number of a value that is one.
pub fn number_of(v: Option<&Json>) -> (r: Option<&Number>)
    ensures
        text::view_of(r) == as_number(text::view_of(v)),
{
    match v {
        Some(Json::Num(n)) => Some(n),
        _ => None,
    }
}

/// The items of a value that is an array.
pub fn array_of(v: Option<&Json>) -> (r: Option<&Vec<Json>>)
    ensures
        match r {
            Some(items) => as_array(text::view_of(v)) == Some(text::views(items@)),
            None => as_array(text::view_of(v)) is None,
        },
{
    broadcast use array_view;

    match v {
        Some(Json::Arr(items)) => Some(items),
        _ => None,
    }
}

/// The members of a value that is an object.
pub fn object_of(v: Option<&Json>) -> (r: Option<&Object>)
    ensures
        text::view_of(r) == as_object(text::view_of(v)),
{
    broadcast use object_view;

    match v {
        Some(Json::Obj(o)) => Some(o),
        _ => None,
    }
}

/// A copy of a value, or null where there is none.
pub fn value_or_null(v: Option<&Json>) -> (r: Json)
    ensures
        r@ == or_null(text::view_of(v)),
{
    match v {
        Some(v) => v.clone(),
        None => Json::Null,
    }
}

/// The strings among the items of an array; none where there is no array.
pub fn strings_of(v: Option<&Json>) -> (r: Vec<String>)
    ensures
        text::views(r@) == strings(list_or_empty(as_array(text::view_of(v)))),
{
    broadcast use text::views_push;

    let mut out: Vec<String> = Vec::new();
    assert(text::views(out@) =~= seq![]);
    match array_of(v) {
        Some(items) => {
            let mut i: usize = 0;
            while i < items.len()
                invariant
                    i <= items.len(),
                    text::views(out@) == strings_upto(text::views(items@), i as nat),
                decreases items.len() - i,
            {
                broadcast use text::views_push;

                match str_of(Some(&items[i])) {
                    Some(s) => out.push(s.to_string()),
                    None => {},
                }
                i = i + 1;
            }
            out
        },
        None => out,
    }
}

} // verus!
