//! A JSON value of the library's own, with a mathematical view.
//!
//! Request parameters arrive as JSON and replies leave as JSON; the routing
//! logic reads and builds values of this type. Numbers keep the form in
//! which they were written: a non-negative integer, a negative integer, or
//! a binary64 float kept by its bit pattern.

use vstd::prelude::*;
use crate::text::str_equal;

verus! {

/// A JSON number, in the three forms a JSON number can take.
#[derive(Debug, Clone, Copy, PartialEq, Eq, Structural)]
pub enum Number {
    /// A non-negative integer.
    PosInt(u64),
    /// A negative integer.
    NegInt(i64),
    /// A float, by the bits of its IEEE-754 binary64 encoding.
    Float(u64),
}

/// A JSON value.
#[derive(Debug, PartialEq)]
pub enum JsonValue {
    Null,
    Bool(bool),
    Number(Number),
    String(String),
    Array(Vec<JsonValue>),
    /// The members of an object, in order; a lookup finds the first member
    /// with the key.
    Object(Vec<(String, JsonValue)>),
}

/// The mathematical form of a JSON value.
pub enum JsonView {
    Null,
    Bool(bool),
    Number(Number),
    Str(Seq<char>),
    Array(Seq<JsonView>),
    Object(Seq<(Seq<char>, JsonView)>),
}

/// The view of a JSON value.
pub open spec fn view_of(v: JsonValue) -> JsonView
    decreases v,
{
    match v {
        JsonValue::Null => JsonView::Null,
        JsonValue::Bool(b) => JsonView::Bool(b),
        JsonValue::Number(n) => JsonView::Number(n),
        JsonValue::String(s) => JsonView::Str(s@),
        JsonValue::Array(a) => JsonView::Array(view_list(a@)),
        JsonValue::Object(o) => JsonView::Object(view_members(o@)),
    }
}

/// The views of a sequence of values.
pub open spec fn view_list(s: Seq<JsonValue>) -> Seq<JsonView>
    decreases s,
{
    if s.len() == 0 {
        Seq::empty()
    } else {
        view_list(s.drop_last()).push(view_of(s.last()))
    }
}

/// The views of a sequence of object members.
pub open spec fn view_members(s: Seq<(String, JsonValue)>) -> Seq<(Seq<char>, JsonView)>
    decreases s,
{
    if s.len() == 0 {
        Seq::empty()
    } else {
        view_members(s.drop_last()).push((s.last().0@, view_of(s.last().1)))
    }
}

impl View for JsonValue {
    type V = JsonView;

    open spec fn view(&self) -> JsonView {
        view_of(*self)
    }
}


/// The value of the first member named `key`.
pub open spec fn member_lookup(m: Seq<(Seq<char>, JsonView)>, key: Seq<char>) -> Option<JsonView>
    decreases m.len(),
{
    if m.len() == 0 {
        None
    } else if m[0].0 == key {
        Some(m[0].1)
    } else {
        member_lookup(m.drop_first(), key)
    }
}

/// The member `key` of an object; `None` for a missing member or a value
/// that is not an object.
pub open spec fn jv_get(v: JsonView, key: Seq<char>) -> Option<JsonView> {
    match v {
        JsonView::Object(m) => member_lookup(m, key),
        _ => None,
    }
}

/// The text of a string value.
pub open spec fn jv_as_str(v: JsonView) -> Option<Seq<char>> {
    match v {
        JsonView::Str(s) => Some(s),
        _ => None,
    }
}

/// The boolean of a boolean value.
pub open spec fn jv_as_bool(v: JsonView) -> Option<bool> {
    match v {
        JsonView::Bool(b) => Some(b),
        _ => None,
    }
}

/// The number of a number value: what `as_f64` reads, kept in its JSON form.
pub open spec fn jv_as_number(v: JsonView) -> Option<Number> {
    match v {
        JsonView::Number(n) => Some(n),
        _ => None,
    }
}

/// A number as an `i64`, when it is an integer in range.
pub open spec fn number_as_i64(n: Number) -> Option<int> {
    match n {
        Number::PosInt(u) => if u <= i64::MAX {
            Some(u as int)
        } else {
            None
        },
        Number::NegInt(i) => Some(i as int),
        Number::Float(_) => None,
    }
}

/// A number as a `u64`, when it is a non-negative integer.
pub open spec fn number_as_u64(n: Number) -> Option<int> {
    match n {
        Number::PosInt(u) => Some(u as int),
        _ => None,
    }
}

/// A value as an `i64`.
pub open spec fn jv_as_i64(v: JsonView) -> Option<int> {
    match v {
        JsonView::Number(n) => number_as_i64(n),
        _ => None,
    }
}

/// A value as a `u64`.
pub open spec fn jv_as_u64(v: JsonView) -> Option<int> {
    match v {
        JsonView::Number(n) => number_as_u64(n),
        _ => None,
    }
}

/// Member `key`, then read as text.
pub open spec fn get_str(v: JsonView, key: Seq<char>) -> Option<Seq<char>> {
    match jv_get(v, key) {
        Some(x) => jv_as_str(x),
        None => None,
    }
}

/// Member `key`, then read as an `i64`.
pub open spec fn get_i64(v: JsonView, key: Seq<char>) -> Option<int> {
    match jv_get(v, key) {
        Some(x) => jv_as_i64(x),
        None => None,
    }
}

/// Member `key`, then read as a `u64`.
pub open spec fn get_u64(v: JsonView, key: Seq<char>) -> Option<int> {
    match jv_get(v, key) {
        Some(x) => jv_as_u64(x),
        None => None,
    }
}

/// Member `key`, then read as a boolean.
pub open spec fn get_bool(v: JsonView, key: Seq<char>) -> Option<bool> {
    match jv_get(v, key) {
        Some(x) => jv_as_bool(x),
        None => None,
    }
}

/// Member `key`, then read as a number.
pub open spec fn get_number(v: JsonView, key: Seq<char>) -> Option<Number> {
    match jv_get(v, key) {
        Some(x) => jv_as_number(x),
        None => None,
    }
}

/// The views of values and members line up with the values and members.
pub proof fn lemma_view_list_index(s: Seq<JsonValue>)
    ensures
        view_list(s).len() == s.len(),
        forall|i: int| 0 <= i < s.len() ==> #[trigger] view_list(s)[i] == view_of(s[i]),
    decreases s.len(),
{
    if s.len() > 0 {
        lemma_view_list_index(s.drop_last());
    }
}

/// Same for object members.
pub proof fn lemma_view_members_index(s: Seq<(String, JsonValue)>)
    ensures
        view_members(s).len() == s.len(),
        forall|i: int|
            0 <= i < s.len() ==> #[trigger] view_members(s)[i] == (s[i].0@, view_of(s[i].1)),
    decreases s.len(),
{
    if s.len() > 0 {
        lemma_view_members_index(s.drop_last());
    }
}

proof fn lemma_lookup_at(m: Seq<(Seq<char>, JsonView)>, key: Seq<char>, i: int)
    requires
        0 <= i <= m.len(),
        forall|j: int| 0 <= j < i ==> m[j].0 != key,
    ensures
        i < m.len() && m[i].0 == key ==> member_lookup(m, key) == Some(m[i].1),
        i == m.len() ==> member_lookup(m, key) is None,
    decreases i,
{
    if i > 0 {
        lemma_lookup_at(m.drop_first(), key, i - 1);
    }
}

impl Number {
    /// The number as an `i64`, as `serde_json::Number::as_i64` reads it.
    pub fn as_i64(&self) -> (r: Option<i64>)
        ensures
            match r {
                Some(i) => number_as_i64(*self) == Some(i as int),
                None => number_as_i64(*self) is None,
            },
    {
        match self {
            Number::PosInt(u) => if *u <= 0x7fff_ffff_ffff_ffff {
                Some(*u as i64)
            } else {
                None
            },
            Number::NegInt(i) => Some(*i),
            Number::Float(_) => None,
        }
    }

    /// The number as a `u64`, as `serde_json::Number::as_u64` reads it.
    pub fn as_u64(&self) -> (r: Option<u64>)
        ensures
            match r {
                Some(u) => number_as_u64(*self) == Some(u as int),
                None => number_as_u64(*self) is None,
            },
    {
        match self {
            Number::PosInt(u) => Some(*u),
            _ => None,
        }
    }
}

impl JsonValue {
    /// The member `key` of an object value.
    pub fn get(&self, key: &str) -> (r: Option<&JsonValue>)
        ensures
            match r {
                Some(x) => jv_get(self@, key@) == Some(x@),
                None => jv_get(self@, key@) is None,
            },
    {
        match self {
            JsonValue::Object(o) => {
                proof {
                    lemma_view_members_index(o@);
                }
                let ghost m = view_members(o@);
                for i in 0..o.len()
                    invariant
                        m == view_members(o@),
                        jv_get(self@, key@) == member_lookup(m, key@),
                        m.len() == o@.len(),
                        forall|j: int| 0 <= j < o@.len() ==> #[trigger] m[j] == (o@[j].0@, view_of(o@[j].1)),
                        forall|j: int| 0 <= j < i ==> m[j].0 != key@,
                {
                    assert(m[i as int] == (o@[i as int].0@, view_of(o@[i as int].1)));
                    if str_equal(o[i].0.as_str(), key) {
                        proof {
                            lemma_lookup_at(m, key@, i as int);
                        }
                        return Some(&o[i].1);
                    }
                }
                proof {
                    lemma_lookup_at(m, key@, o.len() as int);
                }
                None
            },
            _ => None,
        }
    }

    /// The text of a string value.
    pub fn as_str(&self) -> (r: Option<&str>)
        ensures
            match r {
                Some(s) => jv_as_str(self@) == Some(s@),
                None => jv_as_str(self@) is None,
            },
    {
        match self {
            JsonValue::String(s) => Some(s.as_str()),
            _ => None,
        }
    }

    /// The value as an `i64`.
    pub fn as_i64(&self) -> (r: Option<i64>)
        ensures
            match r {
                Some(i) => jv_as_i64(self@) == Some(i as int),
                None => jv_as_i64(self@) is None,
            },
    {
        match self {
            JsonValue::Number(n) => n.as_i64(),
            _ => None,
        }
    }

    /// The value as a `u64`.
    pub fn as_u64(&self) -> (r: Option<u64>)
        ensures
            match r {
                Some(u) => jv_as_u64(self@) == Some(u as int),
                None => jv_as_u64(self@) is None,
            },
    {
        match self {
            JsonValue::Number(n) => n.as_u64(),
            _ => None,
        }
    }

    /// The boolean of a boolean value.
    pub fn as_bool(&self) -> (r: Option<bool>)
        ensures
            r == jv_as_bool(self@),
    {
        match self {
            JsonValue::Bool(b) => Some(*b),
            _ => None,
        }
    }

    /// The number of a number value.
    pub fn as_number(&self) -> (r: Option<Number>)
        ensures
            r == jv_as_number(self@),
    {
        match self {
            JsonValue::Number(n) => Some(*n),
            _ => None,
        }
    }

    /// A copy of the value.
    #[verifier::loop_isolation(false)]
    pub fn duplicate(&self) -> (r: JsonValue)
        ensures
            r@ == self@,
        decreases self,
    {
        match self {
            JsonValue::Null => JsonValue::Null,
            JsonValue::Bool(b) => JsonValue::Bool(*b),
            JsonValue::Number(n) => JsonValue::Number(*n),
            JsonValue::String(s) => JsonValue::String(s.clone()),
            JsonValue::Array(a) => {
                let mut r: Vec<JsonValue> = Vec::new();
                for i in 0..a.len()
                    invariant
                        view_list(r@) == view_list(a@.take(i as int)),
                {
                    assert(decreases_to!(*self => *a));
                    assert(decreases_to!(*a => a@));
                    assert(decreases_to!(a@ => a@[i as int]));
                    let x = a[i].duplicate();
                    let ghost before = r@;
                    r.push(x);
                    assert(r@.drop_last() =~= before);
                    assert(a@.take(i + 1).drop_last() =~= a@.take(i as int));
                }
                assert(a@.take(a.len() as int) =~= a@);
                JsonValue::Array(r)
            },
            JsonValue::Object(o) => {
                let mut r: Vec<(String, JsonValue)> = Vec::new();
                for i in 0..o.len()
                    invariant
                        view_members(r@) == view_members(o@.take(i as int)),
                {
                    assert(decreases_to!(*self => *o));
                    assert(decreases_to!(*o => o@));
                    assert(decreases_to!(o@ => o@[i as int]));
                    assert(decreases_to!(o@[i as int] => o@[i as int].1));
                    let x = o[i].1.duplicate();
                    let k = o[i].0.clone();
                    let ghost before = r@;
                    r.push((k, x));
                    assert(r@.drop_last() =~= before);
                    assert(o@.take(i + 1).drop_last() =~= o@.take(i as int));
                }
                assert(o@.take(o.len() as int) =~= o@);
                JsonValue::Object(r)
            },
        }
    }
}

/// An empty object.
pub fn empty_object() -> (r: Vec<(String, JsonValue)>)
    ensures
        view_members(r@) == Seq::<(Seq<char>, JsonView)>::empty(),
{
    Vec::new()
}

/// Appends the member `key: v` to an object's members.
pub fn push_member(m: &mut Vec<(String, JsonValue)>, key: &str, v: JsonValue)
    ensures
        view_members(final(m)@) == view_members(old(m)@).push((key@, v@)),
{
    let ghost before = m@;
    m.push((key.to_owned(), v));
    assert(m@.drop_last() =~= before);
}

/// A string value.
pub fn json_str(s: &str) -> (r: JsonValue)
    ensures
        r@ == JsonView::Str(s@),
{
    JsonValue::String(s.to_owned())
}

} // verus!
