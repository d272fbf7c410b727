//! A JSON document as the library reads it.

use vstd::prelude::*;
use crate::text::same_text;

verus! {

/// A parsed JSON value. Numbers are kept as their text; objects hold their
/// members in the order they were given, each key at most once (a parser
/// that sorts keys hands them over sorted).
#[derive(Debug)]
pub enum JsonValue {
    Null,
    Bool(bool),
    Number(String),
    String(String),
    Array(Vec<JsonValue>),
    Object(Vec<(String, JsonValue)>),
}

/// The value stored under `key` in the members `entries` (`Map::get`).
pub open spec fn object_get(entries: Seq<(String, JsonValue)>, key: Seq<char>) -> Option<JsonValue>
    decreases entries.len(),
{
    if entries.len() == 0 {
        None
    } else if entries[0].0@ == key {
        Some(entries[0].1)
    } else {
        object_get(entries.drop_first(), key)
    }
}

/// The text of a JSON string value (`Value::as_str`).
pub open spec fn as_text(v: JsonValue) -> Option<Seq<char>> {
    match v {
        JsonValue::String(s) => Some(s@),
        _ => None,
    }
}

/// The text stored under `key`, when it is a JSON string.
pub open spec fn member_text(entries: Seq<(String, JsonValue)>, key: Seq<char>) -> Option<Seq<char>> {
    match object_get(entries, key) {
        Some(v) => as_text(v),
        None => None,
    }
}

/// `Value::get(key)`: the member `key` of an object, nothing for other values.
pub open spec fn value_get(v: JsonValue, key: Seq<char>) -> Option<JsonValue> {
    match v {
        JsonValue::Object(entries) => object_get(entries@, key),
        _ => None,
    }
}

/// `Value::as_bool`.
pub open spec fn as_flag(v: JsonValue) -> Option<bool> {
    match v {
        JsonValue::Bool(b) => Some(b),
        _ => None,
    }
}

/// `value.get(key).and_then(as_str)`.
pub open spec fn text_at(v: JsonValue, key: Seq<char>) -> Option<Seq<char>> {
    match value_get(v, key) {
        Some(x) => as_text(x),
        None => None,
    }
}

/// `value.get(key).and_then(as_bool)`.
pub open spec fn flag_at(v: JsonValue, key: Seq<char>) -> Option<bool> {
    match value_get(v, key) {
        Some(x) => as_flag(x),
        None => None,
    }
}

/// The text of `t`, or `default` when absent.
pub open spec fn text_or(t: Option<Seq<char>>, default: Seq<char>) -> Seq<char> {
    match t {
        Some(s) => s,
        None => default,
    }
}

/// `Value::get`.
pub fn get_value<'a>(v: &'a JsonValue, key: &str) -> (r: Option<&'a JsonValue>)
    ensures
        match r {
            Some(x) => value_get(*v, key@) == Some(*x),
            None => value_get(*v, key@) is None,
        },
{
    match v {
        JsonValue::Object(entries) => get_member(entries, key),
        _ => None,
    }
}

/// `value.get(key).and_then(as_str).unwrap_or(default)`, copied.
pub fn text_at_or(v: &JsonValue, key: &str, default: &str) -> (r: String)
    ensures
        r@ == text_or(text_at(*v, key@), default@),
{
    match get_value(v, key) {
        Some(JsonValue::String(s)) => s.clone(),
        _ => String::from_str(default),
    }
}

/// `value.get(key).and_then(as_bool).unwrap_or(default)`.
pub fn flag_at_or(v: &JsonValue, key: &str, default: bool) -> (r: bool)
    ensures
        r == match flag_at(*v, key@) {
            Some(b) => b,
            None => default,
        },
{
    match get_value(v, key) {
        Some(JsonValue::Bool(b)) => *b,
        _ => default,
    }
}

/// Look up `key` among the members of an object.
pub fn get_member<'a>(entries: &'a Vec<(String, JsonValue)>, key: &str) -> (r: Option<&'a JsonValue>)
    ensures
        match r {
            Some(v) => object_get(entries@, key@) == Some(*v),
            None => object_get(entries@, key@) is None,
        },
{
    let mut i: usize = 0;
    assert(entries@.skip(0) =~= entries@);
    while i < entries.len()
        invariant
            i <= entries@.len(),
            object_get(entries@, key@) == object_get(entries@.skip(i as int), key@),
        decreases entries@.len() - i,
    {
        assert(entries@.skip(i as int).drop_first() =~= entries@.skip(i + 1));
        if same_text(entries[i].0.as_str(), key) {
            return Some(&entries[i].1);
        }
        i = i + 1;
    }
    None
}

/// The text of a string value.
pub fn text_of(v: &JsonValue) -> (r: Option<String>)
    ensures
        r.deep_view() == as_text(*v),
{
    match v {
        JsonValue::String(s) => Some(s.clone()),
        _ => None,
    }
}

/// The text stored under `key`, when it is a JSON string.
pub fn member_string(entries: &Vec<(String, JsonValue)>, key: &str) -> (r: Option<String>)
    ensures
        r.deep_view() == member_text(entries@, key@),
{
    match get_member(entries, key) {
        Some(v) => text_of(v),
        None => None,
    }
}

/// The member `e` is the key `m.0` holding the JSON string `m.1`.
pub open spec fn text_member_is(e: (String, JsonValue), m: (Seq<char>, Seq<char>)) -> bool {
    e.0@ == m.0 && as_text(e.1) == Some(m.1)
}

/// `v` is an object whose members are exactly `members`, in order, each
/// holding a JSON string.
pub open spec fn is_text_object(v: JsonValue, members: Seq<(Seq<char>, Seq<char>)>) -> bool {
    match v {
        JsonValue::Object(entries) => entries@.len() == members.len() && forall|i: int|
            0 <= i < members.len() ==> #[trigger] text_member_is(entries@[i], members[i]),
        _ => false,
    }
}

/// The views of `(key, value)` text pairs.
pub open spec fn pairs_view(members: Seq<(&str, &str)>) -> Seq<(Seq<char>, Seq<char>)> {
    members.map_values(|m: (&str, &str)| (m.0@, m.1@))
}

/// An object of string members, one per `(key, value)` pair, in order
/// (`json!({ key: value, .. })`).
pub fn text_object(members: &[(&str, &str)]) -> (r: JsonValue)
    ensures
        is_text_object(r, pairs_view(members@)),
{
    let mut entries: Vec<(String, JsonValue)> = Vec::new();
    let mut i: usize = 0;
    while i < members.len()
        invariant
            i <= members@.len(),
            entries@.len() == i,
            forall|k: int| 0 <= k < i ==> #[trigger] text_member_is(entries@[k], pairs_view(members@)[k]),
        decreases members@.len() - i,
    {
        let (k, v) = members[i];
        entries.push((String::from_str(k), JsonValue::String(String::from_str(v))));
        assert(text_member_is(entries@[i as int], pairs_view(members@)[i as int]));
        i = i + 1;
    }
    JsonValue::Object(entries)
}

} // verus!
