//! A JSON document model: what the proxy reads of request and response bodies.
use vstd::prelude::*;

use crate::text::str_eq;

verus! {

/// A JSON number, as `serde_json` classifies it.
#[derive(Debug)]
pub enum JsonNumber {
    /// A non-negative integer that fits in 64 bits.
    PosInt(u64),
    /// A negative integer that fits in 64 bits.
    NegInt(i64),
    /// Any other number, kept as its JSON text.
    Float(String),
}

/// A JSON value. Object members keep their order.
#[derive(Debug)]
pub enum JsonValue {
    Null,
    Bool(bool),
    Number(JsonNumber),
    String(String),
    Array(Vec<JsonValue>),
    Object(Vec<(String, JsonValue)>),
}

/// Index of the first member of `entries` named `key`, at or after `from`.
pub open spec fn member_index(entries: Seq<(String, JsonValue)>, key: Seq<char>, from: int) -> Option<int>
    decreases entries.len() - from,
{
    if from < 0 || from >= entries.len() {
        None
    } else if entries[from].0@ == key {
        Some(from)
    } else {
        member_index(entries, key, from + 1)
    }
}

/// `Value::get(key)`: the value of the first member named `key` of an
/// object; `None` for other values.
pub open spec fn json_get(v: JsonValue, key: Seq<char>) -> Option<JsonValue> {
    match v {
        JsonValue::Object(entries) => match member_index(entries@, key, 0) {
            Some(i) => Some(entries@[i].1),
            None => None,
        },
        _ => None,
    }
}

/// `Value::as_u64`: the value of a non-negative integer that fits in 64 bits.
pub open spec fn json_as_u64(v: JsonValue) -> Option<u64> {
    match v {
        JsonValue::Number(JsonNumber::PosInt(n)) => Some(n),
        _ => None,
    }
}

/// `Value::as_str`: the text of a string value.
pub open spec fn json_as_str(v: JsonValue) -> Option<Seq<char>> {
    match v {
        JsonValue::String(s) => Some(s@),
        _ => None,
    }
}

/// `Value::as_bool`: the value of a boolean.
pub open spec fn json_as_bool(v: JsonValue) -> Option<bool> {
    match v {
        JsonValue::Bool(b) => Some(b),
        _ => None,
    }
}

pub proof fn lemma_member_index_bounds(entries: Seq<(String, JsonValue)>, key: Seq<char>, from: int)
    requires
        0 <= from,
    ensures
        member_index(entries, key, from) matches Some(i) ==> from <= i < entries.len()
            && entries[i].0@ == key,
        member_index(entries, key, from) is None ==> forall|j: int|
            from <= j < entries.len() ==> entries[j].0@ != key,
    decreases entries.len() - from,
{
    if 0 <= from < entries.len() && entries[from].0@ != key {
        lemma_member_index_bounds(entries, key, from + 1);
    }
}

impl JsonValue {
    /// Position of the first member named `key` of an object.
    #[verifier::loop_isolation(false)]
    pub fn member_position(&self, key: &str) -> (r: Option<usize>)
        ensures
            match *self {
                JsonValue::Object(entries) => (r matches Some(i) ==> member_index(entries@, key@, 0)
                    == Some(i as int) && i < entries@.len()) && (r is None ==> member_index(
                    entries@,
                    key@,
                    0,
                ) is None),
                _ => r is None,
            },
    {
        match self {
            JsonValue::Object(entries) => {
                let mut i: usize = 0;
                while i < entries.len()
                    invariant
                        i <= entries@.len(),
                        member_index(entries@, key@, 0) == member_index(entries@, key@, i as int),
                    decreases entries.len() - i,
                {
                    if str_eq(entries[i].0.as_str(), key) {
                        assert(member_index(entries@, key@, i as int) == Some(i as int));
                        return Some(i);
                    }
                    assert(entries@[i as int].0@ != key@);
                    i = i + 1;
                }
                None
            },
            _ => None,
        }
    }

    /// The value of the member `key` of an object.
    pub fn get(&self, key: &str) -> (r: Option<&JsonValue>)
        ensures
            r.is_some() == json_get(*self, key@).is_some(),
            r matches Some(x) ==> *x == json_get(*self, key@).unwrap(),
    {
        match self.member_position(key) {
            Some(i) => match self {
                JsonValue::Object(entries) => {
                    assert(json_get(*self, key@) == Some(entries@[i as int].1));
                    Some(&entries[i].1)
                },
                _ => None,
            },
            None => None,
        }
    }

    /// The number held, if it is a non-negative integer that fits in 64 bits.
    pub fn as_u64(&self) -> (r: Option<u64>)
        ensures
            r == json_as_u64(*self),
    {
        match self {
            JsonValue::Number(JsonNumber::PosInt(n)) => Some(*n),
            _ => None,
        }
    }

    /// The text of a string value.
    pub fn as_str(&self) -> (r: Option<&str>)
        ensures
            r.is_some() == json_as_str(*self).is_some(),
            r matches Some(s) ==> s@ == json_as_str(*self).unwrap(),
    {
        match self {
            JsonValue::String(s) => Some(s.as_str()),
            _ => None,
        }
    }

    /// The value of a boolean.
    pub fn as_bool(&self) -> (r: Option<bool>)
        ensures
            r == json_as_bool(*self),
    {
        match self {
            JsonValue::Bool(b) => Some(*b),
            _ => None,
        }
    }

    /// Whether the value is `null`.
    pub fn is_null(&self) -> (r: bool)
        ensures
            r == (*self is Null),
    {
        match self {
            JsonValue::Null => true,
            _ => false,
        }
    }
}

/// The members of an object with the value of member `i` replaced.
pub open spec fn replaced_members(
    entries: Seq<(String, JsonValue)>,
    i: int,
    new_value: JsonValue,
) -> Seq<(String, JsonValue)> {
    entries.update(i, (entries[i].0, new_value))
}

/// Replaces the value of the member `key` of an object, if it has one.
pub fn replace_member(v: &mut JsonValue, key: &str, new_value: JsonValue)
    ensures
        match *old(v) {
            JsonValue::Object(entries) => match member_index(entries@, key@, 0) {
                Some(i) => (*final(v) matches JsonValue::Object(e) && e@ == replaced_members(
                    entries@,
                    i,
                    new_value,
                )),
                None => *final(v) == *old(v),
            },
            _ => *final(v) == *old(v),
        },
{
    let pos = v.member_position(key);
    match pos {
        Some(i) => match v {
            JsonValue::Object(entries) => {
                let ghost before = entries@;
                let name = entries[i].0.clone();
                entries.set(i, (name, new_value));
                assert(entries@ =~= replaced_members(before, i as int, new_value));
            },
            _ => {},
        },
        None => {},
    }
}

} // verus!
