//! JSON values as the command service reads them.

use crate::text::{first_index, lemma_first_index_is, str_eq};
use vstd::prelude::*;

verus! {

/// A JSON number, as far as requests read it: its value as a signed and as
/// an unsigned 64-bit integer, where it is one.
#[derive(Debug)]
pub struct JsonNumber {
    /// The value, where it is an integer that fits `i64`.
    pub as_i64: Option<i64>,
    /// The value, where it is a non-negative integer that fits `u64`.
    pub as_u64: Option<u64>,
}

/// A JSON value.
#[derive(Debug)]
pub enum JsonValue {
    Null,
    Bool(bool),
    Number(JsonNumber),
    Text(String),
    Array(Vec<JsonValue>),
    /// The members of an object, in the order in which the reader gave
    /// them.
    Object(Vec<(String, JsonValue)>),
}

/// Declares `serde_json::Value`, a value of which is carried through and
/// never looked into.
#[verifier::external_type_specification]
#[verifier::external_body]
pub struct ExValue(serde_json::Value);

/// The value that `serde_json::from_str` reads from a text, as a
/// `JsonValue`; `None` where the text is no JSON.
pub uninterp spec fn json_of(text: Seq<char>) -> Option<JsonValue>;

/// Turns a value of `serde_json` into a `JsonValue`, variant by variant; a
/// number is read with `Number::as_i64` and `Number::as_u64`.
/// Nothing is claimed of the result.
#[verifier::external_body]
fn lift(value: serde_json::Value) -> JsonValue {
    match value {
        serde_json::Value::Null => JsonValue::Null,
        serde_json::Value::Bool(b) => JsonValue::Bool(b),
        serde_json::Value::Number(n) => JsonValue::Number(
            JsonNumber { as_i64: n.as_i64(), as_u64: n.as_u64() },
        ),
        serde_json::Value::String(s) => JsonValue::Text(s),
        serde_json::Value::Array(a) => JsonValue::Array(a.into_iter().map(lift).collect()),
        serde_json::Value::Object(m) => JsonValue::Object(
            m.into_iter().map(|(k, v)| (k, lift(v))).collect(),
        ),
    }
}

/// Calls `serde_json::from_str` for a `serde_json::Value` and turns the
/// value into a `JsonValue`.
/// Trusted: whether the text is JSON, and the value read from it, depend on
/// the text alone. Nothing is claimed of the error text.
#[verifier::external_body]
pub(crate) fn decode(text: &str) -> (result: Result<JsonValue, String>)
    ensures
        result is Ok <==> json_of(text@) is Some,
        result matches Ok(value) ==> json_of(text@) == Some(value),
{
    match serde_json::from_str::<serde_json::Value>(text) {
        Ok(value) => Ok(lift(value)),
        Err(error) => Err(error.to_string()),
    }
}

/// The keys of the members of an object, in order.
pub open spec fn keys_of(members: Seq<(String, JsonValue)>) -> Seq<Seq<char>> {
    Seq::new(members.len(), |i: int| members[i].0@)
}

/// The value of the first member called `key`, if there is one.
pub open spec fn member_of(members: Seq<(String, JsonValue)>, key: Seq<char>) -> Option<JsonValue> {
    let at = first_index(keys_of(members), key);
    if at < members.len() {
        Some(members[at].1)
    } else {
        None
    }
}

/// The member called `key` of a value, if the value is an object that has
/// one.
pub open spec fn member(value: JsonValue, key: Seq<char>) -> Option<JsonValue> {
    match value {
        JsonValue::Object(members) => member_of(members@, key),
        _ => None,
    }
}

/// The value as an unsigned integer, where it is one.
pub open spec fn as_u64(value: JsonValue) -> Option<u64> {
    match value {
        JsonValue::Number(n) => n.as_u64,
        _ => None,
    }
}

/// The value as a signed integer, where it is one.
pub open spec fn as_i64(value: JsonValue) -> Option<i64> {
    match value {
        JsonValue::Number(n) => n.as_i64,
        _ => None,
    }
}

/// The value as a truth value, where it is one.
pub open spec fn as_bool(value: JsonValue) -> Option<bool> {
    match value {
        JsonValue::Bool(b) => Some(b),
        _ => None,
    }
}

/// The value as text, where it is a string.
pub open spec fn as_text(value: JsonValue) -> Option<Seq<char>> {
    match value {
        JsonValue::Text(s) => Some(s@),
        _ => None,
    }
}

/// The elements of the value, where it is an array.
pub open spec fn as_array(value: JsonValue) -> Option<Seq<JsonValue>> {
    match value {
        JsonValue::Array(elements) => Some(elements@),
        _ => None,
    }
}

impl JsonValue {
    /// The member called `key`, if this is an object that has one.
    pub fn get(&self, key: &str) -> (found: Option<&JsonValue>)
        ensures
            match found {
                Some(value) => member(*self, key@) == Some(*value),
                None => member(*self, key@) is None,
            },
    {
        match self {
            JsonValue::Object(members) => {
                let mut i: usize = 0;
                while i < members.len()
                    invariant
                        i <= members.len(),
                        member(*self, key@) == member_of(members@, key@),
                        forall|j: int| 0 <= j < i ==> keys_of(members@)[j] != key@,
                    decreases members.len() - i,
                {
                    if str_eq(members[i].0.as_str(), key) {
                        proof {
                            lemma_first_index_is(keys_of(members@), key@, i as int);
                        }
                        return Some(&members[i].1);
                    }
                    i += 1;
                }
                proof {
                    lemma_first_index_is(keys_of(members@), key@, i as int);
                }
                None
            },
            _ => None,
        }
    }

    /// This value as an unsigned integer.
    pub fn to_u64(&self) -> (n: Option<u64>)
        ensures
            n == as_u64(*self),
    {
        match self {
            JsonValue::Number(number) => number.as_u64,
            _ => None,
        }
    }

    /// This value as a signed integer.
    pub fn to_i64(&self) -> (n: Option<i64>)
        ensures
            n == as_i64(*self),
    {
        match self {
            JsonValue::Number(number) => number.as_i64,
            _ => None,
        }
    }

    /// This value as a truth value.
    pub fn to_bool(&self) -> (b: Option<bool>)
        ensures
            b == as_bool(*self),
    {
        match self {
            JsonValue::Bool(b) => Some(*b),
            _ => None,
        }
    }

    /// This value as text.
    pub fn to_text(&self) -> (text: Option<&str>)
        ensures
            match text {
                Some(s) => as_text(*self) == Some(s@),
                None => as_text(*self) is None,
            },
    {
        match self {
            JsonValue::Text(s) => Some(s.as_str()),
            _ => None,
        }
    }

    /// The elements of this value, where it is an array.
    pub fn to_array(&self) -> (elements: Option<&Vec<JsonValue>>)
        ensures
            match elements {
                Some(list) => as_array(*self) == Some(list@),
                None => as_array(*self) is None,
            },
    {
        match self {
            JsonValue::Array(list) => Some(list),
            _ => None,
        }
    }
}

} // verus!
