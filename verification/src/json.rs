//! JSON documents as plain values, parsed and printed by serde_json.

use vstd::prelude::*;
use crate::text::str_equal;
use serde_json::{Number, Value};

verus! {

/// The document tree of serde_json, carried through the conversions below.
#[verifier::external_type_specification]
#[verifier::external_body]
pub struct ExJsonTree(Value);

/// A JSON number as serde_json keeps it: a non-negative integer, a negative
/// integer, or any other number with the text serde_json prints for it.
#[derive(Debug, Clone, PartialEq)]
pub enum JsonNumber {
    PosInt(u64),
    NegInt(i64),
    Float(String),
}

/// A JSON document: objects keep their members in the order serde_json
/// hands them out, each key once.
#[derive(Debug)]
pub enum JsonValue {
    Null,
    Bool(bool),
    Number(JsonNumber),
    Str(String),
    Array(Vec<JsonValue>),
    Object(Vec<(String, JsonValue)>),
}

/// What `serde_json::from_str::<serde_json::Value>` makes of `text`: the
/// document, or the text of the error it reports.
pub uninterp spec fn json_of(text: Seq<char>) -> Result<JsonValue, Seq<char>>;

/// The compact text that serde_json prints for `v` (`Value::to_string`).
pub uninterp spec fn json_text_of(v: JsonValue) -> Seq<char>;

/// A parse outcome with the error as its text.
pub open spec fn parse_outcome(r: Result<JsonValue, String>) -> Result<JsonValue, Seq<char>> {
    match r {
        Ok(v) => Ok(v),
        Err(e) => Err(e@),
    }
}

/// serde_json's tree as a `JsonValue`: one variant for one variant; a number
/// becomes `PosInt` where `as_u64` reads it, `NegInt` where `as_i64` does,
/// and otherwise its printed text.
#[verifier::external_body]
fn json_value_from(v: &Value) -> JsonValue {
    match v {
        Value::Null => JsonValue::Null,
        Value::Bool(b) => JsonValue::Bool(*b),
        Value::Number(n) => JsonValue::Number(match (n.as_u64(), n.as_i64()) {
            (Some(u), _) => JsonNumber::PosInt(u),
            (None, Some(i)) => JsonNumber::NegInt(i),
            _ => JsonNumber::Float(n.to_string()),
        }),
        Value::String(s) => JsonValue::Str(s.clone()),
        Value::Array(a) => JsonValue::Array(a.iter().map(json_value_from).collect()),
        Value::Object(m) => JsonValue::Object(m.iter().map(|(k, x)| (k.clone(), json_value_from(x))).collect()),
    }
}

/// A `JsonValue` as serde_json's tree, the converse of `json_value_from`; a
/// number text that `Number` does not read back becomes null.
#[verifier::external_body]
fn json_tree_from(v: &JsonValue) -> Value {
    match v {
        JsonValue::Null => Value::Null,
        JsonValue::Bool(b) => Value::Bool(*b),
        JsonValue::Number(JsonNumber::PosInt(u)) => Value::from(*u),
        JsonValue::Number(JsonNumber::NegInt(i)) => Value::from(*i),
        JsonValue::Number(JsonNumber::Float(t)) => t.parse::<Number>().map(Value::Number).unwrap_or(Value::Null),
        JsonValue::Str(s) => Value::String(s.clone()),
        JsonValue::Array(a) => Value::Array(a.iter().map(json_tree_from).collect()),
        JsonValue::Object(m) => Value::Object(m.iter().map(|(k, x)| (k.clone(), json_tree_from(x))).collect()),
    }
}

/// Parses `text` with `serde_json::from_str::<serde_json::Value>`: the
/// document, or the error's text (`Display` of `serde_json::Error`). The
/// contract names the outcome as a function of the text; the JSON grammar
/// itself is not stated.
#[verifier::external_body]
pub(crate) fn parse_json(text: &str) -> (r: Result<JsonValue, String>)
    ensures
        parse_outcome(r) == json_of(text@),
{
    match serde_json::from_str::<Value>(text) {
        Ok(v) => Ok(json_value_from(&v)),
        Err(e) => Err(e.to_string()),
    }
}

/// The compact text serde_json prints for `v` (`Value::to_string`). The
/// contract names the text as a function of `v`; serde_json's printing
/// rules are not stated.
#[verifier::external_body]
pub(crate) fn json_text(v: &JsonValue) -> (r: String)
    ensures
        r@ == json_text_of(*v),
{
    json_tree_from(v).to_string()
}

/// The member under `key` from the `i`-th on, the first that has it.
pub open spec fn member_from(entries: Seq<(String, JsonValue)>, key: Seq<char>, i: nat) -> Option<JsonValue>
    decreases entries.len() - i,
{
    if i >= entries.len() {
        None
    } else if entries[i as int].0@ == key {
        Some(entries[i as int].1)
    } else {
        member_from(entries, key, i + 1)
    }
}

/// The member under `key` of an object; nothing for other values, as
/// `Value::get` with a text key.
pub open spec fn json_get(v: JsonValue, key: Seq<char>) -> Option<JsonValue> {
    match v {
        JsonValue::Object(entries) => member_from(entries@, key, 0),
        _ => None,
    }
}

/// The member under `key` of an object; nothing for other values.
pub fn get_member<'a>(v: &'a JsonValue, key: &str) -> (r: Option<&'a JsonValue>)
    ensures
        json_get(*v, key@) == match r {
            Some(x) => Some(*x),
            None => None::<JsonValue>,
        },
{
    match v {
        JsonValue::Object(entries) => {
            let mut i: usize = 0;
            while i < entries.len()
                invariant
                    *v == JsonValue::Object(*entries),
                    i <= entries@.len(),
                    member_from(entries@, key@, 0) == member_from(entries@, key@, i as nat),
                decreases entries@.len() - i,
            {
                if str_equal(entries[i].0.as_str(), key) {
                    return Some(&entries[i].1);
                }
                i = i + 1;
            }
            None
        },
        _ => None,
    }
}

} // verus!
