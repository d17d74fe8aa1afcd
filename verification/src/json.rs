//! The JSON value model that the invoke protocol and the resource resolver
//! work on, together with the trusted boundary to `serde_json`, which turns
//! values into bytes and bytes into values.

use vstd::prelude::*;

verus! {

/// A JSON document as the library reads it: null, booleans, integers, strings,
/// arrays and objects. Object fields keep the order in which they were
/// written. Numbers outside `i64` and floating-point numbers are not
/// representable; the parse boundary rejects documents that hold them.
#[derive(Debug, PartialEq)]
pub enum JsonValue {
    Null,
    Bool(bool),
    Int(i64),
    Str(String),
    Arr(Vec<JsonValue>),
    Obj(Vec<(String, JsonValue)>),
}

impl JsonValue {
    /// A value is well formed when every object in it has pairwise distinct
    /// keys. Well-formed values survive an encode/parse round trip unchanged.
    pub open spec fn wf(self) -> bool
        decreases self,
    {
        match self {
            JsonValue::Arr(items) => forall|i: int|
                0 <= i < items@.len() ==> (#[trigger] items@[i]).wf(),
            JsonValue::Obj(fields) => {
                &&& forall|i: int, j: int|
                    0 <= i < j < fields@.len() ==> fields@[i].0@ != fields@[j].0@
                &&& forall|i: int| 0 <= i < fields@.len() ==> (#[trigger] fields@[i].1).wf()
            },
            _ => true,
        }
    }

    /// The string held by a `Str` value.
    pub fn as_str(&self) -> (r: Option<&String>)
        ensures
            match *self {
                JsonValue::Str(s) => r matches Some(p) && *p == s,
                _ => r is None,
            },
    {
        match self {
            JsonValue::Str(s) => Some(s),
            _ => None,
        }
    }

    /// The integer held by an `Int` value.
    pub fn as_int(&self) -> (r: Option<i64>)
        ensures
            match *self {
                JsonValue::Int(i) => r == Some(i),
                _ => r is None,
            },
    {
        match self {
            JsonValue::Int(i) => Some(*i),
            _ => None,
        }
    }

    /// The boolean held by a `Bool` value.
    pub fn as_bool(&self) -> (r: Option<bool>)
        ensures
            match *self {
                JsonValue::Bool(b) => r == Some(b),
                _ => r is None,
            },
    {
        match self {
            JsonValue::Bool(b) => Some(*b),
            _ => None,
        }
    }
}

/// The bytes that `serde_json` writes for a value.
pub uninterp spec fn json_bytes(v: JsonValue) -> Seq<u8>;

/// The outcome of handing bytes to `serde_json`: the value they spell, or a
/// message naming the failure — the parser's own, or the fixed message for a
/// number the model cannot hold.
pub uninterp spec fn parsed_json(bytes: Seq<u8>) -> Result<JsonValue, Seq<char>>;

#[verifier::external_type_specification]
#[verifier::external_body]
pub struct ExSerdeValue(serde_json::Value);

/// Reads `serde_json`'s tree into the library's model. Numbers that are not
/// `i64` integers have no counterpart here and yield `None`.
#[verifier::external_body]
fn value_of_serde(v: serde_json::Value) -> Option<JsonValue> {
    match v {
        serde_json::Value::Null => Some(JsonValue::Null),
        serde_json::Value::Bool(b) => Some(JsonValue::Bool(b)),
        serde_json::Value::Number(n) => n.as_i64().map(JsonValue::Int),
        serde_json::Value::String(s) => Some(JsonValue::Str(s)),
        serde_json::Value::Array(items) => {
            items.into_iter().map(value_of_serde).collect::<Option<_>>().map(JsonValue::Arr)
        },
        serde_json::Value::Object(fields) => {
            let read = |(k, f): (String, serde_json::Value)| value_of_serde(f).map(|j| (k, j));
            fields.into_iter().map(read).collect::<Option<_>>().map(JsonValue::Obj)
        },
    }
}

/// Writes the library's model as `serde_json`'s tree, field for field.
#[verifier::external_body]
fn serde_of_value(v: &JsonValue) -> serde_json::Value {
    match v {
        JsonValue::Null => serde_json::Value::Null,
        JsonValue::Bool(b) => serde_json::Value::Bool(*b),
        JsonValue::Int(i) => serde_json::Value::Number(serde_json::Number::from(*i)),
        JsonValue::Str(s) => serde_json::Value::String(s.clone()),
        JsonValue::Arr(items) => serde_json::Value::Array(items.iter().map(serde_of_value).collect()),
        JsonValue::Obj(fields) => serde_json::Value::Object(
            fields.iter().map(|(k, f)| (k.clone(), serde_of_value(f))).collect(),
        ),
    }
}

/// Relies on `serde_json::from_slice`: the outcome is a function of the input
/// bytes alone, and a parsed document has distinct keys in every object.
#[verifier::external_body]
pub fn parse_json(bytes: &[u8]) -> (r: Result<JsonValue, String>)
    ensures
        match r {
            Ok(v) => parsed_json(bytes@) == Ok::<JsonValue, Seq<char>>(v) && v.wf(),
            Err(e) => parsed_json(bytes@) == Err::<JsonValue, Seq<char>>(e@),
        },
{
    match serde_json::from_slice::<serde_json::Value>(bytes) {
        Ok(v) => value_of_serde(v).ok_or_else(|| String::from("number outside the supported range")),
        Err(e) => Err(e.to_string()),
    }
}

/// Relies on `serde_json::to_string`: the characters whose UTF-8 encoding is
/// the value's byte encoding.
#[verifier::external_body]
pub fn to_json_string(v: &JsonValue) -> (r: String)
    ensures
        vstd::utf8::encode_utf8(r@) == json_bytes(*v) && (v.wf() ==> parsed_json(
            vstd::utf8::encode_utf8(r@),
        ) == Ok::<JsonValue, Seq<char>>(*v)),
{
    serde_json::to_string(&serde_of_value(v)).expect("encoding a JSON tree cannot fail")
}

/// Relies on `serde_json::to_vec`: the encoding is a function of the value
/// alone, and parsing what was encoded from a well-formed value yields that
/// value back.
#[verifier::external_body]
pub fn to_json_bytes(v: &JsonValue) -> (r: Vec<u8>)
    ensures
        r@ == json_bytes(*v) && (v.wf() ==> parsed_json(r@) == Ok::<JsonValue, Seq<char>>(*v)),
{
    serde_json::to_vec(&serde_of_value(v)).expect("encoding a JSON tree cannot fail")
}

} // verus!
