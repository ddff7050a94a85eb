//! A JSON document model that the API-engine parsers read, and the serde_json
//! parse that produces it.
use vstd::prelude::*;
use crate::text::string_from;

verus! {

/// A parsed JSON value. Numbers keep what the parsers read of them: their
/// value when it is a non-negative integer that fits in a `u64`. Object
/// entries keep the order serde_json's map yields (sorted by key).
#[derive(Debug)]
pub enum JsonValue {
    Null,
    Bool(bool),
    Number(Option<u64>),
    Str(String),
    Array(Vec<JsonValue>),
    Object(Vec<(String, JsonValue)>),
}

/// What serde_json's `from_str::<Value>` yields for a body, as a [`JsonValue`];
/// `None` when the body is not valid JSON.
pub uninterp spec fn json_parse(body: Seq<char>) -> Option<JsonValue>;

/// serde_json's document type, carried opaquely from the parse to its
/// conversion.
#[verifier::external_type_specification]
#[verifier::external_body]
pub struct ExSerdeValue(serde_json::Value);

/// Converts a serde_json document into the library's model, one node for one.
#[verifier::external_body]
fn from_serde(v: serde_json::Value) -> JsonValue {
    match v {
        serde_json::Value::Null => JsonValue::Null,
        serde_json::Value::Bool(b) => JsonValue::Bool(b),
        serde_json::Value::Number(n) => JsonValue::Number(n.as_u64()),
        serde_json::Value::String(s) => JsonValue::Str(s),
        serde_json::Value::Array(a) => JsonValue::Array(a.into_iter().map(from_serde).collect()),
        serde_json::Value::Object(o) => JsonValue::Object(
            o.into_iter().map(|(k, x)| (k, from_serde(x))).collect(),
        ),
    }
}

/// `serde_json::from_str::<serde_json::Value>`: the parsed document, or `None`
/// when `body` is not JSON. The contract names the result and says nothing
/// of how serde_json parses.
#[verifier::external_body]
pub fn parse_json(body: &str) -> (r: Option<JsonValue>)
    ensures
        r == json_parse(body@),
{
    serde_json::from_str::<serde_json::Value>(body).ok().map(from_serde)
}

/// The value stored under `key` in an object entry list (the first entry with
/// that key; serde_json's maps hold each key once).
pub open spec fn entries_get(entries: Seq<(String, JsonValue)>, key: Seq<char>) -> Option<JsonValue>
    decreases entries.len(),
{
    if entries.len() == 0 {
        None
    } else if entries[0].0@ == key {
        Some(entries[0].1)
    } else {
        entries_get(entries.skip(1), key)
    }
}

/// `Value::get(key)`: the member `key` of an object, `None` for other values.
pub open spec fn json_get(v: JsonValue, key: Seq<char>) -> Option<JsonValue> {
    match v {
        JsonValue::Object(entries) => entries_get(entries@, key),
        _ => None,
    }
}

/// `Value::get(key)` on an optional value.
pub open spec fn opt_get(v: Option<JsonValue>, key: Seq<char>) -> Option<JsonValue> {
    match v {
        Some(x) => json_get(x, key),
        None => None,
    }
}

/// `Value::as_str` on an optional value, with `""` for anything else.
pub open spec fn opt_str(v: Option<JsonValue>) -> Seq<char> {
    match v {
        Some(JsonValue::Str(s)) => s@,
        _ => seq![],
    }
}

/// The string member `key` of `v`, or `""` when it is missing or not a string.
pub open spec fn field_str(v: JsonValue, key: Seq<char>) -> Seq<char> {
    opt_str(json_get(v, key))
}

/// The first string of an array, a string itself, or `""` otherwise.
pub open spec fn first_str_of(v: Option<JsonValue>) -> Seq<char> {
    match v {
        Some(JsonValue::Array(a)) => if a@.len() > 0 {
            match a@[0] {
                JsonValue::Str(s) => s@,
                _ => seq![],
            }
        } else {
            seq![]
        },
        Some(JsonValue::Str(s)) => s@,
        _ => seq![],
    }
}

/// The elements of an array value, `None` for other values.
pub open spec fn opt_array(v: Option<JsonValue>) -> Option<Seq<JsonValue>> {
    match v {
        Some(JsonValue::Array(a)) => Some(a@),
        _ => None,
    }
}

/// The body parsed as JSON, with `Null` for a body that is not JSON.
pub open spec fn json_or_null(body: Seq<char>) -> JsonValue {
    match json_parse(body) {
        Some(v) => v,
        None => JsonValue::Null,
    }
}

/// Parses a body, yielding `Null` when it is not JSON.
pub fn json(body: &str) -> (r: JsonValue)
    ensures
        r == json_or_null(body@),
{
    match parse_json(body) {
        Some(v) => v,
        None => JsonValue::Null,
    }
}

/// `Value::get(key)`.
pub fn get<'a>(v: &'a JsonValue, key: &str) -> (r: Option<&'a JsonValue>)
    ensures
        match r {
            Some(x) => json_get(*v, key@) == Some(*x),
            None => json_get(*v, key@) is None,
        },
{
    match v {
        JsonValue::Object(entries) => {
            let mut i: usize = 0;
            assert(entries@.skip(0) =~= entries@);
            while i < entries.len()
                invariant
                    i <= entries.len(),
                    json_get(*v, key@) == entries_get(entries@, key@),
                    entries_get(entries@, key@) == entries_get(entries@.skip(i as int), key@),
                decreases entries.len() - i,
            {
                let ghost rest = entries@.skip(i as int);
                assert(rest.len() > 0);
                assert(rest[0] == entries@[i as int]);
                assert(rest.skip(1) =~= entries@.skip(i + 1));
                if crate::text::str_eq(entries[i].0.as_str(), key) {
                    assert(rest[0].0@ == key@);
                    assert(entries_get(rest, key@) == Some(rest[0].1));
                    return Some(&entries[i].1);
                }
                i = i + 1;
            }
            None
        },
        _ => None,
    }
}

/// `Value::get(key)` on an optional value.
pub fn get_opt<'a>(v: Option<&'a JsonValue>, key: &str) -> (r: Option<&'a JsonValue>)
    ensures
        match r {
            Some(x) => opt_get(match v { Some(y) => Some(*y), None => None }, key@) == Some(*x),
            None => opt_get(match v { Some(y) => Some(*y), None => None }, key@) is None,
        },
{
    match v {
        Some(x) => get(x, key),
        None => None,
    }
}

/// The string member `key` of `v`, or `""`.
pub fn str_field(v: &JsonValue, key: &str) -> (r: String)
    ensures
        r@ == field_str(*v, key@),
{
    match get(v, key) {
        Some(JsonValue::Str(s)) => s.clone(),
        _ => String::new(),
    }
}

/// `Value::as_str` on an optional value, with `""` for anything else.
pub fn str_of(v: Option<&JsonValue>) -> (r: String)
    ensures
        r@ == opt_str(match v { Some(y) => Some(*y), None => None }),
{
    match v {
        Some(JsonValue::Str(s)) => s.clone(),
        _ => String::new(),
    }
}

/// The first string of an array, a string itself, or `""`.
pub fn first_str(v: Option<&JsonValue>) -> (r: String)
    ensures
        r@ == first_str_of(match v { Some(y) => Some(*y), None => None }),
{
    match v {
        Some(JsonValue::Array(a)) => {
            if a.len() > 0 {
                match &a[0] {
                    JsonValue::Str(s) => s.clone(),
                    _ => String::new(),
                }
            } else {
                String::new()
            }
        },
        Some(JsonValue::Str(s)) => s.clone(),
        _ => String::new(),
    }
}

} // verus!
