//! A JSON document as plain values: what the NSE parsers read out of the
//! exchange's API responses, parsed from text with `serde_json`.

use vstd::prelude::*;

verus! {

/// A JSON value as `serde_json` reads it. A number is held as the text
/// `serde_json` writes for it (its canonical form); an object holds its
/// members in the order `serde_json` keeps them (sorted by key).
#[derive(Debug)]
pub enum JsonValue {
    Null,
    Bool(bool),
    Number(String),
    Str(String),
    Array(Vec<JsonValue>),
    Object(Vec<(String, JsonValue)>),
}

#[verifier::external_type_specification]
#[verifier::external_body]
pub struct ExSerdeJsonValue(serde_json::Value);

/// What `serde_json::from_str::<serde_json::Value>` makes of a text: the
/// document, as a `JsonValue`, or the parser's error message.
pub uninterp spec fn json_document(text: Seq<char>) -> Result<JsonValue, Seq<char>>;

/// `serde_json::from_str::<serde_json::Value>`: the document a JSON text
/// holds (converted to a `JsonValue` by `json_value_of`), or the text of
/// the parser's error. What the parser accepts and what it reads is named,
/// not stated.
#[verifier::external_body]
pub(crate) fn parse_json(text: &str) -> (r: Result<JsonValue, String>)
    ensures
        match r {
            Ok(v) => json_document(text@) == Ok::<JsonValue, Seq<char>>(v),
            Err(e) => json_document(text@) == Err::<JsonValue, Seq<char>>(e@),
        },
{
    serde_json::from_str::<serde_json::Value>(text).map(json_value_of).map_err(|e| e.to_string())
}

/// The `JsonValue` of a `serde_json::Value`, variant by variant: a number
/// as `serde_json` writes it, arrays and objects element by element. It
/// only converts the result of `parse_json`.
#[verifier::external_body]
fn json_value_of(v: serde_json::Value) -> (r: JsonValue) {
    match v {
        serde_json::Value::Null => JsonValue::Null,
        serde_json::Value::Bool(b) => JsonValue::Bool(b),
        serde_json::Value::Number(n) => JsonValue::Number(n.to_string()),
        serde_json::Value::String(t) => JsonValue::Str(t),
        serde_json::Value::Array(a) => JsonValue::Array(a.into_iter().map(json_value_of).collect()),
        serde_json::Value::Object(m) => JsonValue::Object(m.into_iter().map(|(k, x)| (k, json_value_of(x))).collect()),
    }
}

/// The value of the first member named `key` at or after position `i`.
pub open spec fn member_from(m: Seq<(String, JsonValue)>, key: Seq<char>, i: int) -> Option<JsonValue>
    decreases m.len() - i,
{
    if i < 0 || i >= m.len() {
        None
    } else if m[i].0@ == key {
        Some(m[i].1)
    } else {
        member_from(m, key, i + 1)
    }
}

/// The member `key` of an object; none for any other value.
pub open spec fn member(v: JsonValue, key: Seq<char>) -> Option<JsonValue> {
    match v {
        JsonValue::Object(m) => member_from(m@, key, 0),
        _ => None,
    }
}

/// The member `key` of a value that may be absent.
pub open spec fn member_of(v: Option<JsonValue>, key: Seq<char>) -> Option<JsonValue> {
    match v {
        Some(x) => member(x, key),
        None => None,
    }
}

/// The text of a string value; none for anything else.
pub open spec fn text_of(v: Option<JsonValue>) -> Option<Seq<char>> {
    match v {
        Some(JsonValue::Str(s)) => Some(s@),
        _ => None,
    }
}

/// The elements of an array value; none for anything else.
pub open spec fn elements_of(v: Option<JsonValue>) -> Option<Seq<JsonValue>> {
    match v {
        Some(JsonValue::Array(a)) => Some(a@),
        _ => None,
    }
}

/// The text of the string member `key`, or empty.
pub open spec fn text_or_empty(v: JsonValue, key: Seq<char>) -> Seq<char> {
    match text_of(member(v, key)) {
        Some(s) => s,
        None => Seq::empty(),
    }
}

/// The member `key` of `v`, when `v` is an object that has one.
pub fn get<'a>(v: &'a JsonValue, key: &str) -> (r: Option<&'a JsonValue>)
    ensures
        match r {
            Some(x) => member(*v, key@) == Some(*x),
            None => member(*v, key@) is None,
        },
{
    match v {
        JsonValue::Object(m) => {
            let k = key.to_owned();
            let mut i: usize = 0;
            while i < m.len()
                invariant
                    i <= m.len(),
                    k@ == key@,
                    member(*v, key@) == member_from(m@, key@, 0),
                    member_from(m@, key@, 0) == member_from(m@, key@, i as int),
                decreases m.len() - i,
            {
                let entry = &m[i];
                if entry.0 == k {
                    assert(member_from(m@, key@, i as int) == Some(entry.1));
                    return Some(&entry.1);
                }
                i = i + 1;
            }
            None
        },
        _ => None,
    }
}

/// The text of the string member `key`.
pub fn get_str<'a>(v: &'a JsonValue, key: &str) -> (r: Option<&'a String>)
    ensures
        match r {
            Some(s) => text_of(member(*v, key@)) == Some(s@),
            None => text_of(member(*v, key@)) is None,
        },
{
    match get(v, key) {
        Some(JsonValue::Str(s)) => Some(s),
        _ => None,
    }
}

/// The text of the string member `key`, or the empty string.
pub fn str_or_empty(v: &JsonValue, key: &str) -> (r: String)
    ensures
        r@ == text_or_empty(*v, key@),
{
    match get_str(v, key) {
        Some(s) => s.clone(),
        None => String::new(),
    }
}

/// The elements of the array member `key`.
pub fn get_array<'a>(v: &'a JsonValue, key: &str) -> (r: Option<&'a Vec<JsonValue>>)
    ensures
        match r {
            Some(a) => elements_of(member(*v, key@)) == Some(a@),
            None => elements_of(member(*v, key@)) is None,
        },
{
    match get(v, key) {
        Some(JsonValue::Array(a)) => Some(a),
        _ => None,
    }
}

} // verus!
