//! The JSON values that tool calls carry, held opaquely.  What serde_json
//! reads from or renders of a value is a function of the value (and key, or
//! text) alone; the library names those results and reasons about what it
//! does with them.
use vstd::prelude::*;
use serde_json::Value;

verus! {

#[verifier::external_type_specification]
#[verifier::external_body]
pub struct ExJsonValue(Value);

/// `serde_json::Value` derives `Clone`: the copy is the same value.
pub assume_specification[ <Value as Clone>::clone ](v: &Value) -> (r: Value)
    ensures
        r == *v,
;

/// What `Value::as_str` gives for `v`: the text of a JSON string, `None` for
/// other values.
pub uninterp spec fn json_str(v: Value) -> Option<Seq<char>>;

/// What `Value::get` gives for `v` and `key`: the member under that key of a
/// JSON object, `None` for a missing key or a value that is not an object.
pub uninterp spec fn json_member(v: Value, key: Seq<char>) -> Option<Value>;

/// What `Value::as_u64` gives for `v`: the number when it is a non-negative
/// integer that fits, `None` otherwise.
pub uninterp spec fn json_u64(v: Value) -> Option<u64>;

/// What indexing `v[key]` gives: the member under `key`, or `null`.
pub uninterp spec fn json_index(v: Value, key: Seq<char>) -> Value;

/// The outcome of `serde_json::from_str` on `text`: the value, or
/// serde_json's account of the failure.
pub uninterp spec fn json_parse_outcome(text: Seq<char>) -> Result<Value, Seq<char>>;

/// The compact JSON text of `v` (its `Display`).
pub uninterp spec fn json_rendering(v: Value) -> Seq<char>;

/// The value `text` reads as, or `null` when it is not JSON.
pub uninterp spec fn json_value_or_null(text: Seq<char>) -> Value;

pub open spec fn opt_chars_of(o: Option<&str>) -> Option<Seq<char>> {
    match o {
        Some(s) => Some(s@),
        None => None,
    }
}

pub open spec fn opt_value_of(o: Option<&Value>) -> Option<Value> {
    match o {
        Some(v) => Some(*v),
        None => None,
    }
}

/// The text member `key` of `v`: the member, when it is a JSON string.
pub open spec fn member_str(v: Value, key: Seq<char>) -> Option<Seq<char>> {
    match json_member(v, key) {
        Some(m) => json_str(m),
        None => None,
    }
}

/// `Value::as_str`: the text of a JSON string, `None` for other values.
#[verifier::external_body]
pub(crate) fn json_as_str(v: &Value) -> (r: Option<&str>)
    ensures
        opt_chars_of(r) == json_str(*v),
{
    v.as_str()
}

/// `Value::get` with a key: the member of a JSON object under that key,
/// `None` for a missing key or a value that is not an object.
#[verifier::external_body]
pub(crate) fn json_get<'a>(v: &'a Value, key: &str) -> (r: Option<&'a Value>)
    ensures
        opt_value_of(r) == json_member(*v, key@),
{
    v.get(key)
}

/// `Value::as_u64`: the number when the value is a non-negative integer
/// that fits, `None` otherwise.
#[verifier::external_body]
pub(crate) fn json_as_u64(v: &Value) -> (r: Option<u64>)
    ensures
        r == json_u64(*v),
{
    v.as_u64()
}

/// `v[key]`, cloned: the member under `key`, or `Value::Null` when there is
/// none or `v` is not an object.
#[verifier::external_body]
pub(crate) fn json_member_or_null(v: &Value, key: &str) -> (r: Value)
    ensures
        r == json_index(*v, key@),
        json_member(*v, key@) matches Some(m) ==> r == m,
{
    v[key].clone()
}

/// `serde_json::from_str` into a `Value`; on failure, serde_json's text of
/// the error.
#[verifier::external_body]
pub(crate) fn json_parse(text: &str) -> (r: Result<Value, String>)
    ensures
        match r {
            Ok(v) => json_parse_outcome(text@) == Ok::<Value, Seq<char>>(v),
            Err(m) => json_parse_outcome(text@) == Err::<Value, Seq<char>>(m@),
        },
{
    match serde_json::from_str(text) {
        Ok(v) => Ok(v),
        Err(e) => Err(e.to_string()),
    }
}

/// `Value::String(s)`: the JSON string whose text is `s`.
#[verifier::external_body]
pub(crate) fn json_string(s: String) -> (r: Value)
    ensures
        json_str(r) == Some(s@),
{
    Value::String(s)
}

/// An empty JSON object, what `json!({})` builds: the value that
/// `serde_json::from_str` reads from the text `{}`.
#[verifier::external_body]
pub(crate) fn json_empty_object() -> (r: Value)
    ensures
        r == json_value_or_null(seq!['{', '}']),
{
    Value::Object(serde_json::Map::new())
}

/// `Value`'s `Display`: the compact JSON text of the value.
#[verifier::external_body]
pub(crate) fn json_text(v: &Value) -> (r: String)
    ensures
        r@ == json_rendering(*v),
{
    v.to_string()
}

/// `serde_json::from_str` into a `Value`, with `Value::Null` when the text
/// is not JSON.
#[verifier::external_body]
pub(crate) fn json_parse_or_null(text: &str) -> (r: Value)
    ensures
        r == json_value_or_null(text@),
{
    serde_json::from_str(text).unwrap_or(Value::Null)
}

} // verus!
