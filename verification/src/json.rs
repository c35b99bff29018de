//! The JSON values that this crate carries, and what it asks of `serde_json`.
use vstd::prelude::*;

verus! {

/// A JSON document as `serde_json` holds it. Verus sees nothing inside such a
/// value; what the library reads out of one goes through the names below.
#[verifier::external_type_specification]
#[verifier::external_body]
pub struct ExJsonValue(serde_json::Value);

/// `serde_json::Value` derives `Clone`: the copy is the same JSON value.
pub assume_specification[ <serde_json::Value as Clone>::clone ](v: &serde_json::Value) -> (r: serde_json::Value)
    ensures
        r == *v,
;

} // verus!

verus! {

/// The value that `serde_json::from_str::<Value>` reads from `text`, `None` when
/// the text is not one JSON document.
pub uninterp spec fn json_parsed(text: Seq<char>) -> Option<serde_json::Value>;

/// `serde_json::from_str::<Value>`. Claimed: the result is `json_parsed(text)`.
#[verifier::external_body]
pub(crate) fn json_value_of(text: &str) -> (r: Option<serde_json::Value>)
    ensures
        r == json_parsed(text@),
{
    serde_json::from_str(text).ok()
}

/// The empty JSON object, as `serde_json` reads `{}`.
pub open spec fn json_empty() -> serde_json::Value {
    json_parsed("{}"@)->0
}

/// JSON `null`, as `serde_json` reads `null`.
pub open spec fn json_null_value() -> serde_json::Value {
    json_parsed("null"@)->0
}

/// `serde_json::Value::Null`. Claimed: it is the value `serde_json` reads from
/// the text `null`.
#[verifier::external_body]
pub(crate) fn json_null() -> (r: serde_json::Value)
    ensures
        json_parsed("null"@) == Some(r),
{
    serde_json::Value::Null
}

/// An empty JSON object (`Value::Object` of an empty map). Claimed: it is the
/// value `serde_json` reads from the text `{}` (a map without entries).
#[verifier::external_body]
pub(crate) fn json_empty_object() -> (r: serde_json::Value)
    ensures
        json_parsed("{}"@) == Some(r),
{
    serde_json::Value::Object(serde_json::Map::new())
}

/// What `v[key].as_str()` gives: the string under `key` when `v` is an object
/// holding a string there.
pub uninterp spec fn json_str_under(v: serde_json::Value, key: Seq<char>) -> Option<Seq<char>>;

/// `v[key].as_str()` of `serde_json`, copied (indexing a `Value` by a missing key
/// gives `null` and does not panic). Claimed: the result is
/// `json_str_under(v, key)`.
#[verifier::external_body]
pub(crate) fn json_str_at(v: &serde_json::Value, key: &str) -> (r: Option<String>)
    ensures
        match r {
            Some(s) => json_str_under(*v, key@) == Some(s@),
            None => json_str_under(*v, key@) is None,
        },
{
    v[key].as_str().map(|s| s.to_string())
}

/// What `v[key].as_bool()` gives.
pub uninterp spec fn json_bool_under(v: serde_json::Value, key: Seq<char>) -> Option<bool>;

/// `v[key].as_bool()` of `serde_json`. Claimed: the result is
/// `json_bool_under(v, key)`.
#[verifier::external_body]
pub(crate) fn json_bool_at(v: &serde_json::Value, key: &str) -> (r: Option<bool>)
    ensures
        r == json_bool_under(*v, key@),
{
    v[key].as_bool()
}

/// What `v[key]` holds: the value under `key`, JSON `null` where there is none.
pub uninterp spec fn json_value_under(v: serde_json::Value, key: Seq<char>) -> serde_json::Value;

/// `v[key].clone()` of `serde_json`. Claimed: the result is
/// `json_value_under(v, key)`.
#[verifier::external_body]
pub(crate) fn json_value_at(v: &serde_json::Value, key: &str) -> (r: serde_json::Value)
    ensures
        r == json_value_under(*v, key@),
{
    v[key].clone()
}

/// What `v.get(key)` gives: the value under `key` when `v` is an object that
/// has the key.
pub uninterp spec fn json_get_under(v: serde_json::Value, key: Seq<char>) -> Option<serde_json::Value>;

/// `v.get(key).cloned()` of `serde_json`. Claimed: the result is
/// `json_get_under(v, key)`.
#[verifier::external_body]
pub(crate) fn json_get_at(v: &serde_json::Value, key: &str) -> (r: Option<serde_json::Value>)
    ensures
        r == json_get_under(*v, key@),
{
    v.get(key).cloned()
}

/// What `v.as_array()` holds: the elements when `v` is an array.
pub uninterp spec fn json_elements(v: serde_json::Value) -> Option<Seq<serde_json::Value>>;

/// `v.as_array().cloned()` of `serde_json`. Claimed: the result's elements are
/// `json_elements(v)`.
#[verifier::external_body]
pub(crate) fn json_array_of(v: &serde_json::Value) -> (r: Option<Vec<serde_json::Value>>)
    ensures
        match r {
            Some(es) => json_elements(*v) == Some(es@),
            None => json_elements(*v) is None,
        },
{
    v.as_array().cloned()
}

/// The JSON text that `v.to_string()` (its `Display`) writes.
pub uninterp spec fn json_text_of(v: serde_json::Value) -> Seq<char>;

/// `v.to_string()` of `serde_json`. Claimed: the result is `json_text_of(v)`.
#[verifier::external_body]
pub(crate) fn json_text(v: &serde_json::Value) -> (r: String)
    ensures
        r@ == json_text_of(*v),
{
    v.to_string()
}

} // verus!
