//! JSON values carried through the library unexamined.

use vstd::prelude::*;

verus! {

/// The JSON value type of `serde_json`.
#[verifier::external_type_specification]
#[verifier::external_body]
pub struct ExJsonValue(serde_json::Value);

/// `serde_json::Value::clone` (derived): a copy equal to the original.
#[verifier::external_body]
pub fn clone_value(v: &serde_json::Value) -> (r: serde_json::Value)
    ensures
        r == *v,
{
    v.clone()
}

/// `serde_json::Value::Null`.
#[verifier::external_body]
pub fn null_value() -> (r: serde_json::Value) {
    serde_json::Value::Null
}

/// The JSON string holding `s`.
pub uninterp spec fn json_string_of(s: Seq<char>) -> serde_json::Value;

/// The JSON array holding `items`, in order.
pub uninterp spec fn json_array_of(items: Seq<serde_json::Value>) -> serde_json::Value;

/// The JSON object made of `entries` (`serde_json::Map` collected from them).
pub uninterp spec fn json_object_of(entries: Seq<(Seq<char>, serde_json::Value)>) -> serde_json::Value;

/// `serde_json::Value::String`: the JSON string holding `s`.
#[verifier::external_body]
pub fn json_string(s: &str) -> (r: serde_json::Value)
    ensures
        r == json_string_of(s@),
{
    serde_json::Value::String(s.to_string())
}

/// `serde_json::Value::Array`: the JSON array of the items, in order.
#[verifier::external_body]
pub fn json_array(items: Vec<serde_json::Value>) -> (r: serde_json::Value)
    ensures
        r == json_array_of(items@),
{
    serde_json::Value::Array(items)
}

/// `serde_json::Value::Object` of a `serde_json::Map` collected from the
/// entries.
#[verifier::external_body]
pub fn json_object(entries: Vec<(String, serde_json::Value)>) -> (r: serde_json::Value)
    ensures
        r == json_object_of(entries@.map_values(|e: (String, serde_json::Value)| (e.0@, e.1))),
{
    serde_json::Value::Object(entries.into_iter().collect())
}

} // verus!
