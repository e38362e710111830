use vstd::prelude::*;

use crate::json_model::JVal;
use crate::json_model::spec_field;

verus! {

/// Declares serde_json::Value, the crate's parsed JSON document, as an
/// opaque type: the contracts below speak of it through `value_model`.
#[verifier::external_type_specification]
#[verifier::external_body]
pub struct ExValue(serde_json::Value);

/// Declares serde_json::Error, the parser's own error type, as an opaque
/// type; callers map it to an error of this library.
#[verifier::external_type_specification]
#[verifier::external_body]
pub struct ExError(serde_json::Error);

/// What a `serde_json::Value` holds, as a mathematical JSON document.
pub uninterp spec fn value_model(v: serde_json::Value) -> JVal;

/// What parsing a text as JSON yields: a document when the text is
/// well-formed JSON, nothing otherwise. The result depends on the text alone.
pub uninterp spec fn spec_parse_json(s: Seq<char>) -> Option<JVal>;

/// Relies on serde_json::from_str::<Value>: parsing succeeds exactly on
/// well-formed JSON text, and the parsed value is a function of the text.
#[verifier::external_body]
pub(crate) fn parse_json(data: &str) -> (r: Result<serde_json::Value, serde_json::Error>)
    ensures
        r is Ok <==> spec_parse_json(data@) is Some,
        r is Ok ==> value_model(r->Ok_0) == spec_parse_json(data@)->0,
{
    serde_json::from_str(data)
}

/// Relies on serde_json::Value::get with a string index: on an object it
/// looks the key up in the member map, on anything else it returns nothing.
#[verifier::external_body]
pub(crate) fn get_field<'a>(v: &'a serde_json::Value, key: &str) -> (r: Option<
    &'a serde_json::Value,
>)
    ensures
        r is Some <==> spec_field(value_model(*v), key@) is Some,
        r is Some ==> value_model(*r->0) == spec_field(value_model(*v), key@)->0,
{
    v.get(key)
}

/// Relies on serde_json::Value::as_array: the element vector of an array
/// value, nothing for any other value.
#[verifier::external_body]
pub(crate) fn as_array_of<'a>(v: &'a serde_json::Value) -> (r: Option<&'a Vec<serde_json::Value>>)
    ensures
        match value_model(*v) {
            JVal::Arr(s) => r is Some && r->0@.len() == s.len() && (forall|i: int|
                0 <= i < s.len() ==> #[trigger] value_model(r->0@[i]) == s[i]),
            _ => r is None,
        },
{
    v.as_array()
}

/// Relies on serde_json::Value::as_str: the text of a string value, nothing
/// for any other value.
#[verifier::external_body]
pub(crate) fn as_str_of<'a>(v: &'a serde_json::Value) -> (r: Option<&'a str>)
    ensures
        match value_model(*v) {
            JVal::Str(s) => r is Some && r->0@ == s,
            _ => r is None,
        },
{
    v.as_str()
}

/// Relies on serde_json::Value::as_u64: the value of a number that is a
/// non-negative integer fitting in a u64, nothing otherwise.
#[verifier::external_body]
pub(crate) fn as_u64_of(v: &serde_json::Value) -> (r: Option<u64>)
    ensures
        match value_model(*v) {
            JVal::Num { as_u64 } => r == as_u64,
            _ => r is None,
        },
{
    v.as_u64()
}

} // verus!
