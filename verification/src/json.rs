//! Trusted boundary to the structured-document parser. Parsing the
//! underlying document format is an outside capability; the loader's own
//! logic only walks the parsed tree through the small set of accessors
//! declared here. The parsed value itself is opaque, so each accessor states
//! what it returns over the value's content, a tree of plain values
//! (`content_of`), and the parse result — a function of the text alone — is
//! named by `json_of`.

use vstd::prelude::*;

use crate::document::{json_get_spec, JsonModel};

verus! {

/// serde_json's parsed document value, carried opaquely through the records.
#[verifier::external_type_specification]
#[verifier::external_body]
pub struct ExValue(serde_json::Value);

/// serde_json's parse error, mapped by the loader to its own error type.
#[verifier::external_type_specification]
#[verifier::external_body]
pub struct ExError(serde_json::Error);

/// The content of a parsed document value, as the model tree: what the
/// accessors below hand out of it.
pub uninterp spec fn content_of(v: serde_json::Value) -> JsonModel;

/// What parsing a text yields: the content of the parsed value, or nothing
/// where the text is malformed. Parsing depends on the text alone.
pub uninterp spec fn json_of(s: Seq<char>) -> Option<JsonModel>;

/// Relies on serde_json::from_str: parses document text into a tree value,
/// failing exactly on malformed text; deterministic in the text.
#[verifier::external_body]
pub(crate) fn json_parse(text: &str) -> (r: Result<serde_json::Value, serde_json::Error>)
    ensures
        r matches Ok(v) ==> json_of(text@) == Some(content_of(v)),
        r is Err ==> json_of(text@) is None,
{
    serde_json::from_str(text)
}

/// Relies on serde_json::Value::get: looks a key up in an object value,
/// yielding nothing when the value is not an object or lacks the key.
#[verifier::external_body]
pub(crate) fn json_get<'a>(v: &'a serde_json::Value, key: &str) -> (r: Option<
    &'a serde_json::Value,
>)
    ensures
        r matches Some(w) ==> json_get_spec(content_of(*v), key@) == Some(content_of(*w)),
        r is None ==> json_get_spec(content_of(*v), key@) is None,
{
    v.get(key)
}

/// Relies on serde_json::Value::as_str: yields the text of a string value,
/// nothing otherwise.
#[verifier::external_body]
pub(crate) fn json_str(v: &serde_json::Value) -> (r: Option<String>)
    ensures
        r is Some <==> content_of(*v) is Text,
        r matches Some(s) ==> content_of(*v) == JsonModel::Text(s@),
{
    match v.as_str() {
        Some(s) => Some(s.to_owned()),
        None => None,
    }
}

/// Relies on serde_json::Value::as_u64: yields the value of a number
/// representable as an unsigned 64-bit integer, nothing otherwise.
#[verifier::external_body]
pub(crate) fn json_u64(v: &serde_json::Value) -> (r: Option<u64>)
    ensures
        r is Some <==> content_of(*v) is UInt,
        r matches Some(n) ==> content_of(*v) == JsonModel::UInt(n),
{
    v.as_u64()
}

/// Relies on serde_json::Value::as_bool: yields the value of a boolean,
/// nothing otherwise.
#[verifier::external_body]
pub(crate) fn json_bool(v: &serde_json::Value) -> (r: Option<bool>)
    ensures
        r is Some <==> content_of(*v) is Bool,
        r matches Some(b) ==> content_of(*v) == JsonModel::Bool(b),
{
    v.as_bool()
}

/// Relies on serde_json::Value::as_array: yields the elements of an array
/// value, nothing otherwise.
#[verifier::external_body]
pub(crate) fn json_array(v: &serde_json::Value) -> (r: Option<&Vec<serde_json::Value>>)
    ensures
        r is Some <==> content_of(*v) is Array,
        r matches Some(a) ==> content_of(*v) == JsonModel::Array(
            a@.map_values(|w: serde_json::Value| content_of(w)),
        ),
{
    v.as_array()
}

/// Relies on serde_json::Value's Clone: the copy equals the original.
pub assume_specification[ <serde_json::Value as Clone>::clone ](v: &serde_json::Value) -> (r:
    serde_json::Value)
    ensures
        r == *v,
;

/// Relies on serde_json::Value::Null: the document value standing for the
/// absence of metadata.
#[verifier::external_body]
pub(crate) fn json_null() -> (r: serde_json::Value)
    ensures
        content_of(r) == JsonModel::Null,
{
    serde_json::Value::Null
}

} // verus!
