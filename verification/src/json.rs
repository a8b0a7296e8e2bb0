//! Field lookups in JSON text, done by `serde_json`.
use vstd::prelude::*;

verus! {

/// The string stored under `key` when `json` parses as a JSON object whose
/// `key` member is a string; `None` otherwise.
pub uninterp spec fn json_str_field(json: Seq<char>, key: Seq<char>) -> Option<Seq<char>>;


/// Parses `json` with `serde_json::from_str::<serde_json::Value>` and reads
/// member `key` with `Value::get` and `Value::as_str`. The contract claims
/// only that the result is a function of the two texts.
#[verifier::external_body]
pub(crate) fn json_string_field(json: &str, key: &str) -> (r: Option<String>)
    ensures
        match r {
            Some(v) => json_str_field(json@, key@) == Some(v@),
            None => json_str_field(json@, key@) is None,
        },
{
    let value: serde_json::Value = serde_json::from_str(json).ok()?;
    value.get(key).and_then(|v| v.as_str()).map(|s| s.to_string())
}

/// The text of `json` when it parses as a JSON string.
pub uninterp spec fn json_text_value(json: Seq<char>) -> Option<Seq<char>>;

/// `serde_json::from_str::<serde_json::Value>` then `Value::as_str`. The
/// contract claims only that the result is a function of the text.
#[verifier::external_body]
pub(crate) fn json_string_value(json: &str) -> (r: Option<String>)
    ensures
        match r {
            Some(v) => json_text_value(json@) == Some(v@),
            None => json_text_value(json@) is None,
        },
{
    let value: serde_json::Value = serde_json::from_str(json).ok()?;
    value.as_str().map(|s| s.to_string())
}

/// The members of `json` when it parses as a JSON object: each name with the
/// member's value written back as compact JSON, in the order the parsed
/// object yields them.
pub uninterp spec fn json_members(json: Seq<char>) -> Option<Seq<(Seq<char>, Seq<char>)>>;

/// `serde_json::from_str::<serde_json::Value>`, `Value::as_object`, and each
/// member's value written with `Value::to_string`. The contract claims only
/// that the result is a function of the text.
#[verifier::external_body]
pub(crate) fn json_object_members(json: &str) -> (r: Option<Vec<(String, String)>>)
    ensures
        match r {
            Some(v) => json_members(json@) == Some(v@.map_values(|m: (String, String)| (m.0@, m.1@))),
            None => json_members(json@) is None,
        },
{
    let value: serde_json::Value = serde_json::from_str(json).ok()?;
    value.as_object().map(|m| m.iter().map(|(k, v)| (k.clone(), v.to_string())).collect())
}

/// `json` parsed and written back as compact JSON, when it parses.
pub uninterp spec fn json_compact(json: Seq<char>) -> Option<Seq<char>>;

/// `serde_json::from_str::<serde_json::Value>` then `Value::to_string`. The
/// contract claims only that the result is a function of the text.
#[verifier::external_body]
pub(crate) fn json_compact_text(json: &str) -> (r: Option<String>)
    ensures
        match r {
            Some(v) => json_compact(json@) == Some(v@),
            None => json_compact(json@) is None,
        },
{
    let value: serde_json::Value = serde_json::from_str(json).ok()?;
    Some(value.to_string())
}

} // verus!
