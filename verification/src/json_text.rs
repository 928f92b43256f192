//! JSON text, read and written by serde_json.
use vstd::prelude::*;
use crate::json::{JsonNumber, JsonV, JsonValue};

verus! {

#[verifier::external_type_specification]
#[verifier::external_body]
pub struct ExSerdeJsonValue(serde_json::Value);

#[verifier::external_type_specification]
#[verifier::external_body]
pub struct ExSerdeJsonNumber(serde_json::Number);

/// What serde_json makes of `text`: the value it parses, or the message of its
/// error.
pub uninterp spec fn json_parse_outcome(text: Seq<char>) -> Result<JsonV, Seq<char>>;

/// The text of `serde_json::to_string_pretty` for a value, or nothing where it
/// fails.
pub uninterp spec fn json_pretty_outcome(v: JsonV) -> Option<Seq<char>>;

/// Moves a serde_json number into the library's number: an integer that fits
/// `u64`, else one that fits `i64`, else the text serde_json prints for it.
#[verifier::external_body]
fn json_number_from_serde(n: serde_json::Number) -> JsonNumber {
    match (n.as_u64(), n.as_i64()) {
        (Some(u), _) => JsonNumber::PosInt(u),
        (None, Some(i)) => JsonNumber::NegInt(i),
        (None, None) => JsonNumber::Float(n.to_string()),
    }
}

/// Moves the library's number into a serde_json value (a float by its text).
#[verifier::external_body]
fn json_number_to_serde(n: &JsonNumber) -> serde_json::Value {
    match n {
        JsonNumber::PosInt(u) => serde_json::Value::Number((*u).into()),
        JsonNumber::NegInt(i) => serde_json::Value::Number((*i).into()),
        JsonNumber::Float(t) => t.parse().map_or(serde_json::Value::Null, serde_json::Value::Number),
    }
}

/// Moves a serde_json value into the library's tree, variant for variant.
#[verifier::external_body]
pub(crate) fn json_from_serde(v: serde_json::Value) -> JsonValue {
    match v {
        serde_json::Value::Null => JsonValue::Null,
        serde_json::Value::Bool(b) => JsonValue::Bool(b),
        serde_json::Value::Number(n) => JsonValue::Number(json_number_from_serde(n)),
        serde_json::Value::String(s) => JsonValue::String(s),
        serde_json::Value::Array(a) => JsonValue::Array(a.into_iter().map(json_from_serde).collect()),
        serde_json::Value::Object(m) => JsonValue::Object(
            m.into_iter().map(|(k, v)| (k, json_from_serde(v))).collect(),
        ),
    }
}

/// Moves the library's tree into a serde_json value, variant for variant.
#[verifier::external_body]
pub(crate) fn json_to_serde(v: &JsonValue) -> serde_json::Value {
    match v {
        JsonValue::Null => serde_json::Value::Null,
        JsonValue::Bool(b) => serde_json::Value::Bool(*b),
        JsonValue::Number(n) => json_number_to_serde(n),
        JsonValue::String(s) => serde_json::Value::String(s.clone()),
        JsonValue::Array(a) => serde_json::Value::Array(a.iter().map(json_to_serde).collect()),
        JsonValue::Object(m) => serde_json::Value::Object(
            m.iter().map(|(k, v)| (k.clone(), json_to_serde(v))).collect(),
        ),
    }
}

/// `serde_json::from_str::<serde_json::Value>`. Claimed: the outcome is a
/// function of the text alone (`json_parse_outcome`); the error is serde_json's
/// message for it.
#[verifier::external_body]
pub(crate) fn parse_json(text: &str) -> (r: Result<JsonValue, String>)
    ensures
        match r {
            Ok(v) => json_parse_outcome(text@) == Ok::<JsonV, Seq<char>>(v@),
            Err(e) => json_parse_outcome(text@) == Err::<JsonV, Seq<char>>(e@),
        },
{
    match serde_json::from_str::<serde_json::Value>(text) {
        Ok(v) => Ok(json_from_serde(v)),
        Err(e) => Err(e.to_string()),
    }
}

/// `serde_json::to_string_pretty` of a value. Claimed: the outcome is a
/// function of the value alone (`json_pretty_outcome`).
#[verifier::external_body]
pub(crate) fn json_pretty(v: &JsonValue) -> (r: Option<String>)
    ensures
        match r {
            Some(t) => json_pretty_outcome(v@) == Some(t@),
            None => json_pretty_outcome(v@) is None,
        },
{
    serde_json::to_string_pretty(&json_to_serde(v)).ok()
}

} // verus!
