//! YAML text, read and written by serde_yaml, and the conversions between
//! YAML and JSON values that serde performs.
use vstd::prelude::*;
use crate::json::{JsonV, JsonValue};
use crate::json_text::{json_from_serde, json_to_serde};
use crate::yaml::{YamlNumber, YamlTag, YamlV, YamlValue};

verus! {

#[verifier::external_type_specification]
#[verifier::external_body]
pub struct ExSerdeYamlValue(serde_yaml::Value);

#[verifier::external_type_specification]
#[verifier::external_body]
pub struct ExSerdeYamlNumber(serde_yaml::Number);

#[verifier::external_type_specification]
#[verifier::external_body]
pub struct ExSerdeYamlTaggedValue(serde_yaml::value::TaggedValue);

/// What serde_yaml makes of `text`: the value it parses, or the message of its
/// error.
pub uninterp spec fn yaml_parse_outcome(text: Seq<char>) -> Result<YamlV, Seq<char>>;

/// What `serde_yaml::to_string` makes of a value: its text, or the message of
/// its error.
pub uninterp spec fn yaml_text_outcome(v: YamlV) -> Result<Seq<char>, Seq<char>>;

/// What `serde_yaml::to_value` makes of a JSON value.
pub uninterp spec fn yaml_of_json_outcome(v: JsonV) -> Result<YamlV, Seq<char>>;

/// What `serde_json::to_value` makes of a YAML value.
pub uninterp spec fn json_of_yaml_outcome(v: YamlV) -> Result<JsonV, Seq<char>>;

/// Moves a serde_yaml number into the library's number: an integer that fits
/// `u64`, else one that fits `i64`, else the text serde_yaml prints for it.
#[verifier::external_body]
fn yaml_number_from_serde(n: serde_yaml::Number) -> YamlNumber {
    match (n.as_u64(), n.as_i64()) {
        (Some(u), _) => YamlNumber::PosInt(u),
        (None, Some(i)) => YamlNumber::NegInt(i),
        (None, None) => YamlNumber::Float(n.to_string()),
    }
}

/// Moves the library's number into a serde_yaml value (a float by its text).
#[verifier::external_body]
fn yaml_number_to_serde(n: &YamlNumber) -> serde_yaml::Value {
    match n {
        YamlNumber::PosInt(u) => serde_yaml::Value::Number((*u).into()),
        YamlNumber::NegInt(i) => serde_yaml::Value::Number((*i).into()),
        YamlNumber::Float(t) => t.parse().map_or(serde_yaml::Value::Null, serde_yaml::Value::Number),
    }
}

/// Moves a tagged serde_yaml value into the library's tree.
#[verifier::external_body]
fn yaml_tagged_from_serde(t: Box<serde_yaml::value::TaggedValue>) -> YamlValue {
    YamlValue::Tagged(YamlTag { text: t.tag.to_string() }, Box::new(yaml_from_serde(t.value)))
}

/// Moves a tagged value of the library's tree into serde_yaml.
#[verifier::external_body]
fn yaml_tagged_to_serde(t: &YamlTag, inner: &YamlValue) -> serde_yaml::Value {
    let tag = serde_yaml::value::Tag::new(t.text.clone());
    serde_yaml::Value::Tagged(Box::new(serde_yaml::value::TaggedValue { tag, value: yaml_to_serde(inner) }))
}

/// Moves a serde_yaml value into the library's tree, variant for variant.
#[verifier::external_body]
fn yaml_from_serde(v: serde_yaml::Value) -> YamlValue {
    match v {
        serde_yaml::Value::Null => YamlValue::Null,
        serde_yaml::Value::Bool(b) => YamlValue::Bool(b),
        serde_yaml::Value::Number(n) => YamlValue::Number(yaml_number_from_serde(n)),
        serde_yaml::Value::String(s) => YamlValue::String(s),
        serde_yaml::Value::Sequence(a) => YamlValue::Sequence(a.into_iter().map(yaml_from_serde).collect()),
        serde_yaml::Value::Mapping(m) => YamlValue::Mapping(
            m.into_iter().map(|(k, v)| (yaml_from_serde(k), yaml_from_serde(v))).collect(),
        ),
        serde_yaml::Value::Tagged(t) => yaml_tagged_from_serde(t),
    }
}

/// Moves the library's tree into a serde_yaml value, variant for variant.
#[verifier::external_body]
fn yaml_to_serde(v: &YamlValue) -> serde_yaml::Value {
    match v {
        YamlValue::Null => serde_yaml::Value::Null,
        YamlValue::Bool(b) => serde_yaml::Value::Bool(*b),
        YamlValue::Number(n) => yaml_number_to_serde(n),
        YamlValue::String(s) => serde_yaml::Value::String(s.clone()),
        YamlValue::Sequence(a) => serde_yaml::Value::Sequence(a.iter().map(yaml_to_serde).collect()),
        YamlValue::Mapping(m) => serde_yaml::Value::Mapping(
            m.iter().map(|(k, v)| (yaml_to_serde(k), yaml_to_serde(v))).collect(),
        ),
        YamlValue::Tagged(t, inner) => yaml_tagged_to_serde(t, inner),
    }
}

/// `serde_yaml::from_str::<serde_yaml::Value>`. Claimed: the outcome is a
/// function of the text alone (`yaml_parse_outcome`).
#[verifier::external_body]
pub(crate) fn parse_yaml(text: &str) -> (r: Result<YamlValue, String>)
    ensures
        match r {
            Ok(v) => yaml_parse_outcome(text@) == Ok::<YamlV, Seq<char>>(v@),
            Err(e) => yaml_parse_outcome(text@) == Err::<YamlV, Seq<char>>(e@),
        },
{
    match serde_yaml::from_str::<serde_yaml::Value>(text) {
        Ok(v) => Ok(yaml_from_serde(v)),
        Err(e) => Err(e.to_string()),
    }
}

/// `serde_yaml::to_string` of a value. Claimed: the outcome is a function of
/// the value alone (`yaml_text_outcome`).
#[verifier::external_body]
pub(crate) fn yaml_to_text(v: &YamlValue) -> (r: Result<String, String>)
    ensures
        match r {
            Ok(t) => yaml_text_outcome(v@) == Ok::<Seq<char>, Seq<char>>(t@),
            Err(e) => yaml_text_outcome(v@) == Err::<Seq<char>, Seq<char>>(e@),
        },
{
    match serde_yaml::to_string(&yaml_to_serde(v)) {
        Ok(t) => Ok(t),
        Err(e) => Err(e.to_string()),
    }
}

/// `serde_yaml::to_value` of a JSON value. Claimed: the outcome is a function
/// of the value alone (`yaml_of_json_outcome`).
#[verifier::external_body]
pub(crate) fn yaml_of_json(v: &JsonValue) -> (r: Result<YamlValue, String>)
    ensures
        match r {
            Ok(y) => yaml_of_json_outcome(v@) == Ok::<YamlV, Seq<char>>(y@),
            Err(e) => yaml_of_json_outcome(v@) == Err::<YamlV, Seq<char>>(e@),
        },
{
    match serde_yaml::to_value(&json_to_serde(v)) {
        Ok(y) => Ok(yaml_from_serde(y)),
        Err(e) => Err(e.to_string()),
    }
}

/// `serde_json::to_value` of a YAML value. Claimed: the outcome is a function
/// of the value alone (`json_of_yaml_outcome`).
#[verifier::external_body]
pub(crate) fn json_of_yaml(v: &YamlValue) -> (r: Result<JsonValue, String>)
    ensures
        match r {
            Ok(j) => json_of_yaml_outcome(v@) == Ok::<JsonV, Seq<char>>(j@),
            Err(e) => json_of_yaml_outcome(v@) == Err::<JsonV, Seq<char>>(e@),
        },
{
    match serde_json::to_value(&yaml_to_serde(v)) {
        Ok(j) => Ok(json_from_serde(j)),
        Err(e) => Err(e.to_string()),
    }
}

} // verus!
