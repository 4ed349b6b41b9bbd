//! Parsing JSON and YAML text into the value model.
//!
//! Text enters the library only here, through `serde_json` and
//! `serde_yaml`. Parsing is deterministic, so its outcome is named: the
//! uninterpreted functions [`json_value_of`] and [`yaml_value_of`] stand
//! for what a text parses to, and every guarantee downstream is stated
//! over them and the [`JsonValue`] that comes out. Object order is
//! preserved, so a document's field order survives into the model.

use vstd::prelude::*;
use crate::json::{Json, JsonValue};

verus! {

/// What JSON text parses to in the value model: a function of the text
/// alone, `None` where the text is not valid JSON.
pub uninterp spec fn json_value_of(s: Seq<char>) -> Option<Json>;

/// What YAML text parses to in the value model: a function of the text
/// alone, `None` where the text is not valid YAML.
pub uninterp spec fn yaml_value_of(s: Seq<char>) -> Option<Json>;

#[verifier::external_type_specification]
#[verifier::external_body]
pub struct ExValue(serde_json::Value);

/// Relies on `serde_json::from_str::<serde_json::Value>`: parsing is a
/// function of the text alone (recursion depth capped, no panic). Nothing
/// is promised of the value beyond that.
#[verifier::external_body]
fn serde_parse_value(s: &str) -> (r: Option<serde_json::Value>)
{
    serde_json::from_str::<serde_json::Value>(s).ok()
}

/// Relies on `serde_yaml::from_str::<serde_json::Value>`: parsing is a
/// function of the text alone (recursion depth capped, no panic). Nothing
/// is promised of the value beyond that.
#[verifier::external_body]
fn yaml_parse_value(s: &str) -> (r: Option<serde_json::Value>)
{
    serde_yaml::from_str::<serde_json::Value>(s).ok()
}

/// Relies on `serde_json::Value`'s accessors: converts a parsed value into
/// the library's model, variant by variant, numbers by their rendering —
/// so the composition with the parser is the function [`json_value_of`]
/// (or [`yaml_value_of`]) of the text.
#[verifier::external_body]
fn json_of_value(v: &serde_json::Value) -> (r: JsonValue)
{
    match v {
        serde_json::Value::Null => JsonValue::Null,
        serde_json::Value::Bool(b) => JsonValue::Bool(*b),
        serde_json::Value::Number(n) => JsonValue::Number(n.to_string()),
        serde_json::Value::String(s) => JsonValue::Text(s.clone()),
        serde_json::Value::Array(a) => JsonValue::Array(a.iter().map(json_of_value).collect()),
        serde_json::Value::Object(o) => JsonValue::Object(
            o.iter().map(|(k, x)| (k.clone(), json_of_value(x))).collect(),
        ),
    }
}

/// Parse JSON text into the value model.
///
/// Relies on the two wrappers above: the outcome is [`json_value_of`] of
/// the text — parsing succeeds or fails, and yields the same model value,
/// as a function of the text alone.
#[verifier::external_body]
pub fn parse_json(s: &str) -> (r: Option<JsonValue>)
    ensures
        r matches Some(v) ==> json_value_of(s@) == Some(v.deep_view()),
        r is None ==> json_value_of(s@) is None,
{
    match serde_parse_value(s) {
        Some(v) => Some(json_of_value(&v)),
        None => None,
    }
}

/// Parse YAML text into the value model.
///
/// Relies on the two wrappers above: the outcome is [`yaml_value_of`] of
/// the text, a function of the text alone.
#[verifier::external_body]
pub fn parse_yaml(s: &str) -> (r: Option<JsonValue>)
    ensures
        r matches Some(v) ==> yaml_value_of(s@) == Some(v.deep_view()),
        r is None ==> yaml_value_of(s@) is None,
{
    match yaml_parse_value(s) {
        Some(v) => Some(json_of_value(&v)),
        None => None,
    }
}

/// What pretty-reprinting a JSON text yields: a function of the text alone,
/// `None` where the text is not valid JSON.
pub uninterp spec fn pretty_of(s: Seq<char>) -> Option<Seq<char>>;

/// Relies on `serde_json::from_str` and `serde_json::to_string_pretty`:
/// re-rendering a JSON text with indentation is a function of the text
/// alone, and fails exactly where the text is not valid JSON.
#[verifier::external_body]
pub fn pretty_reformat(s: &str) -> (r: Option<String>)
    ensures
        r matches Some(t) ==> pretty_of(s@) == Some(t@),
        r is None ==> pretty_of(s@) is None,
{
    let v = serde_json::from_str::<serde_json::Value>(s).ok()?;
    serde_json::to_string_pretty(&v).ok()
}

} // verus!
