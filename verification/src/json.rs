//! JSON and YAML documents, read into and written from the same values
//! that TOML documents are.

use vstd::prelude::*;
use crate::rewrite::{law_rewriting_settles, rewrite, spec_rewrite, spec_settled, Rule};
use crate::strmap::StrMap;
use crate::value::{Config, ConfigView, Field};

verus! {

/// `serde_json::Value`, the values of the `serde_json` crate: carried
/// through as they are, nothing is known of what one holds.
#[verifier::external_type_specification]
#[verifier::external_body]
pub struct ExJsonValue(serde_json::Value);

/// What a JSON document says: the value that it holds, or why it is none.
pub uninterp spec fn json_document(text: Seq<char>) -> Result<ConfigView, Seq<char>>;

/// What a YAML document says: the value that it holds, or why it is none.
pub uninterp spec fn yaml_document(text: Seq<char>) -> Result<ConfigView, Seq<char>>;

/// What a value says when it is written as JSON: the text, or why there is
/// none.
pub uninterp spec fn json_text(value: ConfigView) -> Result<Seq<char>, Seq<char>>;

/// What a value says when it is written as YAML: the text, or why there is
/// none.
pub uninterp spec fn yaml_text(value: ConfigView) -> Result<Seq<char>, Seq<char>>;

/// What the contracts say of the outcome of reading a document.
pub open spec fn read_view(read: Result<Config, String>) -> Result<ConfigView, Seq<char>> {
    match read {
        Ok(v) => Ok(v@),
        Err(e) => Err(e@),
    }
}

/// What the contracts say of the outcome of writing a document.
pub open spec fn text_view(written: Result<String, String>) -> Result<Seq<char>, Seq<char>> {
    match written {
        Ok(t) => Ok(t@),
        Err(e) => Err(e@),
    }
}

/// Copies a number of the `serde_json` crate into a [`Config`]: a whole
/// number if it is one that fits, else a number with a fraction, else the
/// number as it is written.
///
/// Trusted: reads a `serde_json::Value`.  Nothing is promised of the
/// outcome.
#[verifier::external_body]
fn number_from_json(number: &serde_json::Value) -> (out: Config) {
    number.as_i64().map(Config::Integer).or_else(
        || number.as_f64().map(|f| Config::Float(f.to_string())),
    ).unwrap_or_else(|| Config::String(number.to_string()))
}

/// Copies a value of the `serde_json` crate into a [`Config`], variant by
/// variant.
///
/// Trusted: reads a `serde_json::Value`.  Nothing is promised of the
/// outcome here; [`read_json`] and [`read_yaml`] name what a whole document
/// gives.
#[verifier::external_body]
fn from_json(value: &serde_json::Value) -> (out: Config) {
    match value {
        serde_json::Value::Null => Config::Null,
        serde_json::Value::Bool(b) => Config::Boolean(*b),
        serde_json::Value::Number(_) => number_from_json(value),
        serde_json::Value::String(s) => Config::String(s.clone()),
        serde_json::Value::Array(a) => Config::Array(a.iter().map(from_json).collect()),
        serde_json::Value::Object(o) => Config::Table(
            o.iter().map(|(k, v)| Field { key: k.clone(), value: from_json(v) }).collect(),
        ),
    }
}

/// Reads a number with a fraction into a value of the `serde_json` crate;
/// what JSON cannot say as a number becomes nothing.
///
/// Trusted: builds a `serde_json::Value`.  Nothing is promised of the
/// outcome.
#[verifier::external_body]
fn number_to_json(text: &str) -> (out: serde_json::Value) {
    text.parse().ok().and_then(serde_json::Number::from_f64).map(
        serde_json::Value::Number,
    ).unwrap_or(serde_json::Value::Null)
}

/// Copies a [`Config`] into a value of the `serde_json` crate, variant by
/// variant.  A date, which JSON cannot say, is not to be found in the
/// value, nor a number that is not finite.
///
/// Trusted: builds a `serde_json::Value`.  Nothing is promised of the
/// outcome here; [`write_json`] and [`write_yaml`] name what a whole value
/// gives.
#[verifier::external_body]
pub(crate) fn to_json(value: &Config) -> (out: serde_json::Value)
    requires
        spec_settled(value@, Rule::ForJson),
{
    match value {
        Config::Null => serde_json::Value::Null,
        Config::Boolean(b) => serde_json::Value::Bool(*b),
        Config::Integer(i) => serde_json::Value::Number((*i).into()),
        Config::Float(f) => number_to_json(f),
        Config::String(s) => serde_json::Value::String(s.clone()),
        Config::Datetime(d) => serde_json::Value::String(d.clone()),
        Config::Array(a) => serde_json::Value::Array(a.iter().map(to_json).collect()),
        Config::Table(t) => serde_json::Value::Object(
            t.iter().map(|f| (f.key.clone(), to_json(&f.value))).collect(),
        ),
    }
}

/// Reads a JSON document.
///
/// Trusted: calls `serde_json::from_str` for a `serde_json::Value`.  What
/// it returns depends on the text alone: the document's value, or the
/// message of the error.
#[verifier::external_body]
fn read_json(text: &str) -> (read: Result<Config, String>)
    ensures
        read_view(read) == json_document(text@),
{
    serde_json::from_str::<serde_json::Value>(text).map(|v| from_json(&v)).map_err(
        |e| e.to_string(),
    )
}

/// Reads a YAML document, as far as JSON can say what it holds.
///
/// Trusted: calls `serde_yaml::from_str` for a `serde_json::Value`.  What
/// it returns depends on the text alone: the document's value, or the
/// message of the error.
#[verifier::external_body]
fn read_yaml(text: &str) -> (read: Result<Config, String>)
    ensures
        read_view(read) == yaml_document(text@),
{
    serde_yaml::from_str::<serde_json::Value>(text).map(|v| from_json(&v)).map_err(
        |e| e.to_string(),
    )
}

/// Writes a value as JSON, on several lines.  The value is fit for JSON.
///
/// Trusted: calls `serde_json::to_string_pretty`.  What it returns depends
/// on the value alone: the text, or the message of the error.
#[verifier::external_body]
fn write_json(value: &Config) -> (written: Result<String, String>)
    requires
        spec_settled(value@, Rule::ForJson),
    ensures
        text_view(written) == json_text(value@),
{
    serde_json::to_string_pretty(&to_json(value)).map_err(|e| e.to_string())
}

/// Writes a value as YAML.  The value is fit for JSON.
///
/// Trusted: calls `serde_yaml::to_string`.  What it returns depends on the
/// value alone: the text, or the message of the error.
#[verifier::external_body]
fn write_yaml(value: &Config) -> (written: Result<String, String>)
    requires
        spec_settled(value@, Rule::ForJson),
    ensures
        text_view(written) == yaml_text(value@),
{
    serde_yaml::to_string(&to_json(value)).map_err(|e| e.to_string())
}

/// Parses a JSON document.
pub fn parse_json(text: &str) -> (read: Result<Config, String>)
    ensures
        read_view(read) == json_document(text@),
{
    read_json(text)
}

/// Parses a YAML document.
pub fn parse_yaml(text: &str) -> (read: Result<Config, String>)
    ensures
        read_view(read) == yaml_document(text@),
{
    read_yaml(text)
}

/// Writes a value as JSON, once it is made fit for JSON.
pub fn to_json_text(value: &Config) -> (written: Result<String, String>)
    ensures
        text_view(written) == json_text(spec_toml_to_json(value@)),
{
    write_json(&toml_to_json(value))
}

/// Writes a value as YAML, once it is made fit for JSON.
pub fn to_yaml_text(value: &Config) -> (written: Result<String, String>)
    ensures
        text_view(written) == yaml_text(spec_toml_to_json(value@)),
{
    write_yaml(&toml_to_json(value))
}

/// A value of a JSON document as TOML can say it: where the document says
/// nothing, there is the string `null`.
pub open spec fn spec_json_to_toml(value: ConfigView) -> ConfigView {
    spec_rewrite(value, 0, Rule::NullAsText, Seq::empty(), Map::empty())
}

/// A value of a TOML document as JSON can say it: a date is a string, and
/// a number that is not finite is nothing.
pub open spec fn spec_toml_to_json(value: ConfigView) -> ConfigView {
    spec_rewrite(value, 0, Rule::ForJson, Seq::empty(), Map::empty())
}

/// Convert JSON value to TOML value.
pub fn json_to_toml(value: &Config) -> (out: Config)
    ensures
        out@ == spec_json_to_toml(value@),
        spec_settled(out@, Rule::NullAsText),
{
    let none: StrMap<String> = StrMap::new();
    proof {
        law_rewriting_settles(value@, Rule::NullAsText, none.keys(), none@);
    }
    rewrite(value, Rule::NullAsText, &none)
}

/// Convert TOML value to JSON value.
pub fn toml_to_json(value: &Config) -> (out: Config)
    ensures
        out@ == spec_toml_to_json(value@),
        spec_settled(out@, Rule::ForJson),
{
    let none: StrMap<String> = StrMap::new();
    proof {
        law_rewriting_settles(value@, Rule::ForJson, none.keys(), none@);
    }
    rewrite(value, Rule::ForJson, &none)
}

} // verus!
