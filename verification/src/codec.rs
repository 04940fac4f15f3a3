//! Reading and writing JSON text. The grammar is `serde_json`'s: this module
//! hands texts and values to it and says what it may rely on.

use crate::json::{Json, JsonModel};
use vstd::prelude::*;

verus! {

/// `serde_json::Number`: a JSON number, which this library carries through
/// and never looks into.
#[verifier::external_type_specification]
#[verifier::external_body]
pub struct ExNumber(serde_json::Number);

/// `serde_json::Number::clone`. Claimed: the copy is the number it was made
/// from.
pub assume_specification[ <serde_json::Number as Clone>::clone ](n: &serde_json::Number) -> (r:
    serde_json::Number)
    ensures
        r == *n,
;

/// `serde_json::Value`, which this library takes apart and puts together but
/// never looks into from verified code.
#[verifier::external_type_specification]
#[verifier::external_body]
pub struct ExValue(serde_json::Value);

/// `serde_json::Error`, of which only the message is read.
#[verifier::external_type_specification]
#[verifier::external_body]
pub struct ExError(serde_json::Error);

/// The JSON value that a `serde_json::Value` holds.
pub uninterp spec fn value_model(value: serde_json::Value) -> JsonModel;

/// What `serde_json::from_str` reads from a text: the value, or nothing where
/// it reports an error.
pub uninterp spec fn json_parse(text: Seq<char>) -> Option<JsonModel>;

/// What `serde_json::to_string_pretty` writes for a value: the text, or
/// nothing where it reports an error.
pub uninterp spec fn json_pretty(value: JsonModel) -> Option<Seq<char>>;

/// What `serde_json::to_string` writes for a value: the text, or nothing
/// where it reports an error.
pub uninterp spec fn json_compact(value: JsonModel) -> Option<Seq<char>>;

/// The JSON number that `serde_json::Number::from` makes of an unsigned
/// integer.
pub uninterp spec fn number_of(value: u64) -> serde_json::Number;

/// `serde_json::Number::from` on a `u64`. Claimed: the number depends on the
/// integer alone.
#[verifier::external_body]
fn number_from_u64(value: u64) -> (number: serde_json::Number)
    ensures
        number == number_of(value),
{
    serde_json::Number::from(value)
}

/// `serde_json::from_str`, reading a `serde_json::Value`. Claimed: what comes
/// back depends on the text alone, so the same text always gives the same
/// value or always fails.
#[verifier::external_body]
fn value_from_str(text: &str) -> (read: Result<serde_json::Value, serde_json::Error>)
    ensures
        match read {
            Ok(value) => json_parse(text@) == Some(value_model(value)),
            Err(_) => json_parse(text@) is None,
        },
{
    serde_json::from_str::<serde_json::Value>(text)
}

/// `serde_json::to_string_pretty` on a `serde_json::Value`. Claimed: what
/// comes back depends on the value alone, so the same value always gives the
/// same text or always fails.
#[verifier::external_body]
fn value_to_string_pretty(value: &serde_json::Value) -> (written: Result<
    String,
    serde_json::Error,
>)
    ensures
        match written {
            Ok(text) => json_pretty(value_model(*value)) == Some(text@),
            Err(_) => json_pretty(value_model(*value)) is None,
        },
{
    serde_json::to_string_pretty(value)
}

/// `serde_json::to_string` on a `serde_json::Value`. Claimed: what comes back
/// depends on the value alone, so the same value always gives the same text
/// or always fails.
#[verifier::external_body]
fn value_to_string(value: &serde_json::Value) -> (written: Result<String, serde_json::Error>)
    ensures
        match written {
            Ok(text) => json_compact(value_model(*value)) == Some(text@),
            Err(_) => json_compact(value_model(*value)) is None,
        },
{
    serde_json::to_string(value)
}

/// Takes a `serde_json::Value` apart, variant by variant, into a [`Json`] that
/// holds the same value. The members of an object come in the order in which
/// `serde_json::Map` hands them out.
#[verifier::external_body]
fn value_into_json(value: serde_json::Value) -> (json: Json)
    ensures
        json@ == value_model(value),
{
    match value {
        serde_json::Value::Null => Json::Null,
        serde_json::Value::Bool(b) => Json::Bool(b),
        serde_json::Value::Number(n) => Json::Number(n),
        serde_json::Value::String(s) => Json::String(s),
        serde_json::Value::Array(items) => Json::Array(
            items.into_iter().map(value_into_json).collect(),
        ),
        serde_json::Value::Object(members) => Json::Object(
            members.into_iter().map(|(key, value)| (key, value_into_json(value))).collect(),
        ),
    }
}

/// Builds the `serde_json::Value` that holds the same value as a [`Json`].
/// The members of an object go into a `serde_json::Map` one by one with
/// `insert`, which keeps the last value given for a key.
#[verifier::external_body]
fn value_of_json(json: &Json) -> (value: serde_json::Value)
    ensures
        value_model(value) == json@,
{
    match json {
        Json::Null => serde_json::Value::Null,
        Json::Bool(b) => serde_json::Value::Bool(*b),
        Json::Number(n) => serde_json::Value::Number(n.clone()),
        Json::String(s) => serde_json::Value::String(s.clone()),
        Json::Array(items) => serde_json::Value::Array(items.iter().map(value_of_json).collect()),
        Json::Object(members) => {
            let mut map = serde_json::Map::new();
            for (key, value) in members {
                map.insert(key.clone(), value_of_json(value));
            }
            serde_json::Value::Object(map)
        },
    }
}

/// Why a text could not be read as JSON, or a value not be written.
#[derive(Debug, PartialEq, Eq)]
pub struct JsonError {
    pub message: String,
}

impl JsonError {
    /// The message, as a text of its own.
    pub fn to_text(&self) -> (text: String)
        ensures
            text@ == self.message@,
    {
        self.message.clone()
    }
}

/// The JSON number for an unsigned integer.
pub fn json_number(value: u64) -> (json: Json)
    ensures
        json@ == JsonModel::Number(number_of(value)),
{
    Json::Number(number_from_u64(value))
}

/// Whether `read` is what reading `text` as JSON gives: the value that the
/// text writes, or an error where it writes none.
pub open spec fn is_parse_of(text: Seq<char>, read: Result<Json, JsonError>) -> bool {
    match read {
        Ok(json) => json_parse(text) == Some(json@),
        Err(_) => json_parse(text) is None,
    }
}

/// Reads one JSON value from `text`.
pub fn parse_json(text: &str) -> (read: Result<Json, JsonError>)
    ensures
        is_parse_of(text@, read),
{
    match value_from_str(text) {
        Ok(value) => Ok(value_into_json(value)),
        Err(error) => Err(JsonError { message: error.to_string() }),
    }
}

/// Whether `written` is what writing a value gives, where `text` is what
/// `serde_json` writes for it: that text, or an error where it writes none.
pub open spec fn is_writing_of(
    text: Option<Seq<char>>,
    written: Result<String, JsonError>,
) -> bool {
    match written {
        Ok(written) => text == Some(written@),
        Err(_) => text is None,
    }
}

/// Writes `json` as indented JSON text: the text that `serde_json` writes
/// for the value, and an error exactly where `serde_json` reports one.
pub fn pretty_json(json: &Json) -> (written: Result<String, JsonError>)
    ensures
        is_writing_of(json_pretty(json@), written),
{
    let value = value_of_json(json);
    match value_to_string_pretty(&value) {
        Ok(text) => Ok(text),
        Err(error) => Err(JsonError { message: error.to_string() }),
    }
}

/// Writes `json` as JSON text on one line: the text that `serde_json`
/// writes for the value, and an error exactly where `serde_json` reports one.
pub fn compact_json(json: &Json) -> (written: Result<String, JsonError>)
    ensures
        is_writing_of(json_compact(json@), written),
{
    let value = value_of_json(json);
    match value_to_string(&value) {
        Ok(text) => Ok(text),
        Err(error) => Err(JsonError { message: error.to_string() }),
    }
}

} // verus!
