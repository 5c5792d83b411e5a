//! The structured document format: a tree of values parsed from text, and
//! the case-insensitive field lookups the structured decoder is built on.
//!
//! Parsing itself is delegated to an outside parser behind trusted wrappers;
//! everything that reads the tree is verified.

use vstd::prelude::*;
use vstd::utf8::{decode_utf8, valid_utf8};

use crate::error::BojError;
use crate::text::{all_ws, ci_equal, spec_parse_u32, spec_trim, trim_str, is_blank,
    parse_u32_str, eq_ignore_case};

verus! {

/// One value of the structured document format. Numbers keep their decimal
/// rendering as text, so no float enters the model.
#[derive(Debug)]
pub enum JsonValue {
    /// The null value.
    Null,
    /// A boolean.
    Bool(bool),
    /// A number, kept as its decimal rendering.
    Number(String),
    /// A text value.
    Text(String),
    /// An array of values.
    Array(Vec<JsonValue>),
    /// An object: keyed values in the order the parser reports them.
    Object(Vec<(String, JsonValue)>),
}

/// Whether the text is a well-formed structured document.
pub uninterp spec fn json_parses(text: Seq<char>) -> bool;

/// The tree a well-formed structured document parses to.
pub uninterp spec fn json_model_of(text: Seq<char>) -> JsonValue;

/// The [`JsonValue`] tree standing for one parsed value of the outside
/// parser.
pub uninterp spec fn json_value_model(v: serde_json::Value) -> JsonValue;

/// The outside parser's value type, held only between the two wrappers
/// below.
#[verifier::external_type_specification]
#[verifier::external_body]
pub struct ExValue(serde_json::Value);

/// Parses text as one structured document.
///
/// Relies on `serde_json::from_str::<serde_json::Value>`: the result is a
/// function of the text alone.
#[verifier::external_body]
fn parse_json_value(text: &str) -> (r: Option<serde_json::Value>)
    ensures
        match r {
            Some(v) => json_parses(text@) && json_value_model(v) == json_model_of(text@),
            None => !json_parses(text@),
        },
{
    serde_json::from_str::<serde_json::Value>(text).ok()
}

/// Converts one parsed value into the crate's own tree, one arm per variant.
///
/// Relies on `serde_json::Value` and `serde_json::Number::to_string`: the
/// conversion moves fields and renders numbers, a function of the value
/// alone.
#[verifier::external_body]
fn json_tree(v: serde_json::Value) -> (r: JsonValue)
    ensures
        r == json_value_model(v),
{
    match v {
        serde_json::Value::Null => JsonValue::Null,
        serde_json::Value::Bool(b) => JsonValue::Bool(b),
        serde_json::Value::Number(n) => JsonValue::Number(n.to_string()),
        serde_json::Value::String(s) => JsonValue::Text(s),
        serde_json::Value::Array(items) => JsonValue::Array(
            items.into_iter().map(json_tree).collect(),
        ),
        serde_json::Value::Object(map) => JsonValue::Object(
            map.into_iter().map(|(k, x)| (k, json_tree(x))).collect(),
        ),
    }
}

/// The document the text parses to, when it is well formed.
pub open spec fn json_document_of(text: Seq<char>) -> Option<JsonValue> {
    if json_parses(text) {
        Some(json_model_of(text))
    } else {
        None
    }
}

/// Parses text as one structured document, returning the crate's own tree.
pub fn parse_json_document(text: &str) -> (r: Option<JsonValue>)
    ensures
        r == json_document_of(text@),
{
    match parse_json_value(text) {
        Some(v) => Some(json_tree(v)),
        None => None,
    }
}

/// Decodes bytes as UTF-8 text.
///
/// Relies on `std::str::from_utf8`: it accepts exactly the valid UTF-8 byte
/// sequences and decodes them to their characters.
#[verifier::external_body]
pub fn utf8_text(bytes: &[u8]) -> (r: Option<String>)
    ensures
        match r {
            Some(s) => valid_utf8(bytes@) && s@ == decode_utf8(bytes@),
            None => !valid_utf8(bytes@),
        },
{
    match std::str::from_utf8(bytes) {
        Ok(s) => Some(s.to_string()),
        Err(_) => None,
    }
}

/// First value under a key, compared ASCII case-insensitively, searching the
/// entries in order.
pub open spec fn spec_get_ci(entries: Seq<(String, JsonValue)>, key: Seq<char>) -> Option<
    JsonValue,
>
    decreases entries.len(),
{
    if entries.len() == 0 {
        None
    } else if ci_equal(entries[0].0@, key) {
        Some(entries[0].1)
    } else {
        spec_get_ci(entries.drop_first(), key)
    }
}

/// The scalar rendering of a value: text as itself, a number as its decimal
/// rendering, a boolean as `true`/`false`, null as absent; a nested array or
/// object is an error.
pub open spec fn spec_scalar_string(v: JsonValue) -> Result<Option<Seq<char>>, ()> {
    match v {
        JsonValue::Null => Ok(None),
        JsonValue::Text(s) => Ok(Some(s@)),
        JsonValue::Number(n) => Ok(Some(n@)),
        JsonValue::Bool(b) => Ok(
            Some(
                if b {
                    "true"@
                } else {
                    "false"@
                },
            ),
        ),
        JsonValue::Array(_) => Err(()),
        JsonValue::Object(_) => Err(()),
    }
}

/// The scalar text under a key, when the key exists and its value renders as
/// a scalar.
pub open spec fn spec_get_ci_string(entries: Seq<(String, JsonValue)>, key: Seq<char>) -> Option<
    Seq<char>,
> {
    match spec_get_ci(entries, key) {
        None => None,
        Some(v) => match spec_scalar_string(v) {
            Ok(Some(s)) => Some(s),
            _ => None,
        },
    }
}

/// Blank-means-absent normalization: the trimmed text, or absent when
/// nothing is left.
pub open spec fn spec_normalize(s: Seq<char>) -> Option<Seq<char>> {
    if all_ws(s) {
        None
    } else {
        Some(spec_trim(s))
    }
}

/// How optional numeric text is read: absent, blank and the word `null` mean
/// no value; anything else must parse as a decimal `u32`.
pub open spec fn spec_opt_u32_from_text(v: Option<Seq<char>>) -> Result<Option<u32>, ()> {
    match v {
        None => Ok(None),
        Some(s) => match spec_normalize(s) {
            None => Ok(None),
            Some(t) => if ci_equal(t, "null"@) {
                Ok(None)
            } else {
                match spec_parse_u32(t) {
                    Some(n) => Ok(Some(n)),
                    None => Err(()),
                }
            },
        },
    }
}

/// First value under a key, compared ASCII case-insensitively.
pub fn get_ci<'a>(entries: &'a Vec<(String, JsonValue)>, key: &str) -> (r: Option<
    &'a JsonValue,
>)
    ensures
        match r {
            Some(v) => spec_get_ci(entries@, key@) == Some(*v),
            None => spec_get_ci(entries@, key@) is None,
        },
{
    let n = entries.len();
    assert(entries@.skip(0) =~= entries@);
    for i in 0..n
        invariant
            n == entries@.len(),
            spec_get_ci(entries@, key@) == spec_get_ci(entries@.skip(i as int), key@),
    {
        if eq_ignore_case(entries[i].0.as_str(), key) {
            assert(entries@.skip(i as int)[0] == entries@[i as int]);
            return Some(&entries[i].1);
        }
        assert(entries@.skip(i as int)[0] == entries@[i as int]);
        assert(entries@.skip(i as int).drop_first() =~= entries@.skip(i + 1));
    }
    None
}

/// The scalar rendering of a value; a nested array or object is a decode
/// error.
pub fn value_to_scalar_string(v: &JsonValue) -> (r: Result<Option<String>, BojError>)
    ensures
        match r {
            Ok(s) => spec_scalar_string(*v) == Ok::<Option<Seq<char>>, ()>(
                crate::model::opt_view(s),
            ),
            Err(e) => spec_scalar_string(*v) is Err && e matches BojError::DecodeError(_),
        },
{
    match v {
        JsonValue::Null => Ok(None),
        JsonValue::Text(s) => Ok(Some(s.clone())),
        JsonValue::Number(n) => Ok(Some(n.clone())),
        JsonValue::Bool(b) => Ok(
            Some(
                if *b {
                    String::from_str("true")
                } else {
                    String::from_str("false")
                },
            ),
        ),
        JsonValue::Array(_) | JsonValue::Object(_) => Err(
            BojError::decode("nested array/object is not allowed in scalar fields"),
        ),
    }
}

/// The scalar text under a key, when present and scalar.
pub fn get_ci_string(entries: &Vec<(String, JsonValue)>, key: &str) -> (r: Option<String>)
    ensures
        crate::model::opt_view(r) == spec_get_ci_string(entries@, key@),
{
    match get_ci(entries, key) {
        None => None,
        Some(v) => match value_to_scalar_string(v) {
            Ok(s) => s,
            Err(_) => None,
        },
    }
}

/// Blank-means-absent normalization of one text value.
pub fn normalize_optional(s: &str) -> (r: Option<String>)
    ensures
        crate::model::opt_view(r) == spec_normalize(s@),
{
    if is_blank(s) {
        None
    } else {
        Some(trim_str(s))
    }
}

/// Reads optional numeric text: absent, blank and `null` mean no value;
/// anything else must parse as a decimal `u32`; the decode error's message
/// names the field.
pub fn parse_optional_u32_from_text(value: Option<&str>, field: &str) -> (r: Result<
    Option<u32>,
    BojError,
>)
    ensures
        match r {
            Ok(n) => spec_opt_u32_from_text(
                match value {
                    Some(s) => Some(s@),
                    None => None,
                },
            ) == Ok::<Option<u32>, ()>(n),
            Err(e) => spec_opt_u32_from_text(
                match value {
                    Some(s) => Some(s@),
                    None => None,
                },
            ) is Err && (e matches BojError::DecodeError(m) && m@ == field@
                + " is not a valid integer"@),
        },
{
    let Some(value) = value else { return Ok(None) };
    let Some(value) = normalize_optional(value) else { return Ok(None) };
    if eq_ignore_case(value.as_str(), "null") {
        return Ok(None);
    }
    match parse_u32_str(value.as_str()) {
        Some(n) => Ok(Some(n)),
        None => Err(
            BojError::DecodeError(
                String::from_str(field).concat(" is not a valid integer"),
            ),
        ),
    }
}

/// What `parse_next_position_from_text` accepts for the pagination cursor.
pub open spec fn spec_next_position(v: Option<Seq<char>>) -> Result<Option<u32>, ()> {
    spec_opt_u32_from_text(v)
}

/// Reads the pagination cursor from optional text; the decode error's
/// message names the cursor field.
pub fn parse_next_position_from_text(value: Option<&str>) -> (r: Result<Option<u32>, BojError>)
    ensures
        match r {
            Ok(n) => spec_next_position(
                match value {
                    Some(s) => Some(s@),
                    None => None,
                },
            ) == Ok::<Option<u32>, ()>(n),
            Err(e) => spec_next_position(
                match value {
                    Some(s) => Some(s@),
                    None => None,
                },
            ) is Err && (e matches BojError::DecodeError(m) && m@ == "NEXTPOSITION"@
                + " is not a valid integer"@),
        },
{
    parse_optional_u32_from_text(value, "NEXTPOSITION")
}

} // verus!
