//! JSON: reading the object that a switch reports, and writing lists and tables of strings.
use indexmap::IndexMap;
use vstd::prelude::*;
use vstd::string::to_string_from_display_ensures;

use crate::pretty_names::table_entries;
use crate::text::texts;

verus! {

/// An error of the JSON parser.
#[verifier::external_type_specification]
#[verifier::external_body]
pub struct ExJsonError(serde_json::Error);

/// A JSON value.
#[verifier::external_type_specification]
#[verifier::external_body]
pub struct ExJsonValue(serde_json::Value);

/// A JSON object.
#[verifier::external_type_specification]
#[verifier::external_body]
#[verifier::reject_recursive_types(K)]
#[verifier::reject_recursive_types(V)]
pub struct ExJsonMap<K, V>(serde_json::Map<K, V>);

/// What a text is as JSON, as far as its own members: an object gives for each member the string
/// that it holds, or `None` for a member that holds anything else. A text that is no JSON gives
/// the message of the parser's error.
pub enum JsonDocument {
    NotJson { message: Seq<char> },
    NotObject,
    Object(Map<Seq<char>, Option<Seq<char>>>),
}

/// What `serde_json::from_str` makes of a text.
pub uninterp spec fn json_document(text: Seq<char>) -> JsonDocument;

/// The members of a JSON object, with the string that each holds or `None` for any other value.
pub uninterp spec fn json_members(
    object: serde_json::Map<String, serde_json::Value>,
) -> Map<Seq<char>, Option<Seq<char>>>;

/// `serde_json::from_str` parses a text; what it gives depends on the text alone, the text that
/// its error is shown as included. `None` stands for a value that is not an object.
#[verifier::external_body]
pub(crate) fn parse_json_object(text: &str) -> (r: Result<
    Option<serde_json::Map<String, serde_json::Value>>,
    serde_json::Error,
>)
    ensures
        match r {
            Err(err) => forall|shown: String| #[trigger]
                to_string_from_display_ensures(&err, shown) ==> json_document(text@) == (
                JsonDocument::NotJson { message: shown@ }),
            Ok(None) => json_document(text@) == JsonDocument::NotObject,
            Ok(Some(object)) => json_document(text@) == JsonDocument::Object(json_members(object)),
        },
{
    match serde_json::from_str(text) {
        Err(err) => Err(err),
        Ok(serde_json::Value::Object(object)) => Ok(Some(object)),
        Ok(_) => Ok(None),
    }
}

/// `serde_json::Map::get` looks a member up by its name: `None` where there is no such member,
/// `Some(None)` where it holds something other than a string.
#[verifier::external_body]
pub(crate) fn json_member(
    object: &serde_json::Map<String, serde_json::Value>,
    name: &str,
) -> (r: Option<Option<String>>)
    ensures
        match r {
            None => !json_members(*object).contains_key(name@),
            Some(None) => json_members(*object).contains_key(name@) && json_members(*object)[name@]
                is None,
            Some(Some(text)) => json_members(*object).contains_key(name@) && json_members(
                *object,
            )[name@] == Some(text@),
        },
{
    match object.get(name) {
        None => None,
        Some(serde_json::Value::String(text)) => Some(Some(text.clone())),
        Some(_) => Some(None),
    }
}

/// The JSON text that `serde_json::to_string` gives for a list of strings.
pub uninterp spec fn json_list(list: Seq<Seq<char>>) -> Seq<char>;

/// `serde_json::to_string` writes a list of strings as a JSON array; it depends on the strings
/// alone and does not fail on them.
#[verifier::external_body]
pub(crate) fn json_list_text(list: &Vec<String>) -> (r: String)
    ensures
        r@ == json_list(texts(list@)),
{
    serde_json::to_string(list).expect("strings serialize")
}

/// The JSON text that `serde_json::to_string` gives for a table of strings with these entries.
pub uninterp spec fn json_table(entries: Seq<(Seq<char>, Seq<char>)>) -> Seq<char>;

/// `serde_json::to_string` writes a table of strings as a JSON object in the order of the table;
/// it depends on the entries alone and does not fail on them.
#[verifier::external_body]
pub(crate) fn json_table_text(table: &IndexMap<String, String>) -> (r: String)
    ensures
        r@ == json_table(table_entries(*table)),
{
    serde_json::to_string(table).expect("strings serialize")
}

} // verus!
