//! JSON values as requirement collection reads them, and JSON5 text parsed into them.
use vstd::prelude::*;

verus! {

/// The error `json5::from_str` reports for text it refuses.
#[verifier::external_type_specification]
#[verifier::external_body]
pub struct ExJson5Error(json5::Error);

/// A JSON value as plain data: numbers by their decimal text, objects by their entries in
/// iteration order.
pub enum JsonView {
    Null,
    Bool(bool),
    Number(Seq<char>),
    Str(Seq<char>),
    Array(Seq<JsonView>),
    Object(Seq<(Seq<char>, JsonView)>),
}

/// What a `serde_json::Value` holds.
pub uninterp spec fn json_view(value: serde_json::Value) -> JsonView;

/// What `json5::from_str` makes of a text as a JSON value; `None` where it refuses the text.
pub uninterp spec fn json5_document(text: Seq<char>) -> Option<JsonView>;

/// What `json5::from_str` makes of a text as a list of strings; `None` where it refuses the text.
pub uninterp spec fn json5_strings(text: Seq<char>) -> Option<Seq<Seq<char>>>;

/// The message of a `json5::Error` (its `Display` text: what went wrong, and where).
pub uninterp spec fn json5_message(error: json5::Error) -> Seq<char>;

/// The message of the error `json5::from_str` reports for a text it refuses as a JSON value.
pub uninterp spec fn json5_document_error(text: Seq<char>) -> Seq<char>;

/// The message of the error `json5::from_str` reports for a text it refuses as a list of
/// strings.
pub uninterp spec fn json5_strings_error(text: Seq<char>) -> Seq<char>;

/// `json5::from_str` into a `serde_json::Value`: the value the text denotes, or the parse error.
#[verifier::external_body]
pub(crate) fn parse_json5_value(text: &str) -> (res: Result<serde_json::Value, json5::Error>)
    ensures
        match res {
            Ok(value) => json5_document(text@) == Some(json_view(value)),
            Err(e) => json5_document(text@) is None && json5_message(e) == json5_document_error(text@),
        },
{
    json5::from_str(text)
}

/// The views of a list of strings.
pub open spec fn strings_view(v: Seq<String>) -> Seq<Seq<char>> {
    v.map_values(|s: String| s@)
}

/// `json5::from_str` into a `Vec<String>`: the strings of the list, or the parse error.
#[verifier::external_body]
pub(crate) fn parse_json5_strings(text: &str) -> (res: Result<Vec<String>, json5::Error>)
    ensures
        match res {
            Ok(list) => json5_strings(text@) == Some(strings_view(list@)),
            Err(e) => json5_strings(text@) is None && json5_message(e) == json5_strings_error(text@),
        },
{
    json5::from_str(text)
}

/// `serde_json::Value::as_str`, owned: the text of a string value.
#[verifier::external_body]
pub(crate) fn json_as_string(value: &serde_json::Value) -> (res: Option<String>)
    ensures
        match json_view(*value) {
            JsonView::Str(s) => res is Some && res->0@ == s,
            _ => res is None,
        },
{
    value.as_str().map(|s| s.to_string())
}

/// `serde_json::Value::is_null`.
#[verifier::external_body]
pub(crate) fn json_is_null(value: &serde_json::Value) -> (res: bool)
    ensures
        res == (json_view(*value) is Null),
{
    value.is_null()
}

/// The entries of an object value in iteration order (`serde_json::Value::as_object`,
/// with each key and value cloned); `None` for any other value.
#[verifier::external_body]
pub(crate) fn json_object_entries(value: &serde_json::Value) -> (res: Option<Vec<(String, serde_json::Value)>>)
    ensures
        match json_view(*value) {
            JsonView::Object(entries) => res is Some && res->0@.len() == entries.len() && forall|i: int|
                0 <= i < entries.len() ==> (#[trigger] res->0@[i]).0@ == entries[i].0 && json_view(res->0@[i].1)
                    == entries[i].1,
            _ => res is None,
        },
{
    value.as_object().map(|m| m.iter().map(|(k, v)| (k.clone(), v.clone())).collect())
}

} // verus!
