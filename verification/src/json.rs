//! JSON text, read and written by `serde_json`.
//!
//! The library frames its requests itself and leaves to `serde_json` what
//! only a JSON implementation can do: writing a string literal with its
//! escapes, and taking a document apart. Verus does not look into these
//! functions. Each result is a function of the arguments alone and is given
//! a name; nothing else is claimed of it.

use vstd::prelude::*;

verus! {

/// The JSON string literal that stands for `text`: quotes around it, escapes
/// inside, as `serde_json` writes it.
pub uninterp spec fn json_string_literal(text: Seq<char>) -> Seq<char>;

/// The member `key` of the JSON object that `document` holds, written
/// compactly; `None` where `document` is not JSON, is not an object, or has
/// no such member.
pub uninterp spec fn json_member_text(document: Seq<char>, key: Seq<char>) -> Option<Seq<char>>;

/// The element at `index` of the JSON array that `document` holds, written
/// compactly; `None` where `document` is not JSON, is not an array, or is
/// too short.
pub uninterp spec fn json_element_text(document: Seq<char>, index: nat) -> Option<Seq<char>>;

/// The text of the JSON string that `document` holds; `None` where
/// `document` is not JSON or is not a string.
pub uninterp spec fn json_string_content(document: Seq<char>) -> Option<Seq<char>>;

/// Writes `text` as a JSON string literal, by the `Display` of
/// `serde_json::Value` on a `Value::String`. The contract only names the
/// result.
#[verifier::external_body]
pub(crate) fn json_string(text: &str) -> (literal: String)
    ensures
        literal@ == json_string_literal(text@),
{
    serde_json::Value::String(text.to_owned()).to_string()
}

/// Parses `document` with `serde_json::from_str` and looks `key` up with
/// `serde_json::Value::get`; the member found is written back to text by the
/// `Display` of `serde_json::Value`. The contract only names the result.
#[verifier::external_body]
pub(crate) fn json_member(document: &str, key: &str) -> (member: Option<String>)
    ensures
        match member {
            Some(text) => json_member_text(document@, key@) == Some(text@),
            None => json_member_text(document@, key@) is None,
        },
{
    let value: serde_json::Value = serde_json::from_str(document).ok()?;
    match value.get(key) {
        Some(member) => Some(member.to_string()),
        None => None,
    }
}

/// Parses `document` with `serde_json::from_str` and takes the element at
/// `index` with `serde_json::Value::get`; the element found is written back
/// to text by the `Display` of `serde_json::Value`. The contract only names
/// the result.
#[verifier::external_body]
pub(crate) fn json_element(document: &str, index: usize) -> (element: Option<String>)
    ensures
        match element {
            Some(text) => json_element_text(document@, index as nat) == Some(text@),
            None => json_element_text(document@, index as nat) is None,
        },
{
    let value: serde_json::Value = serde_json::from_str(document).ok()?;
    match value.get(index) {
        Some(element) => Some(element.to_string()),
        None => None,
    }
}

/// Parses `document` with `serde_json::from_str` and reads it as a string
/// with `serde_json::Value::as_str`. The contract only names the result.
#[verifier::external_body]
pub(crate) fn json_string_value(document: &str) -> (content: Option<String>)
    ensures
        match content {
            Some(text) => json_string_content(document@) == Some(text@),
            None => json_string_content(document@) is None,
        },
{
    let value: serde_json::Value = serde_json::from_str(document).ok()?;
    match value.as_str() {
        Some(text) => Some(text.to_owned()),
        None => None,
    }
}

} // verus!
