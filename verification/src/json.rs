//! Reading JSON documents with `serde_json`.
//!
//! A document is carried as its text; a part of it is again a document.

use serde_json::Value;
use vstd::prelude::*;

verus! {

/// Why `serde_json::from_str::<Value>` does not accept a text, in the words of
/// its error; nothing where it does.
pub uninterp spec fn json_rejection(text: Seq<char>) -> Option<Seq<char>>;

/// The text of the member that `Value::get` finds under a key of a document.
pub uninterp spec fn json_member(text: Seq<char>, key: Seq<char>) -> Option<Seq<char>>;

/// The characters that `Value::as_str` gives for a document.
pub uninterp spec fn json_string(text: Seq<char>) -> Option<Seq<char>>;

/// The integer that `Value::as_i64` gives for a document.
pub uninterp spec fn json_integer(text: Seq<char>) -> Option<i64>;

/// How a JSON document writes a string, as `Value` displays it.
pub uninterp spec fn json_quoted(text: Seq<char>) -> Seq<char>;

/// The view of an optional text.
pub open spec fn optional_view(text: Option<String>) -> Option<Seq<char>> {
    match text {
        Some(text) => Some(text@),
        None => None,
    }
}

/// `serde_json::from_str::<Value>`: tells whether a text is a JSON document,
/// and if not, why. The answer depends on the text alone.
#[verifier::external_body]
pub(crate) fn check_document(text: &str) -> (rejection: Option<String>)
    ensures
        optional_view(rejection) == json_rejection(text@),
{
    match serde_json::from_str::<Value>(text) {
        Ok(_) => None,
        Err(error) => Some(error.to_string()),
    }
}

/// `Value::get`: the member of a document under a key, as a document. There is
/// none where the text is no JSON document, where the document is no object,
/// or where the object lacks the key.
#[verifier::external_body]
pub(crate) fn member(text: &str, key: &str) -> (found: Option<String>)
    ensures
        optional_view(found) == json_member(text@, key@),
        json_rejection(text@) is Some ==> found is None,
{
    let document = serde_json::from_str::<Value>(text).ok()?;
    document.get(key).map(Value::to_string)
}

/// `Value::as_str`: the characters of a document that is a string. There are
/// none where the text is no JSON document or the document is no string.
#[verifier::external_body]
pub(crate) fn string_value(text: &str) -> (found: Option<String>)
    ensures
        optional_view(found) == json_string(text@),
{
    let document = serde_json::from_str::<Value>(text).ok()?;
    document.as_str().map(str::to_owned)
}

/// `Value::as_i64`: the integer of a document that is a number without a
/// fraction and fits. There is none for any other text.
#[verifier::external_body]
pub(crate) fn integer_value(text: &str) -> (found: Option<i64>)
    ensures
        found == json_integer(text@),
{
    let document = serde_json::from_str::<Value>(text).ok()?;
    document.as_i64()
}

/// `Value::from` and the display of a `Value`: a text as a JSON string, with
/// its quotation marks and escapes.
#[verifier::external_body]
pub(crate) fn quoted(text: &str) -> (written: String)
    ensures
        written@ == json_quoted(text@),
{
    Value::from(text).to_string()
}

/// The view of an optional text is there where the text is, and holds its
/// characters.
pub proof fn law_view_of_an_optional_text(text: String)
    ensures
        optional_view(Some(text)) == Some(text@),
        optional_view(None) is None,
{
}

} // verus!
