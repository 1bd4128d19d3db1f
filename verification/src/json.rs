//! JSON documents as text. A part of a document is found by its pointer and is
//! a document again.

use vstd::prelude::*;

use crate::text::opt_text;

verus! {

/// The part of a JSON document under a pointer, written without white space
/// around its tokens; nothing where there is none, or in a text that is no JSON.
pub uninterp spec fn json_part(document: Seq<char>, pointer: Seq<char>) -> Option<Seq<char>>;

/// The text that a JSON document is; nothing if it is anything else.
pub uninterp spec fn json_string(document: Seq<char>) -> Option<Seq<char>>;

/// The natural number below 2 to the 64th that a JSON document is; nothing if it
/// is anything else.
pub uninterp spec fn json_number(document: Seq<char>) -> Option<u64>;

/// The truth value that a JSON document is; nothing if it is anything else.
pub uninterp spec fn json_flag(document: Seq<char>) -> Option<bool>;

/// What is wrong with a text that is no JSON; nothing for a JSON document.
pub uninterp spec fn json_fault(document: Seq<char>) -> Option<Seq<char>>;

/// A text as a JSON document.
pub uninterp spec fn json_quoted(text: Seq<char>) -> Seq<char>;

/// Calls `serde_json::from_str` for a `serde_json::Value`, looks a pointer up
/// with `Value::pointer` and writes what it finds with `Value`'s `Display`. The
/// result depends on both texts alone.
#[verifier::external_body]
pub(crate) fn part_of(document: &str, pointer: &str) -> (part: Option<String>)
    ensures
        opt_text(part) == json_part(document@, pointer@),
{
    let value: serde_json::Value = serde_json::from_str(document).ok()?;
    value.pointer(pointer).map(|part| part.to_string())
}

/// Calls `serde_json::from_str` for a `serde_json::Value` and `Value::as_str`.
/// The result depends on the text alone.
#[verifier::external_body]
pub(crate) fn string_of(document: &str) -> (text: Option<String>)
    ensures
        opt_text(text) == json_string(document@),
{
    let value: serde_json::Value = serde_json::from_str(document).ok()?;
    value.as_str().map(|text| text.to_owned())
}

/// Calls `serde_json::from_str` for a `serde_json::Value` and `Value::as_u64`.
/// The result depends on the text alone.
#[verifier::external_body]
pub(crate) fn number_of(document: &str) -> (number: Option<u64>)
    ensures
        number == json_number(document@),
{
    let value: serde_json::Value = serde_json::from_str(document).ok()?;
    value.as_u64()
}

/// Calls `serde_json::from_str` for a `serde_json::Value` and `Value::as_bool`.
/// The result depends on the text alone.
#[verifier::external_body]
pub(crate) fn flag_of(document: &str) -> (flag: Option<bool>)
    ensures
        flag == json_flag(document@),
{
    let value: serde_json::Value = serde_json::from_str(document).ok()?;
    value.as_bool()
}

/// Calls `serde_json::from_str` for a `serde_json::Value` and writes its error,
/// if there is one, with `Display`. The result depends on the text alone.
#[verifier::external_body]
pub(crate) fn fault_of(document: &str) -> (fault: Option<String>)
    ensures
        opt_text(fault) == json_fault(document@),
{
    let parsed: Result<serde_json::Value, serde_json::Error> = serde_json::from_str(document);
    parsed.err().map(|error| error.to_string())
}

/// Makes a `serde_json::Value` of a text and writes it with `Display`. The
/// result depends on the text alone.
#[verifier::external_body]
pub(crate) fn quote(text: &str) -> (document: String)
    ensures
        document@ == json_quoted(text@),
{
    serde_json::Value::from(text).to_string()
}

/// The text under a pointer of a document.
pub open spec fn text_at(document: Seq<char>, pointer: Seq<char>) -> Option<Seq<char>> {
    match json_part(document, pointer) {
        Some(part) => json_string(part),
        None => None,
    }
}

/// Reads the text under a pointer of a document.
pub fn read_text(document: &str, pointer: &str) -> (text: Option<String>)
    ensures
        opt_text(text) == text_at(document@, pointer@),
{
    match part_of(document, pointer) {
        Some(part) => string_of(part.as_str()),
        None => None,
    }
}

} // verus!
