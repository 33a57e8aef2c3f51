//! Documents as JSON text, read and written by `serde_json`.

use crate::document::{opt_document, Document, DocumentView};
use crate::text::opt_text;
use serde_json::Value;
use vstd::prelude::*;

verus! {

/// Declares `serde_json::Value` as a type whose values are carried through
/// unread.
#[verifier::external_type_specification]
#[verifier::external_body]
pub struct ExJsonValue(serde_json::Value);

/// The value that `serde_json::from_str` reads from a text; nothing where
/// it reports an error.
pub uninterp spec fn json_value_read(text: Seq<char>) -> Option<serde_json::Value>;

/// The document that a `serde_json::Value` holds: its variant, its scalar,
/// its items in order, its members in the order in which it hands them out.
/// A number stands as the literal that its `Display` prints.
pub uninterp spec fn json_content(value: serde_json::Value) -> DocumentView;

/// The `serde_json::Value` made from a document; nothing where the
/// document holds a number literal that `serde_json` does not read.
pub uninterp spec fn json_value_built(document: DocumentView) -> Option<serde_json::Value>;

/// The text that `serde_json::to_string_pretty` prints for a value; nothing
/// where it reports an error.
pub uninterp spec fn json_pretty_text(value: serde_json::Value) -> Option<Seq<char>>;

/// Calls `serde_json::from_str` for a `serde_json::Value`.
///
/// Trusted: the contract only gives the outcome its name, which claims that
/// the same text is always read as the same value; an error is returned as
/// nothing.
#[verifier::external_body]
fn read_value(text: &str) -> (value: Option<serde_json::Value>)
    ensures
        value == json_value_read(text@),
{
    serde_json::from_str::<Value>(text).ok()
}

/// Takes a `serde_json::Value` apart into a document, one variant of
/// `Value` for one variant of `Document`: `Number` by its `Display`,
/// `Array` by its items, `Object` by the members that its iterator yields.
///
/// Trusted: the contract only gives the outcome its name.
#[verifier::external_body]
fn document_of_value(value: &serde_json::Value) -> (document: Document)
    ensures
        document@ == json_content(*value),
{
    match value {
        Value::Null => Document::Null,
        Value::Bool(flag) => Document::Bool(*flag),
        Value::Number(number) => Document::Number(number.to_string()),
        Value::String(text) => Document::Text(text.clone()),
        Value::Array(items) => Document::Sequence(items.iter().map(document_of_value).collect()),
        Value::Object(members) => Document::Mapping(
            members.iter().map(|(key, item)| (key.clone(), document_of_value(item))).collect(),
        ),
    }
}

/// Builds a `serde_json::Value` from a document, one variant for one: a
/// number literal is read by `serde_json::from_str` as a
/// `serde_json::Number`, the fields of a mapping are collected into a
/// `serde_json::Map`.
///
/// Trusted: the contract only gives the outcome its name; a number literal
/// that is not read makes the outcome nothing.
#[verifier::external_body]
fn value_of_document(document: &Document) -> (value: Option<serde_json::Value>)
    ensures
        value == json_value_built(document@),
{
    match document {
        Document::Null => Some(Value::Null),
        Document::Bool(flag) => Some(Value::Bool(*flag)),
        Document::Number(literal) => serde_json::from_str(literal).ok().map(Value::Number),
        Document::Text(text) => Some(Value::String(text.clone())),
        Document::Sequence(items) => items.iter().map(value_of_document).collect::<Option<_>>().map(
            Value::Array,
        ),
        Document::Mapping(fields) => fields.iter().map(
            |(key, item)| Some((key.clone(), value_of_document(item)?)),
        ).collect::<Option<_>>().map(Value::Object),
    }
}

/// Calls `serde_json::to_string_pretty` on a `serde_json::Value`.
///
/// Trusted: the contract only gives the outcome its name, which claims that
/// the same value is always printed as the same text; an error is returned
/// as nothing.
#[verifier::external_body]
fn print_value(value: &serde_json::Value) -> (text: Option<String>)
    ensures
        opt_text(text) == json_pretty_text(*value),
{
    serde_json::to_string_pretty(value).ok()
}

/// The document that a JSON text is read as.
pub open spec fn parsed_document(text: Seq<char>) -> Option<DocumentView> {
    match json_value_read(text) {
        Some(value) => Some(json_content(value)),
        None => None,
    }
}

/// The document that a JSON text is read as, and the null document where
/// the text is not read.
pub open spec fn parsed_or_null(text: Seq<char>) -> DocumentView {
    match parsed_document(text) {
        Some(document) => document,
        None => DocumentView::Null,
    }
}

/// The indented JSON text of a document.
pub open spec fn pretty_text(document: DocumentView) -> Option<Seq<char>> {
    match json_value_built(document) {
        Some(value) => json_pretty_text(value),
        None => None,
    }
}

/// Whether a text is the indented JSON text of some document.
pub open spec fn printed_as_json(text: Seq<char>) -> bool {
    exists|document: DocumentView| #[trigger] pretty_text(document) == Some(text)
}

/// The indented JSON text of a document, and the empty text where it has
/// none.
pub open spec fn pretty_or_empty(document: DocumentView) -> Seq<char> {
    match pretty_text(document) {
        Some(text) => text,
        None => Seq::empty(),
    }
}

/// Reads a JSON text as a document.
pub fn parse_json(text: &str) -> (document: Option<Document>)
    ensures
        opt_document(document) == parsed_document(text@),
{
    match read_value(text) {
        Some(value) => Some(document_of_value(&value)),
        None => None,
    }
}

/// Reads a JSON text as a document; a text that is not read gives the null
/// document.
pub fn parse_json_or_null(text: &str) -> (document: Document)
    ensures
        document@ == parsed_or_null(text@),
{
    match parse_json(text) {
        Some(document) => document,
        None => Document::Null,
    }
}

/// Prints a document as indented JSON text.
pub fn to_json_pretty(document: &Document) -> (text: Option<String>)
    ensures
        opt_text(text) == pretty_text(document@),
{
    match value_of_document(document) {
        Some(value) => print_value(&value),
        None => None,
    }
}

/// Prints a document as indented JSON text; a document that cannot be
/// printed gives the empty text.
pub fn to_json_pretty_or_empty(document: &Document) -> (text: String)
    ensures
        text@ == pretty_or_empty(document@),
{
    match to_json_pretty(document) {
        Some(text) => text,
        None => String::new(),
    }
}

} // verus!
