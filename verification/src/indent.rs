//! Re-emits a document text as block-style YAML, by `yaml_rust`.

use crate::document::{Document, DocumentView};
use crate::json::{pretty_text, printed_as_json, to_json_pretty};
use crate::text::{opt_text, text_eq};
use vstd::prelude::*;

verus! {

/// Declares `yaml_rust::Yaml`, a loaded document, as a type whose values
/// are carried through unread.
#[verifier::external_type_specification]
#[verifier::external_body]
pub struct ExYaml(yaml_rust::Yaml);

/// The documents that `yaml_rust::YamlLoader::load_from_str` loads from a
/// text; nothing where it reports a scan error.
pub uninterp spec fn yaml_loaded(text: Seq<char>) -> Option<Seq<yaml_rust::Yaml>>;

/// The text that `yaml_rust::YamlEmitter::dump` writes for a document;
/// nothing where it reports an error.
pub uninterp spec fn yaml_emitted(document: yaml_rust::Yaml) -> Option<Seq<char>>;

/// Calls `yaml_rust::YamlLoader::load_from_str`.
///
/// Trusted: the contract only gives the outcome its name, which claims that
/// the same text always loads as the same documents; a scan error is
/// returned as nothing. The loader is handed indented JSON text only: such
/// a text is well formed and in flow style throughout, and the scanner
/// answers flow nesting beyond its limit with a scan error.
#[verifier::external_body]
fn load_documents(text: &str) -> (documents: Option<Vec<yaml_rust::Yaml>>)
    requires
        printed_as_json(text@),
    ensures
        match documents {
            Some(loaded) => yaml_loaded(text@) == Some(loaded@),
            None => yaml_loaded(text@) is None,
        },
{
    yaml_rust::YamlLoader::load_from_str(text).ok()
}

/// Calls `yaml_rust::YamlEmitter::dump` on an emitter made by
/// `YamlEmitter::new` over an empty `String`.
///
/// Trusted: the contract only gives the outcome its name, which claims that
/// the same document is always written as the same text; an error is
/// returned as nothing.
#[verifier::external_body]
fn emit_document(document: &yaml_rust::Yaml) -> (text: Option<String>)
    ensures
        opt_text(text) == yaml_emitted(*document),
{
    let mut out = String::new();
    let outcome = yaml_rust::YamlEmitter::new(&mut out).dump(document);
    outcome.ok().map(|_| out)
}

/// The line that opens an emitted document.
pub open spec fn document_marker() -> Seq<char> {
    seq!['-', '-', '-', '\n']
}

/// `text` without the line that opens a document, where it starts with it.
pub open spec fn without_marker(text: Seq<char>) -> Seq<char> {
    if document_marker().is_prefix_of(text) {
        text.subrange(4, text.len() as int)
    } else {
        text
    }
}

/// What re-emitting gives: the emitted text of the first document without
/// its opening line, or a message where there is no document or it cannot
/// be emitted.
pub open spec fn adjusted_text(loaded: Option<Seq<yaml_rust::Yaml>>) -> Seq<char> {
    match loaded {
        Some(documents) => if documents.len() > 0 {
            finished_text(yaml_emitted(documents[0]))
        } else {
            "Error: No document found in YAML input"@
        },
        None => "Error: No document found in YAML input"@,
    }
}

/// The emitted text without its opening line, or the message for a
/// document that was not emitted.
pub open spec fn finished_text(emitted: Option<Seq<char>>) -> Seq<char> {
    match emitted {
        Some(text) => without_marker(text),
        None => "Error: Failed to emit YAML"@,
    }
}

/// Drops the line that opens a document from the head of `text`.
pub fn strip_document_marker(text: &str) -> (rest: String)
    ensures
        rest@ == without_marker(text@),
{
    proof {
        reveal_strlit("---\n");
    }
    let n = text.unicode_len();
    if n >= 4 && text_eq(text.substring_char(0, 4), "---\n") {
        assert("---\n"@ =~= document_marker());
        String::from_str(text.substring_char(4, n))
    } else {
        assert("---\n"@ =~= document_marker());
        String::from_str(text)
    }
}

/// Finishes what the emitter gave: its text without the opening line, or
/// the message for a document that was not emitted.
pub fn finish_emitted(emitted: Option<String>) -> (out: String)
    ensures
        out@ == finished_text(opt_text(emitted)),
{
    match emitted {
        Some(text) => strip_document_marker(text.as_str()),
        None => String::from_str("Error: Failed to emit YAML"),
    }
}

/// Re-emits the first document of `yaml_str`, an indented JSON text, in
/// block style with an indent of two, without the line that opens a
/// document.
pub fn adjust_yaml_indentation(yaml_str: &str) -> (out: String)
    requires
        printed_as_json(yaml_str@),
    ensures
        out@ == adjusted_text(yaml_loaded(yaml_str@)),
{
    match load_documents(yaml_str) {
        Some(documents) => {
            if documents.len() > 0 {
                finish_emitted(emit_document(&documents[0]))
            } else {
                String::from_str("Error: No document found in YAML input")
            }
        },
        None => String::from_str("Error: No document found in YAML input"),
    }
}

/// The YAML text of a document: its indented JSON text re-emitted in block
/// style, or the message for no document where it has no JSON text.
pub open spec fn yaml_text(document: DocumentView) -> Seq<char> {
    match pretty_text(document) {
        Some(text) => adjusted_text(yaml_loaded(text)),
        None => "Error: No document found in YAML input"@,
    }
}

/// Writes a document as YAML in block style with an indent of two: the
/// document is printed as indented JSON, and that text is re-emitted. A
/// document that cannot be printed gives the message for no document.
pub fn emit_as_yaml(document: &Document) -> (out: String)
    ensures
        out@ == yaml_text(document@),
{
    match to_json_pretty(document) {
        Some(text) => adjust_yaml_indentation(text.as_str()),
        None => String::from_str("Error: No document found in YAML input"),
    }
}

} // verus!
