//! Structured documents: the tree of scalars, sequences and mappings that
//! the configuration targets are built from and that templates are read
//! into.

use crate::text::{decimal, decimal_text, text_eq};
use vstd::prelude::*;

verus! {

/// A structured document. A number is kept as its literal; the fields of a
/// mapping keep the order in which they were written.
#[derive(Debug, PartialEq, Eq)]
pub enum Document {
    Null,
    Bool(bool),
    Number(String),
    Text(String),
    Sequence(Vec<Document>),
    Mapping(Vec<(String, Document)>),
}

/// What a document stands for: the same tree over texts as sequences of
/// characters.
pub ghost enum DocumentView {
    Null,
    Bool(bool),
    Number(Seq<char>),
    Text(Seq<char>),
    Sequence(Seq<DocumentView>),
    Mapping(Seq<(Seq<char>, DocumentView)>),
}

/// The document that a value stands for.
pub open spec fn document_view(document: Document) -> DocumentView
    decreases document,
{
    match document {
        Document::Null => DocumentView::Null,
        Document::Bool(flag) => DocumentView::Bool(flag),
        Document::Number(literal) => DocumentView::Number(literal@),
        Document::Text(text) => DocumentView::Text(text@),
        Document::Sequence(items) => DocumentView::Sequence(
            Seq::new(
                items.len() as nat,
                |i: int|
                    if 0 <= i < items.len() {
                        document_view(items[i])
                    } else {
                        DocumentView::Null
                    },
            ),
        ),
        Document::Mapping(fields) => DocumentView::Mapping(
            Seq::new(
                fields.len() as nat,
                |i: int|
                    if 0 <= i < fields.len() {
                        (fields[i].0@, document_view(fields[i].1))
                    } else {
                        (Seq::empty(), DocumentView::Null)
                    },
            ),
        ),
    }
}

impl View for Document {
    type V = DocumentView;

    open spec fn view(&self) -> DocumentView {
        document_view(*self)
    }
}

/// The views of the items of a sequence, in order.
pub open spec fn sequence_views(items: Seq<Document>) -> Seq<DocumentView> {
    items.map_values(|d: Document| d@)
}

/// The views of the fields of a mapping, in order.
pub open spec fn mapping_views(fields: Seq<(String, Document)>) -> Seq<(Seq<char>, DocumentView)> {
    fields.map_values(|f: (String, Document)| (f.0@, f.1@))
}

/// A sequence stands for the views of its items, in order.
pub broadcast proof fn lemma_sequence_view(items: Vec<Document>)
    ensures
        #[trigger] Document::Sequence(items).view() == DocumentView::Sequence(
            sequence_views(items@),
        ),
{
    assert(Document::Sequence(items).view()->Sequence_0 =~= sequence_views(items@));
}

/// A mapping stands for the views of its fields, in order.
pub broadcast proof fn lemma_mapping_view(fields: Vec<(String, Document)>)
    ensures
        #[trigger] Document::Mapping(fields).view() == DocumentView::Mapping(
            mapping_views(fields@),
        ),
{
    assert(Document::Mapping(fields).view()->Mapping_0 =~= mapping_views(fields@));
}

/// The view of a document that may be absent.
pub open spec fn opt_document(document: Option<Document>) -> Option<DocumentView> {
    match document {
        Some(d) => Some(d@),
        None => None,
    }
}

/// The least index at which `holds` is true of an item of `items`; the
/// length of `items` where it is true of none.
pub open spec fn first_where<A>(items: Seq<A>, holds: spec_fn(A) -> bool) -> int
    decreases items.len(),
{
    if items.len() == 0 {
        0
    } else if holds(items[0]) {
        0
    } else {
        1 + first_where(items.drop_first(), holds)
    }
}

/// The least index lies within the items or at their end, holds where it
/// lies within, and nothing before it holds.
pub proof fn lemma_first_where<A>(items: Seq<A>, holds: spec_fn(A) -> bool)
    ensures
        0 <= first_where(items, holds) <= items.len(),
        first_where(items, holds) < items.len() ==> holds(items[first_where(items, holds)]),
        forall|j: int| 0 <= j < first_where(items, holds) ==> !holds(#[trigger] items[j]),
    decreases items.len(),
{
    if items.len() > 0 && !holds(items[0]) {
        let rest = items.drop_first();
        lemma_first_where(rest, holds);
        assert forall|j: int| 0 <= j < first_where(items, holds) implies !holds(
            #[trigger] items[j],
        ) by {
            if j > 0 {
                assert(items[j] == rest[j - 1]);
            }
        }
    }
}

/// An index with the two properties of the least one is the least one.
pub proof fn lemma_first_where_is<A>(items: Seq<A>, holds: spec_fn(A) -> bool, index: int)
    requires
        0 <= index <= items.len(),
        index < items.len() ==> holds(items[index]),
        forall|j: int| 0 <= j < index ==> !holds(#[trigger] items[j]),
    ensures
        first_where(items, holds) == index,
{
    lemma_first_where(items, holds);
    let found = first_where(items, holds);
    if found < index {
        assert(!holds(items[found]));
    } else if found > index {
        assert(!holds(items[index]));
    }
}

/// Whether a field is named `key`.
pub open spec fn is_named(key: Seq<char>) -> spec_fn((Seq<char>, DocumentView)) -> bool {
    |f: (Seq<char>, DocumentView)| f.0 == key
}

/// Whether a document is the text `text`.
pub open spec fn is_the_text(text: Seq<char>) -> spec_fn(DocumentView) -> bool {
    |d: DocumentView| d == DocumentView::Text(text)
}

/// Whether a document is anything but the text `text`.
pub open spec fn is_not_the_text(text: Seq<char>) -> spec_fn(DocumentView) -> bool {
    |d: DocumentView| d != DocumentView::Text(text)
}

/// The index of the first field of `fields` named `key`; the number of
/// fields where none is.
pub open spec fn key_index(fields: Seq<(Seq<char>, DocumentView)>, key: Seq<char>) -> int {
    first_where(fields, is_named(key))
}

/// The value of the first field of `fields` named `key`.
pub open spec fn lookup(fields: Seq<(Seq<char>, DocumentView)>, key: Seq<char>) -> Option<
    DocumentView,
> {
    if key_index(fields, key) < fields.len() {
        Some(fields[key_index(fields, key)].1)
    } else {
        None
    }
}

/// The value that a mapping gives to `key`; nothing for any other document.
pub open spec fn member(document: DocumentView, key: Seq<char>) -> Option<DocumentView> {
    match document {
        DocumentView::Mapping(fields) => lookup(fields, key),
        _ => None,
    }
}

/// A field that no earlier field shares its name with is the one that its
/// name looks up.
pub proof fn lemma_lookup_at(fields: Seq<(Seq<char>, DocumentView)>, key: Seq<char>, at: int)
    requires
        0 <= at < fields.len(),
        fields[at].0 == key,
        forall|j: int| 0 <= j < at ==> (#[trigger] fields[j]).0 != key,
    ensures
        key_index(fields, key) == at,
        lookup(fields, key) == Some(fields[at].1),
{
    lemma_first_where_is(fields, is_named(key), at);
}

/// The document of a number: its decimal numeral.
pub open spec fn number_view(n: nat) -> DocumentView {
    DocumentView::Number(decimal_text(n))
}

impl Document {
    /// The document of a text.
    pub fn text(text: &str) -> (document: Document)
        ensures
            document@ == DocumentView::Text(text@),
    {
        Document::Text(String::from_str(text))
    }

    /// The document of a number.
    pub fn number(n: u64) -> (document: Document)
        ensures
            document@ == number_view(n as nat),
    {
        Document::Number(decimal(n))
    }

    /// The mapping with the given fields.
    pub fn mapping(fields: Vec<(String, Document)>) -> (document: Document)
        ensures
            document@ == DocumentView::Mapping(mapping_views(fields@)),
    {
        broadcast use lemma_mapping_view;

        Document::Mapping(fields)
    }

    /// The sequence with the given items.
    pub fn sequence(items: Vec<Document>) -> (document: Document)
        ensures
            document@ == DocumentView::Sequence(sequence_views(items@)),
    {
        broadcast use lemma_sequence_view;

        Document::Sequence(items)
    }

    /// Whether this is the text `text`.
    pub fn is_text(&self, text: &str) -> (same: bool)
        ensures
            same == (self@ == DocumentView::Text(text@)),
    {
        broadcast use lemma_sequence_view, lemma_mapping_view;

        match self {
            Document::Text(own) => text_eq(own.as_str(), text),
            _ => false,
        }
    }
}

impl Clone for Document {
    fn clone(&self) -> (copy: Self)
        ensures
            copy@ == self@,
        decreases self,
    {
        broadcast use lemma_sequence_view, lemma_mapping_view;

        match self {
            Document::Null => Document::Null,
            Document::Bool(flag) => Document::Bool(*flag),
            Document::Number(literal) => Document::Number(literal.clone()),
            Document::Text(text) => Document::Text(text.clone()),
            Document::Sequence(items) => {
                let mut copies: Vec<Document> = Vec::new();
                let mut i: usize = 0;
                while i < items.len()
                    invariant
                        i <= items.len(),
                        decreases_to!(self => items),
                        sequence_views(copies@) == sequence_views(items@).subrange(0, i as int),
                    decreases items.len() - i,
                {
                    proof {
                        assert(decreases_to!(items => items[i as int]));
                    }
                    let copy = items[i].clone();
                    let ghost before = copies@;
                    copies.push(copy);
                    proof {
                        assert(sequence_views(copies@) =~= sequence_views(before).push(copy@));
                        assert(sequence_views(items@).subrange(0, i + 1) =~= sequence_views(
                            items@,
                        ).subrange(0, i as int).push(items[i as int]@));
                    }
                    i += 1;
                }
                assert(sequence_views(copies@) =~= sequence_views(items@));
                Document::Sequence(copies)
            },
            Document::Mapping(fields) => {
                let mut copies: Vec<(String, Document)> = Vec::new();
                let mut i: usize = 0;
                while i < fields.len()
                    invariant
                        i <= fields.len(),
                        decreases_to!(self => fields),
                        mapping_views(copies@) == mapping_views(fields@).subrange(0, i as int),
                    decreases fields.len() - i,
                {
                    proof {
                        assert(decreases_to!(fields => fields[i as int]));
                        assert(decreases_to!(fields[i as int] => fields[i as int].1));
                    }
                    let copy = (fields[i].0.clone(), fields[i].1.clone());
                    let ghost before = copies@;
                    copies.push(copy);
                    proof {
                        assert(mapping_views(copies@) =~= mapping_views(before).push(
                            (copy.0@, copy.1@),
                        ));
                        assert(mapping_views(fields@).subrange(0, i + 1) =~= mapping_views(
                            fields@,
                        ).subrange(0, i as int).push((fields[i as int].0@, fields[i as int].1@)));
                    }
                    i += 1;
                }
                assert(mapping_views(copies@) =~= mapping_views(fields@));
                Document::Mapping(copies)
            },
        }
    }
}

/// Appends the field `key` with `value` to the fields of a mapping.
pub fn push_field(fields: &mut Vec<(String, Document)>, key: &str, value: Document)
    ensures
        mapping_views(final(fields)@) == mapping_views(old(fields)@).push((key@, value@)),
{
    fields.push((String::from_str(key), value));
    assert(mapping_views(fields@) =~= mapping_views(old(fields)@).push((key@, value@)));
}

/// No fields yet.
pub fn no_fields() -> (fields: Vec<(String, Document)>)
    ensures
        mapping_views(fields@) == Seq::<(Seq<char>, DocumentView)>::empty(),
{
    let fields: Vec<(String, Document)> = Vec::new();
    assert(mapping_views(fields@) =~= Seq::empty());
    fields
}

/// A copy of the items of a sequence.
pub fn copy_items(items: &Vec<Document>) -> (copies: Vec<Document>)
    ensures
        sequence_views(copies@) == sequence_views(items@),
{
    let mut copies: Vec<Document> = Vec::new();
    let mut i: usize = 0;
    while i < items.len()
        invariant
            i <= items.len(),
            sequence_views(copies@) == sequence_views(items@).subrange(0, i as int),
        decreases items.len() - i,
    {
        let copy = items[i].clone();
        let ghost before = copies@;
        copies.push(copy);
        proof {
            assert(sequence_views(copies@) =~= sequence_views(before).push(copy@));
            assert(sequence_views(items@).subrange(0, i + 1) =~= sequence_views(items@).subrange(
                0,
                i as int,
            ).push(items[i as int]@));
        }
        i += 1;
    }
    assert(sequence_views(copies@) =~= sequence_views(items@));
    copies
}

/// A copy of the fields of a mapping.
pub fn copy_fields(fields: &Vec<(String, Document)>) -> (copies: Vec<(String, Document)>)
    ensures
        mapping_views(copies@) == mapping_views(fields@),
{
    let mut copies: Vec<(String, Document)> = Vec::new();
    let mut i: usize = 0;
    while i < fields.len()
        invariant
            i <= fields.len(),
            mapping_views(copies@) == mapping_views(fields@).subrange(0, i as int),
        decreases fields.len() - i,
    {
        let copy = (fields[i].0.clone(), fields[i].1.clone());
        let ghost before = copies@;
        copies.push(copy);
        proof {
            assert(mapping_views(copies@) =~= mapping_views(before).push((copy.0@, copy.1@)));
            assert(mapping_views(fields@).subrange(0, i + 1) =~= mapping_views(fields@).subrange(
                0,
                i as int,
            ).push((fields[i as int].0@, fields[i as int].1@)));
        }
        i += 1;
    }
    assert(mapping_views(copies@) =~= mapping_views(fields@));
    copies
}

/// Puts `value` in place of the value of the field at `at`.
pub fn replace_value(fields: &mut Vec<(String, Document)>, at: usize, value: Document)
    requires
        at < old(fields).len(),
    ensures
        mapping_views(final(fields)@) == mapping_views(old(fields)@).update(
            at as int,
            (old(fields)@[at as int].0@, value@),
        ),
{
    let (name, _) = fields.remove(at);
    fields.insert(at, (name, value));
    assert(mapping_views(fields@) =~= mapping_views(old(fields)@).update(
        at as int,
        (old(fields)@[at as int].0@, value@),
    ));
}

/// Finds the first field named `key`.
pub fn find_key(fields: &Vec<(String, Document)>, key: &str) -> (index: usize)
    ensures
        index == key_index(mapping_views(fields@), key@),
        index <= fields.len(),
{
    let ghost views = mapping_views(fields@);
    let mut i: usize = 0;
    while i < fields.len()
        invariant
            i <= fields.len(),
            views == mapping_views(fields@),
            forall|j: int| 0 <= j < i ==> (#[trigger] views[j]).0 != key@,
        decreases fields.len() - i,
    {
        if text_eq(fields[i].0.as_str(), key) {
            proof {
                lemma_first_where_is(views, is_named(key@), i as int);
            }
            return i;
        }
        i += 1;
    }
    proof {
        lemma_first_where_is(views, is_named(key@), i as int);
    }
    i
}

} // verus!
