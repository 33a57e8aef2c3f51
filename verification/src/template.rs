//! Merging entries into a template: where the entries go, and how the
//! marker of a group is replaced by their labels.

use crate::document::{
    copy_fields, copy_items, find_key, first_where, is_not_the_text, is_the_text, key_index,
    lemma_first_where,
    lemma_first_where_is, lemma_mapping_view, lemma_sequence_view, mapping_views, replace_value,
    sequence_views, Document, DocumentView,
};
use crate::json::{parse_json_or_null, parsed_or_null};
use crate::text::pair_views;
use vstd::prelude::*;

verus! {

/// The labels of entries, in order.
pub open spec fn labels_of(entries: Seq<(Seq<char>, DocumentView)>) -> Seq<Seq<char>> {
    entries.map_values(|e: (Seq<char>, DocumentView)| e.0)
}

/// The payloads of entries, in order.
pub open spec fn payloads_of(entries: Seq<(Seq<char>, DocumentView)>) -> Seq<DocumentView> {
    entries.map_values(|e: (Seq<char>, DocumentView)| e.1)
}

/// The labels that are not empty, in order.
pub open spec fn named(labels: Seq<Seq<char>>) -> Seq<Seq<char>> {
    labels.filter(|l: Seq<char>| l.len() > 0)
}

/// Each label as a text document.
pub open spec fn label_documents(labels: Seq<Seq<char>>) -> Seq<DocumentView> {
    labels.map_values(|l: Seq<char>| DocumentView::Text(l))
}

/// The views of labels, in order.
pub open spec fn label_views(labels: Seq<String>) -> Seq<Seq<char>> {
    labels.map_values(|l: String| l@)
}

/// Entries whose payload is JSON text, read as documents; a payload that
/// is not read stands as the null document.
pub open spec fn parsed_entries(entries: Seq<(Seq<char>, Seq<char>)>) -> Seq<
    (Seq<char>, DocumentView),
> {
    entries.map_values(|e: (Seq<char>, Seq<char>)| (e.0, parsed_or_null(e.1)))
}

/// The index of the first member that is the text `marker`; the number of
/// members where none is.
pub open spec fn marker_index(members: Seq<DocumentView>, marker: Seq<char>) -> int {
    first_where(members, is_the_text(marker))
}

/// The members with the first `marker` taken out and `labels` put in its
/// place, in order; the members as they are where none is the marker.
pub open spec fn spliced(
    members: Seq<DocumentView>,
    marker: Seq<char>,
    labels: Seq<Seq<char>>,
) -> Seq<DocumentView> {
    let at = marker_index(members, marker);
    if at < members.len() {
        members.subrange(0, at) + label_documents(labels) + members.subrange(
            at + 1,
            members.len() as int,
        )
    } else {
        members
    }
}

/// The members with the first `marker` taken out and `labels` put in its
/// place, and with every later `marker` taken out as well; the members as
/// they are where none is the marker.
pub open spec fn spliced_every(
    members: Seq<DocumentView>,
    marker: Seq<char>,
    labels: Seq<Seq<char>>,
) -> Seq<DocumentView> {
    let at = marker_index(members, marker);
    if at < members.len() {
        members.subrange(0, at) + label_documents(labels) + members.subrange(
            at + 1,
            members.len() as int,
        ).filter(is_not_the_text(marker))
    } else {
        members
    }
}

/// The members with the marker replaced by the labels: every occurrence of
/// the marker is taken out where `every` is set, the first one only where
/// it is not; the labels stand at the place of the first.
pub open spec fn replaced(
    members: Seq<DocumentView>,
    marker: Seq<char>,
    labels: Seq<Seq<char>>,
    every: bool,
) -> Seq<DocumentView> {
    if every {
        spliced_every(members, marker, labels)
    } else {
        spliced(members, marker, labels)
    }
}

/// Whether `document` is a mapping whose first field named `key` holds a
/// sequence.
pub open spec fn has_sequence(document: DocumentView, key: Seq<char>) -> bool {
    document matches DocumentView::Mapping(fields) && key_index(fields, key) < fields.len()
        && fields[key_index(fields, key)].1 is Sequence
}

/// The sequence under `key`.
pub open spec fn sequence_under(document: DocumentView, key: Seq<char>) -> Seq<DocumentView>
    recommends
        has_sequence(document, key),
{
    let fields = document->Mapping_0;
    fields[key_index(fields, key)].1->Sequence_0
}

/// `document` with `items` as the sequence under `key`.
pub open spec fn with_sequence(
    document: DocumentView,
    key: Seq<char>,
    items: Seq<DocumentView>,
) -> DocumentView
    recommends
        has_sequence(document, key),
{
    let fields = document->Mapping_0;
    let at = key_index(fields, key);
    DocumentView::Mapping(fields.update(at, (fields[at].0, DocumentView::Sequence(items))))
}

/// A group with the marker among its members under `key` replaced by the
/// labels. Anything that is not a mapping with a sequence under `key` is
/// left as it is.
pub open spec fn filled_group(
    group: DocumentView,
    key: Seq<char>,
    marker: Seq<char>,
    labels: Seq<Seq<char>>,
    every: bool,
) -> DocumentView {
    if has_sequence(group, key) {
        with_sequence(group, key, replaced(sequence_under(group, key), marker, labels, every))
    } else {
        group
    }
}

/// Every group filled.
pub open spec fn filled_groups(
    groups: Seq<DocumentView>,
    key: Seq<char>,
    marker: Seq<char>,
    labels: Seq<Seq<char>>,
    every: bool,
) -> Seq<DocumentView> {
    groups.map_values(|g: DocumentView| filled_group(g, key, marker, labels, every))
}

/// Where the entry at `position` goes in a list of `len` items: behind two
/// leading items and the entries before it, and at the end of a list that
/// is shorter than that.
pub open spec fn insert_offset(position: int, len: int) -> int {
    if 2 + position <= len {
        2 + position
    } else {
        len
    }
}

/// The list with the payloads of the first `count` entries put in, each
/// at its offset, those with an empty label left out.
pub open spec fn inserted(
    list: Seq<DocumentView>,
    entries: Seq<(Seq<char>, DocumentView)>,
    count: nat,
) -> Seq<DocumentView>
    decreases count,
{
    if count == 0 {
        list
    } else {
        let before = inserted(list, entries, (count - 1) as nat);
        let entry = entries[count - 1];
        if entry.0.len() == 0 {
            before
        } else {
            before.insert(insert_offset(count - 1, before.len() as int), entry.1)
        }
    }
}

/// Members without the marker are left as they are.
pub proof fn lemma_splice_without_marker(
    members: Seq<DocumentView>,
    marker: Seq<char>,
    labels: Seq<Seq<char>>,
)
    requires
        !members.contains(DocumentView::Text(marker)),
    ensures
        spliced(members, marker, labels) == members,
{
    let is_marker = is_the_text(marker);
    lemma_first_where(members, is_marker);
    let at = marker_index(members, marker);
    if at < members.len() {
        assert(members[at] == DocumentView::Text(marker));
    }
}

/// Replacing the marker puts every label in once and nothing else: what
/// the members hold afterwards is what they held without the marker,
/// together with the labels, each as often as it occurs among them.
pub proof fn lemma_splice_adds_each_label_once(
    members: Seq<DocumentView>,
    marker: Seq<char>,
    labels: Seq<Seq<char>>,
)
    requires
        members.contains(DocumentView::Text(marker)),
    ensures
        marker_index(members, marker) < members.len(),
        spliced(members, marker, labels).len() == members.len() - 1 + labels.len(),
        spliced(members, marker, labels).to_multiset() == members.remove(
            marker_index(members, marker),
        ).to_multiset().add(label_documents(labels).to_multiset()),
{
    let is_marker = is_the_text(marker);
    lemma_first_where(members, is_marker);
    let at = marker_index(members, marker);
    if at >= members.len() {
        let i = choose|i: int| 0 <= i < members.len() && members[i] == DocumentView::Text(marker);
        assert(is_marker(members[i]));
    }
    let head = members.subrange(0, at);
    let tail = members.subrange(at + 1, members.len() as int);
    let texts = label_documents(labels);
    vstd::seq_lib::lemma_multiset_commutative(head + texts, tail);
    vstd::seq_lib::lemma_multiset_commutative(head, texts);
    vstd::seq_lib::lemma_multiset_commutative(head, tail);
    assert(members.remove(at) =~= head + tail);
    assert(spliced(members, marker, labels).to_multiset() =~= members.remove(
        at,
    ).to_multiset().add(texts.to_multiset()));
}

/// Once the only marker has been replaced by labels that are not the
/// marker, replacing again changes nothing: no label is put in twice.
pub proof fn lemma_splice_settles(
    members: Seq<DocumentView>,
    marker: Seq<char>,
    labels: Seq<Seq<char>>,
    again: Seq<Seq<char>>,
)
    requires
        forall|j: int|
            0 <= j < members.len() && j != marker_index(members, marker) ==> #[trigger] members[j]
                != DocumentView::Text(marker),
        !labels.contains(marker),
    ensures
        spliced(spliced(members, marker, labels), marker, again) == spliced(
            members,
            marker,
            labels,
        ),
{
    let is_marker = is_the_text(marker);
    lemma_first_where(members, is_marker);
    let once = spliced(members, marker, labels);
    let at = marker_index(members, marker);
    assert forall|j: int| 0 <= j < once.len() implies once[j] != DocumentView::Text(marker) by {
        if at < members.len() {
            if j < at {
                assert(once[j] == members[j]);
            } else if j < at + labels.len() {
                assert(once[j] == DocumentView::Text(labels[j - at]));
                assert(labels.contains(labels[j - at]));
            } else {
                assert(once[j] == members[j - labels.len() + 1]);
            }
        }
    }
    assert(!once.contains(DocumentView::Text(marker)));
    lemma_splice_without_marker(once, marker, again);
}

/// Where every marker is taken out and no label is the marker, no marker
/// remains among the members, so that replacing again changes nothing.
pub proof fn lemma_splice_every_settles(
    members: Seq<DocumentView>,
    marker: Seq<char>,
    labels: Seq<Seq<char>>,
    again: Seq<Seq<char>>,
)
    requires
        !labels.contains(marker),
    ensures
        !spliced_every(members, marker, labels).contains(DocumentView::Text(marker)),
        spliced_every(spliced_every(members, marker, labels), marker, again) == spliced_every(
            members,
            marker,
            labels,
        ),
{
    let is_marker = is_the_text(marker);
    let keep = is_not_the_text(marker);
    lemma_first_where(members, is_marker);
    let once = spliced_every(members, marker, labels);
    let at = marker_index(members, marker);
    let tail = members.subrange(at + 1, members.len() as int);
    assert forall|j: int| 0 <= j < once.len() implies once[j] != DocumentView::Text(marker) by {
        if at < members.len() {
            if j < at {
                assert(once[j] == members[j]);
            } else if j < at + labels.len() {
                assert(once[j] == DocumentView::Text(labels[j - at]));
                assert(labels.contains(labels[j - at]));
            } else {
                assert(once[j] == tail.filter(keep)[j - at - labels.len()]);
                tail.lemma_filter_pred(keep, j - at - labels.len());
            }
        }
    }
    lemma_first_where(once, is_marker);
    let next = marker_index(once, marker);
    if next < once.len() {
        assert(once[next] == DocumentView::Text(marker));
    }
}

/// The entries that have a label, in order.
pub open spec fn labelled(entries: Seq<(Seq<char>, DocumentView)>) -> Seq<
    (Seq<char>, DocumentView),
> {
    entries.filter(|e: (Seq<char>, DocumentView)| e.0.len() > 0)
}

/// Putting entries in loses nothing and adds nothing else: the list holds
/// afterwards what it held before, together with the payloads of the
/// entries that have a label.
pub proof fn lemma_inserted_keeps_the_list(
    list: Seq<DocumentView>,
    entries: Seq<(Seq<char>, DocumentView)>,
    count: nat,
)
    requires
        count <= entries.len(),
    ensures
        inserted(list, entries, count).len() == list.len() + labelled(
            entries.subrange(0, count as int),
        ).len(),
        inserted(list, entries, count).to_multiset() == list.to_multiset().add(
            payloads_of(labelled(entries.subrange(0, count as int))).to_multiset(),
        ),
    decreases count,
{
    broadcast use vstd::seq_lib::group_to_multiset_ensures;

    reveal(Seq::filter);
    if count == 0 {
        assert(entries.subrange(0, 0) =~= Seq::empty());
        assert(payloads_of(labelled(entries.subrange(0, 0))) =~= Seq::empty());
        assert(inserted(list, entries, count).to_multiset() =~= list.to_multiset().add(
            Seq::<DocumentView>::empty().to_multiset(),
        ));
    } else {
        lemma_inserted_keeps_the_list(list, entries, (count - 1) as nat);
        let shorter = entries.subrange(0, count - 1);
        let longer = entries.subrange(0, count as int);
        let before = inserted(list, entries, (count - 1) as nat);
        let entry = entries[count - 1];
        assert(longer.drop_last() =~= shorter);
        assert(longer.last() == entry);
        if entry.0.len() > 0 {
            assert(labelled(longer) == labelled(shorter).push(entry));
            assert(payloads_of(labelled(longer)) =~= payloads_of(labelled(shorter)).push(entry.1));
            let offset = insert_offset(count - 1, before.len() as int);
            vstd::seq_lib::to_multiset_insert(before, offset, entry.1);
            assert(inserted(list, entries, count).to_multiset() =~= list.to_multiset().add(
                payloads_of(labelled(longer)).to_multiset(),
            ));
        } else {
            assert(labelled(longer) == labelled(shorter));
        }
    }
}

/// The labels of the entries as owned texts.
pub fn collect_labels(entries: &Vec<(String, Document)>, named_only: bool) -> (labels: Vec<String>)
    ensures
        label_views(labels@) == if named_only {
            named(labels_of(mapping_views(entries@)))
        } else {
            labels_of(mapping_views(entries@))
        },
{
    let ghost all = labels_of(mapping_views(entries@));
    let ghost is_named = |l: Seq<char>| l.len() > 0;
    let mut labels: Vec<String> = Vec::new();
    let mut i: usize = 0;
    assert(label_views(labels@) =~= Seq::empty());
    assert(all.subrange(0, 0) =~= Seq::empty());
    while i < entries.len()
        invariant
            i <= entries.len(),
            all == labels_of(mapping_views(entries@)),
            is_named == (|l: Seq<char>| l.len() > 0),
            label_views(labels@) == if named_only {
                all.subrange(0, i as int).filter(is_named)
            } else {
                all.subrange(0, i as int)
            },
        decreases entries.len() - i,
    {
        let ghost before = labels@;
        proof {
            assert(all.subrange(0, i + 1).drop_last() =~= all.subrange(0, i as int));
            assert(all.subrange(0, i + 1).last() == all[i as int]);
            assert(all.subrange(0, i + 1) =~= all.subrange(0, i as int).push(all[i as int]));
            reveal(Seq::filter);
        }
        if !named_only || !entries[i].0.as_str().is_empty() {
            labels.push(entries[i].0.clone());
            assert(label_views(labels@) =~= label_views(before).push(all[i as int]));
        }
        i += 1;
    }
    assert(all.subrange(0, i as int) =~= all);
    labels
}

/// Finds the first member that is the text `marker`.
pub fn find_marker(members: &Vec<Document>, marker: &str) -> (at: usize)
    ensures
        at == marker_index(sequence_views(members@), marker@),
        at <= members.len(),
{
    let ghost views = sequence_views(members@);
    let mut i: usize = 0;
    while i < members.len()
        invariant
            i <= members.len(),
            views == sequence_views(members@),
            forall|j: int| 0 <= j < i ==> #[trigger] views[j] != DocumentView::Text(marker@),
        decreases members.len() - i,
    {
        if members[i].is_text(marker) {
            proof {
                lemma_first_where_is(views, is_the_text(marker@), i as int);
            }
            return i;
        }
        i += 1;
    }
    proof {
        lemma_first_where_is(views, is_the_text(marker@), i as int);
    }
    i
}

/// Replaces the first `marker` among the members by the labels.
pub fn splice_labels(members: Vec<Document>, marker: &str, labels: &Vec<String>) -> (out: Vec<
    Document,
>)
    ensures
        sequence_views(out@) == spliced(
            sequence_views(members@),
            marker@,
            label_views(labels@),
        ),
{
    let ghost views = sequence_views(members@);
    let ghost texts = label_documents(label_views(labels@));
    let at = find_marker(&members, marker);
    if at >= members.len() {
        return members;
    }
    let mut out = members;
    out.remove(at);
    assert(sequence_views(out@) =~= views.subrange(0, at as int) + views.subrange(
        at + 1,
        views.len() as int,
    ));
    let mut k: usize = 0;
    assert(texts.subrange(0, 0) =~= Seq::empty());
    while k < labels.len()
        invariant
            k <= labels.len(),
            at < views.len(),
            texts == label_documents(label_views(labels@)),
            out.len() == views.len() - 1 + k,
            sequence_views(out@) == views.subrange(0, at as int) + texts.subrange(0, k as int)
                + views.subrange(at + 1, views.len() as int),
        decreases labels.len() - k,
    {
        let ghost before = out@;
        let label = Document::text(labels[k].as_str());
        out.insert(at + k, label);
        proof {
            assert(label@ == texts[k as int]);
            assert(sequence_views(out@) =~= sequence_views(before).insert(at + k, label@));
            assert(sequence_views(out@) =~= views.subrange(0, at as int) + texts.subrange(
                0,
                k + 1,
            ) + views.subrange(at + 1, views.len() as int));
        }
        k += 1;
    }
    assert(texts.subrange(0, k as int) =~= texts);
    out
}

/// Finds the sequence under `key` of a mapping: the index of the field
/// that holds it.
fn find_sequence(document: &Document, key: &str) -> (at: Option<usize>)
    ensures
        at is Some <==> has_sequence(document@, key@),
        at matches Some(i) ==> document matches Document::Mapping(fields) && i < fields.len() && i
            == key_index(mapping_views(fields@), key@) && fields[i as int].1 is Sequence,
{
    broadcast use lemma_sequence_view, lemma_mapping_view;

    match document {
        Document::Mapping(fields) => {
            let at = find_key(fields, key);
            if at < fields.len() {
                match &fields[at].1 {
                    Document::Sequence(_) => Some(at),
                    _ => None,
                }
            } else {
                None
            }
        },
        _ => None,
    }
}

/// The view of a sequence that may be absent.
pub open spec fn opt_sequence(items: Option<Vec<Document>>) -> Option<Seq<DocumentView>> {
    match items {
        Some(found) => Some(sequence_views(found@)),
        None => None,
    }
}

/// A copy of the sequence under `key`; nothing where `document` is not a
/// mapping with a sequence under `key`.
pub fn get_sequence(document: &Document, key: &str) -> (items: Option<Vec<Document>>)
    ensures
        opt_sequence(items) == if has_sequence(document@, key@) {
            Some(sequence_under(document@, key@))
        } else {
            None
        },
{
    broadcast use lemma_sequence_view, lemma_mapping_view;

    match find_sequence(document, key) {
        Some(at) => match document {
            Document::Mapping(fields) => match &fields[at].1 {
                Document::Sequence(items) => Some(copy_items(items)),
                _ => None,
            },
            _ => None,
        },
        None => None,
    }
}

/// A copy of `document` with `items` as the sequence under `key`; a plain
/// copy where `document` is not a mapping with a sequence under `key`.
pub fn put_sequence(document: &Document, key: &str, items: Vec<Document>) -> (out: Document)
    ensures
        out@ == if has_sequence(document@, key@) {
            with_sequence(document@, key@, sequence_views(items@))
        } else {
            document@
        },
{
    broadcast use lemma_sequence_view, lemma_mapping_view;

    match find_sequence(document, key) {
        Some(at) => match document {
            Document::Mapping(fields) => {
                let mut copies = copy_fields(fields);
                assert(copies.len() == mapping_views(copies@).len());
                assert(mapping_views(copies@)[at as int].0 == copies@[at as int].0@);
                replace_value(&mut copies, at, Document::sequence(items));
                Document::mapping(copies)
            },
            _ => document.clone(),
        },
        None => document.clone(),
    }
}

/// Replaces the first `marker` among the members by the labels and takes
/// every later `marker` out.
pub fn splice_every(members: &Vec<Document>, marker: &str, labels: &Vec<String>) -> (out: Vec<
    Document,
>)
    ensures
        sequence_views(out@) == spliced_every(
            sequence_views(members@),
            marker@,
            label_views(labels@),
        ),
{
    let ghost views = sequence_views(members@);
    let ghost texts = label_documents(label_views(labels@));
    let ghost keep = is_not_the_text(marker@);
    let at = find_marker(members, marker);
    if at >= members.len() {
        return copy_items(members);
    }
    let mut out: Vec<Document> = Vec::new();
    let mut i: usize = 0;
    assert(sequence_views(out@) =~= views.subrange(0, 0));
    while i < at
        invariant
            i <= at < members.len(),
            views == sequence_views(members@),
            sequence_views(out@) == views.subrange(0, i as int),
        decreases at - i,
    {
        let ghost before = out@;
        let copy = members[i].clone();
        out.push(copy);
        proof {
            assert(sequence_views(out@) =~= sequence_views(before).push(copy@));
            assert(views.subrange(0, i + 1) =~= views.subrange(0, i as int).push(views[i as int]));
        }
        i += 1;
    }
    let mut k: usize = 0;
    assert(sequence_views(out@) =~= views.subrange(0, at as int) + texts.subrange(0, 0));
    while k < labels.len()
        invariant
            k <= labels.len(),
            texts == label_documents(label_views(labels@)),
            sequence_views(out@) == views.subrange(0, at as int) + texts.subrange(0, k as int),
        decreases labels.len() - k,
    {
        let ghost before = out@;
        let label = Document::text(labels[k].as_str());
        out.push(label);
        proof {
            assert(label@ == texts[k as int]);
            assert(sequence_views(out@) =~= sequence_views(before).push(label@));
            assert(texts.subrange(0, k + 1) =~= texts.subrange(0, k as int).push(texts[k as int]));
        }
        k += 1;
    }
    assert(texts.subrange(0, k as int) =~= texts);
    let ghost tail = views.subrange(at + 1, views.len() as int);
    let mut j: usize = at + 1;
    assert(tail.subrange(0, 0) =~= Seq::empty());
    assert(tail.subrange(0, 0).filter(keep) =~= Seq::empty()) by {
        reveal(Seq::filter);
    }
    assert(sequence_views(out@) =~= views.subrange(0, at as int) + texts + tail.subrange(
        0,
        0,
    ).filter(keep));
    while j < members.len()
        invariant
            at < j <= members.len(),
            views == sequence_views(members@),
            tail == views.subrange(at + 1, views.len() as int),
            keep == is_not_the_text(marker@),
            sequence_views(out@) == views.subrange(0, at as int) + texts + tail.subrange(
                0,
                j - at - 1,
            ).filter(keep),
        decreases members.len() - j,
    {
        let ghost before = out@;
        proof {
            let longer = tail.subrange(0, j - at);
            assert(longer.drop_last() =~= tail.subrange(0, j - at - 1));
            assert(longer.last() == views[j as int]);
            reveal(Seq::filter);
        }
        if !members[j].is_text(marker) {
            let copy = members[j].clone();
            out.push(copy);
            assert(sequence_views(out@) =~= sequence_views(before).push(views[j as int]));
        }
        j += 1;
    }
    assert(tail.subrange(0, j - at - 1) =~= tail);
    out
}

/// Fills one group: the marker among its members under `key` is replaced
/// by the labels, every occurrence of it where `every` is set and the
/// first one only where it is not.
pub fn fill_group(
    group: &Document,
    key: &str,
    marker: &str,
    labels: &Vec<String>,
    every: bool,
) -> (filled: Document)
    ensures
        filled@ == filled_group(group@, key@, marker@, label_views(labels@), every),
{
    match get_sequence(group, key) {
        Some(members) => {
            let spliced = if every {
                splice_every(&members, marker, labels)
            } else {
                splice_labels(members, marker, labels)
            };
            put_sequence(group, key, spliced)
        },
        None => group.clone(),
    }
}

/// Fills every group.
pub fn fill_groups(
    groups: &Vec<Document>,
    key: &str,
    marker: &str,
    labels: &Vec<String>,
    every: bool,
) -> (filled: Vec<Document>)
    ensures
        sequence_views(filled@) == filled_groups(
            sequence_views(groups@),
            key@,
            marker@,
            label_views(labels@),
            every,
        ),
{
    let ghost goal = filled_groups(
        sequence_views(groups@),
        key@,
        marker@,
        label_views(labels@),
        every,
    );
    let mut filled: Vec<Document> = Vec::new();
    let mut i: usize = 0;
    assert(sequence_views(filled@) =~= goal.subrange(0, 0));
    while i < groups.len()
        invariant
            i <= groups.len(),
            goal == filled_groups(
                sequence_views(groups@),
                key@,
                marker@,
                label_views(labels@),
                every,
            ),
            sequence_views(filled@) == goal.subrange(0, i as int),
        decreases groups.len() - i,
    {
        let ghost before = filled@;
        let group = fill_group(&groups[i], key, marker, labels, every);
        filled.push(group);
        proof {
            assert(sequence_views(filled@) =~= sequence_views(before).push(group@));
            assert(goal.subrange(0, i + 1) =~= goal.subrange(0, i as int).push(goal[i as int]));
        }
        i += 1;
    }
    assert(goal.subrange(0, i as int) =~= goal);
    filled
}

/// Puts the payloads of the entries into the list, each at its offset,
/// those with an empty label left out.
pub fn insert_entries(list: Vec<Document>, entries: &Vec<(String, Document)>) -> (out: Vec<
    Document,
>)
    ensures
        sequence_views(out@) == inserted(
            sequence_views(list@),
            mapping_views(entries@),
            entries@.len(),
        ),
{
    let ghost start = sequence_views(list@);
    let ghost views = mapping_views(entries@);
    let mut out = list;
    let mut i: usize = 0;
    while i < entries.len()
        invariant
            i <= entries.len(),
            views == mapping_views(entries@),
            sequence_views(out@) == inserted(start, views, i as nat),
        decreases entries.len() - i,
    {
        let ghost before = out@;
        if !entries[i].0.as_str().is_empty() {
            let offset = if out.len() >= 2 && i <= out.len() - 2 {
                i + 2
            } else {
                out.len()
            };
            let payload = entries[i].1.clone();
            out.insert(offset, payload);
            proof {
                assert(views[i as int] == (entries@[i as int].0@, entries@[i as int].1@));
                assert(sequence_views(before).len() == before.len());
                assert(offset == insert_offset(i as int, before.len() as int));
                assert(sequence_views(out@) =~= sequence_views(before).insert(
                    offset as int,
                    payload@,
                ));
            }
        } else {
            proof {
                assert(views[i as int] == (entries@[i as int].0@, entries@[i as int].1@));
            }
        }
        i += 1;
    }
    out
}

/// A copy of the payloads of the entries.
pub fn collect_payloads(entries: &Vec<(String, Document)>) -> (payloads: Vec<Document>)
    ensures
        sequence_views(payloads@) == payloads_of(mapping_views(entries@)),
{
    let ghost goal = payloads_of(mapping_views(entries@));
    let mut payloads: Vec<Document> = Vec::new();
    let mut i: usize = 0;
    assert(sequence_views(payloads@) =~= goal.subrange(0, 0));
    while i < entries.len()
        invariant
            i <= entries.len(),
            goal == payloads_of(mapping_views(entries@)),
            sequence_views(payloads@) == goal.subrange(0, i as int),
        decreases entries.len() - i,
    {
        let ghost before = payloads@;
        let payload = entries[i].1.clone();
        payloads.push(payload);
        proof {
            assert(sequence_views(payloads@) =~= sequence_views(before).push(payload@));
            assert(goal.subrange(0, i + 1) =~= goal.subrange(0, i as int).push(goal[i as int]));
        }
        i += 1;
    }
    assert(goal.subrange(0, i as int) =~= goal);
    payloads
}

/// Reads the payload of every entry as a document; a payload that is not
/// read stands as the null document.
pub fn parse_entries(entries: &Vec<(String, String)>) -> (parsed: Vec<(String, Document)>)
    ensures
        mapping_views(parsed@) == parsed_entries(pair_views(entries@)),
{
    let ghost goal = parsed_entries(pair_views(entries@));
    let mut parsed: Vec<(String, Document)> = Vec::new();
    let mut i: usize = 0;
    assert(mapping_views(parsed@) =~= goal.subrange(0, 0));
    while i < entries.len()
        invariant
            i <= entries.len(),
            goal == parsed_entries(pair_views(entries@)),
            mapping_views(parsed@) == goal.subrange(0, i as int),
        decreases entries.len() - i,
    {
        let ghost before = parsed@;
        let entry = (entries[i].0.clone(), parse_json_or_null(entries[i].1.as_str()));
        parsed.push(entry);
        proof {
            assert(mapping_views(parsed@) =~= mapping_views(before).push((entry.0@, entry.1@)));
            assert(goal.subrange(0, i + 1) =~= goal.subrange(0, i as int).push(goal[i as int]));
        }
        i += 1;
    }
    assert(goal.subrange(0, i as int) =~= goal);
    parsed
}

} // verus!
