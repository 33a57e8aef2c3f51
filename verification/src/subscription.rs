//! One request: the candidate addresses of a page, the entries built for
//! them, and the text that answers the request.

use crate::clash::{merge_proxies, merged_clash};
use crate::document::{
    mapping_views, no_fields, push_field, sequence_views, Document, DocumentView,
};
use crate::fragment::{
    build_fragment, fragment_outcome, fragment_view, lemma_outcome_has_a_label, nothing, Target,
};
use crate::indent::{emit_as_yaml, yaml_text};
use crate::json::{pretty_or_empty, to_json_pretty_or_empty};
use crate::params::{Params, ParamsView};
use crate::pool::{
    lemma_candidates_are_of_known_kinds, position_in_range, Proxy, ProxyView, SelectedNodeView,
};
use crate::ports::{always_fits, has_port, node_decision, port_fits};
use crate::remark::remark_text;
use crate::random::random_below;
use crate::singbox::{merge_outbounds, merged_singbox};
use crate::template::{collect_payloads, parse_entries, parsed_entries, payloads_of};
use crate::text::{opt_text, pair_views, text_eq};
use crate::v2ray::{
    build_v2ray_link, lemma_link_nonempty, link_outcome, text_or_default, text_or_empty,
};
use vstd::prelude::*;

verus! {

/// One candidate address.
#[derive(Debug, Default, PartialEq, Eq)]
pub struct MyData {
    pub addr: String,
    pub port: Option<u16>,
    pub alias: Option<String>,
}

/// What a candidate address holds, over texts as sequences of characters.
pub ghost struct MyDataView {
    pub addr: Seq<char>,
    pub port: Option<u16>,
    pub alias: Option<Seq<char>>,
}

impl View for MyData {
    type V = MyDataView;

    open spec fn view(&self) -> MyDataView {
        MyDataView { addr: self.addr@, port: self.port, alias: opt_text(self.alias) }
    }
}

impl Clone for MyData {
    fn clone(&self) -> (copy: Self)
        ensures
            copy@ == self@,
    {
        MyData {
            addr: self.addr.clone(),
            port: self.port,
            alias: match &self.alias {
                Some(alias) => Some(alias.clone()),
                None => None,
            },
        }
    }
}

/// The views of candidate addresses, in order.
pub open spec fn data_views(data: Seq<MyData>) -> Seq<MyDataView> {
    data.map_values(|d: MyData| d@)
}

/// The fixed settings of a deployment: the ports of the two TLS classes
/// and the client fingerprints to choose from.
#[derive(Debug, Default, PartialEq, Eq)]
pub struct Settings {
    pub http_ports: Vec<u16>,
    pub https_ports: Vec<u16>,
    pub fingerprints: Vec<String>,
}

/// The ports that serve without TLS.
pub open spec fn standard_http_ports() -> Seq<u16> {
    seq![80u16, 8080u16, 8880u16, 2052u16, 2082u16, 2086u16, 2095u16]
}

/// The ports that serve with TLS.
pub open spec fn standard_https_ports() -> Seq<u16> {
    seq![443u16, 2053u16, 2083u16, 2087u16, 2096u16, 8443u16]
}

/// The client fingerprints to choose from.
pub open spec fn standard_fingerprints() -> Seq<Seq<char>> {
    seq![
        "chrome"@,
        "firefox"@,
        "safari"@,
        "edge"@,
        "random"@,
        "ios"@,
        "android"@,
        "random"@,
        "randomized"@,
    ]
}

/// The views of texts, in order.
pub open spec fn text_views(texts: Seq<String>) -> Seq<Seq<char>> {
    texts.map_values(|t: String| t@)
}

impl Settings {
    /// The standard ports and fingerprints.
    pub fn standard() -> (settings: Settings)
        ensures
            settings.http_ports@ == standard_http_ports(),
            settings.https_ports@ == standard_https_ports(),
            text_views(settings.fingerprints@) == standard_fingerprints(),
    {
        let mut http_ports: Vec<u16> = Vec::new();
        http_ports.push(80);
        http_ports.push(8080);
        http_ports.push(8880);
        http_ports.push(2052);
        http_ports.push(2082);
        http_ports.push(2086);
        http_ports.push(2095);
        let mut https_ports: Vec<u16> = Vec::new();
        https_ports.push(443);
        https_ports.push(2053);
        https_ports.push(2083);
        https_ports.push(2087);
        https_ports.push(2096);
        https_ports.push(8443);
        let mut fingerprints: Vec<String> = Vec::new();
        fingerprints.push(String::from_str("chrome"));
        fingerprints.push(String::from_str("firefox"));
        fingerprints.push(String::from_str("safari"));
        fingerprints.push(String::from_str("edge"));
        fingerprints.push(String::from_str("random"));
        fingerprints.push(String::from_str("ios"));
        fingerprints.push(String::from_str("android"));
        fingerprints.push(String::from_str("random"));
        fingerprints.push(String::from_str("randomized"));
        assert(http_ports@ =~= standard_http_ports());
        assert(https_ports@ =~= standard_https_ports());
        assert(text_views(fingerprints@) =~= standard_fingerprints());
        Settings { http_ports, https_ports, fingerprints }
    }
}

/// How many candidate addresses make a page: for the two structured
/// targets the number asked for where it lies between 1 and 150, else 50
/// for `singbox` and 100 for `clash`; for any other target the number
/// asked for.
pub open spec fn page_size_of(target: Seq<char>, max_node_count: usize) -> usize {
    if target == "singbox"@ {
        if 1 <= max_node_count <= 150 {
            max_node_count
        } else {
            50
        }
    } else if target == "clash"@ {
        if 1 <= max_node_count <= 150 {
            max_node_count
        } else {
            100
        }
    } else {
        max_node_count
    }
}

/// How many candidate addresses make a page.
pub fn page_size(target: &str, max_node_count: usize) -> (size: usize)
    ensures
        size == page_size_of(target@, max_node_count),
{
    let in_range = 1 <= max_node_count && max_node_count <= 150;
    if text_eq(target, "singbox") {
        if in_range {
            max_node_count
        } else {
            50
        }
    } else if text_eq(target, "clash") {
        if in_range {
            max_node_count
        } else {
            100
        }
    } else {
        max_node_count
    }
}

/// The ports that a request leaves out: those that serve without TLS when
/// it asks for TLS, those that serve with TLS when it does not.
pub open spec fn unwanted_ports(tls_mode: bool, http_ports: Seq<u16>, https_ports: Seq<u16>) -> Seq<
    u16,
> {
    if tls_mode {
        http_ports
    } else {
        https_ports
    }
}

/// Whether a candidate address stays: one without a port does, and one
/// whose port is not left out.
pub open spec fn wanted(unwanted: Seq<u16>) -> spec_fn(MyDataView) -> bool {
    |d: MyDataView|
        match d.port {
            Some(port) => !unwanted.contains(port),
            None => true,
        }
}

/// Keeps the candidate addresses whose port the request does not leave
/// out, in order.
pub fn filter_by_port_class(
    data: &Vec<MyData>,
    tls_mode: bool,
    http_ports: &[u16],
    https_ports: &[u16],
) -> (kept: Vec<MyData>)
    ensures
        data_views(kept@) == data_views(data@).filter(
            wanted(unwanted_ports(tls_mode, http_ports@, https_ports@)),
        ),
{
    let unwanted = if tls_mode {
        http_ports
    } else {
        https_ports
    };
    let ghost all = data_views(data@);
    let ghost keep = wanted(unwanted@);
    let mut kept: Vec<MyData> = Vec::new();
    let mut i: usize = 0;
    assert(all.subrange(0, 0) =~= Seq::empty());
    assert(data_views(kept@) =~= Seq::empty());
    while i < data.len()
        invariant
            i <= data.len(),
            all == data_views(data@),
            keep == wanted(unwanted@),
            data_views(kept@) == all.subrange(0, i as int).filter(keep),
        decreases data.len() - i,
    {
        let ghost before = kept@;
        proof {
            assert(all.subrange(0, i + 1).drop_last() =~= all.subrange(0, i as int));
            assert(all.subrange(0, i + 1).last() == all[i as int]);
            reveal(Seq::filter);
        }
        let stays = match data[i].port {
            Some(port) => !has_port(unwanted, port),
            None => true,
        };
        assert(stays == keep(all[i as int]));
        if stays {
            let copy = data[i].clone();
            kept.push(copy);
            assert(data_views(kept@) =~= data_views(before).push(all[i as int]));
        }
        i += 1;
    }
    assert(all.subrange(0, i as int) =~= all);
    kept
}

/// Where a page starts and ends among `len` items, pages of `size` items
/// counted from one; nothing where there is no such page.
pub open spec fn page_bounds(len: int, size: int, page: int) -> Option<(int, int)> {
    if size > 0 && page >= 1 && (page - 1) * size < len {
        Some(
            (
                (page - 1) * size,
                if page * size < len {
                    page * size
                } else {
                    len
                },
            ),
        )
    } else {
        None
    }
}

/// The items of a page; nothing where there is no such page.
pub open spec fn page_items(data: Seq<MyDataView>, size: int, page: int) -> Option<
    Seq<MyDataView>,
> {
    match page_bounds(data.len() as int, size, page) {
        Some((start, end)) => Some(data.subrange(start, end)),
        None => None,
    }
}

/// The view of a page that may be absent.
pub open spec fn opt_data(data: Option<Vec<MyData>>) -> Option<Seq<MyDataView>> {
    match data {
        Some(d) => Some(data_views(d@)),
        None => None,
    }
}

/// Takes one page out of the candidate addresses.
pub fn page_of(data: &Vec<MyData>, size: usize, page: usize) -> (items: Option<Vec<MyData>>)
    ensures
        opt_data(items) == page_items(data_views(data@), size as int, page as int),
        items matches Some(found) ==> found.len() > 0,
{
    let len = data.len();
    if size == 0 || page == 0 || len == 0 {
        assert(page_bounds(len as int, size as int, page as int) is None) by (nonlinear_arith)
            requires
                size == 0 || page == 0 || len == 0,
                size >= 0,
                page >= 0,
                len >= 0,
        {
            if size > 0 && page >= 1 {
                assert((page - 1) * size >= 0);
            }
        }
        return None;
    }
    let last_page = (len - 1) / size;
    if page - 1 > last_page {
        assert((page - 1) * size >= len) by (nonlinear_arith)
            requires
                last_page == (len - 1) / (size as int),
                page - 1 > last_page,
                size > 0,
                len > 0,
        {
        }
        return None;
    }
    assert((page - 1) * size <= len - 1) by (nonlinear_arith)
        requires
            last_page == (len - 1) / (size as int),
            0 <= page - 1 <= last_page,
            size > 0,
            len > 0,
    {
    }
    let start = (page - 1) * size;
    let end = if len - start > size {
        start + size
    } else {
        len
    };
    assert(page * size == start + size) by (nonlinear_arith)
        requires
            start == (page - 1) * size,
    {
    }
    let ghost all = data_views(data@);
    let mut items: Vec<MyData> = Vec::new();
    let mut i: usize = start;
    assert(data_views(items@) =~= all.subrange(start as int, start as int));
    while i < end
        invariant
            start <= i <= end <= data.len(),
            all == data_views(data@),
            data_views(items@) == all.subrange(start as int, i as int),
            items.len() == i - start,
        decreases end - i,
    {
        let ghost before = items@;
        let copy = data[i].clone();
        items.push(copy);
        assert(data_views(items@) =~= data_views(before).push(all[i as int]));
        assert(all.subrange(start as int, i + 1) =~= all.subrange(start as int, i as int).push(
            all[i as int],
        ));
        i += 1;
    }
    Some(items)
}

/// The lines joined by line feeds.
pub open spec fn joined_lines(lines: Seq<Seq<char>>) -> Seq<char>
    decreases lines.len(),
{
    if lines.len() == 0 {
        Seq::empty()
    } else if lines.len() == 1 {
        lines[0]
    } else {
        joined_lines(lines.drop_last()) + seq!['\n'] + lines.last()
    }
}

/// The payloads of entries, in order.
pub open spec fn payload_texts(entries: Seq<(Seq<char>, Seq<char>)>) -> Seq<Seq<char>> {
    entries.map_values(|e: (Seq<char>, Seq<char>)| e.1)
}

/// The document that holds the payloads of the entries, read as JSON, as
/// the list under `key`, and nothing else.
pub open spec fn bare_document(
    key: Seq<char>,
    entries: Seq<(Seq<char>, Seq<char>)>,
) -> DocumentView {
    DocumentView::Mapping(
        seq![(key, DocumentView::Sequence(payloads_of(parsed_entries(entries))))],
    )
}

/// The document of the first structured target: the template with the
/// entries merged in, or the bare list of the entries.
pub open spec fn singbox_document(
    enable_template: bool,
    entries: Seq<(Seq<char>, Seq<char>)>,
    template: DocumentView,
) -> DocumentView {
    if enable_template {
        merged_singbox(template, parsed_entries(entries))
    } else {
        bare_document("outbounds"@, entries)
    }
}

/// The document of the second structured target: the template with the
/// entries merged in, or the bare list of the entries.
pub open spec fn clash_document(
    enable_template: bool,
    entries: Seq<(Seq<char>, Seq<char>)>,
    template: DocumentView,
) -> DocumentView {
    if enable_template {
        merged_clash(template, parsed_entries(entries))
    } else {
        bare_document("proxies"@, entries)
    }
}

/// The text that answers a request: the links one to a line for `v2ray`,
/// the document as indented JSON for `singbox`, the document as YAML for
/// `clash`, and the empty text for any other target.
pub open spec fn rendered(
    target: Seq<char>,
    enable_template: bool,
    entries: Seq<(Seq<char>, Seq<char>)>,
    singbox_template: DocumentView,
    clash_template: DocumentView,
) -> Seq<char> {
    if target == "v2ray"@ {
        joined_lines(payload_texts(entries))
    } else if target == "singbox"@ {
        pretty_or_empty(singbox_document(enable_template, entries, singbox_template))
    } else if target == "clash"@ {
        yaml_text(clash_document(enable_template, entries, clash_template))
    } else {
        Seq::empty()
    }
}

/// Joins the payloads of the entries by line feeds.
pub fn join_payloads(entries: &Vec<(String, String)>) -> (text: String)
    ensures
        text@ == joined_lines(payload_texts(pair_views(entries@))),
{
    let ghost lines = payload_texts(pair_views(entries@));
    let mut text = String::new();
    let mut i: usize = 0;
    assert(lines.subrange(0, 0) =~= Seq::empty());
    while i < entries.len()
        invariant
            i <= entries.len(),
            lines == payload_texts(pair_views(entries@)),
            text@ == joined_lines(lines.subrange(0, i as int)),
        decreases entries.len() - i,
    {
        proof {
            reveal_strlit("\n");
            assert(lines.subrange(0, i + 1).drop_last() =~= lines.subrange(0, i as int));
            assert(lines.subrange(0, i + 1).last() == lines[i as int]);
            assert("\n"@ =~= seq!['\n']);
        }
        if i > 0 {
            text.append("\n");
        }
        text.append(entries[i].1.as_str());
        proof {
            if i == 0 {
                assert(lines.subrange(0, 1)[0] == lines[0]);
                assert(text@ =~= lines[0]);
            }
        }
        i += 1;
    }
    assert(lines.subrange(0, i as int) =~= lines);
    text
}

/// The document that holds the payloads of the entries as the list under
/// `key`, and nothing else.
pub fn build_bare_document(key: &str, entries: &Vec<(String, String)>) -> (document: Document)
    ensures
        document@ == bare_document(key@, pair_views(entries@)),
{
    let parsed = parse_entries(entries);
    let payloads = collect_payloads(&parsed);
    let mut fields = no_fields();
    push_field(&mut fields, key, Document::sequence(payloads));
    assert(mapping_views(fields@) =~= seq![
        (key@, DocumentView::Sequence(payloads_of(parsed_entries(pair_views(entries@))))),
    ]);
    Document::mapping(fields)
}

/// Writes the text that answers a request from the entries built for it.
pub fn render(
    target: &str,
    enable_template: bool,
    entries: &Vec<(String, String)>,
    singbox_template: &Document,
    clash_template: &Document,
) -> (text: String)
    ensures
        text@ == rendered(
            target@,
            enable_template,
            pair_views(entries@),
            singbox_template@,
            clash_template@,
        ),
{
    if text_eq(target, "v2ray") {
        join_payloads(entries)
    } else if text_eq(target, "singbox") {
        let document = if enable_template {
            merge_outbounds(singbox_template, &parse_entries(entries))
        } else {
            build_bare_document("outbounds", entries)
        };
        to_json_pretty_or_empty(&document)
    } else if text_eq(target, "clash") {
        let document = if enable_template {
            merge_proxies(clash_template, &parse_entries(entries))
        } else {
            build_bare_document("proxies", entries)
        };
        emit_as_yaml(&document)
    } else {
        String::new()
    }
}

/// The tag that comes with a candidate address; the empty text where it
/// has none.
pub open spec fn item_tag(item: MyDataView) -> Seq<char> {
    text_or_empty(item.alias)
}

/// The port that comes with a candidate address; zero where it has none.
pub open spec fn item_port(item: MyDataView) -> u16 {
    match item.port {
        Some(port) => port,
        None => 0,
    }
}

/// The structured target that a text names.
pub open spec fn target_named(target: Seq<char>) -> Option<Target> {
    if target == "singbox"@ {
        Some(Target::Singbox)
    } else if target == "clash"@ {
        Some(Target::Clash)
    } else {
        None
    }
}

/// The entry that a link makes: the link under an empty label, and none
/// for an empty link.
pub open spec fn entry_of_link(link: Seq<char>) -> Option<(Seq<char>, Seq<char>)> {
    if link.len() > 0 {
        Some((Seq::empty(), link))
    } else {
        None
    }
}

/// The entry that a labelled document makes: the document as indented
/// JSON under its label, and none for an empty label.
pub open spec fn entry_of_fragment(fragment: (Seq<char>, DocumentView)) -> Option<
    (Seq<char>, Seq<char>),
> {
    if fragment.0.len() > 0 {
        Some((fragment.0, pretty_or_empty(fragment.1)))
    } else {
        None
    }
}

/// The entry that one attempt gives for a candidate address: with one
/// node, one position of the random port and one fingerprint.
pub open spec fn attempt_entry(
    target: Seq<char>,
    candidate: SelectedNodeView,
    draw: nat,
    fingerprint: Seq<char>,
    item: MyDataView,
    uri_port: u16,
    http_ports: Seq<u16>,
    https_ports: Seq<u16>,
) -> Option<(Seq<char>, Seq<char>)> {
    if target == "v2ray"@ {
        match link_outcome(
            candidate,
            draw,
            item_tag(item),
            item.addr,
            item_port(item),
            uri_port,
            fingerprint,
            http_ports,
            https_ports,
        ) {
            Some(link) => entry_of_link(link),
            None => None,
        }
    } else {
        match target_named(target) {
            Some(structured) => match fragment_outcome(
                structured,
                candidate,
                draw,
                item_tag(item),
                item.addr,
                item_port(item),
                uri_port,
                fingerprint,
                http_ports,
                https_ports,
            ) {
                Some(fragment) => entry_of_fragment(fragment),
                None => None,
            },
            None => None,
        }
    }
}

/// The fingerprints to choose from; the empty fingerprint alone where
/// none is configured.
pub open spec fn fingerprint_choices(fingerprints: Seq<Seq<char>>) -> Seq<Seq<char>> {
    if fingerprints.len() == 0 {
        seq![Seq::empty()]
    } else {
        fingerprints
    }
}

/// What the attempts of a request depend on: the target, the candidates
/// of the pool, the position and the port asked for, and the settings.
pub ghost struct Asked {
    pub target: Seq<char>,
    pub candidates: Seq<SelectedNodeView>,
    pub userid: u8,
    pub uri_port: u16,
    pub fingerprints: Seq<Seq<char>>,
    pub http_ports: Seq<u16>,
    pub https_ports: Seq<u16>,
}

/// What the attempts of a request depend on.
pub open spec fn asked_of(
    proxies: ProxyView,
    params: ParamsView,
    fingerprints: Seq<Seq<char>>,
    http_ports: Seq<u16>,
    https_ports: Seq<u16>,
) -> Asked {
    Asked {
        target: params.target,
        candidates: proxies.candidates(params.proxy_type),
        userid: params.userid,
        uri_port: params.default_port,
        fingerprints,
        http_ports,
        https_ports,
    }
}

/// Whether the candidate at `index` is one that an attempt may be made
/// with: the one at the position asked for where that addresses a
/// candidate, any candidate otherwise.
pub open spec fn tried(asked: Asked, index: int) -> bool {
    &&& 0 <= index < asked.candidates.len()
    &&& position_in_range(asked.userid, asked.candidates.len()) ==> index == asked.userid - 1
}

/// The entry that one attempt of a request gives for a candidate address:
/// with the candidate at `index`, one position of the random port and the
/// fingerprint at `print`.
pub open spec fn attempt_of(
    asked: Asked,
    item: MyDataView,
    index: int,
    draw: nat,
    print: int,
) -> Option<(Seq<char>, Seq<char>)> {
    attempt_entry(
        asked.target,
        asked.candidates[index],
        draw,
        fingerprint_choices(asked.fingerprints)[print],
        item,
        asked.uri_port,
        asked.http_ports,
        asked.https_ports,
    )
}

/// Whether `entry` is what some attempt gives for `item`: with a candidate
/// that may be tried, some position of the random port and one of the
/// fingerprints.
pub open spec fn may_come_from(
    asked: Asked,
    item: MyDataView,
    entry: (Seq<char>, Seq<char>),
) -> bool {
    exists|index: int, draw: nat, print: int|
        tried(asked, index) && 0 <= print < fingerprint_choices(asked.fingerprints).len()
            && #[trigger] attempt_of(asked, item, index, draw, print) == Some(entry)
}

/// Whether an entry is owed for a candidate address: the target is known,
/// there is a candidate, and the candidates that may be tried can be used
/// as they are with the port of the address, so that the first attempt
/// gives an entry whatever is drawn.
pub open spec fn entry_owed(asked: Asked, item: MyDataView) -> bool {
    &&& asked.candidates.len() > 0
    &&& asked.target == "v2ray"@ || target_named(asked.target) is Some
    &&& if position_in_range(asked.userid, asked.candidates.len()) {
        port_fits(
            asked.candidates[asked.userid - 1].node_type,
            asked.candidates[asked.userid - 1].node,
            asked.uri_port,
            item_port(item),
            asked.http_ports,
            asked.https_ports,
        )
    } else {
        always_fits(
            asked.candidates,
            item_port(item),
            asked.uri_port,
            asked.http_ports,
            asked.https_ports,
        )
    }
}

/// Whether an entry is owed for each of the first `count` candidate
/// addresses of a page.
pub open spec fn entries_owed(asked: Asked, page: Seq<MyDataView>, count: int) -> bool {
    forall|j: int| 0 <= j < count ==> entry_owed(asked, #[trigger] page[j])
}

/// Whether the entries are what attempts give for the candidate addresses
/// at `picks`, one entry for one address, in the order of the addresses.
pub open spec fn came_from(
    picks: Seq<int>,
    entries: Seq<(Seq<char>, Seq<char>)>,
    page: Seq<MyDataView>,
    asked: Asked,
) -> bool {
    &&& picks.len() == entries.len()
    &&& forall|j: int| 0 <= j < picks.len() ==> 0 <= #[trigger] picks[j] < page.len()
    &&& forall|j: int, k: int| 0 <= j < k < picks.len() ==> picks[j] < picks[k]
    &&& forall|j: int|
        0 <= j < picks.len() ==> may_come_from(asked, page[#[trigger] picks[j]], entries[j])
}

/// Whether `text` answers a request for which the entries were built from
/// the candidate addresses of `page` at `picks`, one for each address where
/// an entry is owed for each.
pub open spec fn answers_with(
    text: Seq<char>,
    picks: Seq<int>,
    entries: Seq<(Seq<char>, Seq<char>)>,
    page: Seq<MyDataView>,
    asked: Asked,
    enable_template: bool,
    singbox_template: DocumentView,
    clash_template: DocumentView,
) -> bool {
    &&& came_from(picks, entries, page, asked)
    &&& entries_owed(asked, page, page.len() as int) ==> entries.len() == page.len()
    &&& text == rendered(asked.target, enable_template, entries, singbox_template, clash_template)
}

/// The view of an entry that may be absent.
pub open spec fn opt_pair(entry: Option<(String, String)>) -> Option<(Seq<char>, Seq<char>)> {
    match entry {
        Some(e) => Some((e.0@, e.1@)),
        None => None,
    }
}

/// Makes the entry of a link.
pub fn link_entry(link: String) -> (entry: Option<(String, String)>)
    ensures
        opt_pair(entry) == entry_of_link(link@),
{
    if link.as_str().is_empty() {
        None
    } else {
        Some((String::new(), link))
    }
}

/// Makes the entry of a labelled document.
pub fn fragment_entry(fragment: (String, Document)) -> (entry: Option<(String, String)>)
    ensures
        opt_pair(entry) == entry_of_fragment(fragment_view(fragment)),
{
    let (label, document) = fragment;
    if label.as_str().is_empty() {
        None
    } else {
        let text = to_json_pretty_or_empty(&document);
        Some((label, text))
    }
}

/// An attempt that gives a link gives one that is not empty.
proof fn lemma_link_outcome_nonempty(
    candidate: SelectedNodeView,
    draw: nat,
    csv_tag: Seq<char>,
    csv_addr: Seq<char>,
    csv_port: u16,
    uri_port: u16,
    fingerprint: Seq<char>,
    http_ports: Seq<u16>,
    https_ports: Seq<u16>,
)
    ensures
        link_outcome(
            candidate,
            draw,
            csv_tag,
            csv_addr,
            csv_port,
            uri_port,
            fingerprint,
            http_ports,
            https_ports,
        ) matches Some(link) ==> link.len() > 0,
{
    match node_decision(
        candidate.node_type,
        candidate.node,
        uri_port,
        csv_port,
        draw,
        http_ports,
        https_ports,
    ) {
        Some(decision) => {
            lemma_link_nonempty(
                candidate,
                remark_text(csv_tag, candidate.node.remarks_prefix, csv_addr, decision.port),
                csv_addr,
                decision.port,
                fingerprint,
            );
        },
        None => {},
    }
}

/// Builds the entry of one candidate address with a given fingerprint.
///
/// The entry is what an attempt gives with a candidate that may be tried.
/// There is none where the pool has no candidate for the request or the
/// target is not known, and there is one where an entry is owed.
pub fn entry_for(
    proxies: &Proxy,
    params: &Params,
    item: &MyData,
    fingerprint: &str,
    http_ports: &[u16],
    https_ports: &[u16],
) -> (entry: Option<(String, String)>)
    ensures
        ({
            let asked = asked_of(
                proxies@,
                params@,
                seq![fingerprint@],
                http_ports@,
                https_ports@,
            );
            &&& asked.candidates.len() == 0 ==> entry is None
            &&& asked.target != "v2ray"@ && target_named(asked.target) is None ==> entry is None
            &&& entry_owed(asked, item@) ==> entry is Some
            &&& entry matches Some(e) ==> exists|index: int, draw: nat|
                tried(asked, index) && #[trigger] attempt_of(asked, item@, index, draw, 0) == Some(
                    (e.0@, e.1@),
                )
        }),
{
    let tag = text_or_default(&item.alias);
    let addr = item.addr.clone();
    let port = match item.port {
        Some(port) => port,
        None => 0,
    };
    let ghost asked = asked_of(proxies@, params@, seq![fingerprint@], http_ports@, https_ports@);
    let ghost candidates = asked.candidates;
    let ghost in_range = position_in_range(params.userid, candidates.len());
    if text_eq(params.target.as_str(), "v2ray") {
        let link = build_v2ray_link(
            proxies,
            tag,
            addr,
            port,
            params.default_port,
            params.userid,
            params.proxy_type.clone(),
            String::from_str(fingerprint),
            http_ports,
            https_ports,
        );
        let entry = link_entry(link);
        proof {
            if link@.len() > 0 || entry_owed(asked, item@) {
                let (index, draw) = if in_range {
                    let draw = choose|draw: nat|
                        #[trigger] link_outcome(
                            candidates[params.userid - 1],
                            draw,
                            item_tag(item@),
                            item@.addr,
                            item_port(item@),
                            params.default_port,
                            fingerprint@,
                            http_ports@,
                            https_ports@,
                        ) == Some(link@);
                    ((params.userid - 1) as int, draw)
                } else {
                    choose|index: int, draw: nat|
                        0 <= index < candidates.len() && #[trigger] link_outcome(
                            candidates[index],
                            draw,
                            item_tag(item@),
                            item@.addr,
                            item_port(item@),
                            params.default_port,
                            fingerprint@,
                            http_ports@,
                            https_ports@,
                        ) == Some(link@)
                };
                lemma_link_outcome_nonempty(
                    candidates[index],
                    draw,
                    item_tag(item@),
                    item@.addr,
                    item_port(item@),
                    params.default_port,
                    fingerprint@,
                    http_ports@,
                    https_ports@,
                );
                assert(tried(asked, index));
                assert(attempt_of(asked, item@, index, draw, 0) == opt_pair(entry));
            }
        }
        entry
    } else {
        let structured = if text_eq(params.target.as_str(), "singbox") {
            Target::Singbox
        } else if text_eq(params.target.as_str(), "clash") {
            Target::Clash
        } else {
            return None;
        };
        let fragment = build_fragment(
            structured,
            proxies,
            tag,
            addr,
            port,
            params.default_port,
            params.userid,
            params.proxy_type.clone(),
            String::from_str(fingerprint),
            http_ports,
            https_ports,
        );
        let ghost built = fragment_view(fragment);
        let entry = fragment_entry(fragment);
        proof {
            if built != nothing() || entry_owed(asked, item@) {
                let (index, draw) = if in_range {
                    let draw = choose|draw: nat|
                        #[trigger] fragment_outcome(
                            structured,
                            candidates[params.userid - 1],
                            draw,
                            item_tag(item@),
                            item@.addr,
                            item_port(item@),
                            params.default_port,
                            fingerprint@,
                            http_ports@,
                            https_ports@,
                        ) == Some(built);
                    ((params.userid - 1) as int, draw)
                } else {
                    choose|index: int, draw: nat|
                        0 <= index < candidates.len() && #[trigger] fragment_outcome(
                            structured,
                            candidates[index],
                            draw,
                            item_tag(item@),
                            item@.addr,
                            item_port(item@),
                            params.default_port,
                            fingerprint@,
                            http_ports@,
                            https_ports@,
                        ) == Some(built)
                };
                lemma_candidates_are_of_known_kinds(proxies@, params.proxy_type@, index);
                lemma_outcome_has_a_label(
                    structured,
                    candidates[index],
                    draw,
                    item_tag(item@),
                    item@.addr,
                    item_port(item@),
                    params.default_port,
                    fingerprint@,
                    http_ports@,
                    https_ports@,
                );
                assert(tried(asked, index));
                assert(attempt_of(asked, item@, index, draw, 0) == opt_pair(entry));
            }
        }
        entry
    }
}

/// Builds the entries of a page of candidate addresses: for each address
/// a fingerprint is drawn and an entry is built, and the addresses that
/// give no entry are left out.
pub fn build_entries(
    proxies: &Proxy,
    params: &Params,
    page: &Vec<MyData>,
    settings: &Settings,
) -> (entries: Vec<(String, String)>)
    ensures
        ({
            let asked = asked_of(
                proxies@,
                params@,
                text_views(settings.fingerprints@),
                settings.http_ports@,
                settings.https_ports@,
            );
            &&& asked.candidates.len() == 0 ==> entries.len() == 0
            &&& asked.target != "v2ray"@ && target_named(asked.target) is None ==> entries.len()
                == 0
            &&& entries.len() <= page.len()
            &&& entries_owed(asked, data_views(page@), page.len() as int) ==> entries.len()
                == page.len()
            &&& exists|picks: Seq<int>| #[trigger]
                came_from(picks, pair_views(entries@), data_views(page@), asked)
        }),
{
    let ghost asked = asked_of(
        proxies@,
        params@,
        text_views(settings.fingerprints@),
        settings.http_ports@,
        settings.https_ports@,
    );
    let ghost items = data_views(page@);
    let ghost mut picks: Seq<int> = Seq::empty();
    let mut entries: Vec<(String, String)> = Vec::new();
    let mut i: usize = 0;
    while i < page.len()
        invariant
            i <= page.len(),
            asked == asked_of(
                proxies@,
                params@,
                text_views(settings.fingerprints@),
                settings.http_ports@,
                settings.https_ports@,
            ),
            items == data_views(page@),
            entries.len() <= i,
            entries_owed(asked, items, i as int) ==> entries.len() == i,
            asked.candidates.len() == 0 ==> entries.len() == 0,
            asked.target != "v2ray"@ && target_named(asked.target) is None ==> entries.len() == 0,
            forall|j: int| 0 <= j < picks.len() ==> 0 <= #[trigger] picks[j] < i,
            came_from(picks, pair_views(entries@), items, asked),
        decreases page.len() - i,
    {
        let ghost print: int;
        let entry = if settings.fingerprints.len() == 0 {
            proof {
                print = 0;
                reveal_strlit("");
                assert(""@ =~= fingerprint_choices(asked.fingerprints)[0]);
            }
            entry_for(
                proxies,
                params,
                &page[i],
                "",
                settings.http_ports.as_slice(),
                settings.https_ports.as_slice(),
            )
        } else {
            let f = random_below(settings.fingerprints.len());
            proof {
                print = f as int;
                assert(settings.fingerprints[f as int]@ == fingerprint_choices(
                    asked.fingerprints,
                )[f as int]);
            }
            entry_for(
                proxies,
                params,
                &page[i],
                settings.fingerprints[f].as_str(),
                settings.http_ports.as_slice(),
                settings.https_ports.as_slice(),
            )
        };
        let ghost single = asked_of(
            proxies@,
            params@,
            seq![fingerprint_choices(asked.fingerprints)[print]],
            settings.http_ports@,
            settings.https_ports@,
        );
        proof {
            assert(entry_owed(asked, items[i as int]) == entry_owed(single, items[i as int]));
        }
        match entry {
            Some(made) => {
                let ghost before = pair_views(entries@);
                let ghost old_picks = picks;
                proof {
                    let (index, draw) = choose|index: int, draw: nat|
                        tried(single, index) && #[trigger] attempt_of(
                            single,
                            items[i as int],
                            index,
                            draw,
                            0,
                        ) == Some((made.0@, made.1@));
                    assert(tried(asked, index));
                    assert(attempt_of(asked, items[i as int], index, draw, print) == Some(
                        (made.0@, made.1@),
                    ));
                    assert(may_come_from(asked, items[i as int], (made.0@, made.1@)));
                    picks = picks.push(i as int);
                }
                entries.push(made);
                proof {
                    assert(pair_views(entries@) =~= before.push((made.0@, made.1@)));
                    assert forall|j: int| 0 <= j < picks.len() implies may_come_from(
                        asked,
                        items[#[trigger] picks[j]],
                        pair_views(entries@)[j],
                    ) by {
                        if j < old_picks.len() {
                            assert(picks[j] == old_picks[j]);
                            assert(pair_views(entries@)[j] == before[j]);
                        }
                    }
                    assert forall|j: int, k: int| 0 <= j < k < picks.len() implies picks[j]
                        < picks[k] by {
                        if k < old_picks.len() {
                            assert(picks[j] == old_picks[j] && picks[k] == old_picks[k]);
                        } else {
                            assert(picks[j] == old_picks[j]);
                        }
                    }
                }
            },
            None => {},
        }
        i += 1;
    }
    entries
}

/// Answers a request.
///
/// The candidate addresses whose port the request leaves out are dropped,
/// the page asked for is taken, an entry is built for each address of the
/// page, and the entries are written for the target. The answer is empty
/// where there is no such page.
pub fn subscription(
    proxies: &Proxy,
    data: &Vec<MyData>,
    params: &Params,
    settings: &Settings,
    singbox_template: &Document,
    clash_template: &Document,
) -> (text: String)
    ensures
        match page_items(
            data_views(data@).filter(
                wanted(
                    unwanted_ports(params.tls_mode, settings.http_ports@, settings.https_ports@),
                ),
            ),
            page_size_of(params.target@, params.max_node_count) as int,
            params.page as int,
        ) {
            Some(page) => exists|entries: Seq<(Seq<char>, Seq<char>)>, picks: Seq<int>|
                #[trigger] answers_with(
                    text@,
                    picks,
                    entries,
                    page,
                    asked_of(
                        proxies@,
                        params@,
                        text_views(settings.fingerprints@),
                        settings.http_ports@,
                        settings.https_ports@,
                    ),
                    params.enable_template,
                    singbox_template@,
                    clash_template@,
                ),
            None => text@ == Seq::<char>::empty(),
        },
{
    let kept = filter_by_port_class(
        data,
        params.tls_mode,
        settings.http_ports.as_slice(),
        settings.https_ports.as_slice(),
    );
    let size = page_size(params.target.as_str(), params.max_node_count);
    let ghost asked = asked_of(
        proxies@,
        params@,
        text_views(settings.fingerprints@),
        settings.http_ports@,
        settings.https_ports@,
    );
    let ghost wanted_page = page_items(
        data_views(data@).filter(
            wanted(unwanted_ports(params.tls_mode, settings.http_ports@, settings.https_ports@)),
        ),
        page_size_of(params.target@, params.max_node_count) as int,
        params.page as int,
    );
    match page_of(&kept, size, params.page) {
        Some(page) => {
            let entries = build_entries(proxies, params, &page, settings);
            let text = render(
                params.target.as_str(),
                params.enable_template,
                &entries,
                singbox_template,
                clash_template,
            );
            proof {
                let picks = choose|picks: Seq<int>| #[trigger]
                    came_from(picks, pair_views(entries@), data_views(page@), asked);
                assert(answers_with(
                    text@,
                    picks,
                    pair_views(entries@),
                    wanted_page->0,
                    asked,
                    params.enable_template,
                    singbox_template@,
                    clash_template@,
                ));
            }
            text
        },
        None => String::new(),
    }
}

} // verus!
