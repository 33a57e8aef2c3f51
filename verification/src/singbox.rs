//! The first structured target: entries with nested `tls` and `transport`
//! blocks, and the template they are merged into.

use crate::clash::{build_plugin_opts, plugin_opts};
use crate::document::{
    mapping_views, no_fields, number_view, push_field, Document, DocumentView,
};
use crate::ports::plaintext_suffix;
use crate::text::{ends_with, has_suffix, pair_views};
use crate::fragment::{
    build_fragment, found_or_nothing, fragment_outcome, fragment_view, nothing, Target,
};
use crate::json::{pretty_or_empty, to_json_pretty_or_empty};
use crate::pool::{position_in_range, Proxy};
use crate::ports::{always_fits, port_fits};
use crate::template::{
    collect_labels, fill_groups, filled_groups, get_sequence, has_sequence,
    insert_entries, inserted, labels_of, named, parse_entries, parsed_entries, put_sequence,
    sequence_under, with_sequence,
};
use vstd::prelude::*;

verus! {

/// Whether a node whose TLS class follows from its host runs with TLS.
pub open spec fn tls_enabled(host: Seq<char>) -> bool {
    !has_suffix(host, plaintext_suffix())
}

/// The fields of [`tls_block`], in the order in which they are written.
pub open spec fn tls_block_fields(
    enabled: bool,
    server_name: Seq<char>,
    fingerprint: Seq<char>,
) -> Seq<(Seq<char>, DocumentView)> {
    seq![
        ("enabled"@, DocumentView::Bool(enabled)),
        ("server_name"@, DocumentView::Text(server_name)),
        ("insecure"@, DocumentView::Bool(true)),
        (
            "utls"@,
            DocumentView::Mapping(
                seq![
                    ("enabled"@, DocumentView::Bool(true)),
                    ("fingerprint"@, DocumentView::Text(fingerprint)),
                ],
            ),
        ),
    ]
}

/// The `tls` block of an entry.
pub open spec fn tls_block(
    enabled: bool,
    server_name: Seq<char>,
    fingerprint: Seq<char>,
) -> DocumentView {
    DocumentView::Mapping(tls_block_fields(enabled, server_name, fingerprint))
}

/// The fields of [`transport_block`], in the order in which they are written.
pub open spec fn transport_block_fields(path: Seq<char>, host: Seq<char>) -> Seq<
    (Seq<char>, DocumentView),
> {
    seq![
        ("type"@, DocumentView::Text("ws"@)),
        ("path"@, DocumentView::Text(path)),
        ("headers"@, DocumentView::Mapping(seq![("Host"@, DocumentView::Text(host))])),
    ]
}

/// The `transport` block of an entry: websocket on `path` with `host` as
/// the `Host` header.
pub open spec fn transport_block(path: Seq<char>, host: Seq<char>) -> DocumentView {
    DocumentView::Mapping(transport_block_fields(path, host))
}

/// The fields of [`vless_singbox`], in the order in which they are written.
pub open spec fn vless_singbox_fields(
    remarks: Seq<char>,
    address: Seq<char>,
    port: u16,
    uuid: Seq<char>,
    host: Seq<char>,
    server_name: Seq<char>,
    path: Seq<char>,
    fingerprint: Seq<char>,
) -> Seq<(Seq<char>, DocumentView)> {
    seq![
        ("type"@, DocumentView::Text("vless"@)),
        ("tag"@, DocumentView::Text(remarks)),
        ("server"@, DocumentView::Text(address)),
        ("server_port"@, number_view(port as nat)),
        ("uuid"@, DocumentView::Text(uuid)),
        ("network"@, DocumentView::Text("tcp"@)),
        ("tls"@, tls_block(tls_enabled(host), server_name, fingerprint)),
        ("transport"@, transport_block(path, host)),
    ]
}

/// The entry of a `vless` node.
pub open spec fn vless_singbox(
    remarks: Seq<char>,
    address: Seq<char>,
    port: u16,
    uuid: Seq<char>,
    host: Seq<char>,
    server_name: Seq<char>,
    path: Seq<char>,
    fingerprint: Seq<char>,
) -> DocumentView {
    DocumentView::Mapping(
        vless_singbox_fields(remarks, address, port, uuid, host, server_name, path, fingerprint),
    )
}

/// The fields of [`trojan_singbox`], in the order in which they are written.
pub open spec fn trojan_singbox_fields(
    remarks: Seq<char>,
    address: Seq<char>,
    port: u16,
    password: Seq<char>,
    host: Seq<char>,
    server_name: Seq<char>,
    path: Seq<char>,
    fingerprint: Seq<char>,
) -> Seq<(Seq<char>, DocumentView)> {
    seq![
        ("type"@, DocumentView::Text("trojan"@)),
        ("tag"@, DocumentView::Text(remarks)),
        ("server"@, DocumentView::Text(address)),
        ("server_port"@, number_view(port as nat)),
        ("password"@, DocumentView::Text(password)),
        ("network"@, DocumentView::Text("tcp"@)),
        ("tls"@, tls_block(tls_enabled(host), server_name, fingerprint)),
        ("transport"@, transport_block(path, host)),
    ]
}

/// The entry of a `trojan` node.
pub open spec fn trojan_singbox(
    remarks: Seq<char>,
    address: Seq<char>,
    port: u16,
    password: Seq<char>,
    host: Seq<char>,
    server_name: Seq<char>,
    path: Seq<char>,
    fingerprint: Seq<char>,
) -> DocumentView {
    DocumentView::Mapping(
        trojan_singbox_fields(
            remarks,
            address,
            port,
            password,
            host,
            server_name,
            path,
            fingerprint,
        ),
    )
}

/// The fields of [`vmess_singbox`], in the order in which they are written.
pub open spec fn vmess_singbox_fields(
    remarks: Seq<char>,
    address: Seq<char>,
    port: u16,
    uuid: Seq<char>,
    host: Seq<char>,
    server_name: Seq<char>,
    path: Seq<char>,
    fingerprint: Seq<char>,
) -> Seq<(Seq<char>, DocumentView)> {
    seq![
        ("type"@, DocumentView::Text("vmess"@)),
        ("tag"@, DocumentView::Text(remarks)),
        ("server"@, DocumentView::Text(address)),
        ("server_port"@, number_view(port as nat)),
        ("uuid"@, DocumentView::Text(uuid)),
        ("security"@, DocumentView::Text("zero"@)),
        ("alter_id"@, number_view(0)),
        ("tls"@, tls_block(tls_enabled(host), server_name, fingerprint)),
        ("transport"@, transport_block(path, host)),
    ]
}

/// The entry of a `vmess` node.
pub open spec fn vmess_singbox(
    remarks: Seq<char>,
    address: Seq<char>,
    port: u16,
    uuid: Seq<char>,
    host: Seq<char>,
    server_name: Seq<char>,
    path: Seq<char>,
    fingerprint: Seq<char>,
) -> DocumentView {
    DocumentView::Mapping(
        vmess_singbox_fields(remarks, address, port, uuid, host, server_name, path, fingerprint),
    )
}

/// The fields of [`ss_singbox`], in the order in which they are written.
pub open spec fn ss_singbox_fields(
    remarks: Seq<char>,
    address: Seq<char>,
    port: u16,
    password: Seq<char>,
    tls: bool,
    host: Seq<char>,
    path: Seq<char>,
) -> Seq<(Seq<char>, DocumentView)> {
    seq![
        ("type"@, DocumentView::Text("shadowsocks"@)),
        ("tag"@, DocumentView::Text(remarks)),
        ("server"@, DocumentView::Text(address)),
        ("server_port"@, number_view(port as nat)),
        ("method"@, DocumentView::Text("none"@)),
        ("password"@, DocumentView::Text(password)),
        ("plugin"@, DocumentView::Text("v2ray-plugin"@)),
        ("plugin_opts"@, plugin_opts(tls, path, host)),
    ]
}

/// The entry of an `ss` node: the websocket plugin with its options as a
/// block, the node's own TLS switch among them.
pub open spec fn ss_singbox(
    remarks: Seq<char>,
    address: Seq<char>,
    port: u16,
    password: Seq<char>,
    tls: bool,
    host: Seq<char>,
    path: Seq<char>,
) -> DocumentView {
    DocumentView::Mapping(ss_singbox_fields(remarks, address, port, password, tls, host, path))
}

/// Builds the `tls` block of an entry.
pub fn build_tls_block(enabled: bool, server_name: &str, fingerprint: &str) -> (block: Document)
    ensures
        block@ == tls_block(enabled, server_name@, fingerprint@),
{
    let mut utls = no_fields();
    push_field(&mut utls, "enabled", Document::Bool(true));
    push_field(&mut utls, "fingerprint", Document::text(fingerprint));
    assert(mapping_views(utls@) =~= seq![
        ("enabled"@, DocumentView::Bool(true)),
        ("fingerprint"@, DocumentView::Text(fingerprint@)),
    ]);
    let mut fields = no_fields();
    push_field(&mut fields, "enabled", Document::Bool(enabled));
    push_field(&mut fields, "server_name", Document::text(server_name));
    push_field(&mut fields, "insecure", Document::Bool(true));
    push_field(&mut fields, "utls", Document::mapping(utls));
    assert(mapping_views(fields@) =~= tls_block_fields(
        enabled,
        server_name@,
        fingerprint@,
    ));
    Document::mapping(fields)
}

/// Builds the `transport` block of an entry.
pub fn build_transport_block(path: &str, host: &str) -> (block: Document)
    ensures
        block@ == transport_block(path@, host@),
{
    let mut headers = no_fields();
    push_field(&mut headers, "Host", Document::text(host));
    assert(mapping_views(headers@) =~= seq![("Host"@, DocumentView::Text(host@))]);
    let mut fields = no_fields();
    push_field(&mut fields, "type", Document::text("ws"));
    push_field(&mut fields, "path", Document::text(path));
    push_field(&mut fields, "headers", Document::mapping(headers));
    assert(mapping_views(fields@) =~= transport_block_fields(path@, host@));
    Document::mapping(fields)
}

/// Builds the entry of a `vless` node.
pub fn build_vless_singbox(
    remarks: String,
    csv_addr: String,
    port: u16,
    toml_uuid: String,
    toml_host: String,
    toml_server_name: String,
    toml_path: String,
    fingerprint: String,
) -> (entry: (String, Document))
    ensures
        entry.0@ == remarks@,
        entry.1@ == vless_singbox(
            remarks@,
            csv_addr@,
            port,
            toml_uuid@,
            toml_host@,
            toml_server_name@,
            toml_path@,
            fingerprint@,
        ),
{
    let tls = !ends_with(toml_host.as_str(), "workers.dev");
    let mut fields = no_fields();
    push_field(&mut fields, "type", Document::text("vless"));
    push_field(&mut fields, "tag", Document::text(remarks.as_str()));
    push_field(&mut fields, "server", Document::text(csv_addr.as_str()));
    push_field(&mut fields, "server_port", Document::number(port as u64));
    push_field(&mut fields, "uuid", Document::text(toml_uuid.as_str()));
    push_field(&mut fields, "network", Document::text("tcp"));
    push_field(
        &mut fields,
        "tls",
        build_tls_block(tls, toml_server_name.as_str(), fingerprint.as_str()),
    );
    push_field(
        &mut fields,
        "transport",
        build_transport_block(toml_path.as_str(), toml_host.as_str()),
    );
    assert(mapping_views(fields@) =~= vless_singbox_fields(
        remarks@,
        csv_addr@,
        port,
        toml_uuid@,
        toml_host@,
        toml_server_name@,
        toml_path@,
        fingerprint@,
    ));
    (remarks, Document::mapping(fields))
}

/// Builds the entry of a `trojan` node.
pub fn build_trojan_singbox(
    remarks: String,
    csv_addr: String,
    port: u16,
    toml_password: String,
    toml_host: String,
    toml_server_name: String,
    toml_path: String,
    fingerprint: String,
) -> (entry: (String, Document))
    ensures
        entry.0@ == remarks@,
        entry.1@ == trojan_singbox(
            remarks@,
            csv_addr@,
            port,
            toml_password@,
            toml_host@,
            toml_server_name@,
            toml_path@,
            fingerprint@,
        ),
{
    let tls = !ends_with(toml_host.as_str(), "workers.dev");
    let mut fields = no_fields();
    push_field(&mut fields, "type", Document::text("trojan"));
    push_field(&mut fields, "tag", Document::text(remarks.as_str()));
    push_field(&mut fields, "server", Document::text(csv_addr.as_str()));
    push_field(&mut fields, "server_port", Document::number(port as u64));
    push_field(&mut fields, "password", Document::text(toml_password.as_str()));
    push_field(&mut fields, "network", Document::text("tcp"));
    push_field(
        &mut fields,
        "tls",
        build_tls_block(tls, toml_server_name.as_str(), fingerprint.as_str()),
    );
    push_field(
        &mut fields,
        "transport",
        build_transport_block(toml_path.as_str(), toml_host.as_str()),
    );
    assert(mapping_views(fields@) =~= trojan_singbox_fields(
        remarks@,
        csv_addr@,
        port,
        toml_password@,
        toml_host@,
        toml_server_name@,
        toml_path@,
        fingerprint@,
    ));
    (remarks, Document::mapping(fields))
}

/// Builds the entry of a `vmess` node.
pub fn build_vmess_singbox(
    remarks: String,
    csv_addr: String,
    port: u16,
    toml_uuid: String,
    toml_host: String,
    toml_server_name: String,
    toml_path: String,
    fingerprint: String,
) -> (entry: (String, Document))
    ensures
        entry.0@ == remarks@,
        entry.1@ == vmess_singbox(
            remarks@,
            csv_addr@,
            port,
            toml_uuid@,
            toml_host@,
            toml_server_name@,
            toml_path@,
            fingerprint@,
        ),
{
    let tls = !ends_with(toml_host.as_str(), "workers.dev");
    let mut fields = no_fields();
    push_field(&mut fields, "type", Document::text("vmess"));
    push_field(&mut fields, "tag", Document::text(remarks.as_str()));
    push_field(&mut fields, "server", Document::text(csv_addr.as_str()));
    push_field(&mut fields, "server_port", Document::number(port as u64));
    push_field(&mut fields, "uuid", Document::text(toml_uuid.as_str()));
    push_field(&mut fields, "security", Document::text("zero"));
    push_field(&mut fields, "alter_id", Document::number(0));
    push_field(
        &mut fields,
        "tls",
        build_tls_block(tls, toml_server_name.as_str(), fingerprint.as_str()),
    );
    push_field(
        &mut fields,
        "transport",
        build_transport_block(toml_path.as_str(), toml_host.as_str()),
    );
    assert(mapping_views(fields@) =~= vmess_singbox_fields(
        remarks@,
        csv_addr@,
        port,
        toml_uuid@,
        toml_host@,
        toml_server_name@,
        toml_path@,
        fingerprint@,
    ));
    (remarks, Document::mapping(fields))
}

/// Builds the entry of an `ss` node.
pub fn build_ss_singbox(
    remarks: String,
    csv_addr: String,
    port: u16,
    toml_password: String,
    toml_tls: bool,
    toml_host: String,
    toml_path: String,
) -> (entry: (String, Document))
    ensures
        entry.0@ == remarks@,
        entry.1@ == ss_singbox(
            remarks@,
            csv_addr@,
            port,
            toml_password@,
            toml_tls,
            toml_host@,
            toml_path@,
        ),
{
    let mut fields = no_fields();
    push_field(&mut fields, "type", Document::text("shadowsocks"));
    push_field(&mut fields, "tag", Document::text(remarks.as_str()));
    push_field(&mut fields, "server", Document::text(csv_addr.as_str()));
    push_field(&mut fields, "server_port", Document::number(port as u64));
    push_field(&mut fields, "method", Document::text("none"));
    push_field(&mut fields, "password", Document::text(toml_password.as_str()));
    push_field(&mut fields, "plugin", Document::text("v2ray-plugin"));
    push_field(
        &mut fields,
        "plugin_opts",
        build_plugin_opts(toml_tls, toml_path.as_str(), toml_host.as_str()),
    );
    assert(mapping_views(fields@) =~= ss_singbox_fields(
        remarks@,
        csv_addr@,
        port,
        toml_password@,
        toml_tls,
        toml_host@,
        toml_path@,
    ));
    (remarks, Document::mapping(fields))
}

/// Builds the entry of one address for the first structured target: a node is selected, its
/// port settled and its entry encoded, with up to a hundred nodes drawn
/// where the port calls for another one. An empty label with the null
/// document is returned where no attempt gives an entry.
pub fn build_singbox_json(
    toml_proxies: &Proxy,
    csv_tag: String,
    csv_addr: String,
    csv_port: u16,
    uri_port: u16,
    uri_userid: u8,
    uri_proxy_type: String,
    fingerprint: String,
    http_ports: &[u16],
    https_ports: &[u16],
) -> (fragment: (String, Document))
    ensures
        ({
            let candidates = toml_proxies@.candidates(uri_proxy_type@);
            &&& candidates.len() == 0 ==> fragment_view(fragment) == nothing()
            &&& fragment_view(fragment) == nothing() || exists|i: int, draw: nat|
                0 <= i < candidates.len() && #[trigger] fragment_outcome(
                    Target::Singbox,
                    candidates[i],
                    draw,
                    csv_tag@,
                    csv_addr@,
                    csv_port,
                    uri_port,
                    fingerprint@,
                    http_ports@,
                    https_ports@,
                ) == Some(fragment_view(fragment))
            &&& candidates.len() > 0 && always_fits(
                candidates,
                csv_port,
                uri_port,
                http_ports@,
                https_ports@,
            ) ==> exists|i: int, draw: nat|
                0 <= i < candidates.len() && #[trigger] fragment_outcome(
                    Target::Singbox,
                    candidates[i],
                    draw,
                    csv_tag@,
                    csv_addr@,
                    csv_port,
                    uri_port,
                    fingerprint@,
                    http_ports@,
                    https_ports@,
                ) == Some(fragment_view(fragment))
            &&& position_in_range(uri_userid, candidates.len()) ==> fragment_view(fragment)
                == nothing() || exists|draw: nat|
                #[trigger] fragment_outcome(
                    Target::Singbox,
                    candidates[uri_userid - 1],
                    draw,
                    csv_tag@,
                    csv_addr@,
                    csv_port,
                    uri_port,
                    fingerprint@,
                    http_ports@,
                    https_ports@,
                ) == Some(fragment_view(fragment))
            &&& position_in_range(uri_userid, candidates.len()) && port_fits(
                candidates[uri_userid - 1].node_type,
                candidates[uri_userid - 1].node,
                uri_port,
                csv_port,
                http_ports@,
                https_ports@,
            ) ==> exists|draw: nat|
                #[trigger] fragment_outcome(
                    Target::Singbox,
                    candidates[uri_userid - 1],
                    draw,
                    csv_tag@,
                    csv_addr@,
                    csv_port,
                    uri_port,
                    fingerprint@,
                    http_ports@,
                    https_ports@,
                ) == Some(fragment_view(fragment))
            &&& position_in_range(uri_userid, candidates.len()) && (uri_port != 0 || csv_port != 0)
                ==> fragment_view(fragment) == found_or_nothing(
                fragment_outcome(
                    Target::Singbox,
                    candidates[uri_userid - 1],
                    0,
                    csv_tag@,
                    csv_addr@,
                    csv_port,
                    uri_port,
                    fingerprint@,
                    http_ports@,
                    https_ports@,
                ),
            )
        }),
{
    build_fragment(
        Target::Singbox,
        toml_proxies,
        csv_tag,
        csv_addr,
        csv_port,
        uri_port,
        uri_userid,
        uri_proxy_type,
        fingerprint,
        http_ports,
        https_ports,
    )
}

/// The template with the entries merged in. The payload of every entry
/// with a label goes into the list under `outbounds`, at offset two plus
/// its position among the entries; then, in every group of that list, the
/// marker `{all}` among the members under `outbounds` is replaced by
/// the labels of those entries. A template without such a list is left as
/// it is.
pub open spec fn merged_singbox(
    template: DocumentView,
    entries: Seq<(Seq<char>, DocumentView)>,
) -> DocumentView {
    if has_sequence(template, "outbounds"@) {
        with_sequence(
            template,
            "outbounds"@,
            filled_groups(
                inserted(sequence_under(template, "outbounds"@), entries, entries.len()),
                "outbounds"@,
                "{all}"@,
                named(labels_of(entries)),
                false,
            ),
        )
    } else {
        template
    }
}

/// Merges entries into a template.
pub fn merge_outbounds(template: &Document, entries: &Vec<(String, Document)>) -> (merged:
    Document)
    ensures
        merged@ == merged_singbox(template@, mapping_views(entries@)),
{
    match get_sequence(template, "outbounds") {
        Some(list) => {
            let extended = insert_entries(list, entries);
            let labels = collect_labels(entries, true);
            let filled = fill_groups(&extended, "outbounds", "{all}", &labels, false);
            put_sequence(template, "outbounds", filled)
        },
        None => template.clone(),
    }
}

/// Merges entries, each a label and its payload as JSON text, into a
/// template, and prints the result as indented JSON text. A payload that
/// is not read as JSON stands as the null document; a result that cannot
/// be printed gives the empty text.
pub fn add_singbox_template(template: Document, outbounds_vec: Vec<(String, String)>) -> (text:
    String)
    ensures
        text@ == pretty_or_empty(
            merged_singbox(template@, parsed_entries(pair_views(outbounds_vec@))),
        ),
{
    let entries = parse_entries(&outbounds_vec);
    let merged = merge_outbounds(&template, &entries);
    to_json_pretty_or_empty(&merged)
}

} // verus!
