//! The second structured target: entries with flat fields and a
//! `ws-opts` block, and the template they are merged into.

use crate::document::{
    mapping_views, no_fields, number_view, push_field, Document, DocumentView,
};
use crate::singbox::tls_enabled;
use crate::text::{ends_with, pair_views};
use crate::fragment::{
    build_fragment, found_or_nothing, fragment_outcome, fragment_view, nothing, Target,
};
use crate::pool::{position_in_range, Proxy};
use crate::ports::{always_fits, port_fits};
use crate::template::{
    collect_labels, collect_payloads, fill_groups, filled_groups, get_sequence,
    has_sequence, labels_of, parse_entries, parsed_entries, payloads_of, put_sequence,
    sequence_under, with_sequence,
};
use vstd::prelude::*;

verus! {

/// The fields of [`ws_opts`], in the order in which they are written.
pub open spec fn ws_opts_fields(path: Seq<char>, host: Seq<char>) -> Seq<
    (Seq<char>, DocumentView),
> {
    seq![
        ("path"@, DocumentView::Text(path)),
        ("headers"@, DocumentView::Mapping(seq![("Host"@, DocumentView::Text(host))])),
    ]
}

/// The `ws-opts` block of an entry: websocket on `path` with `host` as the
/// `Host` header.
pub open spec fn ws_opts(path: Seq<char>, host: Seq<char>) -> DocumentView {
    DocumentView::Mapping(ws_opts_fields(path, host))
}

/// The fields of [`plugin_opts`], in the order in which they are written.
pub open spec fn plugin_opts_fields(tls: bool, path: Seq<char>, host: Seq<char>) -> Seq<
    (Seq<char>, DocumentView),
> {
    seq![
        ("mode"@, DocumentView::Text("websocket"@)),
        ("path"@, DocumentView::Text(path)),
        ("host"@, DocumentView::Text(host)),
        ("tls"@, DocumentView::Bool(tls)),
        ("mux"@, DocumentView::Bool(false)),
    ]
}

/// The `plugin-opts` block of an `ss` entry.
pub open spec fn plugin_opts(tls: bool, path: Seq<char>, host: Seq<char>) -> DocumentView {
    DocumentView::Mapping(plugin_opts_fields(tls, path, host))
}

/// The fields of [`vless_clash`], in the order in which they are written.
pub open spec fn vless_clash_fields(
    remarks: Seq<char>,
    address: Seq<char>,
    port: u16,
    uuid: Seq<char>,
    host: Seq<char>,
    server_name: Seq<char>,
    path: Seq<char>,
    fingerprint: Seq<char>,
) -> Seq<(Seq<char>, DocumentView)> {
    seq![
        ("type"@, DocumentView::Text("vless"@)),
        ("name"@, DocumentView::Text(remarks)),
        ("server"@, DocumentView::Text(address)),
        ("port"@, number_view(port as nat)),
        ("uuid"@, DocumentView::Text(uuid)),
        ("network"@, DocumentView::Text("ws"@)),
        ("tls"@, DocumentView::Bool(tls_enabled(host))),
        ("udp"@, DocumentView::Bool(false)),
        ("servername"@, DocumentView::Text(server_name)),
        ("client-fingerprint"@, DocumentView::Text(fingerprint)),
        ("skip-cert-verify"@, DocumentView::Bool(true)),
        ("ws-opts"@, ws_opts(path, host)),
    ]
}

/// The entry of a `vless` node.
pub open spec fn vless_clash(
    remarks: Seq<char>,
    address: Seq<char>,
    port: u16,
    uuid: Seq<char>,
    host: Seq<char>,
    server_name: Seq<char>,
    path: Seq<char>,
    fingerprint: Seq<char>,
) -> DocumentView {
    DocumentView::Mapping(
        vless_clash_fields(remarks, address, port, uuid, host, server_name, path, fingerprint),
    )
}

/// The fields of [`trojan_clash`], in the order in which they are written.
pub open spec fn trojan_clash_fields(
    remarks: Seq<char>,
    address: Seq<char>,
    port: u16,
    password: Seq<char>,
    host: Seq<char>,
    server_name: Seq<char>,
    path: Seq<char>,
    fingerprint: Seq<char>,
) -> Seq<(Seq<char>, DocumentView)> {
    seq![
        ("type"@, DocumentView::Text("trojan"@)),
        ("name"@, DocumentView::Text(remarks)),
        ("server"@, DocumentView::Text(address)),
        ("port"@, number_view(port as nat)),
        ("password"@, DocumentView::Text(password)),
        ("network"@, DocumentView::Text("ws"@)),
        ("tls"@, DocumentView::Bool(tls_enabled(host))),
        ("udp"@, DocumentView::Bool(false)),
        ("sni"@, DocumentView::Text(server_name)),
        ("client-fingerprint"@, DocumentView::Text(fingerprint)),
        ("skip-cert-verify"@, DocumentView::Bool(true)),
        ("ws-opts"@, ws_opts(path, host)),
    ]
}

/// The entry of a `trojan` node.
pub open spec fn trojan_clash(
    remarks: Seq<char>,
    address: Seq<char>,
    port: u16,
    password: Seq<char>,
    host: Seq<char>,
    server_name: Seq<char>,
    path: Seq<char>,
    fingerprint: Seq<char>,
) -> DocumentView {
    DocumentView::Mapping(
        trojan_clash_fields(
            remarks,
            address,
            port,
            password,
            host,
            server_name,
            path,
            fingerprint,
        ),
    )
}

/// The fields of [`vmess_clash`], in the order in which they are written.
pub open spec fn vmess_clash_fields(
    remarks: Seq<char>,
    address: Seq<char>,
    port: u16,
    uuid: Seq<char>,
    host: Seq<char>,
    server_name: Seq<char>,
    path: Seq<char>,
    fingerprint: Seq<char>,
) -> Seq<(Seq<char>, DocumentView)> {
    seq![
        ("name"@, DocumentView::Text(remarks)),
        ("port"@, number_view(port as nat)),
        ("server"@, DocumentView::Text(address)),
        ("type"@, DocumentView::Text("vmess"@)),
        ("uuid"@, DocumentView::Text(uuid)),
        ("alterId"@, number_view(0)),
        ("cipher"@, DocumentView::Text("zero"@)),
        ("udp"@, DocumentView::Bool(false)),
        ("tls"@, DocumentView::Bool(tls_enabled(host))),
        ("skip-cert-verify"@, DocumentView::Bool(true)),
        ("servername"@, DocumentView::Text(server_name)),
        ("client-fingerprint"@, DocumentView::Text(fingerprint)),
        ("network"@, DocumentView::Text("ws"@)),
        ("ws-opts"@, ws_opts(path, host)),
    ]
}

/// The entry of a `vmess` node.
pub open spec fn vmess_clash(
    remarks: Seq<char>,
    address: Seq<char>,
    port: u16,
    uuid: Seq<char>,
    host: Seq<char>,
    server_name: Seq<char>,
    path: Seq<char>,
    fingerprint: Seq<char>,
) -> DocumentView {
    DocumentView::Mapping(
        vmess_clash_fields(remarks, address, port, uuid, host, server_name, path, fingerprint),
    )
}

/// The fields of [`ss_clash`], in the order in which they are written.
pub open spec fn ss_clash_fields(
    remarks: Seq<char>,
    address: Seq<char>,
    port: u16,
    password: Seq<char>,
    tls: bool,
    host: Seq<char>,
    path: Seq<char>,
) -> Seq<(Seq<char>, DocumentView)> {
    seq![
        ("name"@, DocumentView::Text(remarks)),
        ("type"@, DocumentView::Text("ss"@)),
        ("server"@, DocumentView::Text(address)),
        ("port"@, number_view(port as nat)),
        ("cipher"@, DocumentView::Text("none"@)),
        ("password"@, DocumentView::Text(password)),
        ("udp"@, DocumentView::Bool(false)),
        ("plugin"@, DocumentView::Text("v2ray-plugin"@)),
        ("plugin-opts"@, plugin_opts(tls, path, host)),
    ]
}

/// The entry of an `ss` node: the websocket plugin with its options as a
/// block, the node's own TLS switch among them.
pub open spec fn ss_clash(
    remarks: Seq<char>,
    address: Seq<char>,
    port: u16,
    password: Seq<char>,
    tls: bool,
    host: Seq<char>,
    path: Seq<char>,
) -> DocumentView {
    DocumentView::Mapping(ss_clash_fields(remarks, address, port, password, tls, host, path))
}

/// Builds the `ws-opts` block of an entry.
pub fn build_ws_opts(path: &str, host: &str) -> (block: Document)
    ensures
        block@ == ws_opts(path@, host@),
{
    let mut headers = no_fields();
    push_field(&mut headers, "Host", Document::text(host));
    assert(mapping_views(headers@) =~= seq![("Host"@, DocumentView::Text(host@))]);
    let mut fields = no_fields();
    push_field(&mut fields, "path", Document::text(path));
    push_field(&mut fields, "headers", Document::mapping(headers));
    assert(mapping_views(fields@) =~= ws_opts_fields(path@, host@));
    Document::mapping(fields)
}

/// Builds the `plugin-opts` block of an `ss` entry.
pub fn build_plugin_opts(tls: bool, path: &str, host: &str) -> (block: Document)
    ensures
        block@ == plugin_opts(tls, path@, host@),
{
    let mut fields = no_fields();
    push_field(&mut fields, "mode", Document::text("websocket"));
    push_field(&mut fields, "path", Document::text(path));
    push_field(&mut fields, "host", Document::text(host));
    push_field(&mut fields, "tls", Document::Bool(tls));
    push_field(&mut fields, "mux", Document::Bool(false));
    assert(mapping_views(fields@) =~= plugin_opts_fields(tls, path@, host@));
    Document::mapping(fields)
}

/// Builds the entry of a `vless` node.
pub fn build_vless_clash(
    remarks: String,
    csv_addr: String,
    port: u16,
    toml_uuid: String,
    toml_host: String,
    toml_server_name: String,
    toml_path: String,
    fingerprint: String,
) -> (entry: (String, Document))
    ensures
        entry.0@ == remarks@,
        entry.1@ == vless_clash(
            remarks@,
            csv_addr@,
            port,
            toml_uuid@,
            toml_host@,
            toml_server_name@,
            toml_path@,
            fingerprint@,
        ),
{
    let tls = !ends_with(toml_host.as_str(), "workers.dev");
    let mut fields = no_fields();
    push_field(&mut fields, "type", Document::text("vless"));
    push_field(&mut fields, "name", Document::text(remarks.as_str()));
    push_field(&mut fields, "server", Document::text(csv_addr.as_str()));
    push_field(&mut fields, "port", Document::number(port as u64));
    push_field(&mut fields, "uuid", Document::text(toml_uuid.as_str()));
    push_field(&mut fields, "network", Document::text("ws"));
    push_field(&mut fields, "tls", Document::Bool(tls));
    push_field(&mut fields, "udp", Document::Bool(false));
    push_field(&mut fields, "servername", Document::text(toml_server_name.as_str()));
    push_field(&mut fields, "client-fingerprint", Document::text(fingerprint.as_str()));
    push_field(&mut fields, "skip-cert-verify", Document::Bool(true));
    push_field(&mut fields, "ws-opts", build_ws_opts(toml_path.as_str(), toml_host.as_str()));
    assert(mapping_views(fields@) =~= vless_clash_fields(
        remarks@,
        csv_addr@,
        port,
        toml_uuid@,
        toml_host@,
        toml_server_name@,
        toml_path@,
        fingerprint@,
    ));
    (remarks, Document::mapping(fields))
}

/// Builds the entry of a `trojan` node.
pub fn build_trojan_clash(
    remarks: String,
    csv_addr: String,
    port: u16,
    toml_password: String,
    toml_host: String,
    toml_server_name: String,
    toml_path: String,
    fingerprint: String,
) -> (entry: (String, Document))
    ensures
        entry.0@ == remarks@,
        entry.1@ == trojan_clash(
            remarks@,
            csv_addr@,
            port,
            toml_password@,
            toml_host@,
            toml_server_name@,
            toml_path@,
            fingerprint@,
        ),
{
    let tls = !ends_with(toml_host.as_str(), "workers.dev");
    let mut fields = no_fields();
    push_field(&mut fields, "type", Document::text("trojan"));
    push_field(&mut fields, "name", Document::text(remarks.as_str()));
    push_field(&mut fields, "server", Document::text(csv_addr.as_str()));
    push_field(&mut fields, "port", Document::number(port as u64));
    push_field(&mut fields, "password", Document::text(toml_password.as_str()));
    push_field(&mut fields, "network", Document::text("ws"));
    push_field(&mut fields, "tls", Document::Bool(tls));
    push_field(&mut fields, "udp", Document::Bool(false));
    push_field(&mut fields, "sni", Document::text(toml_server_name.as_str()));
    push_field(&mut fields, "client-fingerprint", Document::text(fingerprint.as_str()));
    push_field(&mut fields, "skip-cert-verify", Document::Bool(true));
    push_field(&mut fields, "ws-opts", build_ws_opts(toml_path.as_str(), toml_host.as_str()));
    assert(mapping_views(fields@) =~= trojan_clash_fields(
        remarks@,
        csv_addr@,
        port,
        toml_password@,
        toml_host@,
        toml_server_name@,
        toml_path@,
        fingerprint@,
    ));
    (remarks, Document::mapping(fields))
}

/// Builds the entry of a `vmess` node.
pub fn build_vmess_clash(
    remarks: String,
    csv_addr: String,
    port: u16,
    toml_uuid: String,
    toml_host: String,
    toml_server_name: String,
    toml_path: String,
    fingerprint: String,
) -> (entry: (String, Document))
    ensures
        entry.0@ == remarks@,
        entry.1@ == vmess_clash(
            remarks@,
            csv_addr@,
            port,
            toml_uuid@,
            toml_host@,
            toml_server_name@,
            toml_path@,
            fingerprint@,
        ),
{
    let tls = !ends_with(toml_host.as_str(), "workers.dev");
    let mut fields = no_fields();
    push_field(&mut fields, "name", Document::text(remarks.as_str()));
    push_field(&mut fields, "port", Document::number(port as u64));
    push_field(&mut fields, "server", Document::text(csv_addr.as_str()));
    push_field(&mut fields, "type", Document::text("vmess"));
    push_field(&mut fields, "uuid", Document::text(toml_uuid.as_str()));
    push_field(&mut fields, "alterId", Document::number(0));
    push_field(&mut fields, "cipher", Document::text("zero"));
    push_field(&mut fields, "udp", Document::Bool(false));
    push_field(&mut fields, "tls", Document::Bool(tls));
    push_field(&mut fields, "skip-cert-verify", Document::Bool(true));
    push_field(&mut fields, "servername", Document::text(toml_server_name.as_str()));
    push_field(&mut fields, "client-fingerprint", Document::text(fingerprint.as_str()));
    push_field(&mut fields, "network", Document::text("ws"));
    push_field(&mut fields, "ws-opts", build_ws_opts(toml_path.as_str(), toml_host.as_str()));
    assert(mapping_views(fields@) =~= vmess_clash_fields(
        remarks@,
        csv_addr@,
        port,
        toml_uuid@,
        toml_host@,
        toml_server_name@,
        toml_path@,
        fingerprint@,
    ));
    (remarks, Document::mapping(fields))
}

/// Builds the entry of an `ss` node.
pub fn build_ss_clash(
    remarks: String,
    csv_addr: String,
    port: u16,
    toml_password: String,
    toml_tls: bool,
    toml_host: String,
    toml_path: String,
) -> (entry: (String, Document))
    ensures
        entry.0@ == remarks@,
        entry.1@ == ss_clash(
            remarks@,
            csv_addr@,
            port,
            toml_password@,
            toml_tls,
            toml_host@,
            toml_path@,
        ),
{
    let mut fields = no_fields();
    push_field(&mut fields, "name", Document::text(remarks.as_str()));
    push_field(&mut fields, "type", Document::text("ss"));
    push_field(&mut fields, "server", Document::text(csv_addr.as_str()));
    push_field(&mut fields, "port", Document::number(port as u64));
    push_field(&mut fields, "cipher", Document::text("none"));
    push_field(&mut fields, "password", Document::text(toml_password.as_str()));
    push_field(&mut fields, "udp", Document::Bool(false));
    push_field(&mut fields, "plugin", Document::text("v2ray-plugin"));
    push_field(
        &mut fields,
        "plugin-opts",
        build_plugin_opts(toml_tls, toml_path.as_str(), toml_host.as_str()),
    );
    assert(mapping_views(fields@) =~= ss_clash_fields(
        remarks@,
        csv_addr@,
        port,
        toml_password@,
        toml_tls,
        toml_host@,
        toml_path@,
    ));
    (remarks, Document::mapping(fields))
}

/// Builds the entry of one address for the second structured target: a node is selected, its
/// port settled and its entry encoded, with up to a hundred nodes drawn
/// where the port calls for another one. An empty label with the null
/// document is returned where no attempt gives an entry.
pub fn build_clash_json(
    toml_proxies: &Proxy,
    csv_tag: String,
    csv_addr: String,
    csv_port: u16,
    uri_port: u16,
    uri_userid: u8,
    uri_proxy_type: String,
    fingerprint: String,
    http_ports: &[u16],
    https_ports: &[u16],
) -> (fragment: (String, Document))
    ensures
        ({
            let candidates = toml_proxies@.candidates(uri_proxy_type@);
            &&& candidates.len() == 0 ==> fragment_view(fragment) == nothing()
            &&& fragment_view(fragment) == nothing() || exists|i: int, draw: nat|
                0 <= i < candidates.len() && #[trigger] fragment_outcome(
                    Target::Clash,
                    candidates[i],
                    draw,
                    csv_tag@,
                    csv_addr@,
                    csv_port,
                    uri_port,
                    fingerprint@,
                    http_ports@,
                    https_ports@,
                ) == Some(fragment_view(fragment))
            &&& candidates.len() > 0 && always_fits(
                candidates,
                csv_port,
                uri_port,
                http_ports@,
                https_ports@,
            ) ==> exists|i: int, draw: nat|
                0 <= i < candidates.len() && #[trigger] fragment_outcome(
                    Target::Clash,
                    candidates[i],
                    draw,
                    csv_tag@,
                    csv_addr@,
                    csv_port,
                    uri_port,
                    fingerprint@,
                    http_ports@,
                    https_ports@,
                ) == Some(fragment_view(fragment))
            &&& position_in_range(uri_userid, candidates.len()) ==> fragment_view(fragment)
                == nothing() || exists|draw: nat|
                #[trigger] fragment_outcome(
                    Target::Clash,
                    candidates[uri_userid - 1],
                    draw,
                    csv_tag@,
                    csv_addr@,
                    csv_port,
                    uri_port,
                    fingerprint@,
                    http_ports@,
                    https_ports@,
                ) == Some(fragment_view(fragment))
            &&& position_in_range(uri_userid, candidates.len()) && port_fits(
                candidates[uri_userid - 1].node_type,
                candidates[uri_userid - 1].node,
                uri_port,
                csv_port,
                http_ports@,
                https_ports@,
            ) ==> exists|draw: nat|
                #[trigger] fragment_outcome(
                    Target::Clash,
                    candidates[uri_userid - 1],
                    draw,
                    csv_tag@,
                    csv_addr@,
                    csv_port,
                    uri_port,
                    fingerprint@,
                    http_ports@,
                    https_ports@,
                ) == Some(fragment_view(fragment))
            &&& position_in_range(uri_userid, candidates.len()) && (uri_port != 0 || csv_port != 0)
                ==> fragment_view(fragment) == found_or_nothing(
                fragment_outcome(
                    Target::Clash,
                    candidates[uri_userid - 1],
                    0,
                    csv_tag@,
                    csv_addr@,
                    csv_port,
                    uri_port,
                    fingerprint@,
                    http_ports@,
                    https_ports@,
                ),
            )
        }),
{
    build_fragment(
        Target::Clash,
        toml_proxies,
        csv_tag,
        csv_addr,
        csv_port,
        uri_port,
        uri_userid,
        uri_proxy_type,
        fingerprint,
        http_ports,
        https_ports,
    )
}

/// The template with the payloads of all entries as its list under
/// `proxies`; a template without such a list is left as it is.
pub open spec fn with_proxies(
    template: DocumentView,
    entries: Seq<(Seq<char>, DocumentView)>,
) -> DocumentView {
    if has_sequence(template, "proxies"@) {
        with_sequence(template, "proxies"@, payloads_of(entries))
    } else {
        template
    }
}

/// The template with every group of its list under `proxy-groups` filled:
/// among the members under `proxies` of a group the labels of all entries
/// stand in place of the first marker `s01`, every later marker is taken
/// out, and a group without the marker is left as it is. A template
/// without such a list is left as it is.
pub open spec fn with_group_members(
    template: DocumentView,
    entries: Seq<(Seq<char>, DocumentView)>,
) -> DocumentView {
    if has_sequence(template, "proxy-groups"@) {
        with_sequence(
            template,
            "proxy-groups"@,
            filled_groups(
                sequence_under(template, "proxy-groups"@),
                "proxies"@,
                "s01"@,
                labels_of(entries),
                true,
            ),
        )
    } else {
        template
    }
}

/// The template with the entries merged in: first its proxies, then the
/// members of its groups.
pub open spec fn merged_clash(
    template: DocumentView,
    entries: Seq<(Seq<char>, DocumentView)>,
) -> DocumentView {
    with_group_members(with_proxies(template, entries), entries)
}

/// Merges entries into a template.
pub fn merge_proxies(template: &Document, entries: &Vec<(String, Document)>) -> (merged: Document)
    ensures
        merged@ == merged_clash(template@, mapping_views(entries@)),
{
    let listed = put_sequence(template, "proxies", collect_payloads(entries));
    match get_sequence(&listed, "proxy-groups") {
        Some(groups) => {
            let labels = collect_labels(entries, false);
            let filled = fill_groups(&groups, "proxies", "s01", &labels, true);
            put_sequence(&listed, "proxy-groups", filled)
        },
        None => listed,
    }
}

/// Merges entries, each a label and its payload as JSON text, into a
/// template in place. A payload that is not read as JSON stands as the
/// null document.
pub fn add_clash_template(clash_template: &mut Document, clash_data: Vec<(String, String)>)
    ensures
        final(clash_template)@ == merged_clash(
            old(clash_template)@,
            parsed_entries(pair_views(clash_data@)),
        ),
{
    let entries = parse_entries(&clash_data);
    let merged = merge_proxies(clash_template, &entries);
    *clash_template = merged;
}

} // verus!
