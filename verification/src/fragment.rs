//! Entries for the structured targets: one selected node encoded under its
//! label, and the bounded search for a node whose port fits.

use crate::clash::{
    build_ss_clash, build_trojan_clash, build_vless_clash, build_vmess_clash, ss_clash,
    trojan_clash, vless_clash, vmess_clash,
};
use crate::document::{lemma_lookup_at, member, number_view, Document, DocumentView};
use crate::pool::{
    candidates_of, known_kind, position_in_range, select_from, selected_views, Proxy,
    SelectedNode, SelectedNodeView,
};
use crate::ports::{
    always_fits, lemma_port_fits, node_decision, port_fits, primary_count, resolve_with_draw,
    tls_flag_of,
};
use crate::random::random_below;
use crate::remark::{compose, lemma_remark_nonempty, remark_text};
use crate::singbox::{
    build_ss_singbox, build_trojan_singbox, build_vless_singbox, build_vmess_singbox, ss_singbox,
    tls_enabled, trojan_singbox, vless_singbox, vmess_singbox,
};
use crate::text::text_eq;
use crate::v2ray::{
    password_or_none, ss_password, text_or_default, text_or_empty, tls_or_default, MAX_ATTEMPTS,
};
use vstd::prelude::*;

verus! {

/// The structured targets.
#[derive(Debug, Clone, Copy, PartialEq, Eq, Structural)]
pub enum Target {
    /// Entries with nested `tls` and `transport` blocks, under `tag`.
    Singbox,
    /// Entries with flat fields and a `ws-opts` block, under `name`.
    Clash,
}

/// The view of a labelled entry.
pub open spec fn fragment_view(fragment: (String, Document)) -> (Seq<char>, DocumentView) {
    (fragment.0@, fragment.1@)
}

/// The view of a labelled entry that may be absent.
pub open spec fn opt_fragment(fragment: Option<(String, Document)>) -> Option<
    (Seq<char>, DocumentView),
> {
    match fragment {
        Some(f) => Some(fragment_view(f)),
        None => None,
    }
}

/// The entry that stands for nothing to emit: an empty label and the null
/// document.
pub open spec fn nothing() -> (Seq<char>, DocumentView) {
    (Seq::empty(), DocumentView::Null)
}

/// The entry of a selected node under a label, on a port already settled.
/// A node of a kind other than the four known ones has nothing to emit.
pub open spec fn fragment_for(
    target: Target,
    selected: SelectedNodeView,
    label: Seq<char>,
    server: Seq<char>,
    port: u16,
    fingerprint: Seq<char>,
) -> (Seq<char>, DocumentView) {
    let node = selected.node;
    let uuid = text_or_empty(node.uuid);
    let sni = text_or_empty(node.server_name);
    if selected.node_type == "vless"@ {
        (
            label,
            match target {
                Target::Singbox => vless_singbox(
                    label,
                    server,
                    port,
                    uuid,
                    node.host,
                    sni,
                    node.path,
                    fingerprint,
                ),
                Target::Clash => vless_clash(
                    label,
                    server,
                    port,
                    uuid,
                    node.host,
                    sni,
                    node.path,
                    fingerprint,
                ),
            },
        )
    } else if selected.node_type == "vmess"@ {
        (
            label,
            match target {
                Target::Singbox => vmess_singbox(
                    label,
                    server,
                    port,
                    uuid,
                    node.host,
                    sni,
                    node.path,
                    fingerprint,
                ),
                Target::Clash => vmess_clash(
                    label,
                    server,
                    port,
                    uuid,
                    node.host,
                    sni,
                    node.path,
                    fingerprint,
                ),
            },
        )
    } else if selected.node_type == "trojan"@ {
        (
            label,
            match target {
                Target::Singbox => trojan_singbox(
                    label,
                    server,
                    port,
                    text_or_empty(node.password),
                    node.host,
                    sni,
                    node.path,
                    fingerprint,
                ),
                Target::Clash => trojan_clash(
                    label,
                    server,
                    port,
                    text_or_empty(node.password),
                    node.host,
                    sni,
                    node.path,
                    fingerprint,
                ),
            },
        )
    } else if selected.node_type == "ss"@ {
        (
            label,
            match target {
                Target::Singbox => ss_singbox(
                    label,
                    server,
                    port,
                    ss_password(node.password),
                    tls_flag_of(node.tls),
                    node.host,
                    node.path,
                ),
                Target::Clash => ss_clash(
                    label,
                    server,
                    port,
                    ss_password(node.password),
                    tls_flag_of(node.tls),
                    node.host,
                    node.path,
                ),
            },
        )
    } else {
        nothing()
    }
}

/// What one attempt with a selected node gives: its entry on the port
/// decided for it, or no entry where no port is decided or the port calls
/// for another node.
pub open spec fn fragment_outcome(
    target: Target,
    selected: SelectedNodeView,
    port_draw: nat,
    csv_tag: Seq<char>,
    csv_addr: Seq<char>,
    csv_port: u16,
    uri_port: u16,
    fingerprint: Seq<char>,
    http_ports: Seq<u16>,
    https_ports: Seq<u16>,
) -> Option<(Seq<char>, DocumentView)> {
    match node_decision(
        selected.node_type,
        selected.node,
        uri_port,
        csv_port,
        port_draw,
        http_ports,
        https_ports,
    ) {
        Some(decision) => if decision.retry_needed {
            None
        } else {
            Some(
                fragment_for(
                    target,
                    selected,
                    remark_text(csv_tag, selected.node.remarks_prefix, csv_addr, decision.port),
                    csv_addr,
                    decision.port,
                    fingerprint,
                ),
            )
        },
        None => None,
    }
}

/// An entry that was found, or nothing to emit.
pub open spec fn found_or_nothing(outcome: Option<(Seq<char>, DocumentView)>) -> (
    Seq<char>,
    DocumentView,
) {
    match outcome {
        Some(fragment) => fragment,
        None => nothing(),
    }
}

/// The field under which a target keeps the label of an entry.
pub open spec fn label_key(target: Target) -> Seq<char> {
    match target {
        Target::Singbox => "tag"@,
        Target::Clash => "name"@,
    }
}

/// The field under which a target keeps the port of an entry.
pub open spec fn port_key(target: Target) -> Seq<char> {
    match target {
        Target::Singbox => "server_port"@,
        Target::Clash => "port"@,
    }
}

/// The entry of a node of a known kind carries the label it was given, and
/// holds that label, the address and the port under the fields of its
/// target.
pub proof fn lemma_fragment_names_its_endpoint(
    target: Target,
    selected: SelectedNodeView,
    label: Seq<char>,
    server: Seq<char>,
    port: u16,
    fingerprint: Seq<char>,
)
    requires
        known_kind(selected.node_type),
    ensures
        ({
            let fragment = fragment_for(target, selected, label, server, port, fingerprint);
            &&& fragment.0 == label
            &&& member(fragment.1, label_key(target)) == Some(DocumentView::Text(label))
            &&& member(fragment.1, "server"@) == Some(DocumentView::Text(server))
            &&& member(fragment.1, port_key(target)) == Some(number_view(port as nat))
        }),
{
    reveal_strlit("vless");
    reveal_strlit("vmess");
    reveal_strlit("trojan");
    reveal_strlit("ss");
    reveal_strlit("type");
    reveal_strlit("tag");
    reveal_strlit("name");
    reveal_strlit("server");
    reveal_strlit("server_port");
    reveal_strlit("port");
    let fragment = fragment_for(target, selected, label, server, port, fingerprint);
    let kind = selected.node_type;
    assert("vless"@ != "vmess"@ && "vless"@ != "trojan"@ && "vless"@ != "ss"@ && "vmess"@
        != "trojan"@ && "vmess"@ != "ss"@ && "trojan"@ != "ss"@) by {
        assert("vless"@[1] == 'l' && "vmess"@[1] == 'm');
        assert("vless"@.len() == 5 && "vmess"@.len() == 5 && "trojan"@.len() == 6 && "ss"@.len()
            == 2);
    }
    assert("type"@ != "tag"@ && "type"@ != "name"@ && "type"@ != "server"@ && "type"@ != "port"@
        && "type"@ != "server_port"@ && "name"@ != "server"@ && "name"@ != "port"@ && "tag"@
        != "server"@ && "tag"@ != "server_port"@ && "server"@ != "server_port"@ && "port"@
        != "server"@) by {
        assert("type"@.len() == 4 && "name"@.len() == 4 && "tag"@.len() == 3 && "port"@.len()
            == 4 && "server"@.len() == 6 && "server_port"@.len() == 11);
        assert("type"@[0] == 't' && "name"@[0] == 'n' && "port"@[0] == 'p');
    }
    assert(fragment.1 is Mapping);
    let fields = fragment.1->Mapping_0;
    match target {
        Target::Singbox => {
            assert(fields[0].0 == "type"@ && fields[1].0 == "tag"@ && fields[2].0 == "server"@
                && fields[3].0 == "server_port"@);
            lemma_lookup_at(fields, "tag"@, 1);
            lemma_lookup_at(fields, "server"@, 2);
            lemma_lookup_at(fields, "server_port"@, 3);
        },
        Target::Clash => {
            if kind == "vless"@ || kind == "trojan"@ {
                assert(fields[0].0 == "type"@ && fields[1].0 == "name"@ && fields[2].0
                    == "server"@ && fields[3].0 == "port"@);
                lemma_lookup_at(fields, "name"@, 1);
                lemma_lookup_at(fields, "server"@, 2);
                lemma_lookup_at(fields, "port"@, 3);
            } else if kind == "vmess"@ {
                assert(fields[0].0 == "name"@ && fields[1].0 == "port"@ && fields[2].0
                    == "server"@);
                lemma_lookup_at(fields, "name"@, 0);
                lemma_lookup_at(fields, "server"@, 2);
                lemma_lookup_at(fields, "port"@, 1);
            } else {
                assert(fields[0].0 == "name"@ && fields[1].0 == "type"@ && fields[2].0
                    == "server"@ && fields[3].0 == "port"@);
                lemma_lookup_at(fields, "name"@, 0);
                lemma_lookup_at(fields, "server"@, 2);
                lemma_lookup_at(fields, "port"@, 3);
            }
        },
    }
}

/// The field of a mapping inside a mapping: the value that the mapping
/// under `outer` gives to `inner`.
pub open spec fn nested_member(
    document: DocumentView,
    outer: Seq<char>,
    inner: Seq<char>,
) -> Option<DocumentView> {
    match member(document, outer) {
        Some(block) => member(block, inner),
        None => None,
    }
}

/// What an entry says of TLS: the switch of its `tls` block for the first
/// target, its `tls` field for the second.
pub open spec fn tls_of(target: Target, entry: DocumentView) -> Option<DocumentView> {
    match target {
        Target::Singbox => nested_member(entry, "tls"@, "enabled"@),
        Target::Clash => member(entry, "tls"@),
    }
}

/// The client fingerprint of an entry: that of the `utls` block inside its
/// `tls` block for the first target, its `client-fingerprint` field for the
/// second.
pub open spec fn fingerprint_of(target: Target, entry: DocumentView) -> Option<DocumentView> {
    match target {
        Target::Singbox => match member(entry, "tls"@) {
            Some(block) => nested_member(block, "utls"@, "fingerprint"@),
            None => None,
        },
        Target::Clash => member(entry, "client-fingerprint"@),
    }
}

/// The field under which a target keeps the options of the plugin of an
/// `ss` entry.
pub open spec fn plugin_key(target: Target) -> Seq<char> {
    match target {
        Target::Singbox => "plugin_opts"@,
        Target::Clash => "plugin-opts"@,
    }
}

/// The entry of a `vless`, `vmess` or `trojan` node has TLS on exactly
/// when the host of the node does not end with the plaintext suffix, and
/// it carries the client fingerprint it was given.
pub proof fn lemma_fragment_tls_follows_the_host(
    target: Target,
    selected: SelectedNodeView,
    label: Seq<char>,
    server: Seq<char>,
    port: u16,
    fingerprint: Seq<char>,
)
    requires
        selected.node_type == "vless"@ || selected.node_type == "vmess"@ || selected.node_type
            == "trojan"@,
    ensures
        ({
            let entry = fragment_for(target, selected, label, server, port, fingerprint).1;
            &&& tls_of(target, entry) == Some(DocumentView::Bool(tls_enabled(selected.node.host)))
            &&& fingerprint_of(target, entry) == Some(DocumentView::Text(fingerprint))
        }),
{
    reveal_strlit("vless");
    reveal_strlit("vmess");
    reveal_strlit("trojan");
    reveal_strlit("type");
    reveal_strlit("tag");
    reveal_strlit("name");
    reveal_strlit("server");
    reveal_strlit("server_port");
    reveal_strlit("port");
    reveal_strlit("uuid");
    reveal_strlit("password");
    reveal_strlit("network");
    reveal_strlit("security");
    reveal_strlit("alter_id");
    reveal_strlit("alterId");
    reveal_strlit("cipher");
    reveal_strlit("udp");
    reveal_strlit("tls");
    reveal_strlit("sni");
    reveal_strlit("servername");
    reveal_strlit("skip-cert-verify");
    reveal_strlit("client-fingerprint");
    reveal_strlit("enabled");
    reveal_strlit("server_name");
    reveal_strlit("insecure");
    reveal_strlit("utls");
    reveal_strlit("fingerprint");
    let kind = selected.node_type;
    assert("vless"@ != "vmess"@ && "vless"@ != "trojan"@ && "vmess"@ != "trojan"@) by {
        assert("vless"@[1] == 'l' && "vmess"@[1] == 'm');
        assert("vless"@.len() == 5 && "vmess"@.len() == 5 && "trojan"@.len() == 6);
    }
    assert("tls"@ != "tag"@ && "tls"@ != "udp"@ && "tls"@ != "sni"@) by {
        assert("tls"@[1] == 'l' && "tag"@[1] == 'a' && "udp"@[1] == 'd' && "sni"@[1] == 'n');
    }
    assert("tls"@.len() == 3 && "type"@.len() == 4 && "name"@.len() == 4 && "server"@.len() == 6
        && "server_port"@.len() == 11 && "port"@.len() == 4 && "uuid"@.len() == 4
        && "password"@.len() == 8 && "network"@.len() == 7 && "security"@.len() == 8
        && "alter_id"@.len() == 8 && "alterId"@.len() == 7 && "cipher"@.len() == 6
        && "servername"@.len() == 10 && "skip-cert-verify"@.len() == 16
        && "client-fingerprint"@.len() == 18 && "enabled"@.len() == 7 && "server_name"@.len() == 11
        && "insecure"@.len() == 8 && "utls"@.len() == 4 && "fingerprint"@.len() == 11);
    let entry = fragment_for(target, selected, label, server, port, fingerprint).1;
    assert(entry is Mapping);
    let fields = entry->Mapping_0;
    match target {
        Target::Singbox => {
            let at: int = if kind == "vmess"@ {
                7
            } else {
                6
            };
            assert(fields[at].0 == "tls"@);
            lemma_lookup_at(fields, "tls"@, at);
            let block = fields[at].1;
            assert(block == crate::singbox::tls_block(
                tls_enabled(selected.node.host),
                text_or_empty(selected.node.server_name),
                fingerprint,
            ));
            let inner = block->Mapping_0;
            lemma_lookup_at(inner, "enabled"@, 0);
            lemma_lookup_at(inner, "utls"@, 3);
            let utls = inner[3].1->Mapping_0;
            lemma_lookup_at(utls, "fingerprint"@, 1);
        },
        Target::Clash => {
            let at_tls: int = if kind == "vmess"@ {
                8
            } else {
                6
            };
            let at_print: int = if kind == "vmess"@ {
                11
            } else {
                9
            };
            assert(fields[at_tls].0 == "tls"@);
            assert(fields[at_print].0 == "client-fingerprint"@);
            lemma_lookup_at(fields, "tls"@, at_tls);
            lemma_lookup_at(fields, "client-fingerprint"@, at_print);
        },
    }
}

/// The entry of an `ss` node keeps the TLS switch of the node itself among
/// the options of its plugin, whatever its host.
pub proof fn lemma_ss_fragment_keeps_its_switch(
    target: Target,
    selected: SelectedNodeView,
    label: Seq<char>,
    server: Seq<char>,
    port: u16,
    fingerprint: Seq<char>,
)
    requires
        selected.node_type == "ss"@,
    ensures
        nested_member(
            fragment_for(target, selected, label, server, port, fingerprint).1,
            plugin_key(target),
            "tls"@,
        ) == Some(DocumentView::Bool(tls_flag_of(selected.node.tls))),
{
    reveal_strlit("vless");
    reveal_strlit("vmess");
    reveal_strlit("trojan");
    reveal_strlit("ss");
    reveal_strlit("type");
    reveal_strlit("tag");
    reveal_strlit("name");
    reveal_strlit("server");
    reveal_strlit("server_port");
    reveal_strlit("port");
    reveal_strlit("method");
    reveal_strlit("cipher");
    reveal_strlit("password");
    reveal_strlit("udp");
    reveal_strlit("plugin");
    reveal_strlit("plugin_opts");
    reveal_strlit("plugin-opts");
    reveal_strlit("mode");
    reveal_strlit("path");
    reveal_strlit("host");
    reveal_strlit("tls");
    assert("ss"@ != "vless"@ && "ss"@ != "vmess"@ && "ss"@ != "trojan"@) by {
        assert("ss"@.len() == 2 && "vless"@.len() == 5 && "vmess"@.len() == 5 && "trojan"@.len()
            == 6);
    }
    assert("plugin_opts"@.len() == 11 && "plugin-opts"@.len() == 11 && "server_port"@.len() == 11
        && "type"@.len() == 4 && "tag"@.len() == 3 && "name"@.len() == 4 && "server"@.len() == 6
        && "port"@.len() == 4 && "method"@.len() == 6 && "cipher"@.len() == 6 && "password"@.len()
        == 8 && "udp"@.len() == 3 && "plugin"@.len() == 6 && "mode"@.len() == 4 && "path"@.len()
        == 4 && "host"@.len() == 4 && "tls"@.len() == 3);
    assert("plugin_opts"@ != "server_port"@) by {
        assert("plugin_opts"@[0] == 'p' && "server_port"@[0] == 's');
    }
    let entry = fragment_for(target, selected, label, server, port, fingerprint).1;
    assert(entry is Mapping);
    let fields = entry->Mapping_0;
    let at: int = match target {
        Target::Singbox => 7,
        Target::Clash => 8,
    };
    assert(fields[at].0 == plugin_key(target));
    lemma_lookup_at(fields, plugin_key(target), at);
    let options = fields[at].1->Mapping_0;
    lemma_lookup_at(options, "tls"@, 3);
}

/// An attempt with a node of a known kind that gives an entry gives one
/// with a label, so that it is not taken for nothing to emit.
pub proof fn lemma_outcome_has_a_label(
    target: Target,
    selected: SelectedNodeView,
    port_draw: nat,
    csv_tag: Seq<char>,
    csv_addr: Seq<char>,
    csv_port: u16,
    uri_port: u16,
    fingerprint: Seq<char>,
    http_ports: Seq<u16>,
    https_ports: Seq<u16>,
)
    requires
        known_kind(selected.node_type),
    ensures
        fragment_outcome(
            target,
            selected,
            port_draw,
            csv_tag,
            csv_addr,
            csv_port,
            uri_port,
            fingerprint,
            http_ports,
            https_ports,
        ) matches Some(fragment) ==> fragment.0.len() > 0,
{
    match node_decision(
        selected.node_type,
        selected.node,
        uri_port,
        csv_port,
        port_draw,
        http_ports,
        https_ports,
    ) {
        Some(decision) => {
            let label = remark_text(csv_tag, selected.node.remarks_prefix, csv_addr, decision.port);
            lemma_remark_nonempty(csv_tag, selected.node.remarks_prefix, csv_addr, decision.port);
            lemma_fragment_names_its_endpoint(
                target,
                selected,
                label,
                csv_addr,
                decision.port,
                fingerprint,
            );
        },
        None => {},
    }
}

/// A node of any other kind has nothing to emit.
pub proof fn lemma_unknown_kind_emits_nothing(
    target: Target,
    selected: SelectedNodeView,
    label: Seq<char>,
    server: Seq<char>,
    port: u16,
    fingerprint: Seq<char>,
)
    requires
        !known_kind(selected.node_type),
    ensures
        fragment_for(target, selected, label, server, port, fingerprint) == nothing(),
{
}

/// Encodes a selected node for a structured target under a label, on a
/// port already settled.
pub fn encode_fragment(
    target: Target,
    selected: &SelectedNode,
    label: String,
    server: &str,
    port: u16,
    fingerprint: &str,
) -> (fragment: (String, Document))
    ensures
        fragment_view(fragment) == fragment_for(
            target,
            selected@,
            label@,
            server@,
            port,
            fingerprint@,
        ),
{
    let kind = selected.node_type.as_str();
    let node = &selected.node;
    let address = String::from_str(server);
    let print = String::from_str(fingerprint);
    if text_eq(kind, "vless") {
        let uuid = text_or_default(&node.uuid);
        let sni = text_or_default(&node.server_name);
        match target {
            Target::Singbox => build_vless_singbox(
                label,
                address,
                port,
                uuid,
                node.host.clone(),
                sni,
                node.path.clone(),
                print,
            ),
            Target::Clash => build_vless_clash(
                label,
                address,
                port,
                uuid,
                node.host.clone(),
                sni,
                node.path.clone(),
                print,
            ),
        }
    } else if text_eq(kind, "vmess") {
        let uuid = text_or_default(&node.uuid);
        let sni = text_or_default(&node.server_name);
        match target {
            Target::Singbox => build_vmess_singbox(
                label,
                address,
                port,
                uuid,
                node.host.clone(),
                sni,
                node.path.clone(),
                print,
            ),
            Target::Clash => build_vmess_clash(
                label,
                address,
                port,
                uuid,
                node.host.clone(),
                sni,
                node.path.clone(),
                print,
            ),
        }
    } else if text_eq(kind, "trojan") {
        let password = text_or_default(&node.password);
        let sni = text_or_default(&node.server_name);
        match target {
            Target::Singbox => build_trojan_singbox(
                label,
                address,
                port,
                password,
                node.host.clone(),
                sni,
                node.path.clone(),
                print,
            ),
            Target::Clash => build_trojan_clash(
                label,
                address,
                port,
                password,
                node.host.clone(),
                sni,
                node.path.clone(),
                print,
            ),
        }
    } else if text_eq(kind, "ss") {
        let password = password_or_none(&node.password);
        let tls = tls_or_default(node.tls);
        match target {
            Target::Singbox => build_ss_singbox(
                label,
                address,
                port,
                password,
                tls,
                node.host.clone(),
                node.path.clone(),
            ),
            Target::Clash => build_ss_clash(
                label,
                address,
                port,
                password,
                tls,
                node.host.clone(),
                node.path.clone(),
            ),
        }
    } else {
        (String::new(), Document::Null)
    }
}

/// Makes one attempt with a selected node: settles its port with
/// `port_draw` as the position of a random port, composes the label, and
/// encodes the entry.
pub fn fragment_attempt(
    target: Target,
    selected: &SelectedNode,
    port_draw: usize,
    csv_tag: &str,
    csv_addr: &str,
    csv_port: u16,
    uri_port: u16,
    fingerprint: &str,
    http_ports: &[u16],
    https_ports: &[u16],
) -> (fragment: Option<(String, Document)>)
    ensures
        opt_fragment(fragment) == fragment_outcome(
            target,
            selected@,
            port_draw as nat,
            csv_tag@,
            csv_addr@,
            csv_port,
            uri_port,
            fingerprint@,
            http_ports@,
            https_ports@,
        ),
{
    match resolve_with_draw(
        &selected.node,
        uri_port,
        csv_port,
        selected.node_type.as_str(),
        http_ports,
        https_ports,
        port_draw,
    ) {
        Some(decision) => {
            if decision.retry_needed {
                None
            } else {
                let label = compose(
                    csv_tag,
                    selected.node.remarks_prefix.as_str(),
                    csv_addr,
                    decision.port,
                );
                Some(encode_fragment(target, selected, label, csv_addr, decision.port, fingerprint))
            }
        },
        None => None,
    }
}

/// Builds the entry of one address for a structured target.
///
/// A node is selected by `uri_proxy_type` and `uri_userid`, its port is
/// settled from `uri_port` and `csv_port`, and the entry is encoded; where
/// the port calls for another node one is drawn, up to a hundred times. An
/// empty label with the null document is returned where no attempt gives
/// an entry.
pub fn build_fragment(
    target: Target,
    toml_proxies: &Proxy,
    csv_tag: String,
    csv_addr: String,
    csv_port: u16,
    uri_port: u16,
    uri_userid: u8,
    uri_proxy_type: String,
    fingerprint: String,
    http_ports: &[u16],
    https_ports: &[u16],
) -> (fragment: (String, Document))
    ensures
        ({
            let candidates = toml_proxies@.candidates(uri_proxy_type@);
            &&& candidates.len() == 0 ==> fragment_view(fragment) == nothing()
            &&& fragment_view(fragment) == nothing() || exists|i: int, draw: nat|
                0 <= i < candidates.len() && #[trigger] fragment_outcome(
                    target,
                    candidates[i],
                    draw,
                    csv_tag@,
                    csv_addr@,
                    csv_port,
                    uri_port,
                    fingerprint@,
                    http_ports@,
                    https_ports@,
                ) == Some(fragment_view(fragment))
            &&& candidates.len() > 0 && always_fits(
                candidates,
                csv_port,
                uri_port,
                http_ports@,
                https_ports@,
            ) ==> exists|i: int, draw: nat|
                0 <= i < candidates.len() && #[trigger] fragment_outcome(
                    target,
                    candidates[i],
                    draw,
                    csv_tag@,
                    csv_addr@,
                    csv_port,
                    uri_port,
                    fingerprint@,
                    http_ports@,
                    https_ports@,
                ) == Some(fragment_view(fragment))
            &&& position_in_range(uri_userid, candidates.len()) ==> fragment_view(fragment)
                == nothing() || exists|draw: nat|
                #[trigger] fragment_outcome(
                    target,
                    candidates[uri_userid - 1],
                    draw,
                    csv_tag@,
                    csv_addr@,
                    csv_port,
                    uri_port,
                    fingerprint@,
                    http_ports@,
                    https_ports@,
                ) == Some(fragment_view(fragment))
            &&& position_in_range(uri_userid, candidates.len()) && port_fits(
                candidates[uri_userid - 1].node_type,
                candidates[uri_userid - 1].node,
                uri_port,
                csv_port,
                http_ports@,
                https_ports@,
            ) ==> exists|draw: nat|
                #[trigger] fragment_outcome(
                    target,
                    candidates[uri_userid - 1],
                    draw,
                    csv_tag@,
                    csv_addr@,
                    csv_port,
                    uri_port,
                    fingerprint@,
                    http_ports@,
                    https_ports@,
                ) == Some(fragment_view(fragment))
            &&& position_in_range(uri_userid, candidates.len()) && (uri_port != 0 || csv_port != 0)
                ==> fragment_view(fragment) == found_or_nothing(
                fragment_outcome(
                    target,
                    candidates[uri_userid - 1],
                    0,
                    csv_tag@,
                    csv_addr@,
                    csv_port,
                    uri_port,
                    fingerprint@,
                    http_ports@,
                    https_ports@,
                ),
            )
        }),
{
    let candidates = candidates_of(toml_proxies, uri_proxy_type.as_str());
    if candidates.len() == 0 {
        return (String::new(), Document::Null);
    }
    let ghost views = toml_proxies@.candidates(uri_proxy_type@);
    let ghost fixed = position_in_range(uri_userid, views.len()) && (uri_port != 0 || csv_port
        != 0);
    let mut attempt: usize = 0;
    while attempt < MAX_ATTEMPTS
        invariant
            candidates.len() > 0,
            views == selected_views(candidates@),
            views == toml_proxies@.candidates(uri_proxy_type@),
            fixed == (position_in_range(uri_userid, views.len()) && (uri_port != 0 || csv_port
                != 0)),
            attempt > 0 ==> !always_fits(views, csv_port, uri_port, http_ports@, https_ports@),
            attempt > 0 && position_in_range(uri_userid, views.len()) ==> !port_fits(
                views[uri_userid - 1].node_type,
                views[uri_userid - 1].node,
                uri_port,
                csv_port,
                http_ports@,
                https_ports@,
            ),
            fixed && attempt > 0 ==> fragment_outcome(
                target,
                views[uri_userid - 1],
                0,
                csv_tag@,
                csv_addr@,
                csv_port,
                uri_port,
                fingerprint@,
                http_ports@,
                https_ports@,
            ) is None,
        decreases MAX_ATTEMPTS - attempt,
    {
        let node_draw = if 1 <= uri_userid && (uri_userid as usize) <= candidates.len() {
            0
        } else {
            random_below(candidates.len())
        };
        match select_from(&candidates, uri_userid, node_draw) {
            Ok(selected) => {
                let count = primary_count(
                    &selected.node,
                    selected.node_type.as_str(),
                    http_ports,
                    https_ports,
                );
                let port_draw = if uri_port == 0 && csv_port == 0 && count > 0 {
                    random_below(count)
                } else {
                    0
                };
                let outcome = fragment_attempt(
                    target,
                    &selected,
                    port_draw,
                    csv_tag.as_str(),
                    csv_addr.as_str(),
                    csv_port,
                    uri_port,
                    fingerprint.as_str(),
                    http_ports,
                    https_ports,
                );
                proof {
                    let at: int = if position_in_range(uri_userid, views.len()) {
                        uri_userid - 1
                    } else {
                        node_draw as int
                    };
                    assert(selected@ == views[at]);
                    assert(fragment_outcome(
                        target,
                        views[at],
                        port_draw as nat,
                        csv_tag@,
                        csv_addr@,
                        csv_port,
                        uri_port,
                        fingerprint@,
                        http_ports@,
                        https_ports@,
                    ) == opt_fragment(outcome));
                    if uri_port != 0 || csv_port != 0 || count > 0 {
                        lemma_port_fits(
                            views[at].node_type,
                            views[at].node,
                            uri_port,
                            csv_port,
                            port_draw as nat,
                            http_ports@,
                            https_ports@,
                        );
                    }
                }
                match outcome {
                    Some(fragment) => {
                        return fragment;
                    },
                    None => {},
                }
            },
            Err(_) => {},
        }
        attempt += 1;
    }
    (String::new(), Document::Null)
}

} // verus!
