use subconverter::clash::{
    build_clash_json, build_ss_clash, build_trojan_clash, build_vless_clash, build_vmess_clash,
};
use subconverter::document::Document;
use subconverter::fragment::{encode_fragment, fragment_attempt, Target};
use subconverter::pool::{Node, Proxy, SelectedNode};
use subconverter::singbox::{
    build_singbox_json, build_ss_singbox, build_trojan_singbox, build_vless_singbox,
    build_vmess_singbox,
};

const HTTP_PORTS: [u16; 7] = [80, 8080, 8880, 2052, 2082, 2086, 2095];
const HTTPS_PORTS: [u16; 6] = [443, 2053, 2083, 2087, 2096, 8443];

fn t(text: &str) -> Document {
    Document::Text(text.to_string())
}

fn n(number: u64) -> Document {
    Document::Number(number.to_string())
}

fn m(fields: Vec<(&str, Document)>) -> Document {
    Document::Mapping(fields.into_iter().map(|(k, v)| (k.to_string(), v)).collect())
}

fn s(text: &str) -> String {
    text.to_string()
}

fn tls_block(enabled: bool, sni: &str, fp: &str) -> Document {
    m(vec![
        ("enabled", Document::Bool(enabled)),
        ("server_name", t(sni)),
        ("insecure", Document::Bool(true)),
        ("utls", m(vec![("enabled", Document::Bool(true)), ("fingerprint", t(fp))])),
    ])
}

fn transport(path: &str, host: &str) -> Document {
    m(vec![("type", t("ws")), ("path", t(path)), ("headers", m(vec![("Host", t(host))]))])
}

fn plugin_block(tls: bool, path: &str, host: &str) -> Document {
    m(vec![
        ("mode", t("websocket")),
        ("path", t(path)),
        ("host", t(host)),
        ("tls", Document::Bool(tls)),
        ("mux", Document::Bool(false)),
    ])
}

fn ws_opts(path: &str, host: &str) -> Document {
    m(vec![("path", t(path)), ("headers", m(vec![("Host", t(host))]))])
}

#[test]
fn singbox_vless_entry() {
    let (label, entry) = build_vless_singbox(
        s("L"), s("1.2.3.4"), 443, s("u1"), s("h.example.com"), s("sni"), s("/p"), s("chrome"),
    );
    assert_eq!(label, "L");
    assert_eq!(
        entry,
        m(vec![
            ("type", t("vless")),
            ("tag", t("L")),
            ("server", t("1.2.3.4")),
            ("server_port", n(443)),
            ("uuid", t("u1")),
            ("network", t("tcp")),
            ("tls", tls_block(true, "sni", "chrome")),
            ("transport", transport("/p", "h.example.com")),
        ])
    );
}

#[test]
fn singbox_trojan_entry_without_tls_on_the_plaintext_suffix() {
    let (label, entry) = build_trojan_singbox(
        s("L"), s("1.2.3.4"), 80, s("pw"), s("a.workers.dev"), s(""), s("/"), s("firefox"),
    );
    assert_eq!(label, "L");
    assert_eq!(
        entry,
        m(vec![
            ("type", t("trojan")),
            ("tag", t("L")),
            ("server", t("1.2.3.4")),
            ("server_port", n(80)),
            ("password", t("pw")),
            ("network", t("tcp")),
            ("tls", tls_block(false, "", "firefox")),
            ("transport", transport("/", "a.workers.dev")),
        ])
    );
}

#[test]
fn singbox_vmess_entry() {
    let (label, entry) = build_vmess_singbox(
        s("L"), s("d.example.org"), 8443, s("u2"), s("h"), s("sni"), s("/w"), s("ios"),
    );
    assert_eq!(label, "L");
    assert_eq!(
        entry,
        m(vec![
            ("type", t("vmess")),
            ("tag", t("L")),
            ("server", t("d.example.org")),
            ("server_port", n(8443)),
            ("uuid", t("u2")),
            ("security", t("zero")),
            ("alter_id", n(0)),
            ("tls", tls_block(true, "sni", "ios")),
            ("transport", transport("/w", "h")),
        ])
    );
}

#[test]
fn singbox_ss_entry_keeps_the_switch_of_the_node() {
    let (label, entry) =
        build_ss_singbox(s("L"), s("1.1.1.1"), 443, s("pw"), true, s("a.workers.dev"), s("/x"));
    assert_eq!(label, "L");
    assert_eq!(
        entry,
        m(vec![
            ("type", t("shadowsocks")),
            ("tag", t("L")),
            ("server", t("1.1.1.1")),
            ("server_port", n(443)),
            ("method", t("none")),
            ("password", t("pw")),
            ("plugin", t("v2ray-plugin")),
            ("plugin_opts", plugin_block(true, "/x", "a.workers.dev")),
        ])
    );
    let (_, plain) =
        build_ss_singbox(s("L"), s("1.1.1.1"), 80, s("pw"), false, s("h.example.com"), s("/"));
    assert_eq!(
        plain,
        m(vec![
            ("type", t("shadowsocks")),
            ("tag", t("L")),
            ("server", t("1.1.1.1")),
            ("server_port", n(80)),
            ("method", t("none")),
            ("password", t("pw")),
            ("plugin", t("v2ray-plugin")),
            ("plugin_opts", plugin_block(false, "/", "h.example.com")),
        ])
    );
}

#[test]
fn clash_vless_entry() {
    let (label, entry) = build_vless_clash(
        s("L"), s("1.2.3.4"), 2053, s("u1"), s("h.example.com"), s("sni"), s("/p"), s("edge"),
    );
    assert_eq!(label, "L");
    assert_eq!(
        entry,
        m(vec![
            ("type", t("vless")),
            ("name", t("L")),
            ("server", t("1.2.3.4")),
            ("port", n(2053)),
            ("uuid", t("u1")),
            ("network", t("ws")),
            ("tls", Document::Bool(true)),
            ("udp", Document::Bool(false)),
            ("servername", t("sni")),
            ("client-fingerprint", t("edge")),
            ("skip-cert-verify", Document::Bool(true)),
            ("ws-opts", ws_opts("/p", "h.example.com")),
        ])
    );
}

#[test]
fn clash_trojan_entry() {
    let (label, entry) = build_trojan_clash(
        s("L"), s("1.2.3.4"), 443, s("pw"), s("h.example.com"), s("sni"), s("/p"), s("safari"),
    );
    assert_eq!(label, "L");
    assert_eq!(
        entry,
        m(vec![
            ("type", t("trojan")),
            ("name", t("L")),
            ("server", t("1.2.3.4")),
            ("port", n(443)),
            ("password", t("pw")),
            ("network", t("ws")),
            ("tls", Document::Bool(true)),
            ("udp", Document::Bool(false)),
            ("sni", t("sni")),
            ("client-fingerprint", t("safari")),
            ("skip-cert-verify", Document::Bool(true)),
            ("ws-opts", ws_opts("/p", "h.example.com")),
        ])
    );
}

#[test]
fn clash_vmess_entry() {
    let (label, entry) = build_vmess_clash(
        s("L"), s("1.2.3.4"), 80, s("u2"), s("b.workers.dev"), s(""), s("/w"), s("android"),
    );
    assert_eq!(label, "L");
    assert_eq!(
        entry,
        m(vec![
            ("name", t("L")),
            ("port", n(80)),
            ("server", t("1.2.3.4")),
            ("type", t("vmess")),
            ("uuid", t("u2")),
            ("alterId", n(0)),
            ("cipher", t("zero")),
            ("udp", Document::Bool(false)),
            ("tls", Document::Bool(false)),
            ("skip-cert-verify", Document::Bool(true)),
            ("servername", t("")),
            ("client-fingerprint", t("android")),
            ("network", t("ws")),
            ("ws-opts", ws_opts("/w", "b.workers.dev")),
        ])
    );
}

#[test]
fn clash_ss_entry_has_a_block_of_plugin_options() {
    let (label, entry) =
        build_ss_clash(s("L"), s("1.1.1.1"), 8080, s("pw"), false, s("h.example.com"), s("/x"));
    assert_eq!(label, "L");
    assert_eq!(
        entry,
        m(vec![
            ("name", t("L")),
            ("type", t("ss")),
            ("server", t("1.1.1.1")),
            ("port", n(8080)),
            ("cipher", t("none")),
            ("password", t("pw")),
            ("udp", Document::Bool(false)),
            ("plugin", t("v2ray-plugin")),
            ("plugin-opts", plugin_block(false, "/x", "h.example.com")),
        ])
    );
}

fn selected(kind: &str) -> SelectedNode {
    SelectedNode {
        node_type: kind.to_string(),
        node: Node {
            remarks_prefix: s("cfg"),
            uuid: Some(s("u1")),
            password: None,
            tls: None,
            host: s("h.example.com"),
            server_name: Some(s("sni")),
            path: s("/p"),
            random_ports: None,
        },
    }
}

fn member<'a>(document: &'a Document, key: &str) -> Option<&'a Document> {
    match document {
        Document::Mapping(fields) => fields.iter().find(|(name, _)| name == key).map(|(_, v)| v),
        _ => None,
    }
}

#[test]
fn every_entry_names_its_label_address_and_port() {
    for kind in ["vless", "vmess", "trojan", "ss"] {
        let (label, entry) =
            encode_fragment(Target::Singbox, &selected(kind), s("L"), "9.9.9.9", 2096, "chrome");
        assert_eq!(label, "L");
        assert_eq!(member(&entry, "tag"), Some(&t("L")));
        assert_eq!(member(&entry, "server"), Some(&t("9.9.9.9")));
        assert_eq!(member(&entry, "server_port"), Some(&n(2096)));
        let (label, entry) =
            encode_fragment(Target::Clash, &selected(kind), s("L"), "9.9.9.9", 2096, "chrome");
        assert_eq!(label, "L");
        assert_eq!(member(&entry, "name"), Some(&t("L")));
        assert_eq!(member(&entry, "server"), Some(&t("9.9.9.9")));
        assert_eq!(member(&entry, "port"), Some(&n(2096)));
    }
}

#[test]
fn missing_credentials_are_empty_and_the_ss_password_is_none() {
    let (_, entry) =
        encode_fragment(Target::Clash, &selected("trojan"), s("L"), "9.9.9.9", 443, "chrome");
    assert_eq!(member(&entry, "password"), Some(&t("")));
    let (_, entry) =
        encode_fragment(Target::Clash, &selected("ss"), s("L"), "9.9.9.9", 443, "chrome");
    assert_eq!(member(&entry, "password"), Some(&t("none")));
    assert_eq!(
        member(member(&entry, "plugin-opts").unwrap(), "tls"),
        Some(&Document::Bool(true))
    );
}

#[test]
fn unknown_kind_has_nothing_to_emit() {
    for target in [Target::Singbox, Target::Clash] {
        let (label, entry) =
            encode_fragment(target, &selected("http"), s("L"), "9.9.9.9", 443, "chrome");
        assert_eq!(label, "");
        assert_eq!(entry, Document::Null);
    }
}

#[test]
fn attempt_composes_the_label_and_respects_the_port_class() {
    let made = fragment_attempt(
        Target::Singbox, &selected("vless"), 0, "HKG", "1.2.3.4", 0, 443, "chrome",
        &HTTP_PORTS, &HTTPS_PORTS,
    );
    let (label, entry) = made.unwrap();
    assert_eq!(label, "cfgHKG|1.2.3.4:443");
    assert_eq!(member(&entry, "server_port"), Some(&n(443)));
    let conflict = fragment_attempt(
        Target::Singbox, &selected("vless"), 0, "HKG", "1.2.3.4", 0, 80, "chrome",
        &HTTP_PORTS, &HTTPS_PORTS,
    );
    assert_eq!(conflict, None);
    let drawn = fragment_attempt(
        Target::Clash, &selected("vless"), 3, "", "1.2.3.4", 0, 0, "chrome",
        &HTTP_PORTS, &HTTPS_PORTS,
    );
    assert_eq!(drawn.unwrap().0, "cfg|1.2.3.4:2087");
}

#[test]
fn structured_builders_search_for_a_fitting_node() {
    let tls_node = selected("vless").node;
    let mut plain_node = selected("vless").node;
    plain_node.host = s("a.workers.dev");
    plain_node.remarks_prefix = s("plain");
    let proxies = Proxy {
        vless: Some(vec![tls_node, plain_node]),
        trojan: None,
        ss: None,
        vmess: None,
    };
    for _ in 0..20 {
        let (label, entry) = build_singbox_json(
            &proxies, s(""), s("1.2.3.4"), 0, 80, 0, s("vless"), s("chrome"),
            &HTTP_PORTS, &HTTPS_PORTS,
        );
        assert_eq!(label, "plain|1.2.3.4:80");
        assert_eq!(member(&entry, "tag"), Some(&t("plain|1.2.3.4:80")));
        let (label, entry) = build_clash_json(
            &proxies, s(""), s("1.2.3.4"), 443, 0, 0, s(""), s("chrome"),
            &HTTP_PORTS, &HTTPS_PORTS,
        );
        assert_eq!(label, "cfg|1.2.3.4:443");
        assert_eq!(member(&entry, "tls"), Some(&Document::Bool(true)));
    }
    let (label, entry) = build_singbox_json(
        &proxies, s(""), s("1.2.3.4"), 0, 80, 1, s("vless"), s("chrome"),
        &HTTP_PORTS, &HTTPS_PORTS,
    );
    assert_eq!(label, "");
    assert_eq!(entry, Document::Null);
    let (label, entry) = build_clash_json(
        &Proxy::default(), s(""), s("1.2.3.4"), 0, 0, 0, s(""), s("chrome"),
        &HTTP_PORTS, &HTTPS_PORTS,
    );
    assert_eq!(label, "");
    assert_eq!(entry, Document::Null);
}
