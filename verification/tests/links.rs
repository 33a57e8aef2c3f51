use subconverter::pool::{Node, Proxy, SelectedNode};
use subconverter::v2ray::{
    assemble_link, assemble_ss_link, build_query_link, build_ss_link, build_trojan_link,
    build_v2ray_link, build_vless_link, build_vmess_link, encode_link, escape_equals,
    keep_with_value, link_attempt, names_in_order, password_or_none, plugin_options_text,
    text_before, text_or_default, tls_or_default,
};

const HTTP_PORTS: [u16; 7] = [80, 8080, 8880, 2052, 2082, 2086, 2095];
const HTTPS_PORTS: [u16; 6] = [443, 2053, 2083, 2087, 2096, 8443];

fn vless_node() -> Node {
    Node {
        remarks_prefix: "X".to_string(),
        uuid: Some("u1".to_string()),
        password: None,
        tls: None,
        host: "a.workers.dev".to_string(),
        server_name: None,
        path: "/p".to_string(),
        random_ports: None,
    }
}

#[test]
fn vless_link_has_the_documented_shape() {
    let link = build_vless_link(
        "X|1.2.3.4:80",
        "1.2.3.4".to_string(),
        80,
        "u1".to_string(),
        "none",
        "a.workers.dev".to_string(),
        "".to_string(),
        "/p".to_string(),
        "chrome".to_string(),
    );
    assert_eq!(
        link,
        "vless://u1@1.2.3.4:80/?allowInsecure=1&encryption=none&fp=chrome&host=a.workers.dev&path=%2Fp&security=none&type=ws#X%7C1.2.3.4%3A80"
    );
}

#[test]
fn trojan_link_has_the_documented_shape() {
    let link = build_trojan_link(
        "t",
        "example.com".to_string(),
        443,
        "secret".to_string(),
        "tls",
        "h.example.com".to_string(),
        "sni.example.com".to_string(),
        "/ws".to_string(),
        "firefox".to_string(),
    );
    assert_eq!(
        link,
        "trojan://secret@example.com:443/?allowInsecure=1&fp=firefox&host=h.example.com&path=%2Fws&security=tls&sni=sni.example.com&type=ws#t"
    );
}

#[test]
fn ss_link_escapes_equals_and_encodes_the_credential() {
    let link = build_ss_link(
        "a b",
        "1.1.1.1".to_string(),
        8443,
        "pw".to_string(),
        true,
        "h.example.com".to_string(),
        "/x=y".to_string(),
    );
    println!("{}", link);
    assert_eq!(
        link,
        "ss://bm9uZTpwdw==@1.1.1.1:8443?plugin=v2ray-plugin;tls;mux%3D0;mode%3Dwebsocket;path%3D/x%3Dy;host%3Dh.example.com#a%20b"
    );
}

#[test]
fn escape_equals_rewrites_each_sign() {
    assert_eq!(escape_equals("a=b==c"), "a%3Db%3D%3Dc");
    assert_eq!(escape_equals(""), "");
    assert_eq!(escape_equals("plain"), "plain");
}

#[test]
fn end_to_end_vless_link() {
    let proxies = Proxy { vless: Some(vec![vless_node()]), trojan: None, ss: None, vmess: None };
    let link = build_v2ray_link(
        &proxies,
        "".to_string(),
        "1.2.3.4".to_string(),
        0,
        0,
        0,
        "".to_string(),
        "chrome".to_string(),
        &HTTP_PORTS,
        &HTTPS_PORTS,
    );
    println!("{}", link);
    assert!(link.starts_with("vless://u1@1.2.3.4:"));
    assert!(link.contains("security=none"));
    assert!(link.contains("path=%2Fp"));
    let port: u16 = link["vless://u1@1.2.3.4:".len()..link.find("/?").unwrap()].parse().unwrap();
    assert!(HTTP_PORTS.contains(&port));
    assert!(link.ends_with(&format!("#X%7C1.2.3.4%3A{}", port)));
}

fn pair(name: &str, value: &str) -> (String, String) {
    (name.to_string(), value.to_string())
}

#[test]
fn parameters_without_a_value_are_not_written() {
    let params = vec![pair("a", ""), pair("b", "1"), pair("c", ""), pair("d", " "), pair("e", "x")];
    assert_eq!(keep_with_value(params), vec![pair("b", "1"), pair("d", " "), pair("e", "x")]);
    assert_eq!(keep_with_value(vec![]), vec![]);
    let link = build_vless_link(
        "l",
        "s".to_string(),
        1,
        "u".to_string(),
        "",
        "".to_string(),
        "".to_string(),
        "".to_string(),
        "".to_string(),
    );
    assert_eq!(link, "vless://u@s:1/?allowInsecure=1&encryption=none&type=ws#l");
    let bare = build_query_link("x://", "c", "s", 9, vec![pair("k", "")], "l").unwrap();
    assert_eq!(bare, "x://c@s:9/?#l");
}

#[test]
fn labels_are_percent_encoded_byte_by_byte() {
    let link =
        build_query_link("x://", "c", "s", 9, vec![], "a-b_c.d~e f/\u{9999}\u{6e2f}%").unwrap();
    assert_eq!(link, "x://c@s:9/?#a-b_c.d~e%20f%2F%E9%A6%99%E6%B8%AF%25");
    let link = build_query_link("x://", "c", "s", 9, vec![], "AZaz09").unwrap();
    assert_eq!(link, "x://c@s:9/?#AZaz09");
}

#[test]
fn plugin_options_name_mode_path_host_and_tls() {
    assert_eq!(plugin_options_text(true, "/p", "h"), "tls;mux=0;mode=websocket;path=/p;host=h");
    assert_eq!(plugin_options_text(false, "/p", "h"), "mux=0;mode=websocket;path=/p;host=h");
}

#[test]
fn absent_fields_have_their_defaults() {
    assert_eq!(text_or_default(&None), "");
    assert_eq!(text_or_default(&Some("x".to_string())), "x");
    assert_eq!(password_or_none(&None), "none");
    assert_eq!(password_or_none(&Some("pw".to_string())), "pw");
    assert!(tls_or_default(None));
    assert!(tls_or_default(Some(true)));
    assert!(!tls_or_default(Some(false)));
}

fn selected(kind: &str, host: &str) -> SelectedNode {
    let mut node = vless_node();
    node.host = host.to_string();
    node.password = Some("pw".to_string());
    node.server_name = Some("sni".to_string());
    SelectedNode { node_type: kind.to_string(), node }
}

#[test]
fn links_follow_the_kind_of_the_node() {
    assert_eq!(
        encode_link(&selected("vless", "h.example.com"), "l", "1.1.1.1", 443, "chrome"),
        Some(
            "vless://u1@1.1.1.1:443/?allowInsecure=1&encryption=none&fp=chrome&host=h.example.com&path=%2Fp&security=tls&sni=sni&type=ws#l"
                .to_string()
        )
    );
    assert_eq!(
        encode_link(&selected("trojan", "a.workers.dev"), "l", "1.1.1.1", 80, "chrome"),
        Some(
            "trojan://pw@1.1.1.1:80/?allowInsecure=1&fp=chrome&host=a.workers.dev&path=%2Fp&security=none&sni=sni&type=ws#l"
                .to_string()
        )
    );
    assert_eq!(
        encode_link(&selected("ss", "h"), "l", "1.1.1.1", 443, "chrome"),
        Some(
            "ss://bm9uZTpwdw==@1.1.1.1:443?plugin=v2ray-plugin;tls;mux%3D0;mode%3Dwebsocket;path%3D/p;host%3Dh#l"
                .to_string()
        )
    );
    assert_eq!(
        encode_link(&selected("vmess", "h"), "l", "1.1.1.1", 443, "chrome"),
        Some(
            "vmess://u1@1.1.1.1:443/?allowInsecure=1&alterId=0&encryption=zero&fp=chrome&host=h&path=%2Fp&security=tls&sni=sni&type=ws#l"
                .to_string()
        )
    );
    assert_eq!(encode_link(&selected("", "h"), "l", "1.1.1.1", 443, "chrome"), None);
    assert_eq!(encode_link(&selected("http", "h"), "l", "1.1.1.1", 443, "chrome"), None);
}

#[test]
fn an_attempt_gives_no_link_on_a_port_of_the_other_class() {
    let node = selected("vless", "h.example.com");
    assert_eq!(
        link_attempt(&node, 0, "HKG", "1.1.1.1", 80, 0, "chrome", &HTTP_PORTS, &HTTPS_PORTS),
        None
    );
    assert_eq!(
        link_attempt(&node, 9, "HKG", "1.1.1.1", 0, 0, "chrome", &HTTP_PORTS, &HTTPS_PORTS),
        None
    );
    let link =
        link_attempt(&node, 5, "HKG", "1.1.1.1", 0, 0, "", &HTTP_PORTS, &HTTPS_PORTS).unwrap();
    assert_eq!(
        link,
        "vless://u1@1.1.1.1:8443/?allowInsecure=1&encryption=none&host=h.example.com&path=%2Fp&security=tls&sni=sni&type=ws#XHKG%7C1.1.1.1%3A8443"
    );
}

#[test]
fn a_vmess_node_has_a_link() {
    let mut node = vless_node();
    node.remarks_prefix = String::new();
    node.host = "b.example.com".to_string();
    let proxies = Proxy { vless: None, trojan: None, ss: None, vmess: Some(vec![node]) };
    for _ in 0..30 {
        let link = build_v2ray_link(
            &proxies,
            "".to_string(),
            "1.2.3.4".to_string(),
            0,
            0,
            1,
            "vmess".to_string(),
            "chrome".to_string(),
            &HTTP_PORTS,
            &HTTPS_PORTS,
        );
        assert!(!link.contains('\n'));
        assert!(link.starts_with("vmess://u1@1.2.3.4:"));
        let port: u16 =
            link["vmess://u1@1.2.3.4:".len()..link.find("/?").unwrap()].parse().unwrap();
        assert!(HTTPS_PORTS.contains(&port));
        assert_eq!(
            link,
            format!(
                "vmess://u1@1.2.3.4:{}/?allowInsecure=1&alterId=0&encryption=zero&fp=chrome&host=b.example.com&path=%2Fp&security=tls&type=ws#1.2.3.4%3A{}",
                port, port
            )
        );
    }
    let link = build_vmess_link(
        "l",
        "s".to_string(),
        80,
        "u".to_string(),
        "none",
        "a.workers.dev".to_string(),
        "".to_string(),
        "/".to_string(),
        "".to_string(),
    );
    assert_eq!(
        link,
        "vmess://u@s:80/?allowInsecure=1&alterId=0&encryption=zero&host=a.workers.dev&path=%2F&security=none&type=ws#l"
    );
}

#[test]
fn a_query_is_written_name_by_name() {
    let link = build_query_link(
        "x://",
        "c",
        "s",
        9,
        vec![
            pair("A b", "x y"),
            pair("a*b", "-._~"),
            pair("k", ""),
            pair("z", "\u{e9}&=+%"),
        ],
        "",
    )
    .unwrap();
    assert_eq!(link, "x://c@s:9/?A+b=x+y&a*b=-._%7E&z=%C3%A9%26%3D%2B%25#");
    let unordered = vec![pair("b", "1"), pair("a", "2")];
    assert_eq!(build_query_link("x://", "c", "s", 9, unordered, ""), None);
    let repeated = vec![pair("a", "1"), pair("a", "2")];
    assert_eq!(build_query_link("x://", "c", "s", 9, repeated, ""), None);
    assert!(names_in_order(&vec![pair("", "1"), pair("a", ""), pair("ab", ""), pair("b", "")]));
    assert!(!names_in_order(&vec![pair("a", "1"), pair("b", ""), pair("ab", "")]));
    let texts = ["", "a", "b", "ab", "abc", "abd", "Z", "z", "\u{e9}", "\u{9999}"];
    for a in texts {
        for b in texts {
            assert_eq!(text_before(a, b), a < b);
        }
    }
    assert_eq!(assemble_link("x://", "c", "s", 443, "q=1", "f"), "x://c@s:443/?q=1#f");
    assert_eq!(
        assemble_ss_link("Y29kZQ==", "s", 443, false, "h", "/p", "f"),
        "ss://Y29kZQ==@s:443?plugin=v2ray-plugin;mux%3D0;mode%3Dwebsocket;path%3D/p;host%3Dh#f"
    );
}

#[test]
fn a_pool_without_a_candidate_gives_the_empty_link() {
    let proxies = Proxy { vless: None, trojan: None, ss: None, vmess: Some(vec![vless_node()]) };
    let link = build_v2ray_link(
        &proxies,
        "".to_string(),
        "1.2.3.4".to_string(),
        0,
        0,
        1,
        "trojan".to_string(),
        "chrome".to_string(),
        &HTTP_PORTS,
        &HTTPS_PORTS,
    );
    assert_eq!(link, "");
    let link = build_v2ray_link(
        &Proxy::default(),
        "".to_string(),
        "1.2.3.4".to_string(),
        0,
        0,
        0,
        "".to_string(),
        "chrome".to_string(),
        &HTTP_PORTS,
        &HTTPS_PORTS,
    );
    assert_eq!(link, "");
}
