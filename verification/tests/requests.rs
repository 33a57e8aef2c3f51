use subconverter::document::Document;
use subconverter::json::parse_json;
use subconverter::params::{
    parse_unsigned, read_count, read_port, read_position, string_to_bool, Params,
};
use subconverter::pool::{Node, Proxy};
use subconverter::subscription::{
    build_bare_document, build_entries, entry_for, filter_by_port_class, fragment_entry,
    join_payloads, link_entry, page_of, page_size, render, subscription, MyData, Settings,
};

fn address(addr: &str, port: Option<u16>, alias: Option<&str>) -> MyData {
    MyData { addr: addr.to_string(), port, alias: alias.map(|a| a.to_string()) }
}

fn vless_node() -> Node {
    Node {
        remarks_prefix: "X".to_string(),
        uuid: Some("u1".to_string()),
        password: None,
        tls: None,
        host: "a.workers.dev".to_string(),
        server_name: None,
        path: "/p".to_string(),
        random_ports: None,
    }
}

fn vless_pool() -> Proxy {
    Proxy { vless: Some(vec![vless_node()]), trojan: None, ss: None, vmess: None }
}

#[test]
fn standard_settings_hold_the_fixed_ports_and_fingerprints() {
    let settings = Settings::standard();
    assert_eq!(settings.http_ports, vec![80, 8080, 8880, 2052, 2082, 2086, 2095]);
    assert_eq!(settings.https_ports, vec![443, 2053, 2083, 2087, 2096, 8443]);
    assert_eq!(
        settings.fingerprints,
        vec![
            "chrome", "firefox", "safari", "edge", "random", "ios", "android", "random",
            "randomized"
        ]
    );
}

#[test]
fn a_new_request_has_the_documented_defaults() {
    let params = Params::new("clash");
    assert_eq!(
        params,
        Params {
            target: "clash".to_string(),
            max_node_count: 300,
            default_port: 0,
            userid: 0,
            column_name: "colo".to_string(),
            enable_template: true,
            proxy_type: String::new(),
            tls_mode: true,
            data_source: "./data".to_string(),
            page: 1,
        }
    );
    assert_eq!(params.clone(), params);
}

#[test]
fn switches_are_read_from_four_words() {
    assert!(string_to_bool("true", false));
    assert!(string_to_bool("1", false));
    assert!(!string_to_bool("false", true));
    assert!(!string_to_bool("0", true));
    assert!(string_to_bool("yes", true));
    assert!(!string_to_bool("yes", false));
    assert!(!string_to_bool("TRUE", false));
    assert!(string_to_bool("", true));
}

#[test]
fn numerals_are_read_as_the_standard_library_reads_them() {
    for text in ["0", "7", "007", "+5", "80", "255", "256", "65535", "65536", "18446744073709551615"]
    {
        assert_eq!(parse_unsigned(text, u64::MAX), text.parse::<u64>().ok());
        assert_eq!(parse_unsigned(text, 255), text.parse::<u8>().ok().map(|n| n as u64));
        assert_eq!(parse_unsigned(text, 65535), text.parse::<u16>().ok().map(|n| n as u64));
    }
    for text in ["", "+", "-", "-1", " 1", "1 ", "1_0", "0x10", "1.0", "++1", "18446744073709551616", "٣"]
    {
        assert_eq!(parse_unsigned(text, u64::MAX), None);
        assert_eq!(text.parse::<u64>().ok(), None);
    }
    assert_eq!(read_count("12", 300), 12);
    assert_eq!(read_count("x", 300), 300);
    assert_eq!(read_position("3", 0), 3);
    assert_eq!(read_position("256", 7), 7);
    assert_eq!(read_port("443", 0), 443);
    assert_eq!(read_port("79", 8080), 8080);
    assert_eq!(read_port("80", 0), 80);
    assert_eq!(read_port("65535", 0), 65535);
    assert_eq!(read_port("65536", 1), 1);
}

#[test]
fn named_values_are_read_into_the_request() {
    let mut params = Params::new("v2ray");
    params.apply_all(&vec![
        ("Target".to_string(), "singbox".to_string()),
        ("TEMPLATE".to_string(), "0".to_string()),
        ("tls".to_string(), "false".to_string()),
        ("proxy".to_string(), "vless".to_string()),
        ("dataSource".to_string(), "./other".to_string()),
        ("column".to_string(), "city".to_string()),
        ("n".to_string(), "25".to_string()),
        ("page".to_string(), "0".to_string()),
        ("ID".to_string(), "2".to_string()),
        ("dport".to_string(), "2053".to_string()),
        ("unknown".to_string(), "ignored".to_string()),
    ]);
    assert_eq!(
        params,
        Params {
            target: "singbox".to_string(),
            max_node_count: 25,
            default_port: 2053,
            userid: 2,
            column_name: "city".to_string(),
            enable_template: false,
            proxy_type: "vless".to_string(),
            tls_mode: false,
            data_source: "./other".to_string(),
            page: 1,
        }
    );
    params.apply("mode", "1");
    params.apply("tls_mode", "maybe");
    params.apply("type", "trojan");
    params.apply("proxytype", "ss");
    params.apply("source", "s");
    params.apply("columnname", "loc");
    params.apply("nodesize", "many");
    params.apply("nodecount", "7");
    params.apply("page", "3");
    params.apply("userid", "300");
    params.apply("defaultport", "8");
    assert_eq!(
        params,
        Params {
            target: "singbox".to_string(),
            max_node_count: 7,
            default_port: 2053,
            userid: 2,
            column_name: "loc".to_string(),
            enable_template: false,
            proxy_type: "ss".to_string(),
            tls_mode: true,
            data_source: "s".to_string(),
            page: 3,
        }
    );
    params.apply_named("Target", "clash");
    assert_eq!(params.target, "singbox");
}

#[test]
fn page_size_is_capped_for_the_structured_targets() {
    assert_eq!(page_size("singbox", 300), 50);
    assert_eq!(page_size("singbox", 150), 150);
    assert_eq!(page_size("singbox", 1), 1);
    assert_eq!(page_size("singbox", 0), 50);
    assert_eq!(page_size("clash", 300), 100);
    assert_eq!(page_size("clash", 151), 100);
    assert_eq!(page_size("clash", 20), 20);
    assert_eq!(page_size("v2ray", 300), 300);
    assert_eq!(page_size("v2ray", 0), 0);
    assert_eq!(page_size("other", 1000), 1000);
}

#[test]
fn addresses_of_the_other_port_class_are_dropped() {
    let settings = Settings::standard();
    let data = vec![
        address("a", Some(80), None),
        address("b", Some(443), None),
        address("c", None, None),
        address("d", Some(1234), None),
    ];
    let tls = filter_by_port_class(&data, true, &settings.http_ports, &settings.https_ports);
    assert_eq!(
        tls,
        vec![address("b", Some(443), None), address("c", None, None), address("d", Some(1234), None)]
    );
    let plain = filter_by_port_class(&data, false, &settings.http_ports, &settings.https_ports);
    assert_eq!(
        plain,
        vec![address("a", Some(80), None), address("c", None, None), address("d", Some(1234), None)]
    );
}

#[test]
fn pages_are_cut_in_order() {
    let data: Vec<MyData> = (0..7).map(|i| address(&format!("a{}", i), None, None)).collect();
    assert_eq!(page_of(&data, 3, 1), Some(data[0..3].to_vec()));
    assert_eq!(page_of(&data, 3, 2), Some(data[3..6].to_vec()));
    assert_eq!(page_of(&data, 3, 3), Some(data[6..7].to_vec()));
    assert_eq!(page_of(&data, 3, 4), None);
    assert_eq!(page_of(&data, 7, 1), Some(data.clone()));
    assert_eq!(page_of(&data, 100, 1), Some(data.clone()));
    assert_eq!(page_of(&data, 100, 2), None);
    assert_eq!(page_of(&data, 0, 1), None);
    assert_eq!(page_of(&data, 3, 0), None);
    assert_eq!(page_of(&data, usize::MAX, usize::MAX), None);
    assert_eq!(page_of(&vec![], 3, 1), None);
}

#[test]
fn links_are_joined_one_to_a_line() {
    let entries = vec![
        (String::new(), "l1".to_string()),
        (String::new(), "l2".to_string()),
        (String::new(), "l3".to_string()),
    ];
    assert_eq!(join_payloads(&entries), "l1\nl2\nl3");
    assert_eq!(join_payloads(&entries[0..1].to_vec()), "l1");
    assert_eq!(join_payloads(&vec![]), "");
    assert_eq!(render("v2ray", true, &entries, &Document::Null, &Document::Null), "l1\nl2\nl3");
    assert_eq!(render("other", true, &entries, &Document::Null, &Document::Null), "");
}

#[test]
fn entries_without_content_are_left_out() {
    assert_eq!(link_entry(String::new()), None);
    assert_eq!(link_entry("l".to_string()), Some((String::new(), "l".to_string())));
    assert_eq!(fragment_entry((String::new(), Document::Null)), None);
    assert_eq!(
        fragment_entry(("a".to_string(), Document::Text("x".to_string()))),
        Some(("a".to_string(), "\"x\"".to_string()))
    );
}

#[test]
fn structured_targets_are_rendered_with_and_without_the_template() {
    let entries = vec![("a".to_string(), "{\"tag\": \"a\"}".to_string())];
    assert_eq!(
        build_bare_document("outbounds", &entries),
        Document::Mapping(vec![(
            "outbounds".to_string(),
            Document::Sequence(vec![Document::Mapping(vec![(
                "tag".to_string(),
                Document::Text("a".to_string())
            )])])
        )])
    );
    let singbox = parse_json("{\"outbounds\": [{\"tag\": \"g\", \"outbounds\": [\"{all}\"]}]}").unwrap();
    let clash = parse_json(
        "{\"proxies\": [], \"proxy-groups\": [{\"name\": \"g\", \"proxies\": [\"s01\"]}]}",
    )
    .unwrap();
    assert_eq!(
        render("singbox", false, &entries, &singbox, &clash),
        "{\n  \"outbounds\": [\n    {\n      \"tag\": \"a\"\n    }\n  ]\n}"
    );
    assert_eq!(
        render("singbox", true, &entries, &singbox, &clash),
        "{\n  \"outbounds\": [\n    {\n      \"outbounds\": [\n        \"a\"\n      ],\n      \"tag\": \"g\"\n    },\n    {\n      \"tag\": \"a\"\n    }\n  ]\n}"
    );
    assert_eq!(
        render("clash", false, &entries, &singbox, &clash),
        "proxies:\n  - tag: a"
    );
    assert_eq!(
        render("clash", true, &entries, &singbox, &clash),
        "proxies:\n  - tag: a\nproxy-groups:\n  - name: g\n    proxies:\n      - a"
    );
}

#[test]
fn end_to_end_a_single_vless_link() {
    let settings = Settings::standard();
    let data = vec![address("1.2.3.4", Some(0), None)];
    let params = Params::new("v2ray");
    for _ in 0..30 {
        let output =
            subscription(&vless_pool(), &data, &params, &settings, &Document::Null, &Document::Null);
        assert_eq!(output.lines().count(), 1);
        assert!(output.starts_with("vless://u1@1.2.3.4:"));
        let port: u16 =
            output["vless://u1@1.2.3.4:".len()..output.find("/?").unwrap()].parse().unwrap();
        assert!(settings.http_ports.contains(&port));
        let query = &output[output.find("/?").unwrap() + 2..output.find('#').unwrap()];
        let pairs: Vec<&str> = query.split('&').collect();
        assert!(pairs.contains(&"security=none"));
        assert!(pairs.contains(&"path=%2Fp"));
        assert!(pairs.iter().all(|pair| !pair.ends_with('=')));
        assert!(pairs.iter().all(|pair| !pair.starts_with("sni=")));
        assert_eq!(
            urlencoding::decode(&output[output.find('#').unwrap() + 1..]).unwrap(),
            format!("X|1.2.3.4:{}", port)
        );
    }
}

#[test]
fn end_to_end_structured_targets() {
    let settings = Settings::standard();
    let data = vec![
        address("1.2.3.4", Some(8080), Some("HKG")),
        address("5.6.7.8", Some(443), Some("NRT")),
        address("9.9.9.9", None, None),
    ];
    let mut params = Params::new("singbox");
    params.tls_mode = false;
    params.default_port = 2052;
    let singbox = parse_json(
        "{\"outbounds\": [{\"tag\": \"g\", \"outbounds\": [\"{all}\"]}, {\"tag\": \"direct\"}]}",
    )
    .unwrap();
    let output = subscription(&vless_pool(), &data, &params, &settings, &singbox, &Document::Null);
    let merged = parse_json(&output).unwrap();
    let labels = vec!["XHKG|1.2.3.4:2052", "X|9.9.9.9:2052"];
    match merged {
        Document::Mapping(fields) => match &fields[0].1 {
            Document::Sequence(outbounds) => {
                assert_eq!(outbounds.len(), 4);
                assert_eq!(
                    outbounds[0],
                    Document::Mapping(vec![
                        (
                            "outbounds".to_string(),
                            Document::Sequence(
                                labels.iter().map(|l| Document::Text(l.to_string())).collect()
                            )
                        ),
                        ("tag".to_string(), Document::Text("g".to_string())),
                    ])
                );
            }
            _ => panic!("no list"),
        },
        _ => panic!("no mapping"),
    }
    params.target = "clash".to_string();
    params.enable_template = false;
    let output = subscription(&vless_pool(), &data, &params, &settings, &singbox, &Document::Null);
    assert!(output.starts_with("proxies:\n  - client-fingerprint: "));
    assert!(output.contains("    name: \"XHKG|1.2.3.4:2052\"\n"));
    assert!(output.contains("    name: \"X|9.9.9.9:2052\"\n"));
    assert!(output.contains("    server: 9.9.9.9\n"));
    assert!(output.contains("    port: 2052\n"));
    assert!(output.contains("    tls: false\n"));
    assert!(!output.contains("5.6.7.8"));
}

#[test]
fn requests_without_a_page_or_without_nodes_are_answered_empty() {
    let settings = Settings::standard();
    let data = vec![address("1.2.3.4", None, None)];
    let mut params = Params::new("v2ray");
    params.page = 2;
    assert_eq!(
        subscription(&vless_pool(), &data, &params, &settings, &Document::Null, &Document::Null),
        ""
    );
    params.page = 1;
    assert_eq!(
        subscription(&Proxy::default(), &data, &params, &settings, &Document::Null, &Document::Null),
        ""
    );
    assert_eq!(
        subscription(&vless_pool(), &vec![], &params, &settings, &Document::Null, &Document::Null),
        ""
    );
    params.target = "unknown".to_string();
    assert_eq!(build_entries(&vless_pool(), &params, &data, &settings), vec![]);
    assert_eq!(entry_for(&vless_pool(), &params, &data[0], "chrome", &[80], &[443]), None);
}

#[test]
fn a_node_of_the_other_class_is_given_up_after_the_attempts() {
    let settings = Settings::standard();
    let mut params = Params::new("v2ray");
    params.default_port = 443;
    params.tls_mode = false;
    let data = vec![address("1.2.3.4", None, None)];
    assert_eq!(build_entries(&vless_pool(), &params, &data, &settings), vec![]);
    params.default_port = 0;
    let no_prints = Settings { http_ports: vec![80], https_ports: vec![443], fingerprints: vec![] };
    let entries = build_entries(&vless_pool(), &params, &data, &no_prints);
    assert_eq!(
        entries,
        vec![(
            String::new(),
            "vless://u1@1.2.3.4:80/?allowInsecure=1&encryption=none&host=a.workers.dev&path=%2Fp&security=none&type=ws#X%7C1.2.3.4%3A80".to_string()
        )]
    );
}

#[test]
fn a_position_fixes_the_node_of_every_entry() {
    let settings = Settings::standard();
    let mut first = vless_node();
    first.remarks_prefix = "one".to_string();
    first.host = "h.example.com".to_string();
    let mut second = vless_node();
    second.remarks_prefix = "two".to_string();
    let proxies = Proxy { vless: Some(vec![first, second]), trojan: None, ss: None, vmess: None };
    let data: Vec<MyData> =
        (0..20).map(|i| address(&format!("10.0.0.{}", i), None, None)).collect();
    let mut params = Params::new("v2ray");
    params.userid = 2;
    params.tls_mode = false;
    let entries = build_entries(&proxies, &params, &data, &settings);
    assert_eq!(entries.len(), data.len());
    for (i, (label, link)) in entries.iter().enumerate() {
        assert_eq!(label, "");
        assert!(link.starts_with(&format!("vless://u1@10.0.0.{}:", i)));
        assert!(link.contains("host=a.workers.dev"));
        assert!(link.contains(&format!("#two%7C10.0.0.{}%3A", i)));
    }
    params.userid = 1;
    params.target = "singbox".to_string();
    let entries = build_entries(&proxies, &params, &data, &settings);
    assert_eq!(entries.len(), data.len());
    for (i, (label, _)) in entries.iter().enumerate() {
        assert!(label.starts_with(&format!("one|10.0.0.{}:", i)));
    }
    params.default_port = 80;
    assert_eq!(build_entries(&proxies, &params, &data, &settings), vec![]);
    params.userid = 2;
    let entries = build_entries(&proxies, &params, &data, &settings);
    assert_eq!(entries.len(), data.len());
    assert_eq!(entries[3].0, "two|10.0.0.3:80");
    params.userid = 0;
    let entries = build_entries(&proxies, &params, &data, &settings);
    assert!(entries.iter().all(|(label, _)| label.starts_with("two|")));
}
