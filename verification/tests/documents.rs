use subconverter::document::{copy_fields, copy_items, find_key, replace_value, Document};
use subconverter::indent::{
    adjust_yaml_indentation, emit_as_yaml, finish_emitted, strip_document_marker,
};
use subconverter::json::{
    parse_json, parse_json_or_null, to_json_pretty, to_json_pretty_or_empty,
};
use subconverter::pool::SelectError;
use subconverter::simple::{choose_proxy, path_empty, select_toml_proxy, Config, Node, ProxyType};

fn t(text: &str) -> Document {
    Document::Text(text.to_string())
}

fn num(text: &str) -> Document {
    Document::Number(text.to_string())
}

fn m(fields: Vec<(&str, Document)>) -> Document {
    Document::Mapping(fields.into_iter().map(|(k, v)| (k.to_string(), v)).collect())
}

#[test]
fn json_text_is_read_as_a_document() {
    assert_eq!(parse_json("null"), Some(Document::Null));
    assert_eq!(parse_json("true"), Some(Document::Bool(true)));
    assert_eq!(parse_json("\"a\\nb\""), Some(t("a\nb")));
    assert_eq!(parse_json("12"), Some(num("12")));
    assert_eq!(parse_json("-3"), Some(num("-3")));
    assert_eq!(parse_json("1.5"), Some(num("1.5")));
    assert_eq!(parse_json("18446744073709551615"), Some(num("18446744073709551615")));
    assert_eq!(
        parse_json("[1, [2], {\"k\": null}]"),
        Some(Document::Sequence(vec![
            num("1"),
            Document::Sequence(vec![num("2")]),
            m(vec![("k", Document::Null)]),
        ]))
    );
    assert_eq!(
        parse_json("{\"b\": 1, \"a\": {\"z\": false}}"),
        Some(m(vec![("a", m(vec![("z", Document::Bool(false))])), ("b", num("1"))]))
    );
    assert_eq!(parse_json(""), None);
    assert_eq!(parse_json("{"), None);
    assert_eq!(parse_json("{\"a\": 1} x"), None);
    assert_eq!(parse_json_or_null("nonsense"), Document::Null);
    assert_eq!(parse_json_or_null("[]"), Document::Sequence(vec![]));
}

#[test]
fn a_document_is_printed_as_indented_json() {
    let document = m(vec![
        ("type", t("vless")),
        ("server_port", num("443")),
        ("tls", m(vec![("enabled", Document::Bool(true))])),
        ("list", Document::Sequence(vec![t("a"), Document::Null])),
        ("empty", Document::Sequence(vec![])),
    ]);
    assert_eq!(
        to_json_pretty(&document),
        Some(
            "{\n  \"empty\": [],\n  \"list\": [\n    \"a\",\n    null\n  ],\n  \"server_port\": 443,\n  \"tls\": {\n    \"enabled\": true\n  },\n  \"type\": \"vless\"\n}"
                .to_string()
        )
    );
    assert_eq!(to_json_pretty(&t("a\"b")), Some("\"a\\\"b\"".to_string()));
    assert_eq!(to_json_pretty(&num("-7")), Some("-7".to_string()));
    assert_eq!(to_json_pretty(&num("seven")), None);
    assert_eq!(to_json_pretty(&Document::Sequence(vec![num("1"), num("")])), None);
    assert_eq!(to_json_pretty_or_empty(&num("seven")), "");
    assert_eq!(to_json_pretty_or_empty(&Document::Null), "null");
    let read_back = parse_json(&to_json_pretty(&document).unwrap()).unwrap();
    assert_eq!(to_json_pretty(&read_back), to_json_pretty(&document));
}

#[test]
fn documents_are_copied_and_changed_field_by_field() {
    let document = m(vec![
        ("a", Document::Sequence(vec![t("x"), m(vec![("k", num("1"))])])),
        ("b", Document::Null),
        ("a", t("second")),
    ]);
    assert_eq!(document.clone(), document);
    assert!(t("x").is_text("x"));
    assert!(!t("x").is_text("y"));
    assert!(!num("x").is_text("x"));
    assert_eq!(Document::text("x"), t("x"));
    assert_eq!(Document::number(65535), num("65535"));
    assert_eq!(Document::mapping(vec![]), m(vec![]));
    assert_eq!(Document::sequence(vec![t("x")]), Document::Sequence(vec![t("x")]));
    match &document {
        Document::Mapping(fields) => {
            assert_eq!(find_key(fields, "a"), 0);
            assert_eq!(find_key(fields, "b"), 1);
            assert_eq!(find_key(fields, "c"), 3);
            let mut copies = copy_fields(fields);
            assert_eq!(&copies, fields);
            replace_value(&mut copies, 1, t("new"));
            assert_eq!(copies[1], ("b".to_string(), t("new")));
            assert_eq!(copies[0], fields[0]);
            assert_eq!(copies[2], fields[2]);
            match &fields[0].1 {
                Document::Sequence(items) => assert_eq!(&copy_items(items), items),
                _ => panic!("no list"),
            }
        }
        _ => panic!("no mapping"),
    }
}

#[test]
fn yaml_is_emitted_in_block_style_without_the_opening_line() {
    let document = m(vec![
        ("a", Document::Sequence(vec![num("1"), m(vec![("b", t("x y"))])])),
        ("c", m(vec![("d", Document::Bool(true))])),
    ]);
    assert_eq!(emit_as_yaml(&document), "a:\n  - 1\n  - b: x y\nc:\n  d: true");
    let printed = to_json_pretty(&document).unwrap();
    assert_eq!(adjust_yaml_indentation(&printed), "a:\n  - 1\n  - b: x y\nc:\n  d: true");
    assert_eq!(emit_as_yaml(&t("plain")), "plain");
    assert_eq!(emit_as_yaml(&Document::Sequence(vec![])), "[]");
    assert_eq!(emit_as_yaml(&num("seven")), "Error: No document found in YAML input");
    let mut deep = Document::Null;
    for _ in 0..100 {
        deep = Document::Sequence(vec![deep]);
    }
    assert!(emit_as_yaml(&deep).starts_with("- - - "));
}

#[test]
fn the_opening_line_is_dropped_only_from_the_head() {
    assert_eq!(strip_document_marker("---\na: 1"), "a: 1");
    assert_eq!(strip_document_marker("---\n"), "");
    assert_eq!(strip_document_marker("---"), "---");
    assert_eq!(strip_document_marker("a: 1\n---\n"), "a: 1\n---\n");
    assert_eq!(strip_document_marker("---\n---\nb"), "---\nb");
    assert_eq!(strip_document_marker(""), "");
    assert_eq!(finish_emitted(Some("---\nx".to_string())), "x");
    assert_eq!(finish_emitted(None), "Error: Failed to emit YAML");
}

fn plain(prefix: &str) -> Node {
    Node {
        remarks_prefix: prefix.to_string(),
        uuid: "u".to_string(),
        password: "p".to_string(),
        host: "h".to_string(),
        server_name: "s".to_string(),
        random_ports: vec![443],
        path: path_empty(),
    }
}

#[test]
fn the_plain_pool_takes_the_position_within_the_kind() {
    assert_eq!(path_empty(), "/");
    let config = Config {
        proxies: ProxyType {
            vless: vec![plain("v1"), plain("v2")],
            trojan: vec![plain("t1")],
        },
    };
    assert_eq!(select_toml_proxy(&config, 1, "trojan".to_string()), Ok(plain("t1")));
    assert_eq!(select_toml_proxy(&config, 1, "vless".to_string()), Ok(plain("v1")));
    assert_eq!(select_toml_proxy(&config, 2, "vless".to_string()), Ok(plain("v2")));
    assert_eq!(select_toml_proxy(&config, 1, "".to_string()), Ok(plain("t1")));
    assert_eq!(select_toml_proxy(&config, 2, "".to_string()), Ok(plain("v1")));
    assert_eq!(select_toml_proxy(&config, 3, "other".to_string()), Ok(plain("v2")));
    for _ in 0..30 {
        let chosen = select_toml_proxy(&config, 0, "vless".to_string()).unwrap();
        assert!(chosen == plain("v1") || chosen == plain("v2"));
        let chosen = select_toml_proxy(&config, 3, "vless".to_string()).unwrap();
        assert!(chosen == plain("v1") || chosen == plain("v2"));
        assert_eq!(select_toml_proxy(&config, 4, "trojan".to_string()), Ok(plain("t1")));
        assert!(select_toml_proxy(&config, 9, "other".to_string()).is_ok());
    }
    assert_eq!(choose_proxy(&config, 0, "other", 0), Ok(plain("t1")));
    assert_eq!(choose_proxy(&config, 0, "other", 2), Ok(plain("v2")));
    assert_eq!(choose_proxy(&config, 0, "other", 3), Err(SelectError::EmptyPool));
    assert_eq!(choose_proxy(&config, 0, "trojan", 1), Err(SelectError::EmptyPool));
    assert_eq!(choose_proxy(&config, 2, "trojan", 0), Ok(plain("t1")));
    let only_vless = Config { proxies: ProxyType { vless: vec![plain("v1")], trojan: vec![] } };
    assert_eq!(
        select_toml_proxy(&only_vless, 0, "trojan".to_string()),
        Err(SelectError::EmptyPool)
    );
    assert_eq!(
        select_toml_proxy(&only_vless, 1, "trojan".to_string()),
        Err(SelectError::EmptyPool)
    );
    assert_eq!(select_toml_proxy(&only_vless, 1, "".to_string()), Ok(plain("v1")));
    assert_eq!(
        select_toml_proxy(&Config::default(), 1, "".to_string()),
        Err(SelectError::EmptyPool)
    );
}
