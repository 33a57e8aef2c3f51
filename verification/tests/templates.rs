use subconverter::clash::{add_clash_template, merge_proxies};
use subconverter::document::{find_key, Document};
use subconverter::json::parse_json;
use subconverter::singbox::{add_singbox_template, merge_outbounds};
use subconverter::template::{
    collect_labels, fill_group, find_marker, insert_entries, parse_entries, splice_every,
    splice_labels,
};

fn t(text: &str) -> Document {
    Document::Text(text.to_string())
}

fn m(fields: Vec<(&str, Document)>) -> Document {
    Document::Mapping(fields.into_iter().map(|(k, v)| (k.to_string(), v)).collect())
}

fn l(items: Vec<Document>) -> Document {
    Document::Sequence(items)
}

fn texts(items: &[&str]) -> Document {
    l(items.iter().map(|i| t(i)).collect())
}

fn entry(label: &str) -> (String, Document) {
    (label.to_string(), m(vec![("tag", t(label))]))
}

fn singbox_template() -> Document {
    m(vec![
        ("log", m(vec![("level", t("info"))])),
        (
            "outbounds",
            l(vec![
                m(vec![
                    ("type", t("selector")),
                    ("tag", t("proxy")),
                    ("outbounds", texts(&["auto", "{all}", "direct"])),
                ]),
                m(vec![("type", t("urltest")), ("tag", t("auto")), ("outbounds", texts(&["{all}"]))]),
                m(vec![("type", t("direct")), ("tag", t("direct"))]),
            ]),
        ),
        ("route", m(vec![("final", t("proxy"))])),
    ])
}

#[test]
fn entries_go_behind_the_two_leading_outbounds() {
    let merged = merge_outbounds(&singbox_template(), &vec![entry("a"), entry("b")]);
    assert_eq!(
        merged,
        m(vec![
            ("log", m(vec![("level", t("info"))])),
            (
                "outbounds",
                l(vec![
                    m(vec![
                        ("type", t("selector")),
                        ("tag", t("proxy")),
                        ("outbounds", texts(&["auto", "a", "b", "direct"])),
                    ]),
                    m(vec![
                        ("type", t("urltest")),
                        ("tag", t("auto")),
                        ("outbounds", texts(&["a", "b"])),
                    ]),
                    m(vec![("tag", t("a"))]),
                    m(vec![("tag", t("b"))]),
                    m(vec![("type", t("direct")), ("tag", t("direct"))]),
                ]),
            ),
            ("route", m(vec![("final", t("proxy"))])),
        ])
    );
}

#[test]
fn entries_without_a_label_are_left_out_but_keep_their_position() {
    let list = vec![t("x"), t("y"), t("z"), t("w")];
    let entries = vec![entry("a"), (String::new(), Document::Null), entry("c")];
    assert_eq!(
        insert_entries(list, &entries),
        vec![t("x"), t("y"), m(vec![("tag", t("a"))]), t("z"), m(vec![("tag", t("c"))]), t("w")]
    );
    assert_eq!(collect_labels(&entries, true), vec!["a".to_string(), "c".to_string()]);
    assert_eq!(
        collect_labels(&entries, false),
        vec!["a".to_string(), String::new(), "c".to_string()]
    );
}

#[test]
fn a_short_list_takes_the_entries_at_its_end() {
    assert_eq!(
        insert_entries(vec![], &vec![entry("a"), entry("b")]),
        vec![m(vec![("tag", t("a"))]), m(vec![("tag", t("b"))])]
    );
    assert_eq!(
        insert_entries(vec![t("x")], &vec![entry("a")]),
        vec![t("x"), m(vec![("tag", t("a"))])]
    );
}

#[test]
fn the_marker_is_replaced_where_it_stands() {
    let labels = vec!["a".to_string(), "b".to_string()];
    let members = vec![t("auto"), t("{all}"), t("direct")];
    assert_eq!(find_marker(&members, "{all}"), 1);
    assert_eq!(find_marker(&members, "s01"), 3);
    assert_eq!(
        splice_labels(members, "{all}", &labels),
        vec![t("auto"), t("a"), t("b"), t("direct")]
    );
    assert_eq!(splice_labels(vec![t("{all}")], "{all}", &vec![]), Vec::<Document>::new());
    let untouched = vec![t("auto"), Document::Number("1".to_string())];
    assert_eq!(splice_labels(untouched.clone(), "{all}", &labels), untouched);
    assert_eq!(
        splice_labels(vec![t("s01"), t("x"), t("s01")], "s01", &labels),
        vec![t("a"), t("b"), t("x"), t("s01")]
    );
}

#[test]
fn no_label_is_put_in_twice() {
    let entries = vec![entry("a"), entry("b"), entry("c")];
    let merged = merge_outbounds(&singbox_template(), &entries);
    let outbounds = match &merged {
        Document::Mapping(fields) => fields[find_key(fields, "outbounds")].1.clone(),
        _ => Document::Null,
    };
    let groups = match outbounds {
        Document::Sequence(items) => items,
        _ => vec![],
    };
    assert_eq!(groups.len(), 6);
    for group in &groups[0..2] {
        let members = match group {
            Document::Mapping(fields) => match &fields[find_key(fields, "outbounds")].1 {
                Document::Sequence(members) => members.clone(),
                _ => vec![],
            },
            _ => vec![],
        };
        for label in ["a", "b", "c"] {
            assert_eq!(members.iter().filter(|d| **d == t(label)).count(), 1);
        }
        assert!(!members.contains(&t("{all}")));
        let again = fill_group(group, "outbounds", "{all}", &vec!["a".to_string()], false);
        assert_eq!(&again, group);
    }
}

#[test]
fn a_template_of_another_shape_is_left_as_it_is() {
    let entries = vec![entry("a")];
    for template in [
        Document::Null,
        t("text"),
        l(vec![t("x")]),
        m(vec![("log", t("x"))]),
        m(vec![("outbounds", t("not a list"))]),
    ] {
        assert_eq!(merge_outbounds(&template, &entries), template);
        assert_eq!(merge_proxies(&template, &entries), template);
    }
    let group_without_list = m(vec![("outbounds", l(vec![t("{all}"), m(vec![("outbounds", t("{all}"))])]))]);
    assert_eq!(
        merge_outbounds(&group_without_list, &vec![]),
        group_without_list
    );
}

fn clash_template() -> Document {
    m(vec![
        ("port", Document::Number("7890".to_string())),
        ("proxies", l(vec![m(vec![("name", t("old"))])])),
        (
            "proxy-groups",
            l(vec![
                m(vec![("name", t("g")), ("proxies", texts(&["auto", "s01", "DIRECT"]))]),
                m(vec![("name", t("h")), ("proxies", texts(&["DIRECT"]))]),
                m(vec![("name", t("u")), ("use", texts(&["s01"]))]),
            ]),
        ),
        ("rules", texts(&["MATCH,g"])),
    ])
}

#[test]
fn proxies_are_replaced_and_groups_with_the_marker_filled() {
    let entries = vec![entry("a"), entry("b")];
    let merged = merge_proxies(&clash_template(), &entries);
    assert_eq!(
        merged,
        m(vec![
            ("port", Document::Number("7890".to_string())),
            ("proxies", l(vec![m(vec![("tag", t("a"))]), m(vec![("tag", t("b"))])])),
            (
                "proxy-groups",
                l(vec![
                    m(vec![("name", t("g")), ("proxies", texts(&["auto", "a", "b", "DIRECT"]))]),
                    m(vec![("name", t("h")), ("proxies", texts(&["DIRECT"]))]),
                    m(vec![("name", t("u")), ("use", texts(&["s01"]))]),
                ]),
            ),
            ("rules", texts(&["MATCH,g"])),
        ])
    );
}

#[test]
fn clash_template_is_merged_in_place_from_json_payloads() {
    let mut template = clash_template();
    add_clash_template(
        &mut template,
        vec![
            ("a".to_string(), "{\"name\": \"a\", \"port\": 443}".to_string()),
            ("b".to_string(), "no json".to_string()),
        ],
    );
    let expected = merge_proxies(
        &clash_template(),
        &vec![
            (
                "a".to_string(),
                m(vec![("name", t("a")), ("port", Document::Number("443".to_string()))]),
            ),
            ("b".to_string(), Document::Null),
        ],
    );
    assert_eq!(template, expected);
}

#[test]
fn singbox_template_is_printed_with_the_entries_merged_in() {
    let template = parse_json(
        "{\"outbounds\": [{\"tag\": \"proxy\", \"outbounds\": [\"{all}\"]}, {\"tag\": \"direct\"}]}",
    )
    .unwrap();
    let text = add_singbox_template(
        template,
        vec![
            ("a".to_string(), "{\"tag\": \"a\"}".to_string()),
            (String::new(), "{\"tag\": \"skipped\"}".to_string()),
            ("c".to_string(), "broken".to_string()),
        ],
    );
    assert_eq!(
        text,
        "{\n  \"outbounds\": [\n    {\n      \"outbounds\": [\n        \"a\",\n        \"c\"\n      ],\n      \"tag\": \"proxy\"\n    },\n    {\n      \"tag\": \"direct\"\n    },\n    {\n      \"tag\": \"a\"\n    },\n    null\n  ]\n}"
    );
}

#[test]
fn payloads_are_read_as_json_or_stand_as_null() {
    let parsed = parse_entries(&vec![
        ("a".to_string(), "[1, \"x\", null, true]".to_string()),
        ("b".to_string(), "{".to_string()),
    ]);
    assert_eq!(
        parsed,
        vec![
            (
                "a".to_string(),
                l(vec![
                    Document::Number("1".to_string()),
                    t("x"),
                    Document::Null,
                    Document::Bool(true)
                ])
            ),
            ("b".to_string(), Document::Null),
        ]
    );
}

#[test]
fn every_later_marker_of_a_group_is_taken_out() {
    let labels = vec!["a".to_string(), "s01".to_string()];
    assert_eq!(
        splice_every(&vec![t("x"), t("s01"), t("y"), t("s01"), t("z"), t("s01")], "s01", &labels),
        vec![t("x"), t("a"), t("s01"), t("y"), t("z")]
    );
    assert_eq!(
        splice_every(&vec![t("x"), Document::Null], "s01", &labels),
        vec![t("x"), Document::Null]
    );
    let template = m(vec![(
        "proxy-groups",
        l(vec![m(vec![("proxies", texts(&["s01", "DIRECT", "s01"]))])]),
    )]);
    assert_eq!(
        merge_proxies(&template, &vec![entry("a"), entry("b")]),
        m(vec![("proxy-groups", l(vec![m(vec![("proxies", texts(&["a", "b", "DIRECT"]))])]))])
    );
    let group = m(vec![("outbounds", texts(&["{all}", "x", "{all}"]))]);
    assert_eq!(
        fill_group(&group, "outbounds", "{all}", &vec!["a".to_string()], false),
        m(vec![("outbounds", texts(&["a", "x", "{all}"]))])
    );
    assert_eq!(
        fill_group(&group, "outbounds", "{all}", &vec!["a".to_string()], true),
        m(vec![("outbounds", texts(&["a", "x"]))])
    );
}
