use subconverter::pool::{
    candidates_of, extend_all_nodes, select_from, selecting_config_of_node, Node, Proxy,
    SelectError, SelectedNode,
};

fn node(prefix: &str) -> Node {
    Node {
        remarks_prefix: prefix.to_string(),
        uuid: Some(format!("uuid-{}", prefix)),
        password: Some(format!("pw-{}", prefix)),
        tls: None,
        host: format!("{}.example.com", prefix),
        server_name: None,
        path: "/".to_string(),
        random_ports: None,
    }
}

fn pool() -> Proxy {
    Proxy {
        vless: Some(vec![node("v1"), node("v2"), node("v3")]),
        trojan: Some(vec![node("t1"), node("t2")]),
        ss: Some(vec![node("s1")]),
        vmess: Some(vec![node("m1"), node("m2")]),
    }
}

#[test]
fn position_selects_the_node_in_declared_order() {
    let proxies = pool();
    for (kind, prefixes) in [
        ("vless", vec!["v1", "v2", "v3"]),
        ("trojan", vec!["t1", "t2"]),
        ("ss", vec!["s1"]),
        ("vmess", vec!["m1", "m2"]),
    ] {
        for (i, prefix) in prefixes.iter().enumerate() {
            for _ in 0..5 {
                let chosen =
                    selecting_config_of_node(&proxies, kind.to_string(), (i + 1) as u8).unwrap();
                assert_eq!(chosen.node_type, kind);
                assert_eq!(chosen.node, node(prefix));
            }
        }
    }
}

#[test]
fn any_kind_positions_follow_the_fixed_order_of_kinds() {
    let proxies = pool();
    let expected = [
        ("trojan", "t1"),
        ("trojan", "t2"),
        ("vless", "v1"),
        ("vless", "v2"),
        ("vless", "v3"),
        ("ss", "s1"),
        ("vmess", "m1"),
        ("vmess", "m2"),
    ];
    let all = extend_all_nodes(&proxies);
    assert_eq!(all.len(), expected.len());
    for (i, (kind, prefix)) in expected.iter().enumerate() {
        assert_eq!(all[i].node_type, *kind);
        assert_eq!(all[i].node, node(prefix));
        let chosen = selecting_config_of_node(&proxies, "".to_string(), (i + 1) as u8).unwrap();
        assert_eq!(chosen.node_type, *kind);
        assert_eq!(chosen.node, node(prefix));
        let other = selecting_config_of_node(&proxies, "http".to_string(), (i + 1) as u8).unwrap();
        assert_eq!(other, chosen);
    }
}

#[test]
fn out_of_range_position_draws_within_the_kind() {
    let proxies = pool();
    for position in [0u8, 4, 200] {
        for _ in 0..50 {
            let chosen = selecting_config_of_node(&proxies, "vless".to_string(), position).unwrap();
            assert_eq!(chosen.node_type, "vless");
            assert!(["v1", "v2", "v3"].contains(&chosen.node.remarks_prefix.as_str()));
        }
    }
}

#[test]
fn out_of_range_position_without_kind_draws_within_the_pool() {
    let proxies = pool();
    let all = extend_all_nodes(&proxies);
    let mut seen = std::collections::BTreeSet::new();
    for _ in 0..400 {
        let chosen = selecting_config_of_node(&proxies, "".to_string(), 0).unwrap();
        assert!(all.contains(&chosen));
        seen.insert(chosen.node.remarks_prefix.clone());
    }
    assert_eq!(seen.len(), 8);
}

#[test]
fn empty_kind_and_empty_pool_fail() {
    let proxies = Proxy { vless: Some(vec![]), trojan: None, ss: None, vmess: Some(vec![node("m")]) };
    assert_eq!(
        selecting_config_of_node(&proxies, "vless".to_string(), 1),
        Err(SelectError::EmptyPool)
    );
    assert_eq!(
        selecting_config_of_node(&proxies, "trojan".to_string(), 0),
        Err(SelectError::EmptyPool)
    );
    assert!(selecting_config_of_node(&proxies, "vmess".to_string(), 0).is_ok());
    assert!(selecting_config_of_node(&proxies, "".to_string(), 0).is_ok());
    let nothing = Proxy::default();
    assert_eq!(
        selecting_config_of_node(&nothing, "".to_string(), 1),
        Err(SelectError::EmptyPool)
    );
    assert!(extend_all_nodes(&nothing).is_empty());
}

#[test]
fn select_from_takes_the_position_before_the_draw() {
    let proxies = pool();
    let candidates = candidates_of(&proxies, "vless");
    assert_eq!(candidates.len(), 3);
    assert_eq!(select_from(&candidates, 2, 0).unwrap().node, node("v2"));
    assert_eq!(select_from(&candidates, 0, 2).unwrap().node, node("v3"));
    assert_eq!(select_from(&candidates, 4, 1).unwrap().node, node("v2"));
    assert_eq!(select_from(&candidates, 0, 3), Err(SelectError::EmptyPool));
    let none: Vec<SelectedNode> = Vec::new();
    assert_eq!(select_from(&none, 1, 0), Err(SelectError::EmptyPool));
}

#[test]
fn cloning_a_node_keeps_every_field() {
    let node = Node {
        remarks_prefix: "p".to_string(),
        uuid: Some("u".to_string()),
        password: None,
        tls: Some(false),
        host: "h".to_string(),
        server_name: Some("s".to_string()),
        path: "/x".to_string(),
        random_ports: Some(vec![1, 2, 3]),
    };
    assert_eq!(node.clone(), node);
}
