use subconverter::pool::Node;
use subconverter::ports::{
    decide_port, has_port, host_decides_class, is_plaintext, resolve, resolve_with_draw,
    PortDecision,
};
use subconverter::remark::compose;
use subconverter::text::{blank, decimal, ends_with, text_eq, white_space};

const HTTP_PORTS: [u16; 7] = [80, 8080, 8880, 2052, 2082, 2086, 2095];
const HTTPS_PORTS: [u16; 6] = [443, 2053, 2083, 2087, 2096, 8443];

fn node(host: &str, tls: Option<bool>, ports: Option<Vec<u16>>) -> Node {
    Node {
        remarks_prefix: String::new(),
        uuid: None,
        password: None,
        tls,
        host: host.to_string(),
        server_name: None,
        path: "/".to_string(),
        random_ports: ports,
    }
}

#[test]
fn compose_follows_the_four_rules() {
    assert_eq!(compose("", "", "h", 1), "h:1");
    assert_eq!(compose("A", "", "h", 1), "A|h:1");
    assert_eq!(compose("", "B", "h", 1), "B|h:1");
    assert_eq!(compose("A", "B", "h", 1), "BA|h:1");
    assert_eq!(compose("HKG", "cf-", "104.16.0.1", 65535), "cf-HKG|104.16.0.1:65535");
}

#[test]
fn a_source_tag_of_white_space_counts_as_absent() {
    assert_eq!(compose(" ", "", "h", 1), "h:1");
    assert_eq!(compose(" \t\u{3000}", "B", "h", 1), "B|h:1");
    assert_eq!(compose(" A ", "", "h", 1), " A |h:1");
    assert_eq!(compose(" A ", "B", "h", 1), "B A |h:1");
    assert_eq!(compose("", " ", "h", 1), " |h:1");
    assert_eq!(compose("A", " ", "h", 1), " A|h:1");
}

#[test]
fn white_space_is_what_the_standard_library_takes_for_it() {
    for code in 0..=0x10ffffu32 {
        if let Some(c) = char::from_u32(code) {
            assert_eq!(white_space(c), c.is_whitespace());
        }
    }
    assert!(blank(""));
    assert!(blank(" \n\t"));
    assert!(!blank(" a "));
    assert_eq!(blank(" \u{200b}"), " \u{200b}".trim().is_empty());
}

#[test]
fn decimal_renders_numbers() {
    assert_eq!(decimal(0), "0");
    assert_eq!(decimal(7), "7");
    assert_eq!(decimal(10), "10");
    assert_eq!(decimal(443), "443");
    assert_eq!(decimal(65535), "65535");
    assert_eq!(decimal(u64::MAX), "18446744073709551615");
}

#[test]
fn suffix_and_equality_of_texts() {
    assert!(ends_with("a.workers.dev", "workers.dev"));
    assert!(ends_with("workers.dev", "workers.dev"));
    assert!(!ends_with("orkers.dev", "workers.dev"));
    assert!(!ends_with("a.workers.dev.example.com", "workers.dev"));
    assert!(ends_with("anything", ""));
    assert!(text_eq("vless", "vless"));
    assert!(!text_eq("vless", "vmess"));
}

#[test]
fn plaintext_class_by_host_or_by_switch() {
    assert!(host_decides_class("vless"));
    assert!(host_decides_class("trojan"));
    assert!(host_decides_class("vmess"));
    assert!(!host_decides_class("ss"));
    assert!(is_plaintext("vless", "a.workers.dev", true));
    assert!(!is_plaintext("vless", "a.example.com", false));
    assert!(is_plaintext("ss", "a.example.com", false));
    assert!(!is_plaintext("ss", "a.workers.dev", true));
}

#[test]
fn caller_port_of_the_other_class_calls_for_a_retry() {
    assert_eq!(
        decide_port(&[80], &[443], 443, 0, 0),
        Some(PortDecision { port: 443, retry_needed: true })
    );
    assert_eq!(
        decide_port(&[80], &[443], 80, 0, 0),
        Some(PortDecision { port: 80, retry_needed: false })
    );
    assert_eq!(
        decide_port(&[80], &[443], 0, 443, 0),
        Some(PortDecision { port: 443, retry_needed: true })
    );
    assert_eq!(
        decide_port(&[80], &[443], 0, 8080, 0),
        Some(PortDecision { port: 8080, retry_needed: false })
    );
    assert_eq!(
        decide_port(&[80], &[443], 443, 443, 0),
        Some(PortDecision { port: 443, retry_needed: false })
    );
    assert_eq!(
        decide_port(&[80], &[443], 1234, 443, 0),
        Some(PortDecision { port: 1234, retry_needed: false })
    );
}

#[test]
fn random_port_is_drawn_from_the_primary_ports() {
    assert_eq!(
        decide_port(&[80, 8080], &[443], 0, 0, 1),
        Some(PortDecision { port: 8080, retry_needed: false })
    );
    assert_eq!(decide_port(&[80, 8080], &[443], 0, 0, 2), None);
    assert_eq!(decide_port(&[], &[443], 0, 0, 0), None);
    let plain = node("a.workers.dev", None, None);
    let tls = node("a.example.com", None, None);
    for _ in 0..100 {
        let decision = resolve(&plain, 0, 0, "vless", &HTTP_PORTS, &HTTPS_PORTS).unwrap();
        assert!(HTTP_PORTS.contains(&decision.port));
        assert!(!decision.retry_needed);
        let decision = resolve(&tls, 0, 0, "trojan", &HTTP_PORTS, &HTTPS_PORTS).unwrap();
        assert!(HTTPS_PORTS.contains(&decision.port));
        assert!(!decision.retry_needed);
    }
}

#[test]
fn explicit_ports_replace_the_primary_ports() {
    let own = node("a.example.com", None, Some(vec![1000, 2000]));
    for _ in 0..50 {
        let decision = resolve(&own, 0, 0, "vless", &HTTP_PORTS, &HTTPS_PORTS).unwrap();
        assert!(decision.port == 1000 || decision.port == 2000);
        assert!(!decision.retry_needed);
    }
    assert_eq!(
        resolve_with_draw(&own, 0, 0, "vless", &HTTP_PORTS, &HTTPS_PORTS, 1),
        Some(PortDecision { port: 2000, retry_needed: false })
    );
    assert_eq!(
        resolve(&own, 80, 0, "vless", &HTTP_PORTS, &HTTPS_PORTS),
        Some(PortDecision { port: 80, retry_needed: true })
    );
    let none = node("a.example.com", None, Some(vec![]));
    assert_eq!(resolve(&none, 0, 0, "vless", &HTTP_PORTS, &HTTPS_PORTS), None);
}

#[test]
fn ss_class_follows_its_own_switch() {
    let with_tls = node("a.workers.dev", Some(true), None);
    let without = node("a.example.com", Some(false), None);
    let silent = node("a.example.com", None, None);
    assert_eq!(
        resolve(&with_tls, 80, 0, "ss", &HTTP_PORTS, &HTTPS_PORTS),
        Some(PortDecision { port: 80, retry_needed: true })
    );
    assert_eq!(
        resolve(&without, 80, 0, "ss", &HTTP_PORTS, &HTTPS_PORTS),
        Some(PortDecision { port: 80, retry_needed: false })
    );
    assert_eq!(
        resolve(&without, 0, 443, "ss", &HTTP_PORTS, &HTTPS_PORTS),
        Some(PortDecision { port: 443, retry_needed: true })
    );
    assert_eq!(
        resolve(&silent, 0, 443, "ss", &HTTP_PORTS, &HTTPS_PORTS),
        Some(PortDecision { port: 443, retry_needed: false })
    );
}

#[test]
fn has_port_finds_members_only() {
    assert!(has_port(&HTTPS_PORTS, 8443));
    assert!(!has_port(&HTTPS_PORTS, 80));
    assert!(!has_port(&[], 80));
}
