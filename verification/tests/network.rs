use sandboxd::dns::{dns_error_response, parse_a_records, parse_question, RCODE_REFUSED};
use sandboxd::egress::{
    add_nft_domain_element, apply_policy, clear_policy, finish_dns_query, handle_dns_query,
    render_policy_script, DnsStep, DomainRegistry, PolicyStep,
};
use sandboxd::model::{
    EgressMode, NetworkPolicy, NetworkProtocol, NetworkRule, NetworkRuleKind,
};
use sandboxd::netaddr::{cidr_overlaps, parse_ipv4, parse_ipv4_cidr, Ipv4};

fn ip(s: &str) -> Ipv4 {
    parse_ipv4(s).unwrap()
}

fn allow(values: &[&str]) -> NetworkPolicy {
    NetworkPolicy {
        egress: EgressMode::Allowlist,
        allow: values.iter().map(|v| NetworkRule::from_value(v)).collect(),
        deny: vec![],
    }
}

fn query(name: &[&str]) -> Vec<u8> {
    let mut p = vec![0x12, 0x34, 0x01, 0x00, 0, 1, 0, 0, 0, 0, 0, 0];
    for label in name {
        p.push(label.len() as u8);
        p.extend_from_slice(label.as_bytes());
    }
    p.extend_from_slice(&[0, 0, 1, 0, 1]);
    p
}

#[test]
fn renders_none_policy_as_drop_chain() {
    let policy = NetworkPolicy { egress: EgressMode::Closed, allow: vec![], deny: vec![] };
    let script = render_policy_script("sb_test", ip("10.200.0.2"), &policy).unwrap();
    assert!(script.contains("add chain inet sandboxd wd_sb_test"));
    assert!(script.contains("ip saddr 10.200.0.2 jump wd_sb_test"));
    assert!(script.contains("add rule inet sandboxd wd_sb_test drop"));
}

#[test]
fn renders_allowlist_domain_sets_and_dns_guard() {
    let policy = NetworkPolicy {
        egress: EgressMode::Allowlist,
        allow: vec![NetworkRule {
            kind: NetworkRuleKind::Domain,
            value: "*.example.com".into(),
            protocol: Some(NetworkProtocol::Tcp),
            ports: vec![443],
        }],
        deny: vec![],
    };
    let script = render_policy_script("sb_test", ip("10.200.0.2"), &policy).unwrap();
    assert!(script.contains("add set inet sandboxd wd_sb_test_d0"));
    assert!(script.contains("ip daddr 10.200.0.1 udp dport 53 accept"));
    assert!(script.contains("ip daddr @wd_sb_test_d0 tcp dport 443 accept"));
    assert!(script.trim_end().ends_with("drop"));
}

#[test]
fn parses_a_records_from_compressed_dns_response() {
    let packet = [
        0x12, 0x34, 0x81, 0x80, 0x00, 0x01, 0x00, 0x01, 0x00, 0x00, 0x00, 0x00, 0x07, b'e', b'x',
        b'a', b'm', b'p', b'l', b'e', 0x03, b'c', b'o', b'm', 0x00, 0x00, 0x01, 0x00, 0x01, 0xc0,
        0x0c, 0x00, 0x01, 0x00, 0x01, 0x00, 0x00, 0x00, 0x3c, 0x00, 0x04, 93, 184, 216, 34,
    ];
    assert_eq!(parse_a_records(&packet), vec![Ipv4(93, 184, 216, 34)]);
}

#[test]
fn network_rule_shorthand_infers_cidr_or_domain() {
    let cidr = NetworkRule::from_value("93.184.216.34");
    assert_eq!(cidr.kind, NetworkRuleKind::Cidr);
    assert_eq!(cidr.value, "93.184.216.34");

    let domain = NetworkRule::from_value("API.OpenAI.com");
    assert_eq!(domain.kind, NetworkRuleKind::Domain);
    assert_eq!(domain.value, "api.openai.com");
}

#[test]
fn network_policy_rejects_invalid_mode_shapes() {
    let none_with_allow = NetworkPolicy {
        egress: EgressMode::Closed,
        allow: vec![NetworkRule::from_value("example.com")],
        deny: vec![],
    };
    assert!(none_with_allow.validate().is_err());

    let empty_allowlist =
        NetworkPolicy { egress: EgressMode::Allowlist, allow: vec![], deny: vec![] };
    assert!(empty_allowlist.validate().is_err());
}

#[test]
fn network_policy_rejects_urls_and_unsafe_wildcards() {
    for value in ["https://example.com", "example.com/path", "*", "api.*.com"] {
        let policy = NetworkPolicy {
            egress: EgressMode::Allowlist,
            allow: vec![NetworkRule::from_parts(
                Some(NetworkRuleKind::Domain),
                value,
                None,
                vec![],
            )],
            deny: vec![],
        };
        assert!(policy.validate().is_err(), "{value} should be invalid");
    }
}

#[test]
fn allowlist_rejects_private_or_metadata_cidrs() {
    for value in ["10.0.0.0/8", "192.168.1.1", "169.254.169.254"] {
        let policy = NetworkPolicy {
            egress: EgressMode::Allowlist,
            allow: vec![NetworkRule::from_parts(
                Some(NetworkRuleKind::Cidr),
                value,
                None,
                vec![],
            )],
            deny: vec![],
        };
        assert!(policy.validate().is_err(), "{value} should be hard-denied");
    }
}

#[test]
fn addresses_and_ranges_are_read() {
    assert_eq!(ip("10.200.0.2").show(), "10.200.0.2");
    assert!(parse_ipv4("10.200.0").is_none());
    assert!(parse_ipv4("10.200.0.256").is_none());
    let (a, p) = parse_ipv4_cidr("192.168.0.0/16").unwrap();
    assert_eq!((a.show().as_str(), p), ("192.168.0.0", 16));
    assert!(parse_ipv4_cidr("192.168.0.0/33").is_none());
    assert!(cidr_overlaps(ip("10.0.0.0"), 8, ip("10.1.2.3"), 32));
    assert!(!cidr_overlaps(ip("10.0.0.0"), 8, ip("11.1.2.3"), 32));
}

#[test]
fn a_question_is_read_and_refused() {
    let q = query(&["api", "example", "com"]);
    let parsed = parse_question(&q).unwrap();
    assert_eq!(parsed.name, "api.example.com");
    let answer = dns_error_response(&q, RCODE_REFUSED).unwrap();
    assert_eq!(&answer[0..2], &q[0..2]);
    assert_eq!(answer[3] & 0x0f, RCODE_REFUSED);
    assert!(parse_question(&q[0..5]).is_none());
}

#[test]
fn allowlisted_names_are_forwarded_and_others_are_not() {
    let mut reg = DomainRegistry::new();
    let policy = allow(&["*.example.com"]);
    reg.register_domain_rules("sb_1", ip("10.200.0.2"), &policy);
    assert!(reg.has_allowlist_policy(ip("10.200.0.2")));
    assert!(!reg.has_allowlist_policy(ip("10.200.0.3")));
    let good = handle_dns_query(&reg, &query(&["api", "example", "com"]), Some(ip("10.200.0.2")));
    match good {
        DnsStep::Forward { sets, .. } => {
            assert_eq!(sets, vec!["wd_sb_1_d0".to_string()])
        }
        _ => panic!("an allowed name is forwarded"),
    }
    let bad = handle_dns_query(&reg, &query(&["evil", "test"]), Some(ip("10.200.0.2")));
    assert!(!matches!(bad, DnsStep::Forward { .. }));
    reg.unregister_domain_rules("sb_1");
    assert!(!reg.has_allowlist_policy(ip("10.200.0.2")));
}

#[test]
fn a_name_that_cannot_be_resolved_gets_an_error() {
    let q = query(&["api", "example", "com"]);
    let (elements, reply) = finish_dns_query(&q, &vec!["wd_sb_1_d0".to_string()], false, None);
    assert!(elements.is_empty());
    assert_eq!(reply[3] & 0x0f, 2);
}

#[test]
fn nft_commands_are_exact() {
    let argv = add_nft_domain_element("wd_sb_1_d0", ip("93.184.216.34"), 60);
    assert_eq!(
        argv.join(" "),
        "add element inet sandboxd wd_sb_1_d0 { 93.184.216.34 timeout 60s }"
    );
    let cleared = clear_policy("sb_1", "");
    assert!(!cleared.is_empty());
    match apply_policy("sb_1", "nonsense", &allow(&["1.2.3.4"]), true).unwrap() {
        PolicyStep::Fail(why) => assert_eq!(why, "parse guest IP nonsense"),
        other => panic!("{other:?}"),
    }
    match apply_policy("sb_1", "10.200.0.2", &allow(&["1.2.3.4"]), true).unwrap() {
        PolicyStep::Run { source_ip, script } => {
            assert_eq!(source_ip, ip("10.200.0.2"));
            assert!(script.contains("1.2.3.4"));
        }
        other => panic!("{other:?}"),
    }
    assert!(apply_policy("sb_1", "10.200.0.2", &allow(&["10.0.0.0/8"]), true).is_err());
}
