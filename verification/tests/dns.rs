use blackhole::dns::config::{resolve_providers, resolve_transport, DnsConfig};
use blackhole::dns::error::DnsError;
use blackhole::dns::leak::{check, enforce_on_leak, fmt_ips, Enforcement, CONTROL_DOMAIN};
use blackhole::dns::relay::{build_response, DnsQuestion, QueryType, ResponseCode, ResponsePlan, ANSWER_TTL};
use blackhole::dns::resolver::{reject_bogus, DnsRecord, EncryptedResolver, Provider, Transport};
use blackhole::dns::system_dns::{
    default_interface, default_interface_alias, force_via_dot, force_via_relay, ps_quote,
    resolvectl_failure, server_candidates_of, set_dns_script, words_of,
};
use blackhole::kill_switch::guard::GuardState;
use blackhole::net::{ipv4_to_string, IpAddress};

#[test]
fn resolve_providers_prefers_cli_over_config_over_default() {
    let no_config = DnsConfig::default();
    let config_wants_quad9 = DnsConfig { providers: Some(vec![Provider::Quad9]), ..Default::default() };

    assert_eq!(resolve_providers(None, &no_config), vec![Provider::Cloudflare]);
    assert_eq!(resolve_providers(None, &config_wants_quad9), vec![Provider::Quad9]);
    assert_eq!(resolve_providers(Some(vec![Provider::Mullvad]), &config_wants_quad9), vec![Provider::Mullvad]);
}

#[test]
fn resolve_transport_prefers_cli_over_config_over_default() {
    let no_config = DnsConfig::default();
    let config_wants_dot = DnsConfig { transport: Some(Transport::Dot), ..Default::default() };

    assert_eq!(resolve_transport(None, &no_config), Transport::Doh);
    assert_eq!(resolve_transport(None, &config_wants_dot), Transport::Dot);
    assert_eq!(resolve_transport(Some(Transport::Doh), &config_wants_dot), Transport::Doh);
}

#[test]
fn empty_provider_list_is_rejected_at_construction() {
    match EncryptedResolver::new(&[], Transport::Doh) {
        Err(DnsError::Resolve(_)) => {}
        other => panic!("expected DnsError::Resolve, got: {}", other.is_ok()),
    }
}

fn record(name: &str, bogus: bool, ip: Option<IpAddress>) -> DnsRecord {
    DnsRecord { name: name.to_string(), bogus, ip }
}

#[test]
fn bogus_dnssec_answers_are_rejected_naming_the_record() {
    let ok = vec![record("example.com.", false, Some(IpAddress::V4(93, 184, 216, 34)))];
    assert!(reject_bogus(&ok, "example.com").is_ok());
    let bad = vec![
        record("example.com.", false, None),
        record("evil.example.com.", true, None),
        record("x.example.com.", true, None),
    ];
    match reject_bogus(&bad, "example.com") {
        Err(DnsError::DnssecValidationFailed { name, detail }) => {
            assert_eq!(name, "example.com");
            assert_eq!(
                detail,
                "record 'evil.example.com.' has DNSSEC proof Bogus (signature or chain of trust invalid)"
            );
        }
        other => panic!("unexpected {other:?}"),
    }
}

#[test]
fn failover_tries_every_provider_once_and_sticks_to_the_one_that_answered() {
    let mut resolver =
        EncryptedResolver::new(&[Provider::Cloudflare, Provider::Quad9, Provider::Mullvad], Transport::Dot).unwrap();
    assert_eq!(resolver.provider(), Provider::Cloudflare);
    assert_eq!(resolver.transport(), Transport::Dot);

    let mut r = resolver.start_resolution();
    let (idx, p) = resolver.next_provider(&r).unwrap();
    assert_eq!((idx, p), (0, Provider::Cloudflare));
    let got = resolver.on_lookup(&mut r, idx, "example.com", Err(DnsError::Resolve("timeout".to_string())));
    assert!(got.is_none());
    let (idx, p) = resolver.next_provider(&r).unwrap();
    assert_eq!((idx, p), (1, Provider::Quad9));
    let answer = vec![record("example.com.", false, Some(IpAddress::V4(93, 184, 216, 34)))];
    let got = resolver.on_lookup(&mut r, idx, "example.com", Ok(answer)).unwrap();
    assert_eq!(got, vec![IpAddress::V4(93, 184, 216, 34)]);
    assert_eq!(resolver.provider(), Provider::Quad9);

    let mut r = resolver.start_resolution();
    let mut seen = Vec::new();
    while let Some((idx, p)) = resolver.next_provider(&r) {
        seen.push(p);
        assert!(resolver.on_lookup(&mut r, idx, "example.com", Err(DnsError::Resolve(format!("{idx}")))).is_none());
    }
    assert_eq!(seen, vec![Provider::Quad9, Provider::Mullvad, Provider::Cloudflare]);
    match EncryptedResolver::failed(r) {
        DnsError::Resolve(m) => assert_eq!(m, "0"),
        other => panic!("unexpected {other:?}"),
    }
}

#[test]
fn all_providers_failing_is_reported_not_silently_swallowed() {
    let mut resolver = EncryptedResolver::new(&[Provider::Cloudflare, Provider::Quad9], Transport::Doh).unwrap();
    let mut r = resolver.start_resolution();
    let (idx, _) = resolver.next_provider(&r).unwrap();
    resolver.on_lookup(&mut r, idx, "example.com", Err(DnsError::Resolve("down".to_string())));
    let (idx, _) = resolver.next_provider(&r).unwrap();
    let bogus = vec![record("example.com.", true, None)];
    assert!(resolver.on_lookup(&mut r, idx, "example.com", Ok(bogus)).is_none());
    assert!(resolver.next_provider(&r).is_none());
    assert!(matches!(EncryptedResolver::failed(r), DnsError::DnssecValidationFailed { .. }));
}

#[test]
fn leak_check_flags_unexpected_resolvers_and_allows_loopback() {
    let resolver = EncryptedResolver::new(&[Provider::Cloudflare, Provider::Quad9], Transport::Doh).unwrap();
    let active = vec![
        IpAddress::V4(127, 0, 0, 53),
        IpAddress::V4(9, 9, 9, 9),
        IpAddress::V4(192, 168, 1, 1),
        IpAddress::V6(0, 0, 0, 0, 0, 0, 0, 1),
    ];
    let report = check(&resolver, &Vec::new(), active, Some(12));
    assert_eq!(report.provider, Provider::Cloudflare);
    assert_eq!(
        report.expected_servers,
        vec![IpAddress::V4(1, 1, 1, 1), IpAddress::V4(1, 0, 0, 1), IpAddress::V4(9, 9, 9, 9)]
    );
    assert_eq!(report.leaking_servers, vec![IpAddress::V4(192, 168, 1, 1)]);
    assert!(report.encrypted_resolver_reachable);
    assert!(report.leak_detected);

    let clean = check(&resolver, &vec![IpAddress::V4(10, 0, 0, 53)], vec![IpAddress::V4(10, 0, 0, 53)], Some(3));
    assert!(!clean.leak_detected);
    let unreachable = check(&resolver, &Vec::new(), Vec::new(), None);
    assert!(unreachable.leak_detected);
    assert!(!unreachable.encrypted_resolver_reachable);
    assert_eq!(CONTROL_DOMAIN, "example.com");
}

#[test]
fn leaks_always_enforce_the_kill_switch() {
    let resolver = EncryptedResolver::single(Provider::Mullvad, Transport::Dot);
    let leak = check(&resolver, &Vec::new(), vec![IpAddress::V4(8, 8, 8, 8)], Some(5));
    let clean = check(&resolver, &Vec::new(), vec![IpAddress::V4(194, 242, 2, 2)], Some(5));
    assert_eq!(enforce_on_leak(&clean, GuardState::Enabled), Enforcement::Nothing);
    assert_eq!(enforce_on_leak(&leak, GuardState::Disabled), Enforcement::Enable);
    assert_eq!(enforce_on_leak(&leak, GuardState::Faulted), Enforcement::Enable);
    assert_eq!(enforce_on_leak(&leak, GuardState::Enabled), Enforcement::ResetThenEnable);
    assert_eq!(enforce_on_leak(&leak, GuardState::Enabling), Enforcement::LeaveInFlight);
}

#[test]
fn leak_report_renders_every_field() {
    let resolver = EncryptedResolver::single(Provider::Quad9, Transport::Doh);
    let report = check(&resolver, &Vec::new(), vec![IpAddress::V4(192, 168, 1, 1)], Some(42));
    let text = report.render(
        &vec!["9.9.9.9".to_string()],
        &vec!["192.168.1.1".to_string()],
        &vec!["192.168.1.1".to_string()],
    );
    assert!(text.starts_with("provider:           Quad9 (9.9.9.9)\n"));
    assert!(text.contains("expected servers:   9.9.9.9\n"));
    assert!(text.contains("encrypted resolver: reachable (42 ms)\n"));
    assert!(text.contains("leak detected:      YES"));
    assert_eq!(fmt_ips(&Vec::new()), "(none)");
    assert_eq!(fmt_ips(&vec!["1.1.1.1".to_string(), "1.0.0.1".to_string()]), "1.1.1.1, 1.0.0.1");
    assert_eq!(ipv4_to_string(194, 242, 2, 2), "194.242.2.2");
}

#[test]
fn relay_answers_only_the_queried_family_and_servfails_on_error() {
    let ips = vec![IpAddress::V4(1, 2, 3, 4), IpAddress::V6(0x2001, 0xdb8, 0, 0, 0, 0, 0, 1), IpAddress::V4(5, 6, 7, 8)];
    let addresses = |r: &ResponsePlan| r.answers.iter().map(|a| a.address).collect::<Vec<_>>();
    let a = build_response(7, 0, &question(QueryType::A), &Ok(ips.clone()));
    assert_eq!(a.id, 7);
    assert_eq!(a.response_code, ResponseCode::NoError);
    assert_eq!(addresses(&a), vec![IpAddress::V4(1, 2, 3, 4), IpAddress::V4(5, 6, 7, 8)]);
    assert!(a.answers.iter().all(|r| r.name == "example.com." && r.ttl == 60));
    assert_eq!(a.question.name, "example.com.");
    assert_eq!(a.question.query_type, QueryType::A);
    let aaaa = build_response(8, 0, &question(QueryType::Aaaa), &Ok(ips.clone()));
    assert_eq!(addresses(&aaaa), vec![IpAddress::V6(0x2001, 0xdb8, 0, 0, 0, 0, 0, 1)]);
    let other = build_response(9, 0, &question(QueryType::Other), &Ok(ips));
    assert_eq!(other.response_code, ResponseCode::ServFail);
    assert!(other.answers.is_empty());
    let failed = build_response(10, 2, &question(QueryType::A), &Err(DnsError::Resolve("x".to_string())));
    assert_eq!(failed.response_code, ResponseCode::ServFail);
    assert_eq!(failed.op_code, 2);
    assert!(failed.answers.is_empty());
    assert_eq!(failed.question.name, "example.com.");
    assert_eq!(ANSWER_TTL, 60);
}

fn question(query_type: QueryType) -> DnsQuestion {
    DnsQuestion { name: "example.com.".to_string(), query_type }
}

#[test]
fn system_resolver_output_is_parsed() {
    assert_eq!(words_of("  a \t b\nc  "), vec!["a", "b", "c"]);
    assert_eq!(
        server_candidates_of("Global:\nLink 2 (eth0): 192.168.1.1 10.0.0.1\nLink 3 (wg0):\n"),
        vec!["192.168.1.1", "10.0.0.1"]
    );
    assert_eq!(default_interface("default via 192.168.1.1 dev eth0 proto dhcp metric 100\n").unwrap(), "eth0");
    assert!(matches!(default_interface("nothing here"), Err(DnsError::SystemConfig(_))));
    assert_eq!(default_interface_alias("  Wi-Fi \r\n").unwrap(), "Wi-Fi");
    assert!(default_interface_alias("   ").is_err());
}

#[test]
fn system_resolver_commands_are_built() {
    let (dns, tls) = force_via_dot(Provider::Cloudflare, "eth0");
    assert_eq!(dns, vec!["dns", "eth0", "1.1.1.1", "1.0.0.1"]);
    assert_eq!(tls, vec!["dnsovertls", "eth0", "yes"]);
    let (dns, tls) = force_via_relay("eth0", "127.0.0.53");
    assert_eq!(dns, vec!["dns", "eth0", "127.0.0.53"]);
    assert_eq!(tls, vec!["dnsovertls", "eth0", "no"]);
    match resolvectl_failure(&vec!["dns".to_string(), "eth0".to_string()], "denied") {
        DnsError::SystemConfig(m) => assert_eq!(m, "resolvectl dns eth0 failed: denied"),
        other => panic!("unexpected {other:?}"),
    }
    assert_eq!(ps_quote("Bob's Wi-Fi"), "Bob''s Wi-Fi");
    assert_eq!(
        set_dns_script("Bob's", "127.0.0.1"),
        "Set-DnsClientServerAddress -InterfaceAlias 'Bob''s' -ServerAddresses ('127.0.0.1')"
    );
}
