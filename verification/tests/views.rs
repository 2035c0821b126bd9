use blackhole::cookies::config::set_enabled_flag;
use blackhole::cookies::error::CookiesError;
use blackhole::dashboard::app::{App, DnsInfo, Key, KillSwitchInfo, ModuleState, Snapshot, TorInfo};
use blackhole::dashboard::live::{
    dns_info, kill_switch_info, module_missing, panic_banner, panic_banner_no_guard,
    panic_needs_enable, setup_failed, tor_info, wants_exit_ip, PANIC_SUCCESS_BANNER,
};
use blackhole::dashboard::ui::{
    banner_area, banner_tone, danger_color, draw_dns, draw_help, draw_kill_switch, draw_tor,
    header_line, initializing_paragraph, unavailable_paragraph, Emphasis, PanelBody, TextSpan, Tone,
};
use blackhole::dashboard::app::Danger;
use blackhole::dns::error::DnsError;
use blackhole::dns::leak::check;
use blackhole::dns::resolver::{EncryptedResolver, Provider, Transport};
use blackhole::fingerprint::error::FingerprintError;
use blackhole::kill_switch::error::BlackholeError;
use blackhole::kill_switch::guard::{GuardState, GuardStatus};
use blackhole::kill_switch::tor::{exit_ip_body, TorStatus, EXIT_IP_REQUEST};
use blackhole::kill_switch::tor_subprocess::{arg_value, check_child_running, subprocess_status, tor_args};
use blackhole::net::IpAddress;
use blackhole::status::{guard_lines, panic_fails, status_lines};

fn texts(line: &[TextSpan]) -> Vec<(String, Emphasis)> {
    line.iter().map(|s| (s.text.clone(), s.emphasis)).collect()
}

fn lines_of(p: &PanelBody) -> Vec<Vec<(String, Emphasis)>> {
    match p {
        PanelBody::Lines(l) | PanelBody::Gauge { lines: l, .. } => l.iter().map(|l| texts(l)).collect(),
        PanelBody::Message { .. } => Vec::new(),
    }
}

fn plain(s: &str) -> (String, Emphasis) {
    (s.to_string(), Emphasis::Plain)
}

#[test]
fn header_shows_the_overall_danger() {
    let line = header_line(&Snapshot::default());
    assert_eq!(
        texts(&line),
        vec![
            (" BlackHole ".to_string(), Emphasis::Badge(Tone::Yellow)),
            plain("  "),
            ("WARNING".to_string(), Emphasis::Bold(Tone::Yellow)),
        ]
    );
    assert_eq!(danger_color(Danger::Danger), Tone::Red);
}

#[test]
fn module_panels_for_missing_and_starting_modules() {
    let p = unavailable_paragraph("DNS", "boom");
    assert_eq!(p.border, Tone::Gray);
    match p.body {
        PanelBody::Message { text, tone } => {
            assert_eq!(text, "module non détecté\n\nboom");
            assert_eq!(tone, Tone::Gray);
        }
        other => panic!("unexpected {other:?}"),
    }
    let p = initializing_paragraph("Tor");
    assert_eq!(p.title, "Tor");
    assert_eq!(p.border, Tone::Yellow);
    let p = draw_kill_switch(&ModuleState::Initializing);
    assert!(matches!(p.body, PanelBody::Message { .. }));
}

#[test]
fn kill_switch_panel_colors_the_state() {
    let info = KillSwitchInfo { state: "faulted".to_string(), allowed_egress: None };
    let p = draw_kill_switch(&ModuleState::Ready(info));
    assert_eq!(p.border, Tone::Red);
    assert_eq!(
        lines_of(&p.body),
        vec![
            vec![plain("state:   "), ("faulted".to_string(), Emphasis::Bold(Tone::Red))],
            vec![plain("egress:  (unknown)")],
        ]
    );
    let info = KillSwitchInfo { state: "enabled".to_string(), allowed_egress: Some("uid 7".to_string()) };
    let p = draw_kill_switch(&ModuleState::Ready(info));
    assert_eq!(p.border, Tone::Green);
    assert_eq!(lines_of(&p.body)[1], vec![plain("egress:  uid 7")]);
}

#[test]
fn tor_panel_shows_progress_and_exit() {
    let info = TorInfo { bootstrap_percent: 42, ready_for_traffic: false, exit_ip: None };
    let p = draw_tor(&ModuleState::Ready(info), None);
    assert_eq!(p.border, Tone::Yellow);
    match &p.body {
        PanelBody::Gauge { percent, label, .. } => {
            assert_eq!(*percent, 42);
            assert_eq!(label, "42%");
        }
        other => panic!("unexpected {other:?}"),
    }
    assert_eq!(lines_of(&p.body), vec![vec![plain("status:   bootstrapping")], vec![plain("exit ip:  (unknown)")]]);
    let info = TorInfo { bootstrap_percent: 100, ready_for_traffic: true, exit_ip: Some(IpAddress::V4(185, 1, 2, 3)) };
    let p = draw_tor(&ModuleState::Ready(info), Some("185.1.2.3".to_string()));
    assert_eq!(p.border, Tone::Green);
    assert_eq!(lines_of(&p.body), vec![vec![plain("status:   connected")], vec![plain("exit ip:  185.1.2.3")]]);
}

#[test]
fn dns_panel_lists_leaking_servers() {
    let info = DnsInfo {
        provider: "Quad9 (9.9.9.9)".to_string(),
        leak_detected: true,
        leaking_servers: vec![IpAddress::V4(192, 168, 1, 1), IpAddress::V4(8, 8, 8, 8)],
        latency_ms: Some(31),
    };
    let p = draw_dns(&ModuleState::Ready(info), &vec!["192.168.1.1".to_string(), "8.8.8.8".to_string()]);
    assert_eq!(p.border, Tone::Red);
    assert_eq!(
        lines_of(&p.body),
        vec![
            vec![plain("resolver: Quad9 (9.9.9.9)")],
            vec![plain("leak:     "), ("YES".to_string(), Emphasis::Bold(Tone::Red))],
            vec![plain("latency:  31 ms")],
            vec![plain("via:      192.168.1.1, 8.8.8.8")],
        ]
    );
    let quiet = DnsInfo { provider: "x".to_string(), leak_detected: false, leaking_servers: Vec::new(), latency_ms: None };
    let p = draw_dns(&ModuleState::Ready(quiet), &Vec::new());
    assert_eq!(p.border, Tone::Green);
    assert_eq!(lines_of(&p.body).len(), 3);
    assert_eq!(lines_of(&p.body)[2], vec![plain("latency:  (n/a)")]);
}

#[test]
fn help_line_and_banner() {
    assert_eq!(texts(&draw_help(true)), vec![(" triggering panic mode... ".to_string(), Emphasis::Badge(Tone::Red))]);
    assert_eq!(draw_help(false).len(), 4);
    assert_eq!(banner_tone("PANIC MODE FAILED: x"), Tone::Red);
    assert_eq!(banner_tone(PANIC_SUCCESS_BANNER), Tone::Green);
    assert_eq!(banner_area(0, 0, 80, 24), (10, 9, 60, 5));
    assert_eq!(banner_area(0, 0, 10, 3), (0, 0, 20, 5));
    assert_eq!(banner_area(2, 1, 40, 10), (4, 3, 36, 5));
}

#[test]
fn keys_quit_and_start_panic_mode() {
    let mut app = App::new();
    assert!(!app.on_key(Key::Char('x')));
    assert!(!app.should_quit);
    assert!(app.on_key(Key::Char('P')));
    assert!(app.panic_in_flight);
    app.on_snapshot(Snapshot::default(), 10);
    assert!(!app.panic_in_flight);
    assert_eq!(app.last_updated, Some(10));
    assert!(!app.on_key(Key::Esc));
    assert!(app.should_quit);
    let mut other = App::new();
    other.on_input_closed();
    assert!(other.should_quit);
}

#[test]
fn live_modules_become_panels() {
    let status = GuardStatus {
        state: GuardState::Enabled,
        tor_bootstrap_percent: Some(100),
        allowed_egress: Some("uid 1".to_string()),
        detail: None,
    };
    match kill_switch_info(Ok(status.clone())) {
        ModuleState::Ready(k) => {
            assert_eq!(k.state, "enabled");
            assert_eq!(k.allowed_egress.as_deref(), Some("uid 1"));
        }
        other => panic!("unexpected {other:?}"),
    }
    match kill_switch_info(Err("denied".to_string())) {
        ModuleState::Unavailable(r) => assert_eq!(r, "status query failed: denied"),
        other => panic!("unexpected {other:?}"),
    }
    let booting = TorStatus { bootstrap_percent: 30, ready_for_traffic: false, blocked_reason: None };
    assert!(!wants_exit_ip(&booting));
    match tor_info(booting, Some(IpAddress::V4(1, 2, 3, 4))) {
        ModuleState::Ready(t) => assert_eq!(t.exit_ip, None),
        other => panic!("unexpected {other:?}"),
    }
    let resolver = EncryptedResolver::single(Provider::Cloudflare, Transport::Doh);
    let report = check(&resolver, &Vec::new(), vec![IpAddress::V4(1, 1, 1, 1)], Some(9));
    match dns_info(Ok(report)) {
        ModuleState::Ready(d) => {
            assert_eq!(d.provider, "Cloudflare (1.1.1.1)");
            assert!(!d.leak_detected);
            assert_eq!(d.latency_ms, Some(9));
        }
        other => panic!("unexpected {other:?}"),
    }
    assert_eq!(module_missing("blackhole-dns", "no providers"), "blackhole-dns module non détecté: no providers");
    let (k, t) = setup_failed("tor down");
    assert!(matches!(k, ModuleState::Unavailable(ref r) if r == "tor down"));
    assert!(matches!(t, ModuleState::Unavailable(ref r) if r == "tor down"));
}

#[test]
fn panic_mode_enables_unless_already_enabled() {
    let enabled = GuardStatus { state: GuardState::Enabled, tor_bootstrap_percent: None, allowed_egress: None, detail: None };
    let faulted = GuardStatus { state: GuardState::Faulted, ..enabled.clone() };
    assert!(!panic_needs_enable(&Ok(enabled)));
    assert!(panic_needs_enable(&Ok(faulted)));
    assert!(panic_needs_enable(&Err("x".to_string())));
    assert_eq!(panic_banner(Ok(())), "PANIC MODE: kill switch forced ON.");
    assert_eq!(panic_banner(Err("nft failed".to_string())), "PANIC MODE FAILED: nft failed");
    assert_eq!(panic_banner_no_guard("e"), "PANIC MODE FAILED: kill switch module non détecté (e)");
    assert!(panic_fails(&panic_banner(Err("x".to_string()))));
    assert!(!panic_fails(&panic_banner(Ok(()))));
}

#[test]
fn aggregate_status_reports_each_module_on_its_own() {
    let status = GuardStatus {
        state: GuardState::Faulted,
        tor_bootstrap_percent: Some(55),
        allowed_egress: Some("uid 0".to_string()),
        detail: Some("table missing".to_string()),
    };
    assert_eq!(
        guard_lines(Ok(Ok(status))),
        vec!["state:          faulted", "tor bootstrap:  55%", "allowed egress: uid 0", "detail:         table missing"]
    );
    let lines = status_lines(
        Err("no tor".to_string()),
        Ok("provider: x".to_string()),
        Ok(Some(("2023-11-14 22:13:20 UTC".to_string(), 88))),
    );
    assert_eq!(
        lines,
        vec![
            "=== BlackHole status ===",
            "",
            "-- Kill switch + Tor (blackhole-core) --",
            "unavailable: could not start Tor backend: no tor",
            "",
            "-- DNS (blackhole-dns) --",
            "provider: x",
            "",
            "-- Fingerprint (blackhole-fingerprint), last recorded scan --",
            "last scan: 2023-11-14 22:13:20 UTC (score 88/100)",
            "(run `blackhole scan` for a fresh check, or `blackhole scan diff` to compare the two most recent)",
        ]
    );
    let lines = status_lines(Ok(Err("q".to_string())), Err("d".to_string()), Ok(None));
    assert_eq!(lines[3], "unavailable: status query failed: q");
    assert_eq!(lines[6], "unavailable: d");
    assert_eq!(lines[9], "no scan recorded yet; run `blackhole scan` first.");
}

#[test]
fn error_messages_match_their_variants() {
    let e = BlackholeError::InvalidTransition { action: "enable", state: GuardState::Enabling };
    assert_eq!(e.to_string(), "cannot enable while guard is enabling");
    let e = BlackholeError::CommandFailed { command: "nft -f -".to_string(), status: "1".to_string(), stderr: "bad".to_string() };
    assert_eq!(e.to_string(), "external command 'nft -f -' failed (status 1): bad");
    assert_eq!(BlackholeError::Tor("x".to_string()).to_string(), "tor orchestration error: x");
    let d = DnsError::Guard(BlackholeError::Platform("p".to_string()));
    assert_eq!(d.to_string(), "kill switch integration error: firewall backend error: p");
    assert_eq!(
        DnsError::DnssecValidationFailed { name: "a".to_string(), detail: "b".to_string() }.to_string(),
        "DNSSEC validation failed for 'a': b"
    );
    assert_eq!(FingerprintError::History("h".to_string()).to_string(), "scan history error: h");
    assert_eq!(CookiesError::Ca("c".to_string()).to_string(), "certificate authority error: c");
}

#[test]
fn tor_child_command_line_and_status() {
    let args = tor_args(19050, 19051, "/var/lib/bh");
    assert_eq!(
        args,
        vec![
            "--SocksPort", "127.0.0.1:19050", "--ControlPort", "127.0.0.1:19051", "--CookieAuthentication", "1",
            "--DataDirectory", "/var/lib/bh", "--RunAsDaemon", "0", "--ClientOnly", "1",
        ]
    );
    assert_eq!(arg_value(&args, "--ControlPort"), Some("127.0.0.1:19051".to_string()));
    let down = subprocess_status(Some("exit status: 1".to_string()), Ok((100, true, None)));
    assert_eq!(down.bootstrap_percent, 0);
    assert_eq!(down.blocked_reason.as_deref(), Some("tor subprocess exited unexpectedly (status: exit status: 1)"));
    let up = subprocess_status(None, Ok((80, false, Some("slow".to_string()))));
    assert_eq!((up.bootstrap_percent, up.ready_for_traffic), (80, false));
    let err = subprocess_status(None, Err("refused".to_string()));
    assert_eq!(err.blocked_reason.as_deref(), Some("refused"));
    assert!(check_child_running(None).is_ok());
    assert!(matches!(check_child_running(Some("x".to_string())), Err(BlackholeError::Tor(_))));
}

#[test]
fn exit_address_is_read_from_the_response_body() {
    assert!(EXIT_IP_REQUEST.starts_with("GET / HTTP/1.1\r\nHost: api.ipify.org\r\n"));
    assert_eq!(exit_ip_body("HTTP/1.1 200 OK\r\nA: b\r\n\r\n 185.220.101.4 \n"), "185.220.101.4");
    assert_eq!(exit_ip_body("HTTP/1.1 200 OK\r\n\r\nx\r\n\r\n1.2.3.4"), "1.2.3.4");
    assert_eq!(exit_ip_body("no blank line"), "");
}

#[test]
fn enabling_edits_only_the_cookies_flag() {
    assert_eq!(set_enabled_flag("", true), "\n[cookies]\nenabled = true\n");
    assert_eq!(set_enabled_flag("[dns]\nx = 1", false), "[dns]\nx = 1\n\n[cookies]\nenabled = false\n");
    assert_eq!(
        set_enabled_flag("[dns]\nenabled = 1\n[cookies]\nenabled = false\nproxy_port = 1\n[x]\n", true),
        "[dns]\nenabled = 1\n[cookies]\nenabled = true\nproxy_port = 1\n[x]\n"
    );
    assert_eq!(set_enabled_flag("[cookies]\nproxy_port = 1\n[x]\nenabled = 1\n", true), "[cookies]\nenabled = true\nproxy_port = 1\n[x]\nenabled = 1\n");
    assert_eq!(set_enabled_flag("[cookies]\nenabled = true", false), "[cookies]\nenabled = true\nenabled = false\n");
}
