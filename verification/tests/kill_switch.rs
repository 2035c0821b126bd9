use blackhole::kill_switch::error::BlackholeError;
use blackhole::kill_switch::guard::GuardState;
use blackhole::kill_switch::linux::{
    apply_ruleset_outcome, default_ruleset_path, delete_table_outcome, ruleset, LinuxGuard,
};
use blackhole::kill_switch::tor::{PermitTarget, TorStatus};
use blackhole::kill_switch::tor_control::{
    authenticate_command, check_authenticate_reply, check_newnym_reply, parse_bootstrap_reply,
    reply_line, reply_ok,
};
use blackhole::kill_switch::tor_subprocess::{
    arg_value, check_tor_version, control_port_addr, version_from_output, locate_tor_binary, parse_tor_version,
    version_below, BinarySearch, ConfiguredBinary, SubprocessConfig, DEFAULT_CONTROL_PORT,
    DEFAULT_SOCKS_PORT, MIN_TOR_VERSION, NO_TOR_BINARY_MESSAGE,
};
use blackhole::kill_switch::windows::{
    apply_rules_plan, clear_plan, permit_exe_path, FilterAction, WfpStep, WindowsGuard,
    FILTER_APP_V6, SUBLAYER_KEY,
};
use std::path::PathBuf;

#[test]
fn parses_real_tor_version_string() {
    assert_eq!(parse_tor_version("Tor version 0.4.8.13.\nThis is experimental software.\n"), Some((0, 4, 8)));
}

#[test]
fn parses_version_with_git_suffix() {
    assert_eq!(parse_tor_version("Tor version 0.4.9.1-alpha (git-abcdef1234).\n"), Some((0, 4, 9)));
}

#[test]
fn unparseable_output_is_none_not_a_panic() {
    assert_eq!(parse_tor_version("command not found"), None);
    assert_eq!(parse_tor_version(""), None);
}

#[test]
fn min_version_floor_rejects_old_versions() {
    assert!((0, 4, 7) < MIN_TOR_VERSION);
    assert!((0, 4, 8) >= MIN_TOR_VERSION);
    assert!((0, 5, 0) >= MIN_TOR_VERSION);
}

#[test]
fn version_ordering_is_lexicographic() {
    assert!(version_below((0, 4, 7), MIN_TOR_VERSION));
    assert!(!version_below((0, 4, 8), MIN_TOR_VERSION));
    assert!(!version_below((1, 0, 0), MIN_TOR_VERSION));
    assert!(version_below((0, 3, 99), (0, 4, 0)));
}

#[test]
fn old_tor_is_refused_with_the_versions_named() {
    assert!(check_tor_version("/usr/bin/tor", (0, 4, 8)).is_ok());
    match check_tor_version("/usr/bin/tor", (0, 4, 7)) {
        Err(BlackholeError::Tor(m)) => {
            assert!(m.contains("0.4.7"));
            assert!(m.contains("0.4.8"));
            assert!(m.contains("/usr/bin/tor"));
        }
        other => panic!("unexpected {other:?}"),
    }
}

#[test]
fn locate_tor_binary_reports_explicit_path_that_does_not_exist() {
    let search = BinarySearch {
        explicit: Some(ConfiguredBinary {
            path: PathBuf::from("/nonexistent/tor"),
            shown: "/nonexistent/tor".to_string(),
            is_file: false,
        }),
        on_path: Some(PathBuf::from("/usr/bin/tor")),
        browser_candidates: Vec::new(),
    };
    assert!(matches!(locate_tor_binary(search), Err(BlackholeError::Tor(_))));
}

#[test]
fn locate_tor_binary_searches_path_then_browser_installs() {
    let on_path = BinarySearch {
        explicit: None,
        on_path: Some(PathBuf::from("/usr/bin/tor")),
        browser_candidates: vec![(PathBuf::from("/opt/tb/tor"), true)],
    };
    assert_eq!(locate_tor_binary(on_path).unwrap(), PathBuf::from("/usr/bin/tor"));
    let browser = BinarySearch {
        explicit: None,
        on_path: None,
        browser_candidates: vec![(PathBuf::from("/opt/a/tor"), false), (PathBuf::from("/opt/b/tor"), true)],
    };
    assert_eq!(locate_tor_binary(browser).unwrap(), PathBuf::from("/opt/b/tor"));
    let none = BinarySearch { explicit: None, on_path: None, browser_candidates: Vec::new() };
    match locate_tor_binary(none) {
        Err(BlackholeError::Tor(m)) => assert_eq!(m, NO_TOR_BINARY_MESSAGE),
        other => panic!("unexpected {other:?}"),
    }
}

#[test]
fn subprocess_defaults_and_argument_lookup() {
    let config = SubprocessConfig::with_data_dir(PathBuf::from("/tmp/tor-data"));
    assert_eq!(config.socks_port, DEFAULT_SOCKS_PORT);
    assert_eq!(config.control_port, DEFAULT_CONTROL_PORT);
    let args = vec!["--SocksPort".to_string(), "19050".to_string(), "--ControlPort".to_string(), "19051".to_string()];
    assert_eq!(arg_value(&args, "--ControlPort"), Some("19051".to_string()));
    assert_eq!(arg_value(&args, "--DataDirectory"), None);
    assert_eq!(control_port_addr("127.0.0.1:19051"), "127.0.0.1:19051");
}

#[test]
fn control_port_replies_are_checked() {
    assert_eq!(authenticate_command(&[0x00, 0xab, 0x10]), "AUTHENTICATE 00ab10");
    assert!(reply_ok("250 OK"));
    assert!(!reply_ok("515 Authentication failed"));
    assert_eq!(reply_line("250 OK\r\n").unwrap(), "250 OK");
    assert!(matches!(reply_line(""), Err(BlackholeError::Tor(_))));
    assert!(check_authenticate_reply("250 OK").is_ok());
    match check_authenticate_reply("515 Bad") {
        Err(BlackholeError::Tor(m)) => assert_eq!(m, "tor control AUTHENTICATE failed: 515 Bad"),
        other => panic!("unexpected {other:?}"),
    }
    assert!(check_newnym_reply("250 OK").is_ok());
    assert!(check_newnym_reply("552 Unrecognized").is_err());
}

#[test]
fn bootstrap_phase_reply_is_read() {
    let data = "250-status/bootstrap-phase=NOTICE BOOTSTRAP PROGRESS=100 TAG=done SUMMARY=\"Done\"";
    let (percent, ready, blocked) = parse_bootstrap_reply(data, "250 OK").unwrap();
    assert_eq!(percent, 100);
    assert!(ready);
    assert_eq!(blocked, None);

    let warn = "250-status/bootstrap-phase=WARN BOOTSTRAP PROGRESS=10 TAG=conn SUMMARY=\"x\"";
    let (percent, ready, blocked) = parse_bootstrap_reply(warn, "250 OK").unwrap();
    assert_eq!(percent, 10);
    assert!(!ready);
    assert_eq!(blocked, None);

    let err = "250-status/bootstrap-phase=NOTICE BOOTSTRAP PROGRESS=5 TAG=conn WARNING=x ERR here";
    let (_, _, blocked) = parse_bootstrap_reply(err, "250 OK").unwrap();
    assert_eq!(blocked, Some(err.to_string()));

    assert!(matches!(parse_bootstrap_reply(data, "551 nope"), Err(BlackholeError::Tor(_))));
}

#[test]
fn nftables_ruleset_is_default_drop_with_three_exceptions() {
    let r = ruleset(1000);
    assert_eq!(
        r,
        "table inet blackhole {\n    chain output {\n        type filter hook output priority 0; policy drop;\n        oif \"lo\" accept\n        ct state established,related accept\n        meta skuid 1000 accept\n    }\n}\n"
    );
}

#[test]
fn linux_guard_lifecycle_and_status() {
    let mut guard = LinuxGuard::with_ruleset_path(PathBuf::from("/tmp/rules.nft"));
    assert_eq!(guard.ruleset_path(), &PathBuf::from("/tmp/rules.nft"));
    assert_eq!(guard.current(), GuardState::Disabled);
    // Tor is only started by the first enable: no progress to report before it.
    let before = guard.status(false, 42, TorStatus { bootstrap_percent: 55, ready_for_traffic: false, blocked_reason: None });
    assert_eq!(before.tor_bootstrap_percent, None);
    assert_eq!(before.state, GuardState::Disabled);
    assert!(guard.check_new_identity().is_err());
    let rules = guard.begin_enable(42).unwrap();
    assert!(rules.contains("meta skuid 42 accept"));
    assert_eq!(guard.current(), GuardState::Enabling);
    assert!(guard.begin_enable(42).is_err());
    guard.finish_enable(true);
    assert_eq!(guard.current(), GuardState::Enabled);
    assert!(guard.check_new_identity().is_ok());

    let tor = TorStatus { bootstrap_percent: 80, ready_for_traffic: false, blocked_reason: None };
    let s = guard.status(true, 42, tor.clone());
    assert_eq!(s.state, GuardState::Enabled);
    assert_eq!(s.tor_bootstrap_percent, Some(80));
    assert_eq!(s.allowed_egress, Some("uid 42".to_string()));
    assert_eq!(s.detail, None);
    let s = guard.status(false, 42, tor);
    assert_eq!(s.state, GuardState::Faulted);
    assert!(s.detail.is_some());

    guard.begin_disable().unwrap();
    guard.finish_disable(true);
    assert_eq!(guard.current(), GuardState::Disabled);
}

#[test]
fn ruleset_path_honours_an_override() {
    assert_eq!(default_ruleset_path(Some(PathBuf::from("/x/y.nft"))), PathBuf::from("/x/y.nft"));
    assert_eq!(
        LinuxGuard::new(None).ruleset_path(),
        &PathBuf::from("/etc/blackhole/nftables.rules")
    );
}

#[test]
fn nft_command_outcomes() {
    assert!(apply_ruleset_outcome(true, String::new(), String::new()).is_ok());
    assert!(matches!(
        apply_ruleset_outcome(false, "exit status: 1".to_string(), "syntax error".to_string()),
        Err(BlackholeError::CommandFailed { .. })
    ));
    assert!(delete_table_outcome(true, String::new(), String::new()).is_ok());
}

#[test]
fn windows_plans_put_blocks_before_permits() {
    let clear = clear_plan();
    assert_eq!(clear.last(), Some(&WfpStep::DeleteSublayer(SUBLAYER_KEY)));
    // Disabling removes every filter enabling adds, the IPv6 app permit included.
    assert!(clear.contains(&WfpStep::DeleteFilter(FILTER_APP_V6)));
    let apply = apply_rules_plan();
    assert_eq!(&apply[..clear.len()], &clear[..]);
    let actions: Vec<FilterAction> = apply
        .iter()
        .filter_map(|s| match s {
            WfpStep::AddFilter(f) => Some(f.action),
            _ => None,
        })
        .collect();
    assert_eq!(
        actions,
        vec![FilterAction::Block, FilterAction::Block, FilterAction::Permit, FilterAction::Permit, FilterAction::Permit]
    );
    assert!(apply.iter().any(|s| matches!(s, WfpStep::AddFilter(f) if f.key == FILTER_APP_V6)));
}

#[test]
fn windows_guard_hands_out_plans_in_order() {
    let mut guard = WindowsGuard::new();
    let plan = guard.begin_enable().unwrap();
    assert_eq!(plan, apply_rules_plan());
    guard.finish_enable(false);
    assert_eq!(guard.current(), GuardState::Faulted);
    let plan = guard.begin_disable().unwrap();
    assert_eq!(plan, clear_plan());
    guard.finish_disable(true);
    assert_eq!(guard.current(), GuardState::Disabled);
}

#[test]
fn permit_target_picks_the_executable() {
    let me = Ok(PathBuf::from("/usr/bin/blackhole"));
    assert_eq!(permit_exe_path(PermitTarget::ThisProcess, me).unwrap(), PathBuf::from("/usr/bin/blackhole"));
    let child = PermitTarget::ChildProcess(PathBuf::from("C:/tor/tor.exe"));
    assert_eq!(
        permit_exe_path(child, Err(BlackholeError::Platform("x".to_string()))).unwrap(),
        PathBuf::from("C:/tor/tor.exe")
    );
}

#[test]
fn unparsable_version_output_is_refused_naming_the_output() {
    assert_eq!(version_from_output("/usr/bin/tor", "Tor version 0.4.8.13.\n").unwrap(), (0, 4, 8));
    match version_from_output("/usr/bin/tor", "garbage\n") {
        Err(BlackholeError::Tor(m)) => assert_eq!(
            m,
            "could not parse a version number out of '/usr/bin/tor --version' output: \"garbage\\n\""
        ),
        other => panic!("unexpected {other:?}"),
    }
}
