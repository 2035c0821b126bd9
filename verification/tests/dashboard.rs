use blackhole::dashboard::app::{
    App, Danger, DnsInfo, KillSwitchInfo, ModuleState, Snapshot, TorInfo, BANNER_LIFETIME_MS,
};
use blackhole::dashboard::data::{MockDataSource, MOCK_PANIC_BANNER, MOCK_PROVIDER};
use blackhole::mobile::{blackhole_ffi_self_test, blackhole_score_from_severities, Severity as FfiSeverity};
use blackhole::net::IpAddress;

fn ready_snapshot(guard_state: &str, leak: bool) -> Snapshot {
    Snapshot {
        kill_switch: ModuleState::Ready(KillSwitchInfo { state: guard_state.to_string(), allowed_egress: None }),
        tor: ModuleState::Ready(TorInfo { bootstrap_percent: 100, ready_for_traffic: true, exit_ip: None }),
        dns: ModuleState::Ready(DnsInfo {
            provider: "Quad9".to_string(),
            leak_detected: leak,
            leaking_servers: Vec::new(),
            latency_ms: Some(10),
        }),
        banner: None,
    }
}

#[test]
fn danger_levels_follow_the_worst_module() {
    assert_eq!(ready_snapshot("enabled", false).danger(), Danger::Protected);
    assert_eq!(ready_snapshot("enabled", true).danger(), Danger::Danger);
    assert_eq!(ready_snapshot("faulted", false).danger(), Danger::Danger);
    let mut s = ready_snapshot("enabled", false);
    s.tor = ModuleState::Unavailable("down".to_string());
    assert_eq!(s.danger(), Danger::Warning);
    assert_eq!(Snapshot::default().danger(), Danger::Warning);
    let mut s = ready_snapshot("enabled", false);
    s.dns = ModuleState::Initializing;
    assert_eq!(s.danger(), Danger::Warning);
    let mut s = ready_snapshot("enabled", false);
    s.tor = ModuleState::Initializing;
    assert_eq!(s.danger(), Danger::Warning);
}

#[test]
fn banners_last_their_lifetime_then_disappear() {
    let mut app = App::new();
    assert!(app.last_updated.is_none());
    let mut with_banner = ready_snapshot("enabled", false);
    with_banner.banner = Some("hello".to_string());
    app.apply(with_banner, 1_000);
    assert_eq!(app.banner_expires_at, Some(1_000 + BANNER_LIFETIME_MS));
    app.apply(ready_snapshot("enabled", false), 2_000);
    assert_eq!(app.snapshot.banner.as_deref(), Some("hello"));
    assert_eq!(app.last_updated, Some(2_000));
    app.expire_banner(5_999);
    assert_eq!(app.snapshot.banner.as_deref(), Some("hello"));
    app.expire_banner(6_000);
    assert_eq!(app.snapshot.banner, None);
    assert_eq!(app.banner_expires_at, None);
    app.apply(ready_snapshot("enabled", false), 7_000);
    assert_eq!(app.snapshot.banner, None);
}

#[test]
fn mock_data_drifts_and_leaks_every_ninth_poll() {
    let mut mock = MockDataSource::new();
    let s = mock.poll_with(60, 1, 2, 3, 20);
    match &s.tor {
        ModuleState::Ready(t) => {
            assert_eq!(t.bootstrap_percent, 60);
            assert!(!t.ready_for_traffic);
            assert_eq!(t.exit_ip, Some(IpAddress::V4(185, 1, 2, 3)));
        }
        other => panic!("unexpected {other:?}"),
    }
    let s = mock.poll_with(60, 1, 2, 3, 20);
    match &s.tor {
        ModuleState::Ready(t) => assert!(t.ready_for_traffic && t.bootstrap_percent == 100),
        other => panic!("unexpected {other:?}"),
    }
    let mut leaks = Vec::new();
    for _ in 0..16 {
        let s = mock.poll();
        match &s.dns {
            ModuleState::Ready(d) => {
                assert_eq!(d.provider, MOCK_PROVIDER);
                leaks.push(d.leak_detected);
            }
            other => panic!("unexpected {other:?}"),
        }
    }
    // Polls 3..=18: the 9th and 18th leak.
    assert_eq!(leaks.iter().filter(|l| **l).count(), 2);
    assert!(leaks[6] && leaks[15]);
    let s = mock.panic();
    assert_eq!(s.banner.as_deref(), Some(MOCK_PANIC_BANNER));
}

#[test]
fn empty_is_perfect_score() {
    assert_eq!(blackhole_score_from_severities(&[]), 100);
}

#[test]
fn matches_report_score_weights() {
    let severities = [3u32, 2, 1];
    assert_eq!(blackhole_score_from_severities(&severities), 58);
}

#[test]
fn clamps_at_zero() {
    let severities = [3u32; 10];
    assert_eq!(blackhole_score_from_severities(&severities), 0);
}

#[test]
fn unknown_severity_codes_cost_nothing() {
    assert_eq!(blackhole_score_from_severities(&[7, 0, 99]), 100);
    assert_eq!(FfiSeverity::High.code(), 3);
    assert!(blackhole_ffi_self_test());
}
