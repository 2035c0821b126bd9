//! The behaviours that the command-line program and its background loops
//! are built on, driven here through the library's decision functions with
//! in-memory stand-ins for the network, the firewall, the clock and files.

use blackhole::cookies::stats::{load_today, record, today, DailyStats};
use blackhole::dns::error::DnsError;
use blackhole::dns::leak::{enforce_on_leak, Enforcement, LeakReport};
use blackhole::dns::relay::{build_response, DnsQuestion, QueryType, ResponseCode};
use blackhole::dns::resolver::{reject_bogus, DnsRecord, EncryptedResolver, Provider, Transport};
use blackhole::fingerprint::scan::TickSchedule;
use blackhole::kill_switch::guard::GuardState;
use blackhole::kill_switch::linux::default_ruleset_path;
use blackhole::kill_switch::tor_control::{
    authenticate_command, check_authenticate_reply, check_newnym_reply, parse_bootstrap_reply, reply_line,
    BOOTSTRAP_QUERY, NEWNYM_COMMAND,
};
use blackhole::kill_switch::tor_subprocess::{check_child_running, subprocess_status};
use blackhole::net::IpAddress;
use std::path::PathBuf;

// ---- the local DNS relay ----

#[test]
fn resolve_failure_is_servfail_with_no_answers() {
    let result: Result<Vec<IpAddress>, DnsError> = Err(DnsError::Resolve("timed out".to_string()));
    let response = build_response(1234, 0, &DnsQuestion { name: "example.com.".to_string(), query_type: QueryType::A }, &result);

    assert_eq!(response.response_code, ResponseCode::ServFail);
    assert!(response.answers.is_empty());
}

#[test]
fn resolve_success_returns_matching_a_record() {
    let result: Result<Vec<IpAddress>, DnsError> = Ok(vec![IpAddress::V4(1, 2, 3, 4)]);
    let response = build_response(1234, 0, &DnsQuestion { name: "example.com.".to_string(), query_type: QueryType::A }, &result);

    assert_eq!(response.response_code, ResponseCode::NoError);
    assert_eq!(response.answers.len(), 1);
}

#[test]
fn address_family_mismatch_is_dropped_not_leaked_as_a_wrong_answer() {
    let result: Result<Vec<IpAddress>, DnsError> = Ok(vec![IpAddress::V6(0, 0, 0, 0, 0, 0, 0, 1)]);
    let response = build_response(1234, 0, &DnsQuestion { name: "example.com.".to_string(), query_type: QueryType::A }, &result);

    assert!(response.answers.is_empty());
}

#[test]
fn empty_resolve_result_is_a_plain_no_error_empty_response() {
    let result: Result<Vec<IpAddress>, DnsError> = Ok(vec![]);
    let response = build_response(1234, 0, &DnsQuestion { name: "example.com.".to_string(), query_type: QueryType::A }, &result);

    assert_eq!(response.response_code, ResponseCode::NoError);
    assert!(response.answers.is_empty());
}

// ---- DNSSEC screening and provider fallback ----

fn a_record(bogus: bool, ip: IpAddress) -> DnsRecord {
    DnsRecord { name: "example.com.".to_string(), bogus, ip: Some(ip) }
}

#[test]
fn secure_record_is_accepted() {
    let records = vec![a_record(false, IpAddress::V4(1, 2, 3, 4))];
    assert!(reject_bogus(&records, "example.com").is_ok());
}

#[test]
fn insecure_record_is_accepted_not_treated_as_an_error() {
    // An unsigned answer carries no `Bogus` proof: it is not an attack.
    let records = vec![a_record(false, IpAddress::V4(1, 2, 3, 4))];
    assert!(reject_bogus(&records, "example.com").is_ok());
}

#[test]
fn bogus_record_is_rejected() {
    let records = vec![a_record(true, IpAddress::V4(1, 2, 3, 4))];
    let err = reject_bogus(&records, "example.com").unwrap_err();
    assert!(matches!(err, DnsError::DnssecValidationFailed { .. }));
}

#[test]
fn one_bogus_record_among_others_still_rejects_the_whole_answer() {
    let records = vec![a_record(false, IpAddress::V4(1, 2, 3, 4)), a_record(true, IpAddress::V4(5, 6, 7, 8))];
    assert!(reject_bogus(&records, "example.com").is_err());
}

/// A provider as the network would answer it.
enum FakeBackend {
    Answers(IpAddress),
    Bogus,
    Fails,
}

impl FakeBackend {
    fn lookup(&self) -> Result<Vec<DnsRecord>, DnsError> {
        match self {
            FakeBackend::Answers(ip) => Ok(vec![a_record(false, *ip)]),
            FakeBackend::Bogus => Ok(vec![a_record(true, IpAddress::V4(0, 0, 0, 0))]),
            FakeBackend::Fails => Err(DnsError::Resolve("simulated network failure".to_string())),
        }
    }
}

/// One lookup of `name`, asking the providers in the order the resolver
/// names them, the way the relay and the leak check drive it.
fn resolve(resolver: &mut EncryptedResolver, backends: &[FakeBackend], name: &str) -> Result<Vec<IpAddress>, DnsError> {
    let mut resolution = resolver.start_resolution();
    loop {
        let Some((idx, _provider)) = resolver.next_provider(&resolution) else {
            return Err(EncryptedResolver::failed(resolution));
        };
        let outcome = backends[idx].lookup();
        if let Some(ips) = resolver.on_lookup(&mut resolution, idx, name, outcome) {
            return Ok(ips);
        }
    }
}

#[test]
fn healthy_primary_is_used_without_falling_back() {
    let mut resolver = EncryptedResolver::new(&[Provider::Cloudflare, Provider::Quad9], Transport::Doh).unwrap();
    let backends = [FakeBackend::Answers(IpAddress::V4(1, 1, 1, 1)), FakeBackend::Fails];

    let ips = resolve(&mut resolver, &backends, "example.com").unwrap();
    assert_eq!(ips, vec![IpAddress::V4(1, 1, 1, 1)]);
    assert_eq!(resolver.provider(), Provider::Cloudflare);
}

#[test]
fn failing_primary_falls_back_to_next_without_returning_its_answer() {
    let mut resolver = EncryptedResolver::new(&[Provider::Cloudflare, Provider::Quad9], Transport::Doh).unwrap();
    let backends = [FakeBackend::Fails, FakeBackend::Answers(IpAddress::V4(9, 9, 9, 9))];

    let ips = resolve(&mut resolver, &backends, "example.com").unwrap();
    assert_eq!(ips, vec![IpAddress::V4(9, 9, 9, 9)]);
    assert_eq!(resolver.provider(), Provider::Quad9);
}

#[test]
fn dnssec_bogus_primary_falls_back_same_as_a_network_failure() {
    let mut resolver = EncryptedResolver::new(&[Provider::Cloudflare, Provider::Quad9], Transport::Doh).unwrap();
    let backends = [FakeBackend::Bogus, FakeBackend::Answers(IpAddress::V4(9, 9, 9, 9))];

    let ips = resolve(&mut resolver, &backends, "example.com").unwrap();
    assert_eq!(ips, vec![IpAddress::V4(9, 9, 9, 9)]);
    assert_eq!(resolver.provider(), Provider::Quad9);
}

#[test]
fn subsequent_queries_start_from_the_provider_that_last_succeeded() {
    let mut resolver = EncryptedResolver::new(&[Provider::Cloudflare, Provider::Quad9], Transport::Doh).unwrap();
    let backends = [FakeBackend::Fails, FakeBackend::Answers(IpAddress::V4(9, 9, 9, 9))];

    resolve(&mut resolver, &backends, "example.com").unwrap();
    assert_eq!(resolver.provider(), Provider::Quad9);

    // The second lookup starts at Quad9, without failing Cloudflare again.
    let r = resolver.start_resolution();
    assert_eq!(resolver.next_provider(&r), Some((1, Provider::Quad9)));
    let ips = resolve(&mut resolver, &backends, "example.org").unwrap();
    assert_eq!(ips, vec![IpAddress::V4(9, 9, 9, 9)]);
    assert_eq!(resolver.provider(), Provider::Quad9);
}

// ---- what a detected leak does to the kill switch ----

/// A kill switch that records the calls made to it.
struct FakeGuard {
    state: GuardState,
    enable_calls: usize,
    disable_calls: usize,
}

impl FakeGuard {
    fn with_state(state: GuardState) -> Self {
        FakeGuard { state, enable_calls: 0, disable_calls: 0 }
    }

    fn enable(&mut self) {
        self.enable_calls += 1;
        self.state = GuardState::Enabled;
    }

    fn disable(&mut self) {
        self.disable_calls += 1;
        self.state = GuardState::Disabled;
    }

    /// Carry out what the library decides for `report`.
    fn enforce(&mut self, report: &LeakReport) {
        match enforce_on_leak(report, self.state) {
            Enforcement::Nothing | Enforcement::LeaveInFlight => {}
            Enforcement::Enable => self.enable(),
            Enforcement::ResetThenEnable => {
                self.disable();
                self.enable();
            }
        }
    }
}

fn leaking_report() -> LeakReport {
    LeakReport {
        provider: Provider::Cloudflare,
        expected_servers: vec![],
        active_servers: vec![IpAddress::V4(198, 51, 100, 1)],
        leaking_servers: vec![IpAddress::V4(198, 51, 100, 1)],
        encrypted_resolver_reachable: true,
        latency_ms: None,
        leak_detected: true,
    }
}

fn clean_report() -> LeakReport {
    LeakReport { leak_detected: false, leaking_servers: vec![], ..leaking_report() }
}

#[test]
fn no_leak_never_touches_the_guard() {
    let mut guard = FakeGuard::with_state(GuardState::Enabled);
    guard.enforce(&clean_report());
    assert_eq!(guard.enable_calls, 0);
    assert_eq!(guard.disable_calls, 0);
}

#[test]
fn leak_while_enabled_resets_to_a_known_clean_blocking_state() {
    let mut guard = FakeGuard::with_state(GuardState::Enabled);
    guard.enforce(&leaking_report());
    assert_eq!(guard.disable_calls, 1);
    assert_eq!(guard.enable_calls, 1);
    assert_eq!(guard.state, GuardState::Enabled);
}

#[test]
fn leak_while_disabled_enables_the_kill_switch() {
    let mut guard = FakeGuard::with_state(GuardState::Disabled);
    guard.enforce(&leaking_report());
    assert_eq!(guard.enable_calls, 1);
    assert_eq!(guard.state, GuardState::Enabled);
}

#[test]
fn leak_while_faulted_enables_rather_than_giving_up() {
    let mut guard = FakeGuard::with_state(GuardState::Faulted);
    guard.enforce(&leaking_report());
    assert_eq!(guard.enable_calls, 1);
    assert_eq!(guard.state, GuardState::Enabled);
}

#[test]
fn leak_during_in_flight_transition_does_not_race_it() {
    let mut guard = FakeGuard::with_state(GuardState::Enabling);
    guard.enforce(&leaking_report());
    assert_eq!(guard.enable_calls, 0);
    assert_eq!(guard.disable_calls, 0);
}

#[test]
fn unreachable_encrypted_resolver_alone_counts_as_a_leak() {
    let report = LeakReport {
        leaking_servers: vec![],
        encrypted_resolver_reachable: false,
        leak_detected: true,
        ..leaking_report()
    };
    let mut guard = FakeGuard::with_state(GuardState::Disabled);
    guard.enforce(&report);
    assert_eq!(guard.enable_calls, 1);
}

// ---- the periodic scan's schedule, on a simulated clock ----

/// The daemon loop as the program runs it, with `work_ms` of work per
/// tick, on a clock that only moves when work or sleep moves it. Returns
/// the time each tick finished.
fn run_ticks(interval_ms: u64, work_ms: u64, should_stop: impl Fn(usize) -> bool) -> Vec<u64> {
    let mut clock: u64 = 0;
    let mut schedule = TickSchedule::new(clock, interval_ms);
    let mut times = Vec::new();
    loop {
        if should_stop(times.len()) {
            return times;
        }
        clock += work_ms;
        times.push(clock);
        schedule.record_tick();
        clock += schedule.sleep_before_next(clock);
    }
}

#[test]
fn stops_promptly_when_should_stop_returns_true() {
    let ticks = run_ticks(1, 0, |n| n >= 3);
    assert_eq!(ticks.len(), 3);
}

#[test]
fn respects_the_configured_interval_across_several_ticks() {
    let interval = 20;
    let times = run_ticks(interval, 5, |n| n >= 5);
    assert_eq!(times.len(), 5);

    for pair in times.windows(2) {
        let gap = pair[1] - pair[0];
        assert!(gap <= interval + 15, "gap {gap} grew beyond the configured interval {interval}");
    }
    // Anchored to the start: tick n finishes at n * interval + work.
    assert_eq!(times, vec![5, 25, 45, 65, 85]);
}

// ---- the daily cookie counter ----

#[test]
fn missing_file_loads_as_zero_for_today() {
    let stats = load_today(None, today());
    assert_eq!(stats.cookies_randomized, 0);
    assert_eq!(stats.day, today());
}

#[test]
fn record_accumulates_across_calls_on_the_same_day() {
    let day = today();
    let first = record(None, day, 3);
    let stats = record(Some(first), day, 4);
    assert_eq!(stats.cookies_randomized, 7);
}

#[test]
fn a_stale_record_from_a_previous_day_resets_rather_than_accumulates() {
    let saved = DailyStats { day: 0, cookies_randomized: 999 };
    let stats = record(Some(saved), today(), 1);
    assert_eq!(stats.cookies_randomized, 1);
    assert_eq!(stats.day, today());
}

// ---- the kill switch's files and Tor's control port ----

#[test]
fn default_ruleset_path_honors_env_override() {
    assert_eq!(
        default_ruleset_path(Some(PathBuf::from("/tmp/custom-ruleset.rules"))),
        PathBuf::from("/tmp/custom-ruleset.rules")
    );
    assert_eq!(default_ruleset_path(None), PathBuf::from("/etc/blackhole/nftables.rules"));
}

#[test]
fn authenticates_and_reads_bootstrap_status() {
    assert!(authenticate_command(&[0xAB; 32]).starts_with("AUTHENTICATE "));
    assert!(check_authenticate_reply(&reply_line("250 OK\r\n").unwrap()).is_ok());
    assert_eq!(BOOTSTRAP_QUERY, "GETINFO status/bootstrap-phase");

    let data = reply_line(
        "250-status/bootstrap-phase=NOTICE BOOTSTRAP PROGRESS=100 TAG=done SUMMARY=\"Done\"\r\n",
    )
    .unwrap();
    let end = reply_line("250 OK\r\n").unwrap();
    let (percent, ready, blocked) = parse_bootstrap_reply(&data, &end).unwrap();

    assert_eq!(percent, 100);
    assert!(ready);
    assert!(blocked.is_none());
}

#[test]
fn authenticate_failure_is_reported_not_panicked() {
    let reply = reply_line("515 Authentication failed\r\n").unwrap();
    assert!(check_authenticate_reply(&reply).is_err());
}

#[test]
fn new_identity_sends_signal_newnym() {
    assert_eq!(NEWNYM_COMMAND, "SIGNAL NEWNYM");
    assert!(check_newnym_reply(&reply_line("250 OK\r\n").unwrap()).is_ok());
}

#[test]
fn bootstrap_in_progress_is_not_ready_and_not_blocked() {
    let data = reply_line(
        "250-status/bootstrap-phase=NOTICE BOOTSTRAP PROGRESS=42 TAG=handshake_dir SUMMARY=\"Handshaking\"\r\n",
    )
    .unwrap();
    let (percent, ready, blocked) = parse_bootstrap_reply(&data, "250 OK").unwrap();

    assert_eq!(percent, 42);
    assert!(!ready);
    assert!(blocked.is_none());
}

#[test]
fn reports_faulted_status_when_the_child_process_dies_unexpectedly() {
    // Healthy while the child runs.
    assert!(subprocess_status(None, Ok((100, true, None))).ready_for_traffic);
    assert!(check_child_running(None).is_ok());

    // Once it has exited, whatever the control port last said no longer counts.
    let exited = Some("signal: 9 (SIGKILL)".to_string());
    let status = subprocess_status(exited.clone(), Ok((100, true, None)));
    assert!(!status.ready_for_traffic, "must not report ready after the child died");
    assert!(status.blocked_reason.is_some(), "must explain that the child is gone");
    assert_eq!(
        status.blocked_reason.unwrap(),
        "tor subprocess exited unexpectedly (status: signal: 9 (SIGKILL))"
    );
    assert!(check_child_running(exited).is_err(), "must not claim success rotating identity on a dead backend");
}
