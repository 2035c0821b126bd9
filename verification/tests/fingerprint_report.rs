use blackhole::fingerprint::error::FingerprintError;
use blackhole::fingerprint::history::{can_diff, change_report, fingerprint_status, latest_pair, HistoryDiff, ScanRecord};
use blackhole::fingerprint::report::{Category, Finding, Report, Severity};
use blackhole::fingerprint::scan::{nth_tick, run_scan, run_scan_command, scan_fails, ScanArgs, ScanPlan, TickSchedule};
use blackhole::mobile::{blackhole_ffi_self_test, blackhole_score_from_severities};

fn finding(severity: Severity) -> Finding {
    Finding::new(Category::NetworkIdentity, severity, "test")
}

#[test]
fn no_findings_scores_perfect() {
    assert_eq!(Report::new(vec![]).score(), 100);
}

#[test]
fn penalties_stack_and_floor_at_zero() {
    let report = Report::new(vec![finding(Severity::High); 10]);
    assert_eq!(report.score(), 0);
}

#[test]
fn score_matches_penalty_arithmetic() {
    let report = Report::new(vec![finding(Severity::Medium), finding(Severity::Low)]);
    assert_eq!(report.score(), 100 - 12 - 5);
}

#[test]
fn score_label_boundaries() {
    assert_eq!(Report::new(vec![]).score_label(), "well hardened");
    assert_eq!(
        Report::new(vec![finding(Severity::High), finding(Severity::Low)]).score_label(),
        "moderate exposure"
    );
    assert_eq!(
        Report::new(vec![finding(Severity::High), finding(Severity::High), finding(Severity::High)])
            .score_label(),
        "significant exposure"
    );
    assert_eq!(Report::new(vec![finding(Severity::High); 5]).score_label(), "highly traceable");
}

#[test]
fn category_score_is_scoped_to_that_category_only() {
    let report = Report::new(vec![
        Finding::new(Category::Telemetry, Severity::High, "telemetry bad"),
        Finding::new(Category::NetworkIdentity, Severity::Info, "identity fine"),
    ]);
    assert_eq!(report.category_score(Category::Telemetry), 75);
    assert_eq!(report.category_score(Category::NetworkIdentity), 100);
    assert_eq!(report.category_score(Category::Exposure), 100);
}

#[test]
fn display_sorts_most_severe_first() {
    let report = Report::new(vec![finding(Severity::Low), finding(Severity::High), finding(Severity::Info)]);
    let text = report.to_string();
    let high_pos = text.find("[HIGH]").unwrap();
    let low_pos = text.find("[LOW]").unwrap();
    let info_pos = text.find("[INFO]").unwrap();
    assert!(high_pos < low_pos);
    assert!(low_pos < info_pos);
}

#[test]
fn report_text_is_exact() {
    let report = Report::new(vec![
        Finding::new(Category::Telemetry, Severity::Medium, "diagtrack running").with_recommendation("disable it"),
        Finding::new(Category::Exposure, Severity::Info, "fine"),
    ]);
    assert_eq!(
        report.to_string(),
        "BlackHole Fingerprint Report\n============================\nscore: 88/100 (well hardened)\n\n\
         [MEDIUM] (OS telemetry) diagtrack running\n    -> disable it\n[INFO] (public exposure) fine\n"
    );
    assert_eq!(
        Report::new(vec![]).to_string(),
        "BlackHole Fingerprint Report\n============================\nscore: 100/100 (well hardened)\n\n(no findings)\n"
    );
}

#[test]
fn adding_a_finding_never_raises_the_score() {
    let mut findings = vec![finding(Severity::Low)];
    let before = Report::new(findings.clone()).score();
    findings.push(finding(Severity::Info));
    assert_eq!(Report::new(findings.clone()).score(), before);
    findings.push(finding(Severity::High));
    assert!(Report::new(findings).score() < before);
}

#[test]
fn category_score_is_never_below_the_overall_score() {
    let report = Report::new(vec![
        Finding::new(Category::Telemetry, Severity::High, "a"),
        Finding::new(Category::Exposure, Severity::Medium, "b"),
    ]);
    let overall = report.score();
    assert_eq!(overall, 63);
    for c in [Category::Telemetry, Category::Exposure, Category::NetworkIdentity] {
        assert!(report.category_score(c) >= overall);
    }
}

#[test]
fn mobile_codes_score_like_a_report() {
    assert_eq!(blackhole_score_from_severities(&[]), 100);
    assert_eq!(blackhole_score_from_severities(&[3, 2, 1]), 58);
    assert_eq!(blackhole_score_from_severities(&[3; 10]), 0);
    assert_eq!(blackhole_score_from_severities(&[0, 7, 99]), 100);
    let report = Report::new(vec![finding(Severity::High), finding(Severity::Medium), finding(Severity::Low)]);
    assert_eq!(report.score(), blackhole_score_from_severities(&[3, 2, 1]));
    assert!(blackhole_ffi_self_test());
}

fn record(findings: Vec<(Category, Severity, &str)>, timestamp_unix: u64) -> ScanRecord {
    let findings = findings.into_iter().map(|(c, s, summary)| Finding::new(c, s, summary)).collect();
    ScanRecord::from_report(&Report::new(findings), timestamp_unix)
}

#[test]
fn diff_detects_a_finding_that_appeared() {
    let previous = record(vec![], 1000);
    let current = record(vec![(Category::Telemetry, Severity::Medium, "DiagTrack service is running")], 2000);

    let diff = HistoryDiff::compute(&previous, &current);
    assert!(!diff.unchanged());
    assert_eq!(diff.new_findings.len(), 1);
    assert_eq!(diff.new_findings[0].summary, "DiagTrack service is running");
    assert!(diff.resolved_findings.is_empty());
    assert_eq!(diff.score_delta, -12);
}

#[test]
fn diff_detects_a_finding_that_was_resolved() {
    let previous = record(vec![(Category::Telemetry, Severity::Medium, "DiagTrack service is running")], 1000);
    let current = record(vec![], 2000);

    let diff = HistoryDiff::compute(&previous, &current);
    assert_eq!(diff.resolved_findings.len(), 1);
    assert!(diff.new_findings.is_empty());
    assert_eq!(diff.score_delta, 12);
}

#[test]
fn diff_is_quiet_when_nothing_changed() {
    let previous = record(vec![(Category::NetworkIdentity, Severity::Low, "custom hostname")], 1000);
    let current = record(vec![(Category::NetworkIdentity, Severity::Low, "custom hostname")], 2000);

    let diff = HistoryDiff::compute(&previous, &current);
    assert!(diff.unchanged());
    assert_eq!(diff.score_delta, 0);
}

#[test]
fn category_deltas_only_include_categories_that_actually_moved() {
    let previous = record(
        vec![
            (Category::Telemetry, Severity::Medium, "diagtrack running"),
            (Category::NetworkIdentity, Severity::Low, "custom hostname"),
        ],
        1000,
    );
    let current = record(vec![(Category::NetworkIdentity, Severity::Low, "custom hostname")], 2000);

    let diff = HistoryDiff::compute(&previous, &current);
    assert_eq!(diff.category_deltas.len(), 1);
    assert_eq!(diff.category_deltas[0].0, Category::Telemetry.label());
    assert_eq!(diff.category_deltas[0].1, 12);
}

#[test]
fn significant_degradation_is_flagged_at_the_threshold() {
    let previous = record(vec![], 1000);
    let just_under = record(vec![(Category::Telemetry, Severity::Low, "x")], 2000);
    let at_threshold = record(
        vec![(Category::Telemetry, Severity::Medium, "y"), (Category::Telemetry, Severity::Low, "z")],
        3000,
    );

    assert!(!HistoryDiff::compute(&previous, &just_under).is_significant_degradation());
    assert!(HistoryDiff::compute(&previous, &at_threshold).is_significant_degradation());
}

#[test]
fn severity_change_on_the_same_underlying_check_shows_as_resolved_plus_new() {
    let previous = record(vec![(Category::Telemetry, Severity::Info, "AllowTelemetry policy set to 1 (Basic)")], 1000);
    let current =
        record(vec![(Category::Telemetry, Severity::Medium, "AllowTelemetry policy set to 3 (above Basic)")], 2000);

    let diff = HistoryDiff::compute(&previous, &current);
    assert_eq!(diff.resolved_findings.len(), 1);
    assert_eq!(diff.new_findings.len(), 1);
}

#[test]
fn record_from_report_holds_labels_and_scores() {
    let r = record(vec![(Category::Exposure, Severity::High, "exposed")], 42);
    assert_eq!(r.timestamp_unix, 42);
    assert_eq!(r.score, 75);
    let cats: Vec<(&str, u32)> = r.category_scores.iter().map(|c| (c.category.as_str(), c.score)).collect();
    assert_eq!(cats, vec![("network identity", 100), ("OS telemetry", 100), ("public exposure", 75)]);
    assert_eq!(r.findings[0].category, "public exposure");
    assert_eq!(r.findings[0].severity, "HIGH");
    assert_eq!(r.findings[0].summary, "exposed");
}

#[test]
fn human_timestamp_is_utc_calendar_time() {
    assert_eq!(record(vec![], 0).human_timestamp(), "1970-01-01 00:00:00 UTC");
    assert_eq!(record(vec![], 1_700_000_000).human_timestamp(), "2023-11-14 22:13:20 UTC");
}

#[test]
fn diff_text_lists_changes_and_warns_on_degradation() {
    let previous = record(vec![(Category::NetworkIdentity, Severity::Low, "old")], 0);
    let current = record(vec![(Category::Telemetry, Severity::High, "new one")], 86_400);
    let diff = HistoryDiff::compute(&previous, &current);
    assert_eq!(
        diff.to_string(),
        "comparing 1970-01-01 00:00:00 UTC -> 1970-01-02 00:00:00 UTC\n\
         score: 95 -> 75 (-20)\n  network identity: +5\n  OS telemetry: -25\n\
         resolved: [LOW] (network identity) old\n\
         new:      [HIGH] (OS telemetry) new one\n\
         \n/!\\ significant degradation since last scan (score dropped by 20)\n"
    );
    let same = HistoryDiff::compute(&previous, &previous);
    assert_eq!(same.to_string(), "comparing 1970-01-01 00:00:00 UTC -> 1970-01-01 00:00:00 UTC\nno change\n");
}

#[test]
fn status_and_diff_pair_read_the_latest_records() {
    assert!(fingerprint_status(&vec![]).is_none());
    let records = vec![record(vec![], 0), record(vec![(Category::Telemetry, Severity::Low, "x")], 60)];
    assert_eq!(fingerprint_status(&records), Some(("1970-01-01 00:01:00 UTC".to_string(), 95)));
    assert_eq!(latest_pair(&records), Ok((0, 1)));
    assert_eq!(
        latest_pair(&records[..1].to_vec()).unwrap_err(),
        "not enough recorded scans yet to diff (need at least 2, have 1)"
    );
}

#[test]
fn nth_tick_is_evenly_spaced_from_start_not_cumulative() {
    let start: u64 = 1_000_000;
    let interval: u64 = 60_000;
    assert_eq!(nth_tick(start, interval, 0), start);
    assert_eq!(nth_tick(start, interval, 1), start + 60_000);
    assert_eq!(nth_tick(start, interval, 5), start + 300_000);
}

#[test]
fn scan_command_routes_and_fails_below_half() {
    let plan = run_scan_command(ScanArgs { offline: true, no_history: false, history_path: None, diff: None });
    assert!(matches!(plan, ScanPlan::Scan { offline: true, no_history: false, history_path: None }));
    let plan = run_scan_command(ScanArgs { offline: false, no_history: false, history_path: None, diff: Some(None) });
    assert!(matches!(plan, ScanPlan::Diff { history_path: None }));
    assert!(scan_fails(49));
    assert!(!scan_fails(50));
}

#[test]
fn scan_follow_up_reports_change_and_degradation() {
    let before = record(vec![], 1_700_000_000);
    let after = record(vec![(Category::Exposure, Severity::Medium, "exposed")], 1_700_000_060);
    assert!(can_diff(&before, &after));
    let diff = HistoryDiff::compute(&before, &after);
    let (change, warning) = change_report(&diff);
    assert_eq!(change, Some(diff.to_string()));
    assert_eq!(
        warning.as_deref(),
        Some("\n/!\\ traceability has significantly worsened since the last scan (score 100 -> 88)")
    );
    let same = HistoryDiff::compute(&before, &before);
    assert_eq!(change_report(&same), (None, None));
    let mut wild = before.clone();
    wild.score = u32::MAX - 1;
    let mut low = before.clone();
    low.score = 2_147_483_647;
    assert!(!can_diff(&low, &wild));
}

#[test]
fn a_scan_rolls_up_every_module() {
    let identity = Ok(vec![finding(Severity::Low)]);
    let telemetry = vec![finding(Severity::Medium)];
    let report = run_scan(identity, telemetry.clone(), Some(vec![finding(Severity::High)]));
    assert_eq!(report.findings.len(), 3);
    assert_eq!(report.score(), 100 - 5 - 12 - 25);
    let offline = run_scan(Err(FingerprintError::Inspect("x".to_string())), telemetry, None);
    assert_eq!(offline.findings.len(), 1);
    assert_eq!(offline.findings[0].severity, Severity::Medium);
}

#[test]
fn tick_schedule_never_drifts() {
    let mut s = TickSchedule::new(1_000, 60_000);
    assert_eq!(s.sleep_before_next(1_000), 0);
    s.record_tick();
    assert_eq!(s.sleep_before_next(1_500), 59_500);
    s.record_tick();
    // The first tick ran late: the second is still due at start + 2 intervals.
    assert_eq!(s.sleep_before_next(100_000), 21_000);
    s.record_tick();
    assert_eq!(s.sleep_before_next(500_000), 0);
}
