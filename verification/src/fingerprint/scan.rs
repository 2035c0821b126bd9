//! Scheduling and bookkeeping around a full audit: when the periodic
//! scan ticks, where history goes, and what the clock says.

use std::path::PathBuf;

use vstd::prelude::*;

use crate::fingerprint::error::FingerprintError;
use crate::fingerprint::report::{Finding, Report};

verus! {

/// The time of the `n`th tick after `start`, `interval` apart (in any
/// one unit, e.g. milliseconds). Each tick is computed from the fixed
/// `start`, never from the previous tick, so slow ticks never make the
/// schedule drift.
pub fn nth_tick(start: u64, interval: u64, n: u32) -> (t: u64)
    requires
        start + interval * n <= u64::MAX,
    ensures
        t == start + interval * n,
{
    proof {
        assert(0 <= interval * n) by (nonlinear_arith);
    }
    start + interval * (n as u64)
}

/// The periodic scan's schedule: tick `n` is due at `start + n *
/// interval` (in milliseconds on a monotonic clock), counted from the
/// fixed start, never from when the previous tick happened to finish.
pub struct TickSchedule {
    start: u64,
    interval: u64,
    ticks: u32,
}

impl TickSchedule {
    pub closed spec fn spec_start(&self) -> u64 {
        self.start
    }

    pub closed spec fn spec_interval(&self) -> u64 {
        self.interval
    }

    /// How many ticks have run.
    pub closed spec fn spec_ticks(&self) -> u32 {
        self.ticks
    }

    /// When the next tick is due.
    pub open spec fn next_due(&self) -> int {
        self.spec_start() + self.spec_interval() * self.spec_ticks()
    }

    pub fn new(start: u64, interval: u64) -> (s: TickSchedule)
        ensures
            s.spec_start() == start,
            s.spec_interval() == interval,
            s.spec_ticks() == 0,
    {
        TickSchedule { start, interval, ticks: 0 }
    }

    /// A tick has run.
    pub fn record_tick(&mut self)
        requires
            old(self).spec_ticks() < u32::MAX,
        ensures
            final(self).spec_start() == old(self).spec_start(),
            final(self).spec_interval() == old(self).spec_interval(),
            final(self).spec_ticks() == old(self).spec_ticks() + 1,
    {
        self.ticks = self.ticks + 1;
    }

    /// How long to sleep at `now` before the next tick: until it is due,
    /// or not at all when it is already late (no catching up by firing
    /// several ticks back to back).
    pub fn sleep_before_next(&self, now: u64) -> (ms: u64)
        requires
            self.next_due() <= u64::MAX,
        ensures
            self.next_due() > now ==> ms == self.next_due() - now,
            self.next_due() <= now ==> ms == 0,
    {
        let due = nth_tick(self.start, self.interval, self.ticks);
        if due > now {
            due - now
        } else {
            0
        }
    }
}

/// The schedule does not drift: after any number of ticks, however late
/// each one ran, the next is due exactly one interval after the one
/// before, and `n` intervals after the start.
pub proof fn law_ticks_do_not_drift(before: TickSchedule, after: TickSchedule)
    requires
        after.spec_start() == before.spec_start(),
        after.spec_interval() == before.spec_interval(),
        after.spec_ticks() == before.spec_ticks() + 1,
    ensures
        after.next_due() - before.next_due() == before.spec_interval(),
        after.next_due() == after.spec_start() + after.spec_interval() * after.spec_ticks(),
{
    let i = before.spec_interval() as int;
    let n = before.spec_ticks() as int;
    assert(i * (n + 1) == i * n + i) by (nonlinear_arith);
}

/// The current time as whole seconds since the Unix epoch
/// (`SystemTime::now().duration_since(UNIX_EPOCH)`), or `None` when the
/// clock reads before the epoch.
///
/// Nothing is claimed of the value: it is the machine's clock.
#[verifier::external_body]
fn system_unix_seconds() -> Option<u64> {
    std::time::SystemTime::now().duration_since(std::time::UNIX_EPOCH).ok().map(|d| d.as_secs())
}

/// The current Unix time in seconds, 0 when the clock reads before the
/// epoch.
pub fn now_unix() -> u64 {
    match system_unix_seconds() {
        Some(s) => s,
        None => 0,
    }
}

/// The history file to use: `explicit` if given, else the default
/// location (or the error finding it).
pub fn resolve_history_path(
    explicit: Option<PathBuf>,
    default_path: Result<PathBuf, FingerprintError>,
) -> (r: Result<PathBuf, FingerprintError>)
    ensures
        explicit is Some ==> r == Ok::<PathBuf, FingerprintError>(explicit->0),
        explicit is None ==> r == default_path,
{
    match explicit {
        Some(p) => Ok(p),
        None => default_path,
    }
}

/// A scan whose score is below this fails the command (exit status 1).
pub const FAILING_SCORE: u32 = 50;

/// What the `scan` command does: diff the two latest recorded scans, or
/// run a scan with the given options.
#[derive(Debug)]
pub enum ScanPlan {
    Diff { history_path: Option<PathBuf> },
    Scan { offline: bool, no_history: bool, history_path: Option<PathBuf> },
}

/// The `scan` command's options.
#[derive(Debug)]
pub struct ScanArgs {
    pub offline: bool,
    pub no_history: bool,
    pub history_path: Option<PathBuf>,
    /// `Some` for `scan diff`, with its own optional history path.
    pub diff: Option<Option<PathBuf>>,
}

/// Routes the `scan` command: `scan diff` diffs, plain `scan` scans.
pub fn run_scan_command(args: ScanArgs) -> (plan: ScanPlan)
    ensures
        args.diff is Some ==> plan == (ScanPlan::Diff { history_path: args.diff->0 }),
        args.diff is None ==> plan == (ScanPlan::Scan {
            offline: args.offline,
            no_history: args.no_history,
            history_path: args.history_path,
        }),
{
    match args.diff {
        Some(history_path) => ScanPlan::Diff { history_path },
        None => ScanPlan::Scan {
            offline: args.offline,
            no_history: args.no_history,
            history_path: args.history_path,
        },
    }
}

/// Whether a scan's score fails the command.
pub fn scan_fails(score: u32) -> (b: bool)
    ensures
        b == (score < FAILING_SCORE),
{
    score < FAILING_SCORE
}

/// The findings of one scan: the network-identity checks (left out when
/// they failed; the application warns), the telemetry checks, then the
/// exposure check when it ran (it does not offline).
pub open spec fn scan_findings(
    identity: Result<Vec<Finding>, FingerprintError>,
    telemetry: Seq<Finding>,
    exposure: Option<Vec<Finding>>,
) -> Seq<Finding> {
    (match identity {
        Ok(f) => f@,
        Err(_) => Seq::empty(),
    }) + telemetry + match exposure {
        Some(e) => e@,
        None => Seq::empty(),
    }
}

/// Rolls every check module's findings into one report.
pub fn run_scan(
    identity: Result<Vec<Finding>, FingerprintError>,
    telemetry: Vec<Finding>,
    exposure: Option<Vec<Finding>>,
) -> (r: Report)
    ensures
        r.findings@ == scan_findings(identity, telemetry@, exposure),
{
    let ghost (i0, t0, e0) = (identity, telemetry@, exposure);
    let mut findings: Vec<Finding> = match identity {
        Ok(f) => f,
        Err(_) => Vec::new(),
    };
    let mut t = telemetry;
    findings.append(&mut t);
    match exposure {
        Some(e) => {
            let mut e = e;
            findings.append(&mut e);
        },
        None => {},
    }
    assert(findings@ =~= scan_findings(i0, t0, e0));
    Report::new(findings)
}

} // verus!
