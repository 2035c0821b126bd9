//! The one-screen status of every module (`blackhole status`), and the
//! exit decisions of the commands that fail on a bad outcome. Each module
//! is reported on its own: one that cannot be reached prints its own
//! `unavailable:` line and never hides the others.

use vstd::prelude::*;

use crate::kill_switch::guard::{state_label, GuardStatus};
use crate::text::{concat2, decimal, has_infix, contains, push_decimal};

verus! {

/// The kill switch + Tor section for the outcome of starting a Tor
/// backend (`Err`: why it could not start) and querying the guard
/// (`Err`: why the query failed).
pub open spec fn guard_section(outcome: Result<Result<GuardStatus, String>, String>) -> Seq<Seq<char>> {
    match outcome {
        Err(e) => seq!["unavailable: could not start Tor backend: "@ + e@],
        Ok(Err(e)) => seq!["unavailable: status query failed: "@ + e@],
        Ok(Ok(s)) => seq!["state:          "@ + state_label(s.state)] + match s.tor_bootstrap_percent {
            Some(p) => seq!["tor bootstrap:  "@ + decimal(p as nat) + "%"@],
            None => Seq::empty(),
        } + match s.allowed_egress {
            Some(e) => seq!["allowed egress: "@ + e@],
            None => Seq::empty(),
        } + match s.detail {
            Some(d) => seq!["detail:         "@ + d@],
            None => Seq::empty(),
        },
    }
}

/// The DNS section for a leak check's printed report (`Err`: why it
/// could not run).
pub open spec fn dns_section(outcome: Result<String, String>) -> Seq<Seq<char>> {
    match outcome {
        Ok(report) => seq![report@],
        Err(e) => seq!["unavailable: "@ + e@],
    }
}

pub const FRESH_SCAN_HINT: &'static str = "(run `blackhole scan` for a fresh check, or `blackhole scan diff` to compare the two most recent)";

pub const NO_SCAN_YET: &'static str = "no scan recorded yet; run `blackhole scan` first.";

/// The fingerprint section for the last recorded scan, as its display
/// time and score (`Ok(None)`: none recorded; `Err`: history unreadable).
pub open spec fn fingerprint_section(last: Result<Option<(String, u32)>, String>) -> Seq<Seq<char>> {
    match last {
        Ok(Some((ts, score))) => seq![
            "last scan: "@ + ts@ + " (score "@ + decimal(score as nat) + "/100)"@,
            FRESH_SCAN_HINT@,
        ],
        Ok(None) => seq![NO_SCAN_YET@],
        Err(e) => seq!["unavailable: "@ + e@],
    }
}

/// Every line of `blackhole status`, in order.
pub open spec fn status_text(
    guard: Result<Result<GuardStatus, String>, String>,
    dns: Result<String, String>,
    last_scan: Result<Option<(String, u32)>, String>,
) -> Seq<Seq<char>> {
    seq!["=== BlackHole status ==="@, Seq::empty(), "-- Kill switch + Tor (blackhole-core) --"@]
        + guard_section(guard) + seq![Seq::empty(), "-- DNS (blackhole-dns) --"@] + dns_section(dns)
        + seq![Seq::empty(), "-- Fingerprint (blackhole-fingerprint), last recorded scan --"@]
        + fingerprint_section(last_scan)
}

pub open spec fn views(lines: Seq<String>) -> Seq<Seq<char>> {
    lines.map_values(|l: String| l@)
}

fn push_line(lines: &mut Vec<String>, line: String)
    ensures
        views(final(lines)@) == views(old(lines)@).push(line@),
{
    lines.push(line);
    assert(views(lines@) =~= views(old(lines)@).push(line@));
}

fn append_lines(lines: &mut Vec<String>, more: Vec<String>)
    ensures
        views(final(lines)@) == views(old(lines)@) + views(more@),
{
    let ghost m = more@;
    let mut more = more;
    lines.append(&mut more);
    assert(lines@ =~= old(lines)@ + m);
    assert(views(lines@) =~= views(old(lines)@) + views(m));
}

/// The kill switch + Tor section.
pub fn guard_lines(guard: Result<Result<GuardStatus, String>, String>) -> (lines: Vec<String>)
    ensures
        views(lines@) == guard_section(guard),
{
    let ghost g = guard;
    let mut lines: Vec<String> = Vec::new();
    match guard {
        Err(e) => push_line(&mut lines, concat2("unavailable: could not start Tor backend: ", e.as_str())),
        Ok(Err(e)) => push_line(&mut lines, concat2("unavailable: status query failed: ", e.as_str())),
        Ok(Ok(s)) => {
            push_line(&mut lines, concat2("state:          ", s.state.label()));
            match s.tor_bootstrap_percent {
                Some(p) => {
                    let mut t = "tor bootstrap:  ".to_owned();
                    push_decimal(&mut t, p as u64);
                    t.append("%");
                    push_line(&mut lines, t);
                },
                None => {},
            }
            match s.allowed_egress {
                Some(e) => push_line(&mut lines, concat2("allowed egress: ", e.as_str())),
                None => {},
            }
            match s.detail {
                Some(dt) => push_line(&mut lines, concat2("detail:         ", dt.as_str())),
                None => {},
            }
        },
    }
    assert(views(lines@) =~= guard_section(g));
    lines
}

/// The fingerprint section.
pub fn fingerprint_lines(last_scan: Result<Option<(String, u32)>, String>) -> (lines: Vec<String>)
    ensures
        views(lines@) == fingerprint_section(last_scan),
{
    let ghost f = last_scan;
    let mut lines: Vec<String> = Vec::new();
    match last_scan {
        Ok(Some((ts, score))) => {
            let mut t = concat2("last scan: ", ts.as_str());
            t.append(" (score ");
            push_decimal(&mut t, score as u64);
            t.append("/100)");
            push_line(&mut lines, t);
            push_line(&mut lines, FRESH_SCAN_HINT.to_owned());
        },
        Ok(None) => push_line(&mut lines, NO_SCAN_YET.to_owned()),
        Err(e) => push_line(&mut lines, concat2("unavailable: ", e.as_str())),
    }
    assert(views(lines@) =~= fingerprint_section(f));
    lines
}

/// The lines of `blackhole status` for each module's outcome.
pub fn status_lines(
    guard: Result<Result<GuardStatus, String>, String>,
    dns: Result<String, String>,
    last_scan: Result<Option<(String, u32)>, String>,
) -> (lines: Vec<String>)
    ensures
        views(lines@) == status_text(guard, dns, last_scan),
{
    let ghost (g, d, f) = (guard, dns, last_scan);
    let mut lines: Vec<String> = Vec::new();
    push_line(&mut lines, "=== BlackHole status ===".to_owned());
    push_line(&mut lines, String::new());
    push_line(&mut lines, "-- Kill switch + Tor (blackhole-core) --".to_owned());
    append_lines(&mut lines, guard_lines(guard));
    push_line(&mut lines, String::new());
    push_line(&mut lines, "-- DNS (blackhole-dns) --".to_owned());
    match dns {
        Ok(report) => push_line(&mut lines, report),
        Err(e) => push_line(&mut lines, concat2("unavailable: ", e.as_str())),
    }
    push_line(&mut lines, String::new());
    push_line(&mut lines, "-- Fingerprint (blackhole-fingerprint), last recorded scan --".to_owned());
    append_lines(&mut lines, fingerprint_lines(last_scan));
    proof {
        reveal_strlit("");
    }
    assert(views(lines@) =~= status_text(g, d, f));
    lines
}

/// `blackhole panic` fails (exit status 1) when its banner reports a
/// failure.
pub fn panic_fails(banner: &str) -> (b: bool)
    ensures
        b == has_infix(banner@, "FAILED"@),
{
    contains(banner, "FAILED")
}

} // verus!
