//! Scoring for mobile front ends: the same severity-weighted traceability
//! formula as `fingerprint::report`, over plain `u32` severity codes so
//! it can sit behind a C ABI.

use vstd::prelude::*;

use crate::fingerprint::report::{
    penalty_total, score_from_total, severity_penalty, Finding, Severity as ReportSeverity,
};

verus! {

/// Severity levels as the codes a front end passes: `Info` is 0, `Low` 1,
/// `Medium` 2 and `High` 3.
#[derive(Debug, Clone, Copy, PartialEq, Eq, Structural)]
pub enum Severity {
    Info,
    Low,
    Medium,
    High,
}

pub open spec fn severity_code(s: Severity) -> u32 {
    match s {
        Severity::Info => 0,
        Severity::Low => 1,
        Severity::Medium => 2,
        Severity::High => 3,
    }
}

impl Severity {
    /// The code this severity is passed as.
    pub fn code(self) -> (c: u32)
        ensures
            c == severity_code(self),
    {
        match self {
            Severity::Info => 0,
            Severity::Low => 1,
            Severity::Medium => 2,
            Severity::High => 3,
        }
    }
}

/// Points deducted for one severity code; an unknown code deducts nothing,
/// so a bad input cannot tank the score.
pub open spec fn code_penalty(code: u32) -> int {
    if code == 0 {
        0
    } else if code == 1 {
        5
    } else if code == 2 {
        12
    } else if code == 3 {
        25
    } else {
        0
    }
}

/// Sum of the penalties of `codes`.
pub open spec fn code_penalty_total(codes: Seq<u32>) -> int
    decreases codes.len(),
{
    if codes.len() == 0 {
        0
    } else {
        code_penalty_total(codes.drop_last()) + code_penalty(codes.last())
    }
}

/// 100 minus the penalty total, clamped to `0..=100`.
pub open spec fn clamped_score(total: int) -> int {
    if 100 - total < 0 {
        0
    } else if 100 - total > 100 {
        100
    } else {
        100 - total
    }
}

fn penalty(severity_code: u32) -> (p: i32)
    ensures
        p as int == code_penalty(severity_code),
{
    match severity_code {
        0 => 0,
        1 => 5,
        2 => 12,
        3 => 25,
        _ => 0,
    }
}

proof fn lemma_code_total_prefix(codes: Seq<u32>, i: int)
    requires
        0 <= i <= codes.len(),
    ensures
        0 <= code_penalty_total(codes.take(i)) <= code_penalty_total(codes),
    decreases codes.len(),
{
    if i < codes.len() {
        assert(codes.drop_last().take(i) =~= codes.take(i));
        lemma_code_total_prefix(codes.drop_last(), i);
    } else {
        assert(codes.take(i) =~= codes);
        lemma_code_total_nonnegative(codes);
    }
}

proof fn lemma_code_total_nonnegative(codes: Seq<u32>)
    ensures
        code_penalty_total(codes) >= 0,
    decreases codes.len(),
{
    if codes.len() > 0 {
        lemma_code_total_nonnegative(codes.drop_last());
    }
}

/// The 0-100 traceability score of one finding per entry of
/// `severities` (severity codes): 100 minus the summed penalties,
/// clamped to `0..=100`. An empty list scores 100.
///
/// The sum is taken in `i32`, so it must fit there.
pub fn blackhole_score_from_severities(severities: &[u32]) -> (score: u32)
    requires
        code_penalty_total(severities@) <= i32::MAX,
    ensures
        score as int == clamped_score(code_penalty_total(severities@)),
{
    if severities.len() == 0 {
        return 100;
    }
    let mut sum: i32 = 0;
    let mut i: usize = 0;
    while i < severities.len()
        invariant
            i <= severities@.len(),
            code_penalty_total(severities@) <= i32::MAX,
            sum as int == code_penalty_total(severities@.take(i as int)),
        decreases severities@.len() - i,
    {
        proof {
            assert(severities@.take(i + 1).drop_last() =~= severities@.take(i as int));
            lemma_code_total_prefix(severities@, i + 1);
        }
        sum = sum + penalty(severities[i]);
        i = i + 1;
    }
    assert(severities@.take(i as int) =~= severities@);
    proof {
        lemma_code_total_nonnegative(severities@);
    }
    let total: i32 = 100 - sum;
    if total < 0 {
        0
    } else if total > 100 {
        100
    } else {
        total as u32
    }
}

/// Confirms from a front end that the library linked.
pub fn blackhole_ffi_self_test() -> (ok: bool)
    ensures
        ok,
{
    true
}

/// The code a report severity is passed as.
pub open spec fn report_severity_code(s: ReportSeverity) -> u32 {
    match s {
        ReportSeverity::Info => 0,
        ReportSeverity::Low => 1,
        ReportSeverity::Medium => 2,
        ReportSeverity::High => 3,
    }
}

/// Scoring a list of severity codes gives exactly the score a report with
/// findings of those severities gets.
pub proof fn law_codes_score_like_a_report(codes: Seq<u32>, findings: Seq<Finding>)
    requires
        codes.len() == findings.len(),
        forall|i: int|
            0 <= i < codes.len() ==> codes[i] == report_severity_code(
                (#[trigger] findings[i]).severity,
            ),
    ensures
        code_penalty_total(codes) == penalty_total(findings),
        clamped_score(code_penalty_total(codes)) == score_from_total(penalty_total(findings)),
    decreases codes.len(),
{
    if codes.len() > 0 {
        let n = codes.len() - 1;
        assert(codes[n] == report_severity_code(findings[n].severity));
        law_codes_score_like_a_report(codes.drop_last(), findings.drop_last());
        assert(code_penalty(codes.last()) == severity_penalty(findings.last().severity));
    }
}

} // verus!
