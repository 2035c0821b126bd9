//! Shared report and scoring model: every check produces findings, and
//! this module turns them into one 0-100 traceability score and a
//! printable report.

use vstd::prelude::*;

use crate::text::{decimal, push_decimal};

verus! {

#[derive(Debug, Clone, Copy, PartialEq, Eq, PartialOrd, Ord, Hash, Structural)]
pub enum Severity {
    Info,
    Low,
    Medium,
    High,
}

/// Points deducted from the starting score of 100.
pub open spec fn severity_penalty(s: Severity) -> nat {
    match s {
        Severity::Info => 0,
        Severity::Low => 5,
        Severity::Medium => 12,
        Severity::High => 25,
    }
}

pub open spec fn severity_label(s: Severity) -> Seq<char> {
    match s {
        Severity::Info => "INFO"@,
        Severity::Low => "LOW"@,
        Severity::Medium => "MEDIUM"@,
        Severity::High => "HIGH"@,
    }
}

impl Severity {
    /// Points deducted from the starting score of 100.
    pub fn penalty(self) -> (p: u32)
        ensures
            p as nat == severity_penalty(self),
    {
        match self {
            Severity::Info => 0,
            Severity::Low => 5,
            Severity::Medium => 12,
            Severity::High => 25,
        }
    }

    pub fn label(self) -> (r: &'static str)
        ensures
            r@ == severity_label(self),
    {
        match self {
            Severity::Info => "INFO",
            Severity::Low => "LOW",
            Severity::Medium => "MEDIUM",
            Severity::High => "HIGH",
        }
    }
}

#[derive(Debug, Clone, Copy, PartialEq, Eq, Hash, Structural)]
pub enum Category {
    NetworkIdentity,
    Telemetry,
    Exposure,
}

pub open spec fn category_label(c: Category) -> Seq<char> {
    match c {
        Category::NetworkIdentity => "network identity"@,
        Category::Telemetry => "OS telemetry"@,
        Category::Exposure => "public exposure"@,
    }
}

impl Category {
    pub fn label(self) -> (r: &'static str)
        ensures
            r@ == category_label(self),
    {
        match self {
            Category::NetworkIdentity => "network identity",
            Category::Telemetry => "OS telemetry",
            Category::Exposure => "public exposure",
        }
    }
}

#[derive(Debug, Clone)]
pub struct Finding {
    pub category: Category,
    pub severity: Severity,
    pub summary: String,
    pub recommendation: Option<String>,
}

impl Finding {
    pub fn new(category: Category, severity: Severity, summary: &str) -> (f: Finding)
        ensures
            f.category == category,
            f.severity == severity,
            f.summary@ == summary@,
            f.recommendation is None,
    {
        Finding { category, severity, summary: summary.to_owned(), recommendation: None }
    }

    pub fn with_recommendation(self, recommendation: &str) -> (f: Finding)
        ensures
            f.category == self.category,
            f.severity == self.severity,
            f.summary == self.summary,
            f.recommendation is Some,
            f.recommendation->0@ == recommendation@,
    {
        Finding {
            category: self.category,
            severity: self.severity,
            summary: self.summary,
            recommendation: Some(recommendation.to_owned()),
        }
    }
}

/// `f` has this category, severity, summary text and recommendation text.
pub open spec fn finding_is(
    f: Finding,
    category: Category,
    severity: Severity,
    summary: Seq<char>,
    recommendation: Option<Seq<char>>,
) -> bool {
    &&& f.category == category
    &&& f.severity == severity
    &&& f.summary@ == summary
    &&& match (f.recommendation, recommendation) {
        (Some(r), Some(expected)) => r@ == expected,
        (None, None) => true,
        _ => false,
    }
}

/// Sum of the penalties of `fs`.
pub open spec fn penalty_total(fs: Seq<Finding>) -> nat
    decreases fs.len(),
{
    if fs.len() == 0 {
        0
    } else {
        penalty_total(fs.drop_last()) + severity_penalty(fs.last().severity)
    }
}

/// Sum of the penalties of the findings of `fs` in category `c`.
pub open spec fn category_penalty_total(fs: Seq<Finding>, c: Category) -> nat
    decreases fs.len(),
{
    if fs.len() == 0 {
        0
    } else {
        category_penalty_total(fs.drop_last(), c) + if fs.last().category == c {
            severity_penalty(fs.last().severity)
        } else {
            0
        }
    }
}

/// 100 minus the penalty total, floored at 0.
pub open spec fn score_from_total(total: nat) -> nat {
    if total >= 100 {
        0
    } else {
        (100 - total) as nat
    }
}

pub open spec fn score_label_of(score: nat) -> Seq<char> {
    if 80 <= score && score <= 100 {
        "well hardened"@
    } else if 50 <= score && score <= 79 {
        "moderate exposure"@
    } else if 20 <= score && score <= 49 {
        "significant exposure"@
    } else {
        "highly traceable"@
    }
}

/// Summing penalties in 32-bit arithmetic does not overflow.
pub open spec fn penalties_fit(fs: Seq<Finding>) -> bool {
    penalty_total(fs) <= i32::MAX
}

pub proof fn lemma_penalty_total_prefix(fs: Seq<Finding>, i: int)
    requires
        0 <= i <= fs.len(),
    ensures
        penalty_total(fs.take(i)) <= penalty_total(fs),
    decreases fs.len(),
{
    if i < fs.len() {
        assert(fs.drop_last().take(i) =~= fs.take(i));
        lemma_penalty_total_prefix(fs.drop_last(), i);
    } else {
        assert(fs.take(i) =~= fs);
    }
}

pub proof fn lemma_category_total_le_total(fs: Seq<Finding>, c: Category)
    ensures
        category_penalty_total(fs, c) <= penalty_total(fs),
    decreases fs.len(),
{
    if fs.len() > 0 {
        lemma_category_total_le_total(fs.drop_last(), c);
    }
}

/// The findings of `fs` with severity `s`, in their original order.
pub open spec fn of_severity(fs: Seq<Finding>, s: Severity) -> Seq<Finding>
    decreases fs.len(),
{
    if fs.len() == 0 {
        Seq::empty()
    } else if fs.last().severity == s {
        of_severity(fs.drop_last(), s).push(fs.last())
    } else {
        of_severity(fs.drop_last(), s)
    }
}

/// One finding as printed: `[SEVERITY] (category) summary`, then its
/// recommendation on an indented `->` line when there is one.
pub open spec fn render_finding(f: Finding) -> Seq<char> {
    "["@ + severity_label(f.severity) + "] ("@ + category_label(f.category) + ") "@ + f.summary@
        + "\n"@ + match f.recommendation {
        Some(r) => "    -> "@ + r@ + "\n"@,
        None => Seq::empty(),
    }
}

pub open spec fn render_findings(fs: Seq<Finding>) -> Seq<char>
    decreases fs.len(),
{
    if fs.len() == 0 {
        Seq::empty()
    } else {
        render_findings(fs.drop_last()) + render_finding(fs.last())
    }
}

/// The findings printed most severe first; findings of equal severity keep
/// their original order.
pub open spec fn render_by_severity(fs: Seq<Finding>) -> Seq<char> {
    render_findings(of_severity(fs, Severity::High)) + render_findings(
        of_severity(fs, Severity::Medium),
    ) + render_findings(of_severity(fs, Severity::Low)) + render_findings(
        of_severity(fs, Severity::Info),
    )
}

/// The full printed report.
pub open spec fn render_report(fs: Seq<Finding>) -> Seq<char> {
    let score = score_from_total(penalty_total(fs));
    "BlackHole Fingerprint Report\n"@ + "============================\n"@ + "score: "@ + decimal(score)
        + "/100 ("@ + score_label_of(score) + ")\n"@ + "\n"@ + render_by_severity(fs) + if fs.len()
        == 0 {
        "(no findings)\n"@
    } else {
        Seq::empty()
    }
}

/// One finding as printed.
fn render_one(f: &Finding) -> (line: String)
    ensures
        line@ == render_finding(*f),
{
    let mut out = String::new();
    out.push('[');
    out.append(f.severity.label());
    out.append("] (");
    out.append(f.category.label());
    out.append(") ");
    out.append(f.summary.as_str());
    out.push('\n');
    match &f.recommendation {
        Some(rec) => {
            out.append("    -> ");
            out.append(rec.as_str());
            out.push('\n');
        },
        None => {},
    }
    proof {
        reveal_strlit("[");
        reveal_strlit("\n");
    }
    assert(out@ =~= render_finding(*f));
    out
}

pub struct Report {
    pub findings: Vec<Finding>,
}

impl Report {
    pub fn new(findings: Vec<Finding>) -> (r: Report)
        ensures
            r.findings@ == findings@,
    {
        Report { findings }
    }

    /// 0-100 traceability score: 100 means nothing this tool checked looked
    /// identifying or exposed; each finding subtracts points by severity,
    /// floored at 0.
    pub fn score(&self) -> (s: u32)
        requires
            penalties_fit(self.findings@),
        ensures
            s as nat == score_from_total(penalty_total(self.findings@)),
    {
        let total = self.penalty_sum();
        if total >= 100 {
            0
        } else {
            100 - total
        }
    }

    fn penalty_sum(&self) -> (t: u32)
        requires
            penalties_fit(self.findings@),
        ensures
            t as nat == penalty_total(self.findings@),
    {
        let mut total: u32 = 0;
        let mut i: usize = 0;
        while i < self.findings.len()
            invariant
                penalties_fit(self.findings@),
                i <= self.findings@.len(),
                total as nat == penalty_total(self.findings@.take(i as int)),
            decreases self.findings@.len() - i,
        {
            proof {
                assert(self.findings@.take(i + 1).drop_last() =~= self.findings@.take(i as int));
                lemma_penalty_total_prefix(self.findings@, i + 1);
            }
            total = total + self.findings[i].severity.penalty();
            i = i + 1;
        }
        assert(self.findings@.take(i as int) =~= self.findings@);
        total
    }

    /// The same scoring formula as [`Report::score`], restricted to the
    /// findings of one category.
    pub fn category_score(&self, category: Category) -> (s: u32)
        requires
            penalties_fit(self.findings@),
        ensures
            s as nat == score_from_total(category_penalty_total(self.findings@, category)),
    {
        let mut total: u32 = 0;
        let mut i: usize = 0;
        while i < self.findings.len()
            invariant
                penalties_fit(self.findings@),
                i <= self.findings@.len(),
                total as nat == category_penalty_total(self.findings@.take(i as int), category),
            decreases self.findings@.len() - i,
        {
            proof {
                assert(self.findings@.take(i + 1).drop_last() =~= self.findings@.take(i as int));
                lemma_category_total_le_total(self.findings@.take(i + 1), category);
                lemma_penalty_total_prefix(self.findings@, i + 1);
            }
            if self.findings[i].category == category {
                total = total + self.findings[i].severity.penalty();
            }
            i = i + 1;
        }
        assert(self.findings@.take(i as int) =~= self.findings@);
        if total >= 100 {
            0
        } else {
            100 - total
        }
    }

    pub fn score_label(&self) -> (r: &'static str)
        requires
            penalties_fit(self.findings@),
        ensures
            r@ == score_label_of(score_from_total(penalty_total(self.findings@))),
    {
        let s = self.score();
        if 80 <= s && s <= 100 {
            "well hardened"
        } else if 50 <= s && s <= 79 {
            "moderate exposure"
        } else if 20 <= s && s <= 49 {
            "significant exposure"
        } else {
            "highly traceable"
        }
    }

    /// Appends the findings of severity `sev` to `out`, in order.
    fn push_findings_of(&self, out: &mut String, sev: Severity)
        ensures
            final(out)@ == old(out)@ + render_findings(of_severity(self.findings@, sev)),
    {
        let mut i: usize = 0;
        while i < self.findings.len()
            invariant
                i <= self.findings@.len(),
                out@ == old(out)@ + render_findings(of_severity(self.findings@.take(i as int), sev)),
            decreases self.findings@.len() - i,
        {
            let f = &self.findings[i];
            proof {
                assert(self.findings@.take(i + 1).drop_last() =~= self.findings@.take(i as int));
                assert(self.findings@.take(i + 1).last() == self.findings@[i as int]);
            }
            if f.severity == sev {
                let line = render_one(f);
                out.append(line.as_str());
                assert(self.findings@.take(i + 1).last() == self.findings@[i as int]);
                assert(of_severity(self.findings@.take(i + 1), sev) == of_severity(
                    self.findings@.take(i as int), sev).push(self.findings@[i as int]));
                let ghost prev = of_severity(self.findings@.take(i as int), sev);
                assert(prev.push(self.findings@[i as int]).drop_last() =~= prev);
                assert(out@ =~= old(out)@ + render_findings(
                    of_severity(self.findings@.take(i + 1), sev),
                ));
            }
            i = i + 1;
        }
        assert(self.findings@.take(i as int) =~= self.findings@);
    }

    /// The printed report: a header with the score and its label, then
    /// every finding, most severe first.
    pub fn to_string(&self) -> (text: String)
        requires
            penalties_fit(self.findings@),
        ensures
            text@ == render_report(self.findings@),
    {
        let mut out = String::new();
        out.append("BlackHole Fingerprint Report\n");
        out.append("============================\n");
        out.append("score: ");
        push_decimal(&mut out, self.score() as u64);
        out.append("/100 (");
        out.append(self.score_label());
        out.append(")\n");
        out.append("\n");
        self.push_findings_of(&mut out, Severity::High);
        self.push_findings_of(&mut out, Severity::Medium);
        self.push_findings_of(&mut out, Severity::Low);
        self.push_findings_of(&mut out, Severity::Info);
        if self.findings.len() == 0 {
            out.append("(no findings)\n");
        }
        assert(out@ =~= render_report(self.findings@));
        out
    }
}

/// The score always lies in `0..=100`, and a report with no findings
/// scores a perfect 100.
pub proof fn law_score_is_a_percentage(fs: Seq<Finding>)
    ensures
        score_from_total(penalty_total(fs)) <= 100,
        fs.len() == 0 ==> score_from_total(penalty_total(fs)) == 100,
{
}

/// Adding a finding never raises the score (nor any category's score).
pub proof fn law_more_findings_never_raise_the_score(fs: Seq<Finding>, f: Finding, c: Category)
    ensures
        score_from_total(penalty_total(fs.push(f))) <= score_from_total(penalty_total(fs)),
        score_from_total(category_penalty_total(fs.push(f), c)) <= score_from_total(
            category_penalty_total(fs, c),
        ),
{
    assert(fs.push(f).drop_last() =~= fs);
}

/// A category's score is never below the overall score: it counts a
/// subset of the same penalties.
pub proof fn law_category_score_at_least_overall(fs: Seq<Finding>, c: Category)
    ensures
        score_from_total(category_penalty_total(fs, c)) >= score_from_total(penalty_total(fs)),
{
    lemma_category_total_le_total(fs, c);
}

} // verus!
