//! Local, append-only history of past scans, so the CLI can show what
//! changed since last time instead of only the current snapshot.
//!
//! The records here are plain values; reading and appending the JSON
//! Lines file is done by the application around this library.

use vstd::prelude::*;

use crate::fingerprint::report::{
    category_label, category_penalty_total, lemma_category_total_le_total, penalties_fit,
    penalty_total, score_from_total, severity_label, Category, Finding, Report,
};
use crate::text::{decimal, push_decimal, push_signed_decimal, signed_decimal};

verus! {

/// A single finding as recorded in history: the parts that matter for
/// comparing two scans, as display strings.
#[derive(Debug, PartialEq, Eq)]
pub struct FindingSnapshot {
    pub category: String,
    pub severity: String,
    pub summary: String,
}

impl View for FindingSnapshot {
    type V = (Seq<char>, Seq<char>, Seq<char>);

    open spec fn view(&self) -> (Seq<char>, Seq<char>, Seq<char>) {
        (self.category@, self.severity@, self.summary@)
    }
}

impl Clone for FindingSnapshot {
    fn clone(&self) -> (r: Self)
        ensures
            r == *self,
    {
        FindingSnapshot {
            category: self.category.clone(),
            severity: self.severity.clone(),
            summary: self.summary.clone(),
        }
    }
}

#[derive(Debug, PartialEq, Eq)]
pub struct CategoryScore {
    pub category: String,
    pub score: u32,
}

impl Clone for CategoryScore {
    fn clone(&self) -> (r: Self)
        ensures
            r == *self,
    {
        CategoryScore { category: self.category.clone(), score: self.score }
    }
}

#[derive(Debug, Clone)]
pub struct ScanRecord {
    /// Unix seconds; `human_timestamp` renders it for display.
    pub timestamp_unix: u64,
    pub score: u32,
    pub category_scores: Vec<CategoryScore>,
    pub findings: Vec<FindingSnapshot>,
}

/// The categories, in the order a record lists their scores.
pub open spec fn all_categories() -> Seq<Category> {
    seq![Category::NetworkIdentity, Category::Telemetry, Category::Exposure]
}

/// What a finding is recorded as: its category label, severity label and
/// summary.
pub open spec fn snapshot_view(f: Finding) -> (Seq<char>, Seq<char>, Seq<char>) {
    (category_label(f.category), severity_label(f.severity), f.summary@)
}

/// A record as `ScanRecord::from_report` builds it for `fs` at `ts`.
pub open spec fn is_record_of(r: ScanRecord, fs: Seq<Finding>, ts: u64) -> bool {
    &&& r.timestamp_unix == ts
    &&& r.score as nat == score_from_total(penalty_total(fs))
    &&& r.category_scores@.len() == 3
    &&& forall|i: int|
        0 <= i < 3 ==> (#[trigger] r.category_scores@[i]).category@ == category_label(
            all_categories()[i],
        ) && r.category_scores@[i].score as nat == score_from_total(
            category_penalty_total(fs, all_categories()[i]),
        )
    &&& r.findings@.len() == fs.len()
    &&& forall|i: int| 0 <= i < fs.len() ==> (#[trigger] r.findings@[i])@ == snapshot_view(fs[i])
}

/// The text `time` renders for the Unix timestamp `ts`, taken as UTC,
/// in the format description `layout`, or `None` where it cannot parse
/// `layout`, represent `ts` or render it.
pub uninterp spec fn utc_timestamp_text(ts: int, layout: Seq<char>) -> Option<Seq<char>>;

/// Renders a Unix timestamp with the `time` crate: parses the format
/// description `layout` (`format_description::parse`), builds the UTC
/// date and time (`OffsetDateTime::from_unix_timestamp`), then `format`s
/// it.
///
/// The contract only names the result: which timestamps `time` accepts
/// depends on how that crate was built (its `large-dates` feature), so
/// no range is claimed.
#[verifier::external_body]
fn format_utc_timestamp(ts: i64, layout: &str) -> (r: Option<String>)
    ensures
        (r is Some) == (utc_timestamp_text(ts as int, layout@) is Some),
        r is Some ==> r->0@ == utc_timestamp_text(ts as int, layout@)->0,
{
    let items = time::format_description::parse(layout).ok()?;
    let dt = time::OffsetDateTime::from_unix_timestamp(ts).ok()?;
    dt.format(&items).ok()
}

/// How a record's timestamp is displayed: `YYYY-MM-DD HH:MM:SS UTC`.
pub const TIMESTAMP_LAYOUT: &'static str = "[year]-[month]-[day] [hour]:[minute]:[second] UTC";

/// The display form of a record's timestamp: the UTC date and time, or
/// the raw number where it cannot be rendered.
pub open spec fn timestamp_text(ts: u64) -> Seq<char> {
    match utc_timestamp_text((ts as i64) as int, TIMESTAMP_LAYOUT@) {
        Some(t) => t,
        None => decimal(ts as nat),
    }
}

impl ScanRecord {
    pub fn from_report(report: &Report, timestamp_unix: u64) -> (r: ScanRecord)
        requires
            penalties_fit(report.findings@),
        ensures
            is_record_of(r, report.findings@, timestamp_unix),
    {
        let mut category_scores: Vec<CategoryScore> = Vec::new();
        category_scores.push(
            CategoryScore {
                category: Category::NetworkIdentity.label().to_owned(),
                score: report.category_score(Category::NetworkIdentity),
            },
        );
        category_scores.push(
            CategoryScore {
                category: Category::Telemetry.label().to_owned(),
                score: report.category_score(Category::Telemetry),
            },
        );
        category_scores.push(
            CategoryScore {
                category: Category::Exposure.label().to_owned(),
                score: report.category_score(Category::Exposure),
            },
        );
        let mut findings: Vec<FindingSnapshot> = Vec::new();
        let mut i: usize = 0;
        while i < report.findings.len()
            invariant
                i <= report.findings@.len(),
                findings@.len() == i,
                forall|k: int|
                    0 <= k < i ==> (#[trigger] findings@[k])@ == snapshot_view(
                        report.findings@[k],
                    ),
            decreases report.findings@.len() - i,
        {
            let f = &report.findings[i];
            findings.push(
                FindingSnapshot {
                    category: f.category.label().to_owned(),
                    severity: f.severity.label().to_owned(),
                    summary: f.summary.clone(),
                },
            );
            i = i + 1;
        }
        ScanRecord { timestamp_unix, score: report.score(), category_scores, findings }
    }

    /// `timestamp_unix` rendered as `YYYY-MM-DD HH:MM:SS UTC`, or as the
    /// plain number when it is out of the calendar's range.
    pub fn human_timestamp(&self) -> (text: String)
        ensures
            text@ == timestamp_text(self.timestamp_unix),
    {
        match format_utc_timestamp(self.timestamp_unix as i64, TIMESTAMP_LAYOUT) {
            Some(t) => t,
            None => {
                let mut s = String::new();
                push_decimal(&mut s, self.timestamp_unix);
                s
            },
        }
    }
}

/// `f` is recorded, with equal text, somewhere in `fs`.
pub open spec fn snapshot_in(f: FindingSnapshot, fs: Seq<FindingSnapshot>) -> bool {
    exists|j: int| 0 <= j < fs.len() && (#[trigger] fs[j])@ == f@
}

/// The findings of `fs` that do not occur in `other`, in their order.
pub open spec fn missing_from(fs: Seq<FindingSnapshot>, other: Seq<FindingSnapshot>) -> Seq<
    FindingSnapshot,
>
    decreases fs.len(),
{
    if fs.len() == 0 {
        Seq::empty()
    } else if snapshot_in(fs.last(), other) {
        missing_from(fs.drop_last(), other)
    } else {
        missing_from(fs.drop_last(), other).push(fs.last())
    }
}

/// `j` is the first position of `cats` whose category is `name`.
pub open spec fn is_first_match(cats: Seq<CategoryScore>, name: Seq<char>, j: int) -> bool {
    &&& 0 <= j < cats.len()
    &&& cats[j].category@ == name
    &&& forall|k: int| 0 <= k < j ==> (#[trigger] cats[k]).category@ != name
}

/// The movement of category `cur` against the first entry of `prev` with
/// the same name, if `prev` has one. Scores are compared as `i32`, the
/// way the deltas are stored.
pub open spec fn category_delta(prev: Seq<CategoryScore>, cur: CategoryScore) -> Option<int> {
    if exists|j: int| is_first_match(prev, cur.category@, j) {
        let j = choose|j: int| is_first_match(prev, cur.category@, j);
        Some((cur.score as i32) - (prev[j].score as i32))
    } else {
        None
    }
}

/// The per-category movements between two score lists, in the order of
/// `cur`, leaving out categories `prev` lacks and categories that did not
/// move.
pub open spec fn category_deltas_of(prev: Seq<CategoryScore>, cur: Seq<CategoryScore>) -> Seq<
    (Seq<char>, int),
>
    decreases cur.len(),
{
    if cur.len() == 0 {
        Seq::empty()
    } else {
        let rest = category_deltas_of(prev, cur.drop_last());
        match category_delta(prev, cur.last()) {
            Some(d) => if d != 0 {
                rest.push((cur.last().category@, d))
            } else {
                rest
            },
            None => rest,
        }
    }
}

/// Every delta between the two records fits in an `i32`.
pub open spec fn deltas_fit(previous: ScanRecord, current: ScanRecord) -> bool {
    &&& i32::MIN <= (current.score as i32) - (previous.score as i32) <= i32::MAX
    &&& forall|i: int|
        0 <= i < current.category_scores@.len() ==> match category_delta(
            previous.category_scores@,
            #[trigger] current.category_scores@[i],
        ) {
            Some(d) => i32::MIN <= d <= i32::MAX,
            None => true,
        }
}

/// A drop of this many points or more between two scans is flagged as a
/// significant degradation: roughly one Medium finding's worth of penalty.
pub const SIGNIFICANT_DEGRADATION_THRESHOLD: i32 = -10;

/// What changed between two scans: score movement, per-category movement,
/// findings that newly appeared, and findings that are no longer present.
/// A finding is matched by its exact `(category, severity, summary)`
/// triple, so a change of summary text shows up as one resolved plus one
/// new finding.
pub struct HistoryDiff<'a> {
    pub previous: &'a ScanRecord,
    pub current: &'a ScanRecord,
    pub score_delta: i32,
    pub category_deltas: Vec<(String, i32)>,
    pub new_findings: Vec<FindingSnapshot>,
    pub resolved_findings: Vec<FindingSnapshot>,
}

/// The view of a list of category deltas.
pub open spec fn deltas_view(ds: Seq<(String, i32)>) -> Seq<(Seq<char>, int)> {
    ds.map_values(|d: (String, i32)| (d.0@, d.1 as int))
}

/// Whether `fs` holds a finding with the same text as `f`.
fn contains_snapshot(fs: &Vec<FindingSnapshot>, f: &FindingSnapshot) -> (b: bool)
    ensures
        b == snapshot_in(*f, fs@),
{
    let mut j: usize = 0;
    while j < fs.len()
        invariant
            j <= fs@.len(),
            forall|k: int| 0 <= k < j ==> (#[trigger] fs@[k])@ != f@,
        decreases fs@.len() - j,
    {
        let g = &fs[j];
        if g.category == f.category && g.severity == f.severity && g.summary == f.summary {
            assert(fs@[j as int]@ == f@);
            return true;
        }
        j = j + 1;
    }
    false
}

/// The findings of `fs` that do not occur in `other`, in order.
fn findings_missing_from(fs: &Vec<FindingSnapshot>, other: &Vec<FindingSnapshot>) -> (r: Vec<
    FindingSnapshot,
>)
    ensures
        r@ == missing_from(fs@, other@),
{
    let mut r: Vec<FindingSnapshot> = Vec::new();
    let mut i: usize = 0;
    while i < fs.len()
        invariant
            i <= fs@.len(),
            r@ == missing_from(fs@.take(i as int), other@),
        decreases fs@.len() - i,
    {
        proof {
            assert(fs@.take(i + 1).drop_last() =~= fs@.take(i as int));
            assert(fs@.take(i + 1).last() == fs@[i as int]);
        }
        if !contains_snapshot(other, &fs[i]) {
            r.push(fs[i].clone());
        }
        i = i + 1;
    }
    assert(fs@.take(i as int) =~= fs@);
    r
}

/// The first position of `cats` whose category is `name`, if any.
fn find_category(cats: &Vec<CategoryScore>, name: &String) -> (r: Option<usize>)
    ensures
        match r {
            Some(j) => is_first_match(cats@, name@, j as int),
            None => forall|k: int| 0 <= k < cats@.len() ==> (#[trigger] cats@[k]).category@ != name@,
        },
{
    let mut j: usize = 0;
    while j < cats.len()
        invariant
            j <= cats@.len(),
            forall|k: int| 0 <= k < j ==> (#[trigger] cats@[k]).category@ != name@,
        decreases cats@.len() - j,
    {
        if cats[j].category == *name {
            return Some(j);
        }
        j = j + 1;
    }
    None
}

proof fn lemma_first_match_unique(cats: Seq<CategoryScore>, name: Seq<char>, j: int, j2: int)
    requires
        is_first_match(cats, name, j),
        is_first_match(cats, name, j2),
    ensures
        j == j2,
{
    if j < j2 {
        assert(cats[j].category@ != name);
    } else if j2 < j {
        assert(cats[j2].category@ != name);
    }
}

impl<'a> HistoryDiff<'a> {
    pub fn compute(previous: &'a ScanRecord, current: &'a ScanRecord) -> (d: HistoryDiff<'a>)
        requires
            deltas_fit(*previous, *current),
        ensures
            d.previous == previous,
            d.current == current,
            d.score_delta as int == (current.score as i32) - (previous.score as i32),
            deltas_view(d.category_deltas@) == category_deltas_of(
                previous.category_scores@,
                current.category_scores@,
            ),
            d.new_findings@ == missing_from(current.findings@, previous.findings@),
            d.resolved_findings@ == missing_from(previous.findings@, current.findings@),
    {
        let score_delta = current.score as i32 - previous.score as i32;
        let mut category_deltas: Vec<(String, i32)> = Vec::new();
        let ghost prev = previous.category_scores@;
        let ghost cur = current.category_scores@;
        let mut i: usize = 0;
        while i < current.category_scores.len()
            invariant
                prev == previous.category_scores@,
                cur == current.category_scores@,
                deltas_fit(*previous, *current),
                i <= cur.len(),
                deltas_view(category_deltas@) == category_deltas_of(prev, cur.take(i as int)),
            decreases cur.len() - i,
        {
            let c = &current.category_scores[i];
            proof {
                assert(cur.take(i + 1).drop_last() =~= cur.take(i as int));
                assert(cur.take(i + 1).last() == cur[i as int]);
            }
            match find_category(&previous.category_scores, &c.category) {
                Some(j) => {
                    proof {
                        assert(is_first_match(prev, c.category@, j as int));
                        let jj = choose|jj: int| is_first_match(prev, c.category@, jj);
                        lemma_first_match_unique(prev, c.category@, j as int, jj);
                        assert(category_delta(prev, cur[i as int]) == Some(
                            (c.score as i32) - (prev[j as int].score as i32),
                        ));
                    }
                    let delta = c.score as i32 - previous.category_scores[j].score as i32;
                    if delta != 0 {
                        category_deltas.push((c.category.clone(), delta));
                        assert(deltas_view(category_deltas@) =~= deltas_view(
                            category_deltas@.drop_last(),
                        ).push((c.category@, delta as int)));
                    }
                },
                None => {
                    assert(!exists|jj: int| is_first_match(prev, c.category@, jj));
                },
            }
            i = i + 1;
        }
        assert(cur.take(i as int) =~= cur);
        let new_findings = findings_missing_from(&current.findings, &previous.findings);
        let resolved_findings = findings_missing_from(&previous.findings, &current.findings);
        HistoryDiff {
            previous,
            current,
            score_delta,
            category_deltas,
            new_findings,
            resolved_findings,
        }
    }

    pub fn is_significant_degradation(&self) -> (b: bool)
        ensures
            b == (self.score_delta <= SIGNIFICANT_DEGRADATION_THRESHOLD),
    {
        self.score_delta <= SIGNIFICANT_DEGRADATION_THRESHOLD
    }

    pub fn unchanged(&self) -> (b: bool)
        ensures
            b == (self.score_delta == 0 && self.new_findings@.len() == 0
                && self.resolved_findings@.len() == 0),
    {
        self.score_delta == 0 && self.new_findings.len() == 0 && self.resolved_findings.len() == 0
    }
}

/// `+` before a positive number, nothing otherwise (a negative number
/// carries its own `-`).
pub open spec fn sign_prefix(d: int) -> Seq<char> {
    if d > 0 {
        "+"@
    } else {
        Seq::empty()
    }
}

/// One `  category: +delta` line per moved category.
pub open spec fn render_deltas(ds: Seq<(Seq<char>, int)>) -> Seq<char>
    decreases ds.len(),
{
    if ds.len() == 0 {
        Seq::empty()
    } else {
        render_deltas(ds.drop_last()) + "  "@ + ds.last().0 + ": "@ + sign_prefix(ds.last().1)
            + signed_decimal(ds.last().1) + "\n"@
    }
}

/// One `tag[severity] (category) summary` line per finding.
pub open spec fn render_snapshots(tag: Seq<char>, fs: Seq<FindingSnapshot>) -> Seq<char>
    decreases fs.len(),
{
    if fs.len() == 0 {
        Seq::empty()
    } else {
        render_snapshots(tag, fs.drop_last()) + tag + "["@ + fs.last().severity@ + "] ("@
            + fs.last().category@ + ") "@ + fs.last().summary@ + "\n"@
    }
}

/// The printed form of a diff.
pub open spec fn render_diff<'a>(d: HistoryDiff<'a>) -> Seq<char> {
    let head = "comparing "@ + timestamp_text(d.previous.timestamp_unix) + " -> "@
        + timestamp_text(d.current.timestamp_unix) + "\n"@;
    let delta = d.score_delta as int;
    if delta == 0 && d.new_findings@.len() == 0 && d.resolved_findings@.len() == 0 {
        head + "no change\n"@
    } else {
        head + "score: "@ + decimal(d.previous.score as nat) + " -> "@ + decimal(
            d.current.score as nat,
        ) + " ("@ + sign_prefix(delta) + signed_decimal(delta) + ")\n"@ + render_deltas(
            deltas_view(d.category_deltas@),
        ) + render_snapshots("resolved: "@, d.resolved_findings@) + render_snapshots(
            "new:      "@,
            d.new_findings@,
        ) + if delta <= SIGNIFICANT_DEGRADATION_THRESHOLD {
            "\n/!\\ significant degradation since last scan (score dropped by "@ + signed_decimal(
                -delta,
            ) + ")\n"@
        } else {
            Seq::empty()
        }
    }
}

/// Appends `+` for a positive `d`, then `d` in decimal.
fn push_signed_delta(out: &mut String, d: i32)
    ensures
        final(out)@ == old(out)@ + sign_prefix(d as int) + signed_decimal(d as int),
{
    if d > 0 {
        out.append("+");
    }
    push_signed_decimal(out, d as i64);
    proof {
        reveal_strlit("+");
    }
    assert(final(out)@ =~= old(out)@ + sign_prefix(d as int) + signed_decimal(d as int));
}

fn push_snapshots(out: &mut String, tag: &str, fs: &Vec<FindingSnapshot>)
    ensures
        final(out)@ == old(out)@ + render_snapshots(tag@, fs@),
{
    let mut i: usize = 0;
    while i < fs.len()
        invariant
            i <= fs@.len(),
            out@ == old(out)@ + render_snapshots(tag@, fs@.take(i as int)),
        decreases fs@.len() - i,
    {
        let f = &fs[i];
        out.append(tag);
        out.append("[");
        out.append(f.severity.as_str());
        out.append("] (");
        out.append(f.category.as_str());
        out.append(") ");
        out.append(f.summary.as_str());
        out.append("\n");
        proof {
            assert(fs@.take(i + 1).drop_last() =~= fs@.take(i as int));
            assert(fs@.take(i + 1).last() == fs@[i as int]);
        }
        i = i + 1;
        assert(out@ =~= old(out)@ + render_snapshots(tag@, fs@.take(i as int)));
    }
    assert(fs@.take(i as int) =~= fs@);
}

impl<'a> HistoryDiff<'a> {
    /// The printed diff: the two timestamps, then either `no change` or
    /// the score movement, each moved category, each resolved and each
    /// new finding, and a warning line on a significant degradation.
    pub fn to_string(&self) -> (text: String)
        requires
            self.score_delta > i32::MIN,
        ensures
            text@ == render_diff(*self),
    {
        let mut out = String::new();
        out.append("comparing ");
        let before = self.previous.human_timestamp();
        out.append(before.as_str());
        out.append(" -> ");
        let after = self.current.human_timestamp();
        out.append(after.as_str());
        out.append("\n");
        if self.unchanged() {
            out.append("no change\n");
            assert(out@ =~= render_diff(*self));
            return out;
        }
        out.append("score: ");
        push_decimal(&mut out, self.previous.score as u64);
        out.append(" -> ");
        push_decimal(&mut out, self.current.score as u64);
        out.append(" (");
        push_signed_delta(&mut out, self.score_delta);
        out.append(")\n");
        let ghost before_deltas = out@;
        let mut i: usize = 0;
        while i < self.category_deltas.len()
            invariant
                i <= self.category_deltas@.len(),
                out@ == before_deltas + render_deltas(deltas_view(self.category_deltas@.take(i as int))),
            decreases self.category_deltas@.len() - i,
        {
            let (category, delta) = &self.category_deltas[i];
            out.append("  ");
            out.append(category.as_str());
            out.append(": ");
            push_signed_delta(&mut out, *delta);
            out.append("\n");
            proof {
                let ds = self.category_deltas@;
                assert(deltas_view(ds.take(i + 1)).drop_last() =~= deltas_view(ds.take(i as int)));
                assert(deltas_view(ds.take(i + 1)).last() == (category@, *delta as int));
            }
            i = i + 1;
            assert(out@ =~= before_deltas + render_deltas(deltas_view(self.category_deltas@.take(i as int))));
        }
        assert(self.category_deltas@.take(i as int) =~= self.category_deltas@);
        push_snapshots(&mut out, "resolved: ", &self.resolved_findings);
        push_snapshots(&mut out, "new:      ", &self.new_findings);
        if self.is_significant_degradation() {
            out.append("\n/!\\ significant degradation since last scan (score dropped by ");
            push_decimal(&mut out, (-self.score_delta) as u64);
            out.append(")\n");
        }
        assert(out@ =~= render_diff(*self));
        out
    }
}

/// A finding is reported as new (or resolved) exactly when it occurs in
/// the one scan and no finding with the same category, severity and
/// summary occurs in the other.
pub proof fn law_missing_findings_are_exactly_the_unmatched(
    fs: Seq<FindingSnapshot>,
    other: Seq<FindingSnapshot>,
    f: FindingSnapshot,
)
    ensures
        missing_from(fs, other).contains(f) <==> (fs.contains(f) && !snapshot_in(f, other)),
    decreases fs.len(),
{
    if fs.len() > 0 {
        law_missing_findings_are_exactly_the_unmatched(fs.drop_last(), other, f);
        let rest = missing_from(fs.drop_last(), other);
        if fs.contains(f) && !snapshot_in(f, other) {
            if f != fs.last() {
                let i = choose|i: int| 0 <= i < fs.len() && fs[i] == f;
                assert(fs.drop_last()[i] == f);
            }
        }
        if fs.drop_last().contains(f) {
            let i = choose|i: int| 0 <= i < fs.drop_last().len() && fs.drop_last()[i] == f;
            assert(fs[i] == f);
        }
        if !snapshot_in(fs.last(), other) {
            assert(rest.push(fs.last())[rest.len() as int] == fs.last());
            if rest.push(fs.last()).contains(f) && f != fs.last() {
                let i = choose|i: int| 0 <= i < rest.push(fs.last()).len() && rest.push(fs.last())[i] == f;
                assert(rest[i] == f);
            }
            if rest.contains(f) {
                let i = choose|i: int| 0 <= i < rest.len() && rest[i] == f;
                assert(rest.push(fs.last())[i] == f);
            }
        }
    }
}

proof fn lemma_nothing_missing(fs: Seq<FindingSnapshot>, other: Seq<FindingSnapshot>)
    requires
        forall|i: int| 0 <= i < fs.len() ==> snapshot_in(#[trigger] fs[i], other),
    ensures
        missing_from(fs, other).len() == 0,
    decreases fs.len(),
{
    if fs.len() > 0 {
        assert(snapshot_in(fs[fs.len() - 1], other));
        assert forall|i: int| 0 <= i < fs.drop_last().len() implies snapshot_in(
            #[trigger] fs.drop_last()[i],
            other,
        ) by {
            assert(snapshot_in(fs[i], other));
        }
        lemma_nothing_missing(fs.drop_last(), other);
    }
}

/// Two scans with the same findings (as text) report nothing new and
/// nothing resolved.
pub proof fn law_same_findings_means_nothing_new_or_resolved(
    a: Seq<FindingSnapshot>,
    b: Seq<FindingSnapshot>,
)
    requires
        a.len() == b.len(),
        forall|i: int| 0 <= i < a.len() ==> (#[trigger] a[i])@ == b[i]@,
    ensures
        missing_from(a, b).len() == 0,
        missing_from(b, a).len() == 0,
{
    assert forall|i: int| 0 <= i < a.len() implies snapshot_in(#[trigger] a[i], b) by {
        assert(b[i]@ == a[i]@);
    }
    assert forall|i: int| 0 <= i < b.len() implies snapshot_in(#[trigger] b[i], a) by {
        assert(a[i]@ == b[i]@);
    }
    lemma_nothing_missing(a, b);
    lemma_nothing_missing(b, a);
}

/// Any two records built from reports can be compared: every score and
/// category score lies in `0..=100`, so every delta fits an `i32`, and
/// the score delta is the plain difference of the two report scores.
pub proof fn law_report_records_can_always_be_diffed(
    previous: ScanRecord,
    current: ScanRecord,
    previous_findings: Seq<Finding>,
    current_findings: Seq<Finding>,
    previous_ts: u64,
    current_ts: u64,
)
    requires
        is_record_of(previous, previous_findings, previous_ts),
        is_record_of(current, current_findings, current_ts),
    ensures
        deltas_fit(previous, current),
        (current.score as i32) - (previous.score as i32) == score_from_total(
            penalty_total(current_findings),
        ) - score_from_total(penalty_total(previous_findings)),
{
    assert forall|i: int| 0 <= i < current.category_scores@.len() implies match category_delta(
        previous.category_scores@,
        #[trigger] current.category_scores@[i],
    ) {
        Some(d) => i32::MIN <= d <= i32::MAX,
        None => true,
    } by {
        let c = current.category_scores@[i];
        assert(c.score <= 100);
        if exists|j: int| is_first_match(previous.category_scores@, c.category@, j) {
            let j = choose|j: int| is_first_match(previous.category_scores@, c.category@, j);
            assert(previous.category_scores@[j].score <= 100);
        }
    }
}

/// `a - b` fits in an `i32`.
fn fits_i32(a: i32, b: i32) -> (r: bool)
    ensures
        r == (i32::MIN <= a - b <= i32::MAX),
{
    let d = a as i64 - b as i64;
    i32::MIN as i64 <= d && d <= i32::MAX as i64
}

/// Whether two records can be diffed: every delta between them fits in
/// an `i32` (always so for records made from reports, whose scores are
/// at most 100; a history file may hold anything).
pub fn can_diff(previous: &ScanRecord, current: &ScanRecord) -> (b: bool)
    ensures
        b == deltas_fit(*previous, *current),
{
    if !fits_i32(current.score as i32, previous.score as i32) {
        return false;
    }
    let mut i: usize = 0;
    while i < current.category_scores.len()
        invariant
            i <= current.category_scores@.len(),
            forall|k: int|
                0 <= k < i ==> match category_delta(
                    previous.category_scores@,
                    #[trigger] current.category_scores@[k],
                ) {
                    Some(d) => i32::MIN <= d <= i32::MAX,
                    None => true,
                },
        decreases current.category_scores@.len() - i,
    {
        let c = &current.category_scores[i];
        match find_category(&previous.category_scores, &c.category) {
            Some(j) => {
                proof {
                    let jj = choose|jj: int| is_first_match(previous.category_scores@, c.category@, jj);
                    lemma_first_match_unique(previous.category_scores@, c.category@, j as int, jj);
                }
                if !fits_i32(c.score as i32, previous.category_scores[j].score as i32) {
                    return false;
                }
            },
            None => {},
        }
        i = i + 1;
    }
    true
}

/// The warning printed when a scan is significantly worse than the one
/// before it.
pub open spec fn degradation_warning(previous: u32, current: u32) -> Seq<char> {
    "\n/!\\ traceability has significantly worsened since the last scan (score "@ + decimal(
        previous as nat,
    ) + " -> "@ + decimal(current as nat) + ")"@
}

/// What a scan reports about its change since the previous one: the diff
/// unless nothing changed, and a warning on a significant degradation.
pub fn change_report(diff: &HistoryDiff) -> (r: (Option<String>, Option<String>))
    requires
        diff.score_delta > i32::MIN,
    ensures
        r.0 is None <==> (diff.score_delta == 0 && diff.new_findings@.len() == 0
            && diff.resolved_findings@.len() == 0),
        r.0 is Some ==> r.0->0@ == render_diff(*diff),
        r.1 is Some <==> diff.score_delta <= SIGNIFICANT_DEGRADATION_THRESHOLD,
        r.1 is Some ==> r.1->0@ == degradation_warning(diff.previous.score, diff.current.score),
{
    let change = if diff.unchanged() {
        None
    } else {
        Some(diff.to_string())
    };
    let warning = if diff.is_significant_degradation() {
        let mut w = "\n/!\\ traceability has significantly worsened since the last scan (score ".to_owned();
        push_decimal(&mut w, diff.previous.score as u64);
        w.append(" -> ");
        push_decimal(&mut w, diff.current.score as u64);
        w.append(")");
        Some(w)
    } else {
        None
    };
    (change, warning)
}

/// The last recorded scan's display timestamp and score, if any scan is
/// recorded (what the aggregate status shows without running a scan).
pub fn fingerprint_status(records: &Vec<ScanRecord>) -> (r: Option<(String, u32)>)
    ensures
        records@.len() == 0 ==> r is None,
        records@.len() > 0 ==> r == Some(
            (r->Some_0.0, records@.last().score),
        ) && (r->Some_0).0@ == timestamp_text(records@.last().timestamp_unix),
{
    if records.len() == 0 {
        return None;
    }
    let last = &records[records.len() - 1];
    Some((last.human_timestamp(), last.score))
}

/// The two most recent records of a history, to diff: the one before
/// last and the last; or the message to print when fewer than two are
/// recorded.
pub fn latest_pair(records: &Vec<ScanRecord>) -> (r: Result<(usize, usize), String>)
    ensures
        records@.len() >= 2 ==> r == Ok::<(usize, usize), String>(
            ((records@.len() - 2) as usize, (records@.len() - 1) as usize),
        ),
        records@.len() < 2 ==> r is Err && r->Err_0@
            == "not enough recorded scans yet to diff (need at least 2, have "@ + decimal(
            records@.len(),
        ) + ")"@,
{
    let n = records.len();
    if n >= 2 {
        return Ok((n - 2, n - 1));
    }
    let mut m = String::new();
    m.append("not enough recorded scans yet to diff (need at least 2, have ");
    push_decimal(&mut m, n as u64);
    m.append(")");
    Err(m)
}

/// Findings are matched across two scans by their exact text: a finding
/// of `fs` is reported as missing from `other` exactly when no finding
/// there has the same category, the same severity and the same summary.
/// Two findings that differ only in summary are therefore each reported
/// (one as new, the other as resolved).
pub proof fn law_findings_match_by_category_severity_and_summary(
    fs: Seq<FindingSnapshot>,
    other: Seq<FindingSnapshot>,
    f: FindingSnapshot,
)
    ensures
        missing_from(fs, other).contains(f) <==> (fs.contains(f) && forall|j: int|
            0 <= j < other.len() ==> !((#[trigger] other[j]).category@ == f.category@
                && other[j].severity@ == f.severity@ && other[j].summary@ == f.summary@)),
{
    law_missing_findings_are_exactly_the_unmatched(fs, other, f);
    if snapshot_in(f, other) {
        let j = choose|j: int| 0 <= j < other.len() && (#[trigger] other[j])@ == f@;
        assert(other[j].category@ == f.category@ && other[j].severity@ == f.severity@
            && other[j].summary@ == f.summary@);
    }
    if exists|j: int|
        0 <= j < other.len() && (#[trigger] other[j]).category@ == f.category@
            && other[j].severity@ == f.severity@ && other[j].summary@ == f.summary@ {
        let j = choose|j: int|
            0 <= j < other.len() && (#[trigger] other[j]).category@ == f.category@
                && other[j].severity@ == f.severity@ && other[j].summary@ == f.summary@;
        assert(other[j]@ == f@);
    }
}

} // verus!
