//! A domain-blocking list in the plain-domain subset of the AdBlock /
//! EasyList filter syntax:
//!
//! - `||domain.tld^` and `||domain.tld^$options`: the domain between `||`
//!   and the first `^` or `$` is taken, the options are ignored;
//! - a bare domain per line is accepted too;
//! - comments (`!`), exception rules (`@`), cosmetic rules (containing
//!   `##` or `#@#`) and regex rules (`/`) are skipped;
//! - anything else that does not look like a domain is skipped silently.

use vstd::prelude::*;
use vstd::set_lib::{lemma_int_range, lemma_len_subset, lemma_map_size_bound, set_int_range};

use crate::text::{
    ascii_lower, ascii_lower_seq, chars_of, is_line, lemma_line_ends_here, concat2, contains, ends_with, has_infix, has_prefix, has_suffix,
    string_of_range, to_ascii_lowercase, trim, trimmed, leading_ws,
};

verus! {

/// The characters a domain may consist of.
pub open spec fn domain_char(c: char) -> bool {
    ('a' <= c && c <= 'z') || ('A' <= c && c <= 'Z') || ('0' <= c && c <= '9') || c == '.'
        || c == '-'
}

/// The lowercased domain `candidate` names once trimmed, if it looks like
/// one: only letters, digits, `.` and `-`, at least one `.`, and not
/// starting with `.` or `-`.
pub open spec fn domain_text(candidate: Seq<char>) -> Option<Seq<char>> {
    let c = trimmed(candidate);
    if c.len() > 0 && (forall|i: int| 0 <= i < c.len() ==> domain_char(#[trigger] c[i]))
        && c.contains('.') && c[0] != '.' && c[0] != '-' {
        Some(ascii_lower_seq(c))
    } else {
        None
    }
}

/// Length of the part of `s` before its first `^` or `$`.
pub open spec fn rule_end(s: Seq<char>) -> nat
    decreases s.len(),
{
    if s.len() == 0 || s[0] == '^' || s[0] == '$' {
        0
    } else {
        1 + rule_end(s.drop_first())
    }
}

/// The domain one line of a list contributes, if any.
pub open spec fn line_domain(line: Seq<char>) -> Option<Seq<char>> {
    let l = trimmed(line);
    if l.len() == 0 || l[0] == '!' || l[0] == '@' {
        None
    } else if has_infix(l, "##"@) || has_infix(l, "#@#"@) || l[0] == '/' {
        None
    } else if has_prefix(l, "||"@) {
        let rest = l.skip(2);
        domain_text(trimmed(rest.take(rule_end(rest) as int)))
    } else {
        domain_text(l)
    }
}

/// The domains a whole list contributes: those of its lines.
pub open spec fn parsed_domains(text: Seq<char>) -> Set<Seq<char>> {
    Set::new(
        |d: Seq<char>|
            exists|a: int, b: int|
                is_line(text, a, b) && #[trigger] line_domain(text.subrange(a, b)) == Some(d),
    )
}

/// `s` without its trailing `.` characters.
pub open spec fn strip_trailing_dots(s: Seq<char>) -> Seq<char>
    decreases s.len(),
{
    if s.len() > 0 && s.last() == '.' {
        strip_trailing_dots(s.drop_last())
    } else {
        s
    }
}

/// The form a host is compared in: lowercase, without trailing dots.
pub open spec fn normalized_host(host: Seq<char>) -> Seq<char> {
    ascii_lower_seq(strip_trailing_dots(host))
}

/// `host` is the domain `d` or one of its subdomains.
pub open spec fn host_under(host: Seq<char>, d: Seq<char>) -> bool {
    host == d || has_suffix(host, seq!['.'] + d)
}

/// The views of a list of strings.
pub open spec fn names(v: Seq<String>) -> Seq<Seq<char>> {
    v.map_values(|s: String| s@)
}

/// A loaded set of tracker domains, matched by exact host or by suffix
/// (`sub.doubleclick.net` matches a `doubleclick.net` entry).
#[derive(Debug)]
pub struct TrackerList {
    domains: Vec<String>,
}

impl View for TrackerList {
    type V = Set<Seq<char>>;

    closed spec fn view(&self) -> Set<Seq<char>> {
        names(self.domains@).to_set()
    }
}

/// Appends `d` to `v` unless a string with the same text is already there.
fn push_unique(v: &mut Vec<String>, d: String)
    requires
        names(old(v)@).no_duplicates(),
    ensures
        names(final(v)@).no_duplicates(),
        names(final(v)@).to_set() == names(old(v)@).to_set().insert(d@),
{
    let mut j: usize = 0;
    while j < v.len()
        invariant
            v@ == old(v)@,
            names(v@).no_duplicates(),
            j <= v@.len(),
            forall|k: int| 0 <= k < j ==> (#[trigger] v@[k])@ != d@,
        decreases v@.len() - j,
    {
        if v[j] == d {
            proof {
                assert(names(v@)[j as int] == d@);
                assert(names(v@).to_set().insert(d@) =~= names(v@).to_set());
            }
            return;
        }
        j = j + 1;
    }
    let ghost before = names(v@);
    v.push(d);
    proof {
        assert(names(v@) =~= before.push(d@));
        assert forall|x: Seq<char>| names(v@).contains(x) <==> before.to_set().insert(d@).contains(x)
        by {
            if names(v@).contains(x) {
                let k = choose|k: int| 0 <= k < names(v@).len() && #[trigger] names(v@)[k] == x;
                if k < before.len() {
                    assert(before[k] == x);
                }
            }
            if before.contains(x) {
                let k = choose|k: int| 0 <= k < before.len() && #[trigger] before[k] == x;
                assert(names(v@)[k] == x);
            }
            if x == d@ {
                assert(names(v@)[before.len() as int] == x);
            }
        }
        assert(names(v@).to_set() =~= before.to_set().insert(d@));
        assert forall|a: int, b: int|
            0 <= a < names(v@).len() && 0 <= b < names(v@).len() && a != b implies names(
            v@,
        )[a] != names(v@)[b] by {
            if a < before.len() && b < before.len() {
            } else if a == before.len() {
                assert(v@[b]@ != d@);
            } else {
                assert(v@[a]@ != d@);
            }
        }
    }
}

/// The lowercased domain `candidate` names, if it looks like one.
pub fn valid_domain(candidate: &str) -> (r: Option<String>)
    ensures
        match r {
            Some(d) => domain_text(candidate@) == Some(d@),
            None => domain_text(candidate@) is None,
        },
{
    let c = trim(candidate);
    let v = chars_of(c.as_str());
    if v.len() == 0 {
        return None;
    }
    let mut i: usize = 0;
    let mut has_dot = false;
    while i < v.len()
        invariant
            v@ == trimmed(candidate@),
            i <= v@.len(),
            forall|k: int| 0 <= k < i ==> domain_char(#[trigger] v@[k]),
            has_dot == v@.take(i as int).contains('.'),
        decreases v@.len() - i,
    {
        let ch = v[i];
        let ok = ('a' <= ch && ch <= 'z') || ('A' <= ch && ch <= 'Z') || ('0' <= ch && ch <= '9')
            || ch == '.' || ch == '-';
        if !ok {
            return None;
        }
        proof {
            assert(v@.take(i + 1) =~= v@.take(i as int).push(ch));
            if v@.take(i + 1).contains('.') && ch != '.' {
                let k = choose|k: int| 0 <= k < i + 1 && #[trigger] v@.take(i + 1)[k] == '.';
                assert(v@.take(i as int)[k] == '.');
            }
            if v@.take(i as int).contains('.') {
                let k = choose|k: int| 0 <= k < i && #[trigger] v@.take(i as int)[k] == '.';
                assert(v@.take(i + 1)[k] == '.');
            }
            if ch == '.' {
                assert(v@.take(i + 1)[i as int] == '.');
            }
        }
        has_dot = has_dot || ch == '.';
        i = i + 1;
    }
    assert(v@.take(i as int) =~= v@);
    if !has_dot || v[0] == '.' || v[0] == '-' {
        return None;
    }
    Some(to_ascii_lowercase(c.as_str()))
}

/// Length of the part of `v[from..]` before its first `^` or `$`.
fn rule_end_of(v: &Vec<char>, from: usize) -> (n: usize)
    requires
        from <= v@.len(),
    ensures
        from + n <= v@.len(),
        n == rule_end(v@.skip(from as int)),
{
    let mut i = from;
    while i < v.len() && v[i] != '^' && v[i] != '$'
        invariant
            from <= i <= v@.len(),
            rule_end(v@.skip(from as int)) == (i - from) + rule_end(v@.skip(i as int)),
        decreases v@.len() - i,
    {
        assert(v@.skip(i as int).drop_first() =~= v@.skip(i + 1));
        i = i + 1;
    }
    i - from
}

/// The domain one line of a list contributes, if any.
pub fn parse_line(line: &str) -> (r: Option<String>)
    ensures
        match r {
            Some(d) => line_domain(line@) == Some(d@),
            None => line_domain(line@) is None,
        },
{
    let l = trim(line);
    let v = chars_of(l.as_str());
    if v.len() == 0 || v[0] == '!' || v[0] == '@' {
        return None;
    }
    if contains(l.as_str(), "##") || contains(l.as_str(), "#@#") || v[0] == '/' {
        return None;
    }
    if crate::text::starts_with(l.as_str(), "||") {
        proof {
            reveal_strlit("||");
        }
        let n = rule_end_of(&v, 2);
        let part = string_of_range(&v, 2, 2 + n);
        let t = trim(part.as_str());
        proof {
            let rest = v@.skip(2);
            assert(part@ =~= rest.take(rule_end(rest) as int));
        }
        return valid_domain(t.as_str());
    }
    valid_domain(l.as_str())
}

impl TrackerList {
    #[verifier::type_invariant]
    closed spec fn no_repeats(self) -> bool {
        names(self.domains@).no_duplicates()
    }

    /// No domains at all: every host passes through. This is the safe
    /// state for "no list has been configured yet".
    pub fn empty() -> (list: TrackerList)
        ensures
            list@ == Set::<Seq<char>>::empty(),
    {
        let list = TrackerList { domains: Vec::new() };
        assert(names(list.domains@).to_set() =~= Set::<Seq<char>>::empty());
        list
    }

    /// A list of exactly `domains`, lowercased.
    pub fn from_domains(domains: Vec<String>) -> (list: TrackerList)
        ensures
            list@ == names(domains@).map_values(|d: Seq<char>| ascii_lower_seq(d)).to_set(),
    {
        let mut v: Vec<String> = Vec::new();
        let mut i: usize = 0;
        while i < domains.len()
            invariant
                i <= domains@.len(),
                names(v@).no_duplicates(),
                names(v@).to_set() == names(domains@.take(i as int)).map_values(
                    |d: Seq<char>| ascii_lower_seq(d),
                ).to_set(),
            decreases domains@.len() - i,
        {
            let lowered = to_ascii_lowercase(domains[i].as_str());
            push_unique(&mut v, lowered);
            proof {
                let f = |d: Seq<char>| ascii_lower_seq(d);
                let prev = names(domains@.take(i as int)).map_values(f);
                let next = names(domains@.take(i + 1)).map_values(f);
                assert(next =~= prev.push(ascii_lower_seq(domains@[i as int]@)));
                prev.lemma_push_to_set_commute(ascii_lower_seq(domains@[i as int]@));
            }
            i = i + 1;
        }
        assert(domains@.take(i as int) =~= domains@);
        TrackerList { domains: v }
    }

    /// Parses a list: every line contributes its domain, if it has one.
    pub fn parse(text: &str) -> (list: TrackerList)
        ensures
            list@ == parsed_domains(text@),
    {
        let t = chars_of(text);
        let mut v: Vec<String> = Vec::new();
        let mut start: usize = 0;
        let mut i: usize = 0;
        while i < t.len()
            invariant
                t@ == text@,
                start <= i <= t@.len(),
                start == 0 || t@[start - 1] == '\n',
                forall|k: int| start <= k < i ==> t@[k] != '\n',
                names(v@).no_duplicates(),
                names(v@).to_set() == Set::new(
                    |d: Seq<char>|
                        exists|a: int, b: int|
                            is_line(t@, a, b) && b < start && #[trigger] line_domain(
                                t@.subrange(a, b),
                            ) == Some(d),
                ),
            decreases t@.len() - i,
        {
            if t[i] == '\n' {
                let line = string_of_range(&t, start, i);
                let parsed = parse_line(line.as_str());
                let ghost old_set = names(v@).to_set();
                match parsed {
                    Some(d) => {
                        push_unique(&mut v, d);
                    },
                    None => {},
                }
                proof {
                    assert(is_line(t@, start as int, i as int));
                    assert forall|d: Seq<char>|
                        names(v@).to_set().contains(d) <==> (exists|a: int, b: int|
                            is_line(t@, a, b) && b < i + 1 && #[trigger] line_domain(
                                t@.subrange(a, b),
                            ) == Some(d)) by {
                        if exists|a: int, b: int|
                            is_line(t@, a, b) && b < i + 1 && #[trigger] line_domain(
                                t@.subrange(a, b),
                            ) == Some(d) {
                            let (a, b) = choose|a: int, b: int|
                                is_line(t@, a, b) && b < i + 1 && #[trigger] line_domain(
                                    t@.subrange(a, b),
                                ) == Some(d);
                            if b >= start {
                                lemma_line_ends_here(t@, start as int, i as int, a, b);
                            }
                        }
                        if names(v@).to_set().contains(d) && !old_set.contains(d) {
                            assert(line_domain(t@.subrange(start as int, i as int)) == Some(d));
                        }
                    }
                    assert(names(v@).to_set() =~= Set::new(
                        |d: Seq<char>|
                            exists|a: int, b: int|
                                is_line(t@, a, b) && b < i + 1 && #[trigger] line_domain(
                                    t@.subrange(a, b),
                                ) == Some(d),
                    ));
                }
                start = i + 1;
            }
            i = i + 1;
        }
        let line = string_of_range(&t, start, t.len());
        let parsed = parse_line(line.as_str());
        let ghost old_set = names(v@).to_set();
        match parsed {
            Some(d) => {
                push_unique(&mut v, d);
            },
            None => {},
        }
        proof {
            assert(is_line(t@, start as int, t@.len() as int));
            assert forall|d: Seq<char>|
                names(v@).to_set().contains(d) <==> parsed_domains(text@).contains(d) by {
                if parsed_domains(text@).contains(d) {
                    let (a, b) = choose|a: int, b: int|
                        is_line(t@, a, b) && #[trigger] line_domain(t@.subrange(a, b)) == Some(d);
                    if b >= start {
                        lemma_line_ends_here(t@, start as int, t@.len() as int, a, b);
                    }
                }
                if names(v@).to_set().contains(d) && !old_set.contains(d) {
                    assert(line_domain(t@.subrange(start as int, t@.len() as int)) == Some(d));
                }
            }
            assert(names(v@).to_set() =~= parsed_domains(text@));
        }
        TrackerList { domains: v }
    }

    /// Number of distinct domains on the list.
    pub fn len(&self) -> (n: usize)
        ensures
            n == self@.len(),
    {
        proof {
            use_type_invariant(self);
            names(self.domains@).unique_seq_to_set();
        }
        self.domains.len()
    }

    pub fn is_empty(&self) -> (b: bool)
        ensures
            b == (self@.len() == 0),
    {
        self.len() == 0
    }

    /// True if `host` is a listed domain or a subdomain of one.
    /// Case-insensitive; trailing dots are ignored.
    pub fn matches(&self, host: &str) -> (b: bool)
        ensures
            b == exists|d: Seq<char>| self@.contains(d) && host_under(normalized_host(host@), d),
    {
        let hv = chars_of(host);
        let mut end = hv.len();
        assert(hv@ =~= hv@.take(hv@.len() as int));
        while end > 0 && hv[end - 1] == '.'
            invariant
                end <= hv@.len(),
                strip_trailing_dots(hv@) == strip_trailing_dots(hv@.take(end as int)),
            decreases end,
        {
            assert(hv@.take(end as int).drop_last() =~= hv@.take(end - 1));
            end = end - 1;
        }
        let stripped = string_of_range(&hv, 0, end);
        assert(stripped@ =~= hv@.take(end as int));
        let h = to_ascii_lowercase(stripped.as_str());
        let mut j: usize = 0;
        while j < self.domains.len()
            invariant
                h@ == normalized_host(host@),
                j <= self.domains@.len(),
                forall|k: int|
                    0 <= k < j ==> !host_under(h@, #[trigger] self.domains@[k]@),
            decreases self.domains@.len() - j,
        {
            let d = &self.domains[j];
            let dotted = concat2(".", d.as_str());
            proof {
                reveal_strlit(".");
                assert(dotted@ =~= seq!['.'] + d@);
            }
            if h == *d || ends_with(h.as_str(), dotted.as_str()) {
                proof {
                    assert(names(self.domains@)[j as int] == d@);
                    assert(self@.contains(d@));
                }
                return true;
            }
            j = j + 1;
        }
        proof {
            assert forall|d: Seq<char>| !(self@.contains(d) && host_under(h@, d)) by {
                if self@.contains(d) {
                    let k = choose|k: int|
                        0 <= k < names(self.domains@).len() && #[trigger] names(self.domains@)[k] == d;
                    assert(self.domains@[k]@ == d);
                }
            }
        }
        false
    }
}

impl Clone for TrackerList {
    fn clone(&self) -> (r: Self)
        ensures
            r@ == self@,
    {
        proof {
            use_type_invariant(self);
        }
        let mut v: Vec<String> = Vec::new();
        let mut i: usize = 0;
        while i < self.domains.len()
            invariant
                i <= self.domains@.len(),
                names(self.domains@).no_duplicates(),
                v@ == self.domains@.take(i as int),
            decreases self.domains@.len() - i,
        {
            v.push(self.domains[i].clone());
            i = i + 1;
            assert(v@ =~= self.domains@.take(i as int));
        }
        assert(v@ =~= self.domains@);
        TrackerList { domains: v }
    }
}

impl Default for TrackerList {
    fn default() -> (list: TrackerList)
        ensures
            list@ == Set::<Seq<char>>::empty(),
    {
        TrackerList::empty()
    }
}

proof fn lemma_lower_idempotent(s: Seq<char>)
    ensures
        ascii_lower_seq(ascii_lower_seq(s)) == ascii_lower_seq(s),
{
    assert(ascii_lower_seq(ascii_lower_seq(s)) =~= ascii_lower_seq(s));
}

proof fn lemma_strip_commutes_with_lower(s: Seq<char>)
    ensures
        strip_trailing_dots(ascii_lower_seq(s)) == ascii_lower_seq(strip_trailing_dots(s)),
    decreases s.len(),
{
    if s.len() > 0 {
        assert(ascii_lower_seq(s).drop_last() =~= ascii_lower_seq(s.drop_last()));
        if s.last() == '.' {
            lemma_strip_commutes_with_lower(s.drop_last());
        }
    }
}

/// Matching is case-insensitive and ignores a trailing dot: a host, its
/// lowercase form and the host with a `.` appended are all compared in
/// the same normalized form.
pub proof fn law_matching_ignores_case_and_trailing_dot(host: Seq<char>)
    ensures
        normalized_host(ascii_lower_seq(host)) == normalized_host(host),
        normalized_host(host.push('.')) == normalized_host(host),
{
    assert(host.push('.').drop_last() =~= host);
    lemma_strip_commutes_with_lower(host);
    lemma_lower_idempotent(strip_trailing_dots(host));
}

/// Every subdomain of a listed domain matches it, whatever its labels.
pub proof fn law_subdomains_match(sub: Seq<char>, d: Seq<char>)
    ensures
        host_under(sub + seq!['.'] + d, d),
{
    let h = sub + seq!['.'] + d;
    assert(h.skip(h.len() - (seq!['.'] + d).len()) =~= seq!['.'] + d);
}

/// The characters a listed domain is made of: lowercase letters,
/// digits, `.` and `-`.
pub open spec fn listed_domain_char(c: char) -> bool {
    ('a' <= c && c <= 'z') || ('0' <= c && c <= '9') || c == '.' || c == '-'
}

/// The shape of every listed domain.
pub open spec fn listed_domain_shape(d: Seq<char>) -> bool {
    &&& d.len() > 0
    &&& forall|i: int| 0 <= i < d.len() ==> listed_domain_char(#[trigger] d[i])
    &&& d.contains('.')
    &&& d[0] != '.' && d[0] != '-'
}

proof fn lemma_domain_text_shape(candidate: Seq<char>)
    requires
        domain_text(candidate) is Some,
    ensures
        listed_domain_shape(domain_text(candidate)->0),
{
    let c = trimmed(candidate);
    let d = ascii_lower_seq(c);
    assert(d.len() == c.len());
    assert forall|i: int| 0 <= i < d.len() implies listed_domain_char(#[trigger] d[i]) by {
        assert(domain_char(c[i]));
        assert(d[i] == ascii_lower(c[i]));
        if 'A' <= c[i] && c[i] <= 'Z' {
            let x = (c[i] as u32) + 32;
            assert(65 <= c[i] as u32 <= 90);
            assert(97 <= x <= 122);
            assert(ascii_lower(c[i]) == x as char);
        }
    }
    let j = choose|j: int| 0 <= j < c.len() && c[j] == '.';
    assert(d[j] == '.');
    assert(d[0] == ascii_lower(c[0]));
}

/// Every domain a list contributes is lowercase, made only of letters,
/// digits, `.` and `-`, holds at least one `.`, and starts with neither
/// `.` nor `-`.
pub proof fn law_listed_domains_are_well_formed(text: Seq<char>, d: Seq<char>)
    requires
        parsed_domains(text).contains(d),
    ensures
        listed_domain_shape(d),
{
    let (a, b) = choose|a: int, b: int| is_line(text, a, b) && #[trigger] line_domain(text.subrange(a, b)) == Some(d);
    let l = trimmed(text.subrange(a, b));
    if has_prefix(l, "||"@) && !(l.len() == 0 || l[0] == '!' || l[0] == '@') && !(has_infix(l, "##"@) || has_infix(l, "#@#"@) || l[0] == '/') {
        let rest = l.skip(2);
        lemma_domain_text_shape(trimmed(rest.take(rule_end(rest) as int)));
    } else {
        lemma_domain_text_shape(l);
    }
}

/// Where the lines of `text` begin, as `str::lines` yields them: at the
/// start and after each `\n`, except at the very end of the text.
pub open spec fn line_starts(text: Seq<char>) -> Set<int> {
    Set::new(|a: int| 0 <= a < text.len() && (a == 0 || text[a - 1] == '\n'))
}

/// Where the line that begins at `a` ends: the next `\n`, or the end.
pub open spec fn line_end(text: Seq<char>, a: int) -> int
    decreases text.len() - a,
{
    if 0 <= a < text.len() && text[a] != '\n' {
        line_end(text, a + 1)
    } else {
        a
    }
}

proof fn lemma_line_end(text: Seq<char>, a: int, b: int)
    requires
        0 <= a <= b <= text.len(),
        b == text.len() || text[b] == '\n',
        forall|k: int| a <= k < b ==> text[k] != '\n',
    ensures
        line_end(text, a) == b,
    decreases b - a,
{
    if a < b {
        lemma_line_end(text, a + 1, b);
    }
}

/// A list contributes at most one domain per line: never more domains
/// than `str::lines` counts lines.
pub proof fn law_at_most_one_domain_per_line(text: Seq<char>)
    ensures
        parsed_domains(text).finite(),
        parsed_domains(text).len() <= line_starts(text).len(),
{
    let starts = line_starts(text);
    let f = |a: int|
        match line_domain(text.subrange(a, line_end(text, a))) {
            Some(d) => d,
            None => Seq::<char>::empty(),
        };
    assert(starts.subset_of(set_int_range(0, text.len() as int)));
    lemma_int_range(0, text.len() as int);
    lemma_len_subset(starts, set_int_range(0, text.len() as int));
    lemma_map_size_bound(starts, starts.map(f), f);
    assert forall|d: Seq<char>| #[trigger] parsed_domains(text).contains(d) implies starts.map(f).contains(d) by {
        let (a, b) = choose|a: int, b: int|
            is_line(text, a, b) && #[trigger] line_domain(text.subrange(a, b)) == Some(d);
        lemma_line_end(text, a, b);
        if a == text.len() {
            assert(text.subrange(a, b).len() == 0);
            assert(text.subrange(a, b) =~= Seq::<char>::empty());
            assert(leading_ws(Seq::<char>::empty()) == 0);
            assert(trimmed(text.subrange(a, b)).len() == 0);
        }
        assert(starts.contains(a));
        assert(f(a) == d);
    }
    lemma_len_subset(parsed_domains(text), starts.map(f));
}

proof fn lemma_lines_of_joined(a: Seq<char>, b: Seq<char>, x: int, y: int)
    ensures
        ({
            let j = a + seq!['\n'] + b;
            let n = a.len() as int;
            &&& is_line(a, x, y) ==> is_line(j, x, y) && j.subrange(x, y) == a.subrange(x, y)
            &&& is_line(b, x, y) ==> is_line(j, x + n + 1, y + n + 1) && j.subrange(x + n + 1, y + n + 1)
                == b.subrange(x, y)
            &&& is_line(j, x, y) && y <= n ==> is_line(a, x, y) && j.subrange(x, y) == a.subrange(x, y)
            &&& is_line(j, x, y) && y > n ==> x > n && is_line(b, x - n - 1, y - n - 1) && j.subrange(x, y)
                == b.subrange(x - n - 1, y - n - 1)
        }),
{
    let j = a + seq!['\n'] + b;
    let n = a.len() as int;
    assert(j.len() == n + 1 + b.len());
    assert(j[n] == '\n');
    assert forall|k: int| 0 <= k < n implies #[trigger] j[k] == a[k] by {}
    assert forall|k: int| 0 <= k < b.len() implies #[trigger] j[k + n + 1] == b[k] by {}
    if is_line(a, x, y) {
        assert forall|k: int| x <= k < y implies j[k] != '\n' by {
            assert(j[k] == a[k]);
        }
        if x > 0 {
            assert(j[x - 1] == a[x - 1]);
        }
        if y < n {
            assert(j[y] == a[y]);
        }
        assert(j.subrange(x, y) =~= a.subrange(x, y));
    }
    if is_line(b, x, y) {
        assert forall|k: int| x + n + 1 <= k < y + n + 1 implies j[k] != '\n' by {
            assert(j[(k - n - 1) + n + 1] == b[k - n - 1]);
        }
        if x > 0 {
            assert(j[(x - 1) + n + 1] == b[x - 1]);
        }
        if y < b.len() {
            assert(j[y + n + 1] == b[y]);
        }
        assert(j.subrange(x + n + 1, y + n + 1) =~= b.subrange(x, y));
    }
    if is_line(j, x, y) && y <= n {
        assert forall|k: int| x <= k < y implies a[k] != '\n' by {
            assert(j[k] == a[k]);
        }
        if x > 0 {
            assert(j[x - 1] == a[x - 1]);
        }
        if y < n {
            assert(j[y] == a[y]);
        }
        assert(j.subrange(x, y) =~= a.subrange(x, y));
    }
    if is_line(j, x, y) && y > n {
        if x <= n {
            assert(j[n] != '\n');
        }
        let x2 = x - n - 1;
        let y2 = y - n - 1;
        assert forall|k: int| x2 <= k < y2 implies b[k] != '\n' by {
            assert(j[k + n + 1] == b[k]);
        }
        if x2 > 0 {
            assert(j[(x2 - 1) + n + 1] == b[x2 - 1]);
        }
        if y2 < b.len() {
            assert(j[y2 + n + 1] == b[y2]);
        }
        assert(j.subrange(x, y) =~= b.subrange(x2, y2));
    }
}

/// Two lists joined by a line break contribute exactly the domains of
/// both, so the joined list matches a host exactly when either does.
pub proof fn law_joined_lists_contribute_both(a: Seq<char>, b: Seq<char>)
    ensures
        parsed_domains(a + seq!['\n'] + b) == parsed_domains(a).union(parsed_domains(b)),
{
    let j = a + seq!['\n'] + b;
    let n = a.len() as int;
    assert forall|d: Seq<char>| #[trigger] parsed_domains(j).contains(d) implies parsed_domains(a).union(
        parsed_domains(b),
    ).contains(d) by {
        let (x, y) = choose|x: int, y: int| is_line(j, x, y) && #[trigger] line_domain(j.subrange(x, y)) == Some(d);
        lemma_lines_of_joined(a, b, x, y);
        if y <= n {
            assert(line_domain(a.subrange(x, y)) == Some(d));
            assert(parsed_domains(a).contains(d));
        } else {
            lemma_lines_of_joined(a, b, x - n - 1, y - n - 1);
            assert(line_domain(b.subrange(x - n - 1, y - n - 1)) == Some(d));
            assert(parsed_domains(b).contains(d));
        }
    }
    assert forall|d: Seq<char>| #[trigger] parsed_domains(a).union(parsed_domains(b)).contains(d) implies parsed_domains(
        j,
    ).contains(d) by {
        if parsed_domains(a).contains(d) {
            let (x, y) = choose|x: int, y: int| is_line(a, x, y) && #[trigger] line_domain(a.subrange(x, y)) == Some(d);
            lemma_lines_of_joined(a, b, x, y);
            assert(line_domain(j.subrange(x, y)) == Some(d));
        } else {
            let (x, y) = choose|x: int, y: int| is_line(b, x, y) && #[trigger] line_domain(b.subrange(x, y)) == Some(d);
            lemma_lines_of_joined(a, b, x, y);
            assert(line_domain(j.subrange(x + n + 1, y + n + 1)) == Some(d));
        }
    }
    assert(parsed_domains(j) =~= parsed_domains(a).union(parsed_domains(b)));
}

/// A host is under a listed domain only when it is that domain or ends
/// with `.` followed by it: it is never shorter than the domain, so a
/// parent of a listed domain (`example.com` for `ads.example.com`) is not
/// under it.
pub proof fn law_host_under_is_the_domain_or_a_subdomain(host: Seq<char>, d: Seq<char>)
    requires
        host_under(host, d),
    ensures
        host.len() >= d.len(),
        host.subrange(host.len() - d.len(), host.len() as int) == d,
        host.len() == d.len() || (host.len() > d.len() && host[host.len() - d.len() - 1] == '.'),
{
    if host != d {
        let t = seq!['.'] + d;
        assert(host.skip(host.len() - t.len()) == t);
        assert(host.subrange(host.len() - d.len(), host.len() as int) =~= t.skip(1));
        assert(t.skip(1) =~= d);
        assert(host[host.len() - d.len() - 1] == host.skip(host.len() - t.len())[0]);
    } else {
        assert(host.subrange(0, host.len() as int) =~= host);
    }
}

/// Which hosts a list matches: a host matches only when its normalized
/// form equals a listed domain or ends with `.` followed by one, so a
/// host that is shorter than every listed domain (a parent of them)
/// matches nothing.
pub proof fn law_only_listed_domains_and_subdomains_match(listed: Set<Seq<char>>, host: Seq<char>)
    ensures
        (exists|d: Seq<char>| listed.contains(d) && host_under(normalized_host(host), d)) ==> exists|d: Seq<char>|
            #[trigger] listed.contains(d) && (normalized_host(host) == d || (normalized_host(host).len()
                > d.len() && normalized_host(host)[normalized_host(host).len() - d.len() - 1] == '.'
                && normalized_host(host).subrange(
                normalized_host(host).len() - d.len(),
                normalized_host(host).len() as int,
            ) == d)),
        (forall|d: Seq<char>| #[trigger] listed.contains(d) ==> normalized_host(host).len() < d.len()) ==> !exists|
            d: Seq<char>,
        | listed.contains(d) && host_under(normalized_host(host), d),
{
    let h = normalized_host(host);
    if exists|d: Seq<char>| listed.contains(d) && host_under(h, d) {
        let d = choose|d: Seq<char>| listed.contains(d) && host_under(h, d);
        law_host_under_is_the_domain_or_a_subdomain(h, d);
        if h.len() == d.len() {
            assert(h.subrange(0, h.len() as int) =~= h);
        }
    }
    if forall|d: Seq<char>| #[trigger] listed.contains(d) ==> h.len() < d.len() {
        if exists|d: Seq<char>| listed.contains(d) && host_under(h, d) {
            let d = choose|d: Seq<char>| listed.contains(d) && host_under(h, d);
            law_host_under_is_the_domain_or_a_subdomain(h, d);
        }
    }
}

} // verus!
