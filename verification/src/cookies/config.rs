//! The `[cookies]` section of the shared config file. Everything is
//! optional with a safe default; `enabled` defaults to `false`, and
//! nothing in this library ever turns it on by itself.

use std::path::PathBuf;

use vstd::prelude::*;

use crate::text::{chars_of, find_in, find_within, string_of_range};

verus! {

/// The proxy port used when none is configured.
pub const DEFAULT_PROXY_PORT: u16 = 9080;

#[derive(Debug, Clone)]
pub struct CookiesConfig {
    /// Never `true` unless the operator explicitly set it.
    pub enabled: bool,
    /// The tracker list file; `None` means pure pass-through.
    pub tracker_list_path: Option<PathBuf>,
    /// Local port the proxy listens on, on `127.0.0.1` only.
    pub proxy_port: u16,
}

impl Default for CookiesConfig {
    fn default() -> (c: CookiesConfig)
        ensures
            !c.enabled,
            c.tracker_list_path is None,
            c.proxy_port == DEFAULT_PROXY_PORT,
    {
        CookiesConfig { enabled: false, tracker_list_path: None, proxy_port: DEFAULT_PROXY_PORT }
    }
}

/// The line that sets the flag.
pub open spec fn flag_line(enabled: bool) -> Seq<char> {
    "enabled = "@ + if enabled {
        "true"@
    } else {
        "false"@
    }
}

/// The shared config file's text with `[cookies] enabled` set, edited in
/// place so that every other section and comment survives untouched:
///
/// - with no `[cookies]` section, one is appended (after a line break if
///   the text does not end with one);
/// - else, the first `enabled` inside that section (which ends at the
///   next line starting with `[`) has its line replaced, or, when that
///   line is the last and unterminated, a new line is appended at the end;
/// - else, an `enabled` line is inserted right after the header.
pub open spec fn with_enabled_flag(current: Seq<char>, enabled: bool) -> Seq<char> {
    let len = current.len() as int;
    match find_within(current, "[cookies]"@, 0, len) {
        None => (if current.len() > 0 && current.last() != '\n' {
            current.push('\n')
        } else {
            current
        }) + "\n[cookies]\n"@ + flag_line(enabled) + "\n"@,
        Some(cs) => {
            let section_end = match find_within(current, "\n["@, cs + 1, len) {
                Some(i) => i,
                None => len,
            };
            match find_within(current, "enabled"@, cs, section_end) {
                Some(start) => match find_within(current, "\n"@, start, len) {
                    Some(end) => current.take(start) + flag_line(enabled) + current.skip(end),
                    None => current + "\n"@ + flag_line(enabled) + "\n"@,
                },
                None => current.take(cs + 9) + "\n"@ + flag_line(enabled) + current.skip(cs + 9),
            }
        },
    }
}

fn pattern(s: &str) -> (v: Vec<char>)
    ensures
        v@ == s@,
{
    chars_of(s)
}

fn flag_line_text(enabled: bool) -> (r: String)
    ensures
        r@ == flag_line(enabled),
{
    if enabled {
        crate::text::concat2("enabled = ", "true")
    } else {
        crate::text::concat2("enabled = ", "false")
    }
}

/// Sets `[cookies] enabled` in the shared config file's text (see
/// `with_enabled_flag`).
pub fn set_enabled_flag(current: &str, enabled: bool) -> (r: String)
    ensures
        r@ == with_enabled_flag(current@, enabled),
{
    proof {
        reveal_strlit("enabled = true");
        reveal_strlit("enabled = false");
        reveal_strlit("enabled = ");
        reveal_strlit("true");
        reveal_strlit("false");
        reveal_strlit("[cookies]");
    }
    let v = chars_of(current);
    let len = v.len();
    let flag = flag_line_text(enabled);
    match find_in(&v, &pattern("[cookies]"), 0, len) {
        None => {
            let mut out = current.to_owned();
            if len > 0 && v[len - 1] != '\n' {
                out.push('\n');
            }
            out.append("\n[cookies]\n");
            out.append(flag.as_str());
            out.append("\n");
            out
        },
        Some(cs) => {
            assert("[cookies]"@.len() == 9);
            let section_end = match find_in(&v, &pattern("\n["), cs + 1, len) {
                Some(i) => i,
                None => len,
            };
            match find_in(&v, &pattern("enabled"), cs, section_end) {
                Some(start) => match find_in(&v, &pattern("\n"), start, len) {
                    Some(end) => {
                        let mut out = string_of_range(&v, 0, start);
                        out.append(flag.as_str());
                        let rest = string_of_range(&v, end, len);
                        out.append(rest.as_str());
                        assert(rest@ =~= current@.skip(end as int));
                        out
                    },
                    None => {
                        let mut out = current.to_owned();
                        out.append("\n");
                        out.append(flag.as_str());
                        out.append("\n");
                        out
                    },
                },
                None => {
                    let mut out = string_of_range(&v, 0, cs + 9);
                    out.append("\n");
                    out.append(flag.as_str());
                    let rest = string_of_range(&v, cs + 9, len);
                    out.append(rest.as_str());
                    assert(rest@ =~= current@.skip(cs + 9));
                    out
                },
            }
        },
    }
}

/// Setting the flag never touches what comes before the `[cookies]`
/// section: that text (the whole file, when there is no such section yet)
/// begins the result unchanged.
pub proof fn law_flag_edit_keeps_the_rest_of_the_file(current: Seq<char>, enabled: bool)
    ensures
        ({
            let kept = match find_within(current, "[cookies]"@, 0, current.len() as int) {
                Some(cs) => current.take(cs),
                None => current,
            };
            with_enabled_flag(current, enabled).take(kept.len() as int) == kept
        }),
{
    let len = current.len() as int;
    let r = with_enabled_flag(current, enabled);
    match find_within(current, "[cookies]"@, 0, len) {
        None => {
            assert(r.take(len) =~= current);
        },
        Some(cs) => {
            let section_end = match find_within(current, "\n["@, cs + 1, len) {
                Some(i) => i,
                None => len,
            };
            match find_within(current, "enabled"@, cs, section_end) {
                Some(start) => {
                    let j = choose|i: int| #[trigger] crate::text::first_occurrence(current, "enabled"@, cs, i);
                    assert(cs <= start);
                    match find_within(current, "\n"@, start, len) {
                        Some(end) => assert(r.take(cs) =~= current.take(cs)),
                        None => assert(r.take(cs) =~= current.take(cs)),
                    }
                },
                None => {
                    let j = choose|i: int| #[trigger] crate::text::first_occurrence(current, "[cookies]"@, 0, i);
                    assert(cs + 9 <= len) by {
                        reveal_strlit("[cookies]");
                    }
                    assert(r.take(cs) =~= current.take(cs));
                },
            }
        },
    }
}

} // verus!
