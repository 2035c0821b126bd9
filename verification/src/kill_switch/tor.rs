//! What the kill switch needs to know of whichever Tor backend runs Tor,
//! and how the exit address is read back from an echo service through it.

use std::path::PathBuf;

use vstd::prelude::*;

use crate::text::{chars_of, matches_at, occurs_at, string_of_range, trim, trimmed};

verus! {

/// Tor's bootstrap progress, as any backend reports it.
#[derive(Debug, Clone)]
pub struct TorStatus {
    pub bootstrap_percent: u8,
    pub ready_for_traffic: bool,
    pub blocked_reason: Option<String>,
}

/// What a platform kill switch scopes its "allowed to reach the network"
/// rule to.
#[derive(Debug, Clone)]
pub enum PermitTarget {
    /// Tor runs in-process: permit this executable.
    ThisProcess,
    /// Tor runs as a child process from this executable: permit that one,
    /// since the child makes the outbound connections.
    ChildProcess(PathBuf),
}

/// The echo service asked over Tor for the exit address.
pub const EXIT_IP_HOST: &'static str = "api.ipify.org";

/// The plain HTTP request sent to `EXIT_IP_HOST` port 80 through Tor.
pub const EXIT_IP_REQUEST: &'static str = "GET / HTTP/1.1\r\nHost: api.ipify.org\r\nConnection: close\r\n\r\n";

/// `i` is the last position where `p` occurs in `s`.
pub open spec fn last_occurrence(s: Seq<char>, p: Seq<char>, i: int) -> bool {
    occurs_at(s, p, i) && forall|j: int| i < j ==> !#[trigger] occurs_at(s, p, j)
}

/// The body of the echo service's response: what follows the last blank
/// line (`\r\n\r\n`), trimmed; empty when there is none. It should be
/// the exit address as text.
pub open spec fn response_body(response: Seq<char>) -> Seq<char> {
    let sep = seq!['\r', '\n', '\r', '\n'];
    if exists|i: int| #[trigger] last_occurrence(response, sep, i) {
        let i = choose|i: int| #[trigger] last_occurrence(response, sep, i);
        trimmed(response.skip(i + 4))
    } else {
        Seq::empty()
    }
}

pub fn exit_ip_body(response: &str) -> (body: String)
    ensures
        body@ == response_body(response@),
{
    let v = chars_of(response);
    let mut sep: Vec<char> = Vec::new();
    sep.push('\r');
    sep.push('\n');
    sep.push('\r');
    sep.push('\n');
    assert(sep@ =~= seq!['\r', '\n', '\r', '\n']);
    let mut i = v.len();
    while i > 0
        invariant
            i <= v@.len(),
            v@ == response@,
            sep@ == seq!['\r', '\n', '\r', '\n'],
            forall|j: int| i <= j ==> !#[trigger] occurs_at(v@, sep@, j),
        decreases i,
    {
        i = i - 1;
        if matches_at(&v, i, &sep) {
            let n = v.len();
            assert(occurs_at(v@, sep@, i as int) && sep@.len() == 4);
            proof {
                assert(last_occurrence(v@, sep@, i as int));
                let k = choose|k: int| #[trigger] last_occurrence(v@, sep@, k);
                assert(k == i as int);
                assert(sep@.len() == 4);
            }
            let rest = string_of_range(&v, i + 4, n);
            assert(rest@ =~= v@.skip(i + 4));
            return trim(rest.as_str());
        }
    }
    proof {
        assert forall|k: int| !#[trigger] last_occurrence(v@, sep@, k) by {
            if 0 <= k {
                assert(!occurs_at(v@, sep@, k));
            }
        }
    }
    String::new()
}

} // verus!
