//! DNS leak detection: the OS's actually-active resolvers compared with
//! the encrypted resolvers meant to carry every query, plus whether the
//! encrypted resolver answers at all; and the kill-switch action a leak
//! calls for.
//!
//! Reading the OS configuration, timing the control query and driving the
//! kill switch are the application's.

use vstd::prelude::*;

use crate::dns::resolver::{chain_ips, provider_label, EncryptedResolver, Provider};
use crate::kill_switch::guard::GuardState;
use crate::net::{loopback, IpAddress};
use crate::text::{concat2, decimal, push_decimal_wide};

verus! {

/// The stable, widely cached domain resolved only to measure the
/// encrypted resolver's reachability and round-trip time.
pub const CONTROL_DOMAIN: &'static str = "example.com";

#[derive(Debug, Clone)]
pub struct LeakReport {
    pub provider: Provider,
    pub expected_servers: Vec<IpAddress>,
    pub active_servers: Vec<IpAddress>,
    pub leaking_servers: Vec<IpAddress>,
    pub encrypted_resolver_reachable: bool,
    /// Round-trip time of the control query, in milliseconds.
    pub latency_ms: Option<u128>,
    pub leak_detected: bool,
}

/// The active resolvers that are neither loopback nor expected, in order.
pub open spec fn leaking_of(active: Seq<IpAddress>, expected: Seq<IpAddress>) -> Seq<IpAddress>
    decreases active.len(),
{
    if active.len() == 0 {
        Seq::empty()
    } else {
        let rest = leaking_of(active.drop_last(), expected);
        let ip = active.last();
        if !loopback(ip) && !expected.contains(ip) {
            rest.push(ip)
        } else {
            rest
        }
    }
}

fn contains_ip(v: &Vec<IpAddress>, ip: IpAddress) -> (b: bool)
    ensures
        b == v@.contains(ip),
{
    let mut i: usize = 0;
    while i < v.len()
        invariant
            i <= v@.len(),
            forall|j: int| 0 <= j < i ==> v@[j] != ip,
        decreases v@.len() - i,
    {
        if v[i] == ip {
            return true;
        }
        i = i + 1;
    }
    false
}

/// A full leak check from its ingredients: the resolver chain, any extra
/// addresses a caller runs a relay on, the OS's active resolvers, and the
/// control query's round-trip time (`None` when it failed). Any provider
/// of the chain counts as expected, not only the active one, and loopback
/// is always allowed. A leak is a leaking resolver, or an unreachable
/// encrypted resolver.
pub fn check(
    resolver: &EncryptedResolver,
    extra_allowed: &Vec<IpAddress>,
    active_servers: Vec<IpAddress>,
    control_latency_ms: Option<u128>,
) -> (r: LeakReport)
    ensures
        r.provider == resolver.spec_chain()[resolver.spec_active() as int],
        r.expected_servers@ == chain_ips(resolver.spec_chain()) + extra_allowed@,
        r.active_servers@ == active_servers@,
        r.leaking_servers@ == leaking_of(active_servers@, r.expected_servers@),
        r.encrypted_resolver_reachable == control_latency_ms is Some,
        r.latency_ms == control_latency_ms,
        r.leak_detected == (r.leaking_servers@.len() > 0 || control_latency_ms is None),
{
    let mut expected = resolver.all_provider_ips();
    let mut i: usize = 0;
    let ghost base = expected@;
    while i < extra_allowed.len()
        invariant
            i <= extra_allowed@.len(),
            expected@ == base + extra_allowed@.take(i as int),
        decreases extra_allowed@.len() - i,
    {
        expected.push(extra_allowed[i]);
        i = i + 1;
        assert(expected@ =~= base + extra_allowed@.take(i as int));
    }
    assert(extra_allowed@.take(i as int) =~= extra_allowed@);
    let mut leaking: Vec<IpAddress> = Vec::new();
    let mut k: usize = 0;
    while k < active_servers.len()
        invariant
            k <= active_servers@.len(),
            leaking@ == leaking_of(active_servers@.take(k as int), expected@),
        decreases active_servers@.len() - k,
    {
        let ip = active_servers[k];
        proof {
            assert(active_servers@.take(k + 1).drop_last() =~= active_servers@.take(k as int));
            assert(active_servers@.take(k + 1).last() == ip);
        }
        if !ip.is_loopback() && !contains_ip(&expected, ip) {
            leaking.push(ip);
        }
        k = k + 1;
    }
    assert(active_servers@.take(k as int) =~= active_servers@);
    let reachable = control_latency_ms.is_some();
    let leak_detected = leaking.len() > 0 || !reachable;
    LeakReport {
        provider: resolver.provider(),
        expected_servers: expected,
        active_servers,
        leaking_servers: leaking,
        encrypted_resolver_reachable: reachable,
        latency_ms: control_latency_ms,
        leak_detected,
    }
}

/// What the kill switch is to do about a leak check.
#[derive(Debug, Clone, Copy, PartialEq, Eq, Structural)]
pub enum Enforcement {
    /// No leak: the guard is not touched.
    Nothing,
    /// Enable the kill switch.
    Enable,
    /// Rules were supposedly active yet a leak got through: disable, then
    /// enable again from a clean state.
    ResetThenEnable,
    /// A transition is already in flight: report, but do not race it.
    LeaveInFlight,
}

pub open spec fn enforcement_for(leak_detected: bool, state: GuardState) -> Enforcement {
    if !leak_detected {
        Enforcement::Nothing
    } else {
        match state {
            GuardState::Enabled => Enforcement::ResetThenEnable,
            GuardState::Disabled | GuardState::Faulted => Enforcement::Enable,
            GuardState::Enabling | GuardState::Disabling => Enforcement::LeaveInFlight,
        }
    }
}

/// On a detected leak, (re-)assert the kill switch's default-deny rules,
/// whatever state it reports; a `Faulted` guard is enabled rather than
/// given up on.
pub fn enforce_on_leak(report: &LeakReport, state: GuardState) -> (e: Enforcement)
    ensures
        e == enforcement_for(report.leak_detected, state),
{
    if !report.leak_detected {
        return Enforcement::Nothing;
    }
    match state {
        GuardState::Enabled => Enforcement::ResetThenEnable,
        GuardState::Disabled | GuardState::Faulted => Enforcement::Enable,
        GuardState::Enabling | GuardState::Disabling => Enforcement::LeaveInFlight,
    }
}

/// Addresses as printed: joined by `, `, or `(none)`.
pub open spec fn ips_text(texts: Seq<String>) -> Seq<char> {
    if texts.len() == 0 {
        "(none)"@
    } else {
        joined(texts)
    }
}

pub open spec fn joined(texts: Seq<String>) -> Seq<char>
    decreases texts.len(),
{
    if texts.len() == 0 {
        Seq::empty()
    } else if texts.len() == 1 {
        texts[0]@
    } else {
        joined(texts.drop_last()) + ", "@ + texts.last()@
    }
}

/// A list of addresses as printed, given each address's text.
pub fn fmt_ips(texts: &Vec<String>) -> (r: String)
    ensures
        r@ == ips_text(texts@),
{
    if texts.len() == 0 {
        return "(none)".to_owned();
    }
    let mut out = String::new();
    let mut i: usize = 0;
    while i < texts.len()
        invariant
            i <= texts@.len(),
            out@ == joined(texts@.take(i as int)),
        decreases texts@.len() - i,
    {
        if i > 0 {
            out.append(", ");
        }
        out.append(texts[i].as_str());
        proof {
            assert(texts@.take(i + 1).drop_last() =~= texts@.take(i as int));
            assert(texts@.take(i + 1).last() == texts@[i as int]);
            if i == 0 {
                assert(texts@.take(1)[0] == texts@[0]);
            }
        }
        i = i + 1;
        assert(out@ =~= joined(texts@.take(i as int)));
    }
    assert(texts@.take(i as int) =~= texts@);
    out
}

/// The printed report, given the printed form of each address list.
pub open spec fn report_text(
    r: LeakReport,
    expected: Seq<String>,
    active: Seq<String>,
    leaking: Seq<String>,
) -> Seq<char> {
    "provider:           "@ + provider_label(r.provider) + "\n"@ + "expected servers:   "@
        + ips_text(expected) + "\n"@ + "active OS servers:  "@ + ips_text(active) + "\n"@
        + "encrypted resolver: "@ + (if r.encrypted_resolver_reachable {
        "reachable"@
    } else {
        "UNREACHABLE"@
    }) + match r.latency_ms {
        Some(ms) => " ("@ + decimal(ms as nat) + " ms)"@,
        None => Seq::empty(),
    } + "\n"@ + "leak detected:      "@ + if r.leak_detected {
        "YES ("@ + ips_text(leaking) + ")"@
    } else {
        "no"@
    }
}

impl LeakReport {
    /// The printed report. Each address list is given as the addresses'
    /// printed forms, in order.
    pub fn render(
        &self,
        expected: &Vec<String>,
        active: &Vec<String>,
        leaking: &Vec<String>,
    ) -> (text: String)
        ensures
            text@ == report_text(*self, expected@, active@, leaking@),
    {
        let mut out = String::new();
        out.append("provider:           ");
        out.append(self.provider.label());
        out.append("\n");
        out.append("expected servers:   ");
        let e = fmt_ips(expected);
        out.append(e.as_str());
        out.append("\n");
        out.append("active OS servers:  ");
        let a = fmt_ips(active);
        out.append(a.as_str());
        out.append("\n");
        out.append("encrypted resolver: ");
        if self.encrypted_resolver_reachable {
            out.append("reachable");
        } else {
            out.append("UNREACHABLE");
        }
        match self.latency_ms {
            Some(ms) => {
                out.append(" (");
                push_decimal_wide(&mut out, ms);
                out.append(" ms)");
            },
            None => {},
        }
        out.append("\n");
        out.append("leak detected:      ");
        if self.leak_detected {
            out.append("YES (");
            let l = fmt_ips(leaking);
            out.append(l.as_str());
            out.append(")");
        } else {
            out.append("no");
        }
        assert(out@ =~= report_text(*self, expected@, active@, leaking@));
        out
    }
}

/// A leak never goes unanswered: whenever a check detects one, the guard
/// is driven towards an enabled, blocking state unless a transition is
/// already in flight; and with no leak the guard is never touched.
pub proof fn law_leaks_always_enforce(leak: bool, state: GuardState)
    ensures
        !leak ==> enforcement_for(leak, state) == Enforcement::Nothing,
        leak && state != GuardState::Enabling && state != GuardState::Disabling ==> (
        enforcement_for(leak, state) == Enforcement::Enable || enforcement_for(leak, state)
            == Enforcement::ResetThenEnable),
{
}

/// Every server reported as leaking is an active OS resolver that is not
/// loopback and not expected; and every such resolver is reported.
pub proof fn law_leaking_servers_are_exactly_the_unexpected(
    active: Seq<IpAddress>,
    expected: Seq<IpAddress>,
    ip: IpAddress,
)
    ensures
        leaking_of(active, expected).contains(ip) <==> (active.contains(ip) && !loopback(ip)
            && !expected.contains(ip)),
    decreases active.len(),
{
    if active.len() > 0 {
        law_leaking_servers_are_exactly_the_unexpected(active.drop_last(), expected, ip);
        let rest = leaking_of(active.drop_last(), expected);
        let last = active.last();
        if active.contains(ip) && ip != last {
            let i = choose|i: int| 0 <= i < active.len() && active[i] == ip;
            assert(active.drop_last()[i] == ip);
        }
        if active.drop_last().contains(ip) {
            let i = choose|i: int| 0 <= i < active.drop_last().len() && active.drop_last()[i] == ip;
            assert(active[i] == ip);
        }
        if ip == last {
            assert(active[active.len() - 1] == ip);
        }
        if !loopback(last) && !expected.contains(last) {
            assert(rest.push(last)[rest.len() as int] == last);
            if rest.push(last).contains(ip) && ip != last {
                let i = choose|i: int| 0 <= i < rest.push(last).len() && rest.push(last)[i] == ip;
                assert(rest[i] == ip);
            }
            if rest.contains(ip) {
                let i = choose|i: int| 0 <= i < rest.len() && rest[i] == ip;
                assert(rest.push(last)[i] == ip);
            }
        }
    }
}

} // verus!
