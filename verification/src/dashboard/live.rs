//! The real modules' answers turned into the dashboard's panels, and the
//! decisions of panic mode. Starting Tor, querying the guard and running
//! the leak check are the application's; every failure arrives here as
//! its message and becomes an `Unavailable` panel, never a crash.

use vstd::prelude::*;

use crate::dashboard::app::{DnsInfo, KillSwitchInfo, ModuleState, TorInfo};
use crate::dns::leak::LeakReport;
use crate::dns::resolver::provider_label;
use crate::kill_switch::guard::{state_label, GuardState, GuardStatus};
use crate::kill_switch::tor::TorStatus;
use crate::net::IpAddress;
use crate::text::{concat2, concat3};

verus! {

/// The message for a module that could not be set up: `module` names it.
pub fn module_missing(module: &str, error: &str) -> (m: String)
    ensures
        m@ == module@ + " module non détecté: "@ + error@,
{
    concat3(module, " module non détecté: ", error)
}

/// Both panels of the kill switch and Tor, when setting them up failed
/// with `reason`.
pub fn setup_failed(reason: &str) -> (r: (ModuleState<KillSwitchInfo>, ModuleState<TorInfo>))
    ensures
        r.0 matches ModuleState::Unavailable(m) && m@ == reason@,
        r.1 matches ModuleState::Unavailable(m) && m@ == reason@,
{
    (ModuleState::Unavailable(reason.to_owned()), ModuleState::Unavailable(reason.to_owned()))
}

/// The kill-switch panel's data from the guard's status query (`Err`:
/// the query's error message).
pub fn kill_switch_info(status: Result<GuardStatus, String>) -> (m: ModuleState<KillSwitchInfo>)
    ensures
        match status {
            Ok(s) => m matches ModuleState::Ready(info) && info.state@ == state_label(s.state)
                && info.allowed_egress == s.allowed_egress,
            Err(e) => m matches ModuleState::Unavailable(r) && r@ == "status query failed: "@ + e@,
        },
{
    match status {
        Ok(s) => ModuleState::Ready(
            KillSwitchInfo { state: s.state.label().to_owned(), allowed_egress: s.allowed_egress },
        ),
        Err(e) => ModuleState::Unavailable(concat2("status query failed: ", e.as_str())),
    }
}

/// Whether Tor's exit address is worth a network round trip: only once
/// Tor carries traffic.
pub fn wants_exit_ip(status: &TorStatus) -> (b: bool)
    ensures
        b == status.ready_for_traffic,
{
    status.ready_for_traffic
}

/// The Tor panel's data from Tor's status and, once it carries traffic,
/// the exit address if that lookup succeeded. A failed lookup leaves the
/// progress shown as it is.
pub fn tor_info(status: TorStatus, exit_ip: Option<IpAddress>) -> (m: ModuleState<TorInfo>)
    ensures
        m matches ModuleState::Ready(info) && info.bootstrap_percent == status.bootstrap_percent
            && info.ready_for_traffic == status.ready_for_traffic && info.exit_ip == (if status.ready_for_traffic {
            exit_ip
        } else {
            None
        }),
{
    let ready = status.ready_for_traffic;
    ModuleState::Ready(
        TorInfo {
            bootstrap_percent: status.bootstrap_percent,
            ready_for_traffic: ready,
            exit_ip: if ready {
                exit_ip
            } else {
                None
            },
        },
    )
}

/// The DNS panel's data from a leak check (`Err`: its error message).
pub fn dns_info(report: Result<LeakReport, String>) -> (m: ModuleState<DnsInfo>)
    ensures
        match report {
            Ok(r) => m matches ModuleState::Ready(info) && info.provider@ == provider_label(r.provider)
                && info.leak_detected == r.leak_detected && info.leaking_servers@ == r.leaking_servers@
                && info.latency_ms == r.latency_ms,
            Err(e) => m matches ModuleState::Unavailable(reason) && reason@ == "leak check failed: "@ + e@,
        },
{
    match report {
        Ok(r) => ModuleState::Ready(
            DnsInfo {
                provider: r.provider.label().to_owned(),
                leak_detected: r.leak_detected,
                leaking_servers: r.leaking_servers,
                latency_ms: r.latency_ms,
            },
        ),
        Err(e) => ModuleState::Unavailable(concat2("leak check failed: ", e.as_str())),
    }
}

/// Panic mode enables the guard unless its status says it already is
/// enabled; a failed status query counts as not enabled.
pub open spec fn needs_enable(status: Result<GuardStatus, String>) -> bool {
    !(status matches Ok(s) && s.state == GuardState::Enabled)
}

pub fn panic_needs_enable(status: &Result<GuardStatus, String>) -> (b: bool)
    ensures
        b == needs_enable(*status),
{
    match status {
        Ok(s) => s.state != GuardState::Enabled,
        Err(_) => true,
    }
}

pub const PANIC_SUCCESS_BANNER: &'static str = "PANIC MODE: kill switch forced ON.";

/// The banner reporting panic mode's outcome (`Err`: why enabling
/// failed).
pub fn panic_banner(outcome: Result<(), String>) -> (b: String)
    ensures
        match outcome {
            Ok(()) => b@ == PANIC_SUCCESS_BANNER@,
            Err(e) => b@ == "PANIC MODE FAILED: "@ + e@,
        },
{
    match outcome {
        Ok(()) => PANIC_SUCCESS_BANNER.to_owned(),
        Err(e) => concat2("PANIC MODE FAILED: ", e.as_str()),
    }
}

/// The banner when the kill switch could not even be set up.
pub fn panic_banner_no_guard(reason: &str) -> (b: String)
    ensures
        b@ == "PANIC MODE FAILED: kill switch module non détecté ("@ + reason@ + ")"@,
{
    let mut b = concat2("PANIC MODE FAILED: kill switch module non détecté (", reason);
    b.append(")");
    b
}

/// Panic mode never leaves the kill switch as it found it unless it was
/// already enabled: from any other state, or when its status could not be
/// read, the guard is told to enable.
pub proof fn law_panic_forces_the_guard_on(status: Result<GuardStatus, String>)
    ensures
        (status matches Ok(s) && s.state == GuardState::Enabled) ==> !needs_enable(status),
        (status is Err) ==> needs_enable(status),
        (status matches Ok(s) && s.state != GuardState::Enabled) ==> needs_enable(status),
{
}

} // verus!
