//! The Windows kill switch on the Windows Filtering Platform (WFP): the
//! exact objects it adds and removes, in order, and the lifecycle
//! bookkeeping around them. Issuing the `Fwpm*` calls is left to the
//! application on Windows.
//!
//! Default-deny at the outbound connect layers for IPv4 and IPv6, with
//! permit filters (at a higher weight) for IPv4 loopback and for the one
//! executable that runs Tor. IPv6 loopback is not separately permitted.

use std::path::PathBuf;

use vstd::prelude::*;

use crate::kill_switch::error::BlackholeError;
use crate::kill_switch::guard::{
    can_begin_disable, can_begin_enable, finished_state, invalid_transition, reconciled_detail,
    reconciled_state, GuardState, GuardStateMachine, GuardStatus,
};
use crate::kill_switch::tor::{PermitTarget, TorStatus};

verus! {

/// Fixed keys unique to this kill switch, so every run refers to the same
/// WFP objects.
pub const PROVIDER_KEY: u128 = 0xd156256c_836d_468f_b6ad_f3491461112d;

pub const SUBLAYER_KEY: u128 = 0xc969c867_67e9_4728_9a1d_7e8ef90892cb;

pub const FILTER_BLOCK_V4: u128 = 0xe0430b29_ad40_4ee3_993c_ec7b03cc657f;

pub const FILTER_BLOCK_V6: u128 = 0xba35bb07_2608_45cb_990a_28ffea5a3071;

pub const FILTER_LOOPBACK_V4: u128 = 0x42728508_68cb_4c4a_959a_8633d8eca293;

pub const FILTER_APP_V4: u128 = 0xcb0969c1_5bb7_4954_b519_971e6eb62c63;

pub const FILTER_APP_V6: u128 = 0x90659bcd_2a2a_4e40_9403_9091dcd6c4cf;

pub const SUBLAYER_WEIGHT: u16 = 0x8000;

/// Block filters sit at the lowest weight, so permit filters win.
pub const BLOCK_WEIGHT: u8 = 0;

pub const PERMIT_WEIGHT: u8 = 15;

/// The outbound-connection authorization layers.
#[derive(Debug, Clone, Copy, PartialEq, Eq, Structural)]
pub enum WfpLayer {
    ConnectV4,
    ConnectV6,
}

#[derive(Debug, Clone, Copy, PartialEq, Eq, Structural)]
pub enum FilterAction {
    Block,
    Permit,
}

/// What a filter matches on.
#[derive(Debug, Clone, Copy, PartialEq, Eq, Structural)]
pub enum FilterCondition {
    /// Everything.
    Any,
    /// Remote IPv4 address within `addr`/`mask`.
    RemoteV4 { addr: u32, mask: u32 },
    /// Connections made by the permitted executable.
    PermittedApp,
}

#[derive(Debug, Clone, Copy, PartialEq, Eq)]
pub struct FilterSpec {
    pub key: u128,
    pub layer: WfpLayer,
    pub name: &'static str,
    pub action: FilterAction,
    pub weight: u8,
    pub condition: FilterCondition,
}

/// One WFP call.
#[derive(Debug, Clone, Copy, PartialEq, Eq)]
pub enum WfpStep {
    /// Delete a filter by key; "not found" is ignored.
    DeleteFilter(u128),
    /// Delete the sublayer; failures are ignored.
    DeleteSublayer(u128),
    AddSublayer { key: u128, weight: u16 },
    AddFilter(FilterSpec),
}

/// Every filter this backend creates, all deleted when clearing its
/// objects.
pub open spec fn cleared_filter_keys() -> Seq<u128> {
    seq![FILTER_BLOCK_V4, FILTER_BLOCK_V6, FILTER_LOOPBACK_V4, FILTER_APP_V4, FILTER_APP_V6]
}

/// Clearing: every filter key in `cleared_filter_keys`, then the sublayer.
pub open spec fn clear_steps() -> Seq<WfpStep> {
    seq![
        WfpStep::DeleteFilter(FILTER_BLOCK_V4),
        WfpStep::DeleteFilter(FILTER_BLOCK_V6),
        WfpStep::DeleteFilter(FILTER_LOOPBACK_V4),
        WfpStep::DeleteFilter(FILTER_APP_V4),
        WfpStep::DeleteFilter(FILTER_APP_V6),
        WfpStep::DeleteSublayer(SUBLAYER_KEY),
    ]
}

pub open spec fn block_filter(key: u128, layer: WfpLayer, name: &'static str) -> FilterSpec {
    FilterSpec { key, layer, name, action: FilterAction::Block, weight: BLOCK_WEIGHT, condition: FilterCondition::Any }
}

pub open spec fn permit_filter(key: u128, layer: WfpLayer, name: &'static str, condition: FilterCondition) -> FilterSpec {
    FilterSpec { key, layer, name, action: FilterAction::Permit, weight: PERMIT_WEIGHT, condition }
}

/// Applying: a clean slate, the sublayer, the two block filters, then
/// the loopback permit and the two executable permits.
pub open spec fn apply_steps() -> Seq<WfpStep> {
    clear_steps() + seq![
        WfpStep::AddSublayer { key: SUBLAYER_KEY, weight: SUBLAYER_WEIGHT },
        WfpStep::AddFilter(block_filter(FILTER_BLOCK_V4, WfpLayer::ConnectV4, "BlackHole: deny all outbound IPv4")),
        WfpStep::AddFilter(block_filter(FILTER_BLOCK_V6, WfpLayer::ConnectV6, "BlackHole: deny all outbound IPv6")),
        WfpStep::AddFilter(permit_filter(FILTER_LOOPBACK_V4, WfpLayer::ConnectV4, "BlackHole: allow loopback", FilterCondition::RemoteV4 { addr: 0x7F000000, mask: 0xFF000000 })),
        WfpStep::AddFilter(permit_filter(FILTER_APP_V4, WfpLayer::ConnectV4, "BlackHole: allow this process (IPv4)", FilterCondition::PermittedApp)),
        WfpStep::AddFilter(permit_filter(FILTER_APP_V6, WfpLayer::ConnectV6, "BlackHole: allow this process (IPv6)", FilterCondition::PermittedApp)),
    ]
}

/// The calls that remove this backend's objects (disable).
pub fn clear_plan() -> (steps: Vec<WfpStep>)
    ensures
        steps@ == clear_steps(),
{
    let mut steps: Vec<WfpStep> = Vec::new();
    steps.push(WfpStep::DeleteFilter(FILTER_BLOCK_V4));
    steps.push(WfpStep::DeleteFilter(FILTER_BLOCK_V6));
    steps.push(WfpStep::DeleteFilter(FILTER_LOOPBACK_V4));
    steps.push(WfpStep::DeleteFilter(FILTER_APP_V4));
    steps.push(WfpStep::DeleteFilter(FILTER_APP_V6));
    steps.push(WfpStep::DeleteSublayer(SUBLAYER_KEY));
    assert(steps@ =~= clear_steps());
    steps
}

/// The calls that apply the kill switch (enable), in order; a failing
/// add stops the sequence there.
pub fn apply_rules_plan() -> (steps: Vec<WfpStep>)
    ensures
        steps@ == apply_steps(),
{
    let mut steps = clear_plan();
    steps.push(WfpStep::AddSublayer { key: SUBLAYER_KEY, weight: SUBLAYER_WEIGHT });
    steps.push(
        WfpStep::AddFilter(
            FilterSpec {
                key: FILTER_BLOCK_V4,
                layer: WfpLayer::ConnectV4,
                name: "BlackHole: deny all outbound IPv4",
                action: FilterAction::Block,
                weight: BLOCK_WEIGHT,
                condition: FilterCondition::Any,
            },
        ),
    );
    steps.push(
        WfpStep::AddFilter(
            FilterSpec {
                key: FILTER_BLOCK_V6,
                layer: WfpLayer::ConnectV6,
                name: "BlackHole: deny all outbound IPv6",
                action: FilterAction::Block,
                weight: BLOCK_WEIGHT,
                condition: FilterCondition::Any,
            },
        ),
    );
    steps.push(
        WfpStep::AddFilter(
            FilterSpec {
                key: FILTER_LOOPBACK_V4,
                layer: WfpLayer::ConnectV4,
                name: "BlackHole: allow loopback",
                action: FilterAction::Permit,
                weight: PERMIT_WEIGHT,
                condition: FilterCondition::RemoteV4 { addr: 0x7F000000, mask: 0xFF000000 },
            },
        ),
    );
    steps.push(
        WfpStep::AddFilter(
            FilterSpec {
                key: FILTER_APP_V4,
                layer: WfpLayer::ConnectV4,
                name: "BlackHole: allow this process (IPv4)",
                action: FilterAction::Permit,
                weight: PERMIT_WEIGHT,
                condition: FilterCondition::PermittedApp,
            },
        ),
    );
    steps.push(
        WfpStep::AddFilter(
            FilterSpec {
                key: FILTER_APP_V6,
                layer: WfpLayer::ConnectV6,
                name: "BlackHole: allow this process (IPv6)",
                action: FilterAction::Permit,
                weight: PERMIT_WEIGHT,
                condition: FilterCondition::PermittedApp,
            },
        ),
    );
    assert(steps@ =~= apply_steps());
    steps
}

/// Step `i` adds a filter with action `a`.
pub open spec fn adds(steps: Seq<WfpStep>, i: int, a: FilterAction) -> bool {
    steps[i] matches WfpStep::AddFilter(f) && f.action == a
}

/// Fail-closed ordering: applying deletes stale objects first, and both
/// block filters (IPv4 and IPv6) are added before any permit filter, so a
/// failure part-way never leaves a permit without the blocks; every permit
/// outweighs every block.
pub proof fn law_blocks_precede_permits()
    ensures
        forall|i: int, j: int|
            0 <= i < apply_steps().len() && 0 <= j < apply_steps().len() && adds(
                apply_steps(),
                i,
                FilterAction::Permit,
            ) && adds(apply_steps(), j, FilterAction::Block) ==> j < i,
        exists|i: int|
            0 <= i < apply_steps().len() && apply_steps()[i] == WfpStep::AddFilter(
                block_filter(FILTER_BLOCK_V4, WfpLayer::ConnectV4, "BlackHole: deny all outbound IPv4"),
            ),
        exists|i: int|
            0 <= i < apply_steps().len() && apply_steps()[i] == WfpStep::AddFilter(
                block_filter(FILTER_BLOCK_V6, WfpLayer::ConnectV6, "BlackHole: deny all outbound IPv6"),
            ),
        apply_steps().take(6) == clear_steps(),
        PERMIT_WEIGHT > BLOCK_WEIGHT,
{
    let s = apply_steps();
    assert(s.len() == 12);
    assert(s[7] == WfpStep::AddFilter(
        block_filter(FILTER_BLOCK_V4, WfpLayer::ConnectV4, "BlackHole: deny all outbound IPv4"),
    ));
    assert(s[8] == WfpStep::AddFilter(
        block_filter(FILTER_BLOCK_V6, WfpLayer::ConnectV6, "BlackHole: deny all outbound IPv6"),
    ));
    assert(s.take(6) =~= clear_steps());
    assert forall|i: int, j: int|
        0 <= i < s.len() && 0 <= j < s.len() && adds(s, i, FilterAction::Permit) && adds(
            s,
            j,
            FilterAction::Block,
        ) implies j < i by {
        assert(s[0] is DeleteFilter && s[1] is DeleteFilter && s[2] is DeleteFilter);
        assert(s[3] is DeleteFilter && s[4] is DeleteFilter && s[5] is DeleteSublayer);
        assert(s[6] is AddSublayer);
        assert(adds(s, 9, FilterAction::Permit) && adds(s, 10, FilterAction::Permit) && adds(
            s,
            11,
            FilterAction::Permit,
        ));
    }
}

/// Disabling removes everything enabling adds: every filter that applying
/// adds is deleted by clearing, and so is the sublayer.
pub proof fn law_clearing_removes_every_added_object()
    ensures
        forall|i: int|
            0 <= i < apply_steps().len() && #[trigger] apply_steps()[i] is AddFilter ==> clear_steps().contains(
                WfpStep::DeleteFilter(apply_steps()[i]->AddFilter_0.key),
            ),
        forall|i: int|
            0 <= i < apply_steps().len() && #[trigger] apply_steps()[i] is AddSublayer ==> clear_steps().contains(
                WfpStep::DeleteSublayer(apply_steps()[i]->key),
            ),
{
    let s = apply_steps();
    let c = clear_steps();
    assert(s.len() == 12);
    assert(c[0] == WfpStep::DeleteFilter(FILTER_BLOCK_V4));
    assert(c[1] == WfpStep::DeleteFilter(FILTER_BLOCK_V6));
    assert(c[2] == WfpStep::DeleteFilter(FILTER_LOOPBACK_V4));
    assert(c[3] == WfpStep::DeleteFilter(FILTER_APP_V4));
    assert(c[4] == WfpStep::DeleteFilter(FILTER_APP_V6));
    assert(c[5] == WfpStep::DeleteSublayer(SUBLAYER_KEY));
    assert forall|i: int| 0 <= i < s.len() && #[trigger] s[i] is AddFilter implies c.contains(
        WfpStep::DeleteFilter(s[i]->AddFilter_0.key),
    ) by {
        assert(i >= 7);
    }
    assert forall|i: int| 0 <= i < s.len() && #[trigger] s[i] is AddSublayer implies c.contains(
        WfpStep::DeleteSublayer(s[i]->key),
    ) by {
        assert(i == 6);
    }
}

/// The Windows kill switch's own state. The Tor backend alongside it is
/// the application's.
pub struct WindowsGuard {
    state: GuardStateMachine,
    /// Whether an enable has ever begun, which is when Tor is started.
    tor_started: bool,
}

/// The executable the permit filters scope to: this one for in-process
/// Tor (`current_exe` as the OS reports it), the child's for a Tor
/// subprocess.
pub fn permit_exe_path(target: PermitTarget, current_exe: Result<PathBuf, BlackholeError>) -> (r: Result<PathBuf, BlackholeError>)
    ensures
        target is ThisProcess ==> r == current_exe,
        target is ChildProcess ==> r == Ok::<PathBuf, BlackholeError>(target->ChildProcess_0),
{
    match target {
        PermitTarget::ThisProcess => current_exe,
        PermitTarget::ChildProcess(path) => Ok(path),
    }
}

impl WindowsGuard {
    pub closed spec fn spec_state(&self) -> GuardState {
        self.state.spec_state()
    }

    /// Whether an enable has ever begun on this guard (Tor is started
    /// then), so that Tor's progress means something.
    pub closed spec fn spec_tor_started(&self) -> bool {
        self.tor_started
    }

    pub fn new() -> (g: WindowsGuard)
        ensures
            g.spec_state() == GuardState::Disabled,
            !g.spec_tor_started(),
    {
        WindowsGuard { state: GuardStateMachine::new(), tor_started: false }
    }

    pub fn current(&self) -> (s: GuardState)
        ensures
            s == self.spec_state(),
    {
        self.state.current()
    }

    /// Starts enabling; on success returns the WFP calls to make.
    pub fn begin_enable(&mut self) -> (r: Result<Vec<WfpStep>, BlackholeError>)
        ensures
            can_begin_enable(old(self).spec_state()) ==> r is Ok && r->Ok_0@ == apply_steps()
                && final(self).spec_state() == GuardState::Enabling && final(self).spec_tor_started(),
            !can_begin_enable(old(self).spec_state()) ==> r is Err && final(self).spec_state()
                == old(self).spec_state() && final(self).spec_tor_started() == old(self).spec_tor_started(),
    {
        match self.state.begin_enable() {
            Ok(()) => {
                self.tor_started = true;
                Ok(apply_rules_plan())
            },
            Err(e) => Err(e),
        }
    }

    pub fn finish_enable(&mut self, success: bool)
        ensures
            final(self).spec_tor_started() == old(self).spec_tor_started(),
            final(self).spec_state() == finished_state(success, GuardState::Enabled),
    {
        self.state.finish_enable(success);
    }

    /// Starts disabling; on success returns the WFP calls to make.
    pub fn begin_disable(&mut self) -> (r: Result<Vec<WfpStep>, BlackholeError>)
        ensures
            final(self).spec_tor_started() == old(self).spec_tor_started(),
            can_begin_disable(old(self).spec_state()) ==> r is Ok && r->Ok_0@ == clear_steps()
                && final(self).spec_state() == GuardState::Disabling,
            !can_begin_disable(old(self).spec_state()) ==> r is Err && final(self).spec_state()
                == old(self).spec_state(),
    {
        match self.state.begin_disable() {
            Ok(()) => Ok(clear_plan()),
            Err(e) => Err(e),
        }
    }

    pub fn finish_disable(&mut self, success: bool)
        ensures
            final(self).spec_tor_started() == old(self).spec_tor_started(),
            final(self).spec_state() == finished_state(success, GuardState::Disabled),
    {
        self.state.finish_disable(success);
    }

    /// The status to report: the in-memory state cross-checked against
    /// whether the sublayer really exists, Tor's progress, the permitted
    /// executable as displayed, and a detail (the mismatch, else Tor's
    /// blocked reason).
    pub fn status(&self, actually_blocking: bool, permitted: Option<String>, tor: TorStatus) -> (s: GuardStatus)
        ensures
            s.state == reconciled_state(self.spec_state(), actually_blocking),
            s.tor_bootstrap_percent == (if self.spec_tor_started() {
                Some(tor.bootstrap_percent)
            } else {
                None
            }),
            s.allowed_egress == permitted,
            reconciled_detail(self.spec_state(), actually_blocking, "WFP sublayer"@) is Some
                ==> s.detail is Some && s.detail->0@ == reconciled_detail(
                self.spec_state(),
                actually_blocking,
                "WFP sublayer"@,
            )->0,
            reconciled_detail(self.spec_state(), actually_blocking, "WFP sublayer"@) is None
                ==> s.detail == tor.blocked_reason,
    {
        let (state, detail) = self.state.reconcile(actually_blocking, "WFP sublayer");
        let detail = match detail {
            Some(d) => Some(d),
            None => tor.blocked_reason,
        };
        let tor_bootstrap_percent = if self.tor_started {
            Some(tor.bootstrap_percent)
        } else {
            None
        };
        GuardStatus {
            state,
            tor_bootstrap_percent,
            allowed_egress: permitted,
            detail,
        }
    }

    pub fn check_new_identity(&self) -> (r: Result<(), BlackholeError>)
        ensures
            self.spec_state() == GuardState::Enabled ==> r is Ok,
            self.spec_state() != GuardState::Enabled ==> r == invalid_transition(
                "new_identity",
                self.spec_state(),
            ),
    {
        self.state.require_enabled("new_identity")
    }
}

} // verus!
