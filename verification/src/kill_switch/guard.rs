use vstd::prelude::*;

use crate::kill_switch::error::BlackholeError;
use crate::text::{concat3};

verus! {

/// Lifecycle state of a kill switch.
///
/// `Faulted` exists so the state machine is fail-closed: if enabling or
/// disabling fails partway through applying firewall rules, the guard does
/// not fall back to `Disabled` (which would imply "nothing is blocked").
/// Partially-applied rules must be assumed to still be blocking traffic
/// until a later call fully clears or re-applies them.
#[derive(Debug, Clone, Copy, PartialEq, Eq, Hash, Structural)]
pub enum GuardState {
    Disabled,
    Enabling,
    Enabled,
    Disabling,
    Faulted,
}

/// The lowercase word each state is displayed as.
pub open spec fn state_label(s: GuardState) -> Seq<char> {
    match s {
        GuardState::Disabled => "disabled"@,
        GuardState::Enabling => "enabling"@,
        GuardState::Enabled => "enabled"@,
        GuardState::Disabling => "disabling"@,
        GuardState::Faulted => "faulted"@,
    }
}

impl GuardState {
    /// The lowercase word this state is displayed as (`"enabled"`, ...).
    pub fn label(&self) -> (r: &'static str)
        ensures
            r@ == state_label(*self),
    {
        match self {
            GuardState::Disabled => "disabled",
            GuardState::Enabling => "enabling",
            GuardState::Enabled => "enabled",
            GuardState::Disabling => "disabling",
            GuardState::Faulted => "faulted",
        }
    }
}

/// Point-in-time snapshot of a kill switch, as reported by its `status`.
#[derive(Debug, Clone)]
pub struct GuardStatus {
    pub state: GuardState,
    /// Tor bootstrap progress in `0..=100` once Tor has been started, which
    /// the first enable does; `None` before the first enable.
    pub tor_bootstrap_percent: Option<u8>,
    /// What traffic is currently allowed to leave the machine.
    pub allowed_egress: Option<String>,
    /// Free-form detail, e.g. the reason a guard is `Faulted`.
    pub detail: Option<String>,
}

/// States from which an enable may begin: `Disabled`, or `Faulted` (a
/// retry towards a clean, fully-blocking state).
pub open spec fn can_begin_enable(s: GuardState) -> bool {
    s == GuardState::Disabled || s == GuardState::Faulted
}

/// States from which a disable may begin: every state except the two
/// in-flight transitions. Allowed from `Disabled` so a freshly started
/// process can always ask "make sure nothing is blocking".
pub open spec fn can_begin_disable(s: GuardState) -> bool {
    s == GuardState::Enabled || s == GuardState::Faulted || s == GuardState::Disabled
}

/// The state a `finish_*` call lands in: the target on success, `Faulted`
/// on failure.
pub open spec fn finished_state(success: bool, target: GuardState) -> GuardState {
    if success {
        target
    } else {
        GuardState::Faulted
    }
}

/// The state `reconcile` reports for in-memory state `s` when the OS
/// backend says rules are (`blocking`) or are not present.
pub open spec fn reconciled_state(s: GuardState, blocking: bool) -> GuardState {
    if s == GuardState::Enabled && !blocking {
        GuardState::Faulted
    } else if s == GuardState::Disabled && blocking {
        GuardState::Faulted
    } else {
        s
    }
}

/// The detail message `reconcile` reports, if any.
pub open spec fn reconciled_detail(s: GuardState, blocking: bool, object: Seq<char>) -> Option<
    Seq<char>,
> {
    if s == GuardState::Enabled && !blocking {
        Some("in-memory state says enabled but "@ + object + " is missing"@)
    } else if s == GuardState::Disabled && blocking {
        Some("in-memory state says disabled but "@ + object + " is still present"@)
    } else {
        None
    }
}

/// The error for an action refused in state `s`.
pub open spec fn invalid_transition(action: &'static str, s: GuardState) -> Result<
    (),
    BlackholeError,
> {
    Err(BlackholeError::InvalidTransition { action, state: s })
}

/// OS-independent state machine shared by every kill-switch backend.
///
/// It owns no firewall or Tor state itself: platform backends drive it with
/// `begin_*`/`finish_*` around their actual work.
#[derive(Debug)]
pub struct GuardStateMachine {
    state: GuardState,
}

impl GuardStateMachine {
    /// The current state.
    pub closed spec fn spec_state(&self) -> GuardState {
        self.state
    }

    /// A fresh machine, in `Disabled`.
    pub fn new() -> (sm: Self)
        ensures
            sm.spec_state() == GuardState::Disabled,
    {
        GuardStateMachine { state: GuardState::Disabled }
    }

    pub fn current(&self) -> (s: GuardState)
        ensures
            s == self.spec_state(),
    {
        self.state
    }

    /// `Disabled` or `Faulted` -> `Enabling`; refused (state unchanged)
    /// from every other state.
    pub fn begin_enable(&mut self) -> (r: Result<(), BlackholeError>)
        ensures
            can_begin_enable(old(self).spec_state()) ==> r is Ok && final(self).spec_state()
                == GuardState::Enabling,
            !can_begin_enable(old(self).spec_state()) ==> r == invalid_transition(
                "enable",
                old(self).spec_state(),
            ) && final(self).spec_state() == old(self).spec_state(),
    {
        match self.state {
            GuardState::Disabled | GuardState::Faulted => {
                self.state = GuardState::Enabling;
                Ok(())
            },
            other => Err(BlackholeError::InvalidTransition { action: "enable", state: other }),
        }
    }

    /// `Enabled` on success, `Faulted` (never `Disabled`) on failure.
    /// Unconditional: the backend already validated the transition through
    /// `begin_enable`.
    pub fn finish_enable(&mut self, success: bool)
        ensures
            final(self).spec_state() == finished_state(success, GuardState::Enabled),
    {
        self.state = if success {
            GuardState::Enabled
        } else {
            GuardState::Faulted
        };
    }

    /// `Enabled`, `Faulted` or `Disabled` -> `Disabling`; refused (state
    /// unchanged) from the in-flight `Enabling`/`Disabling`.
    pub fn begin_disable(&mut self) -> (r: Result<(), BlackholeError>)
        ensures
            can_begin_disable(old(self).spec_state()) ==> r is Ok && final(self).spec_state()
                == GuardState::Disabling,
            !can_begin_disable(old(self).spec_state()) ==> r == invalid_transition(
                "disable",
                old(self).spec_state(),
            ) && final(self).spec_state() == old(self).spec_state(),
    {
        match self.state {
            GuardState::Enabled | GuardState::Faulted | GuardState::Disabled => {
                self.state = GuardState::Disabling;
                Ok(())
            },
            other => Err(BlackholeError::InvalidTransition { action: "disable", state: other }),
        }
    }

    /// `Disabled` on success, `Faulted` on failure.
    pub fn finish_disable(&mut self, success: bool)
        ensures
            final(self).spec_state() == finished_state(success, GuardState::Disabled),
    {
        self.state = if success {
            GuardState::Disabled
        } else {
            GuardState::Faulted
        };
    }

    /// Guard for operations that only make sense while fully `Enabled`.
    pub fn require_enabled(&self, action: &'static str) -> (r: Result<(), BlackholeError>)
        ensures
            self.spec_state() == GuardState::Enabled ==> r is Ok,
            self.spec_state() != GuardState::Enabled ==> r == invalid_transition(
                action,
                self.spec_state(),
            ),
    {
        match self.state {
            GuardState::Enabled => Ok(()),
            other => Err(BlackholeError::InvalidTransition { action, state: other }),
        }
    }

    /// Cross-checks the in-memory state against ground truth from the OS
    /// backend, so a stale or crashed process never reports itself safe
    /// when it is not. `backend_object` names what was checked and only
    /// phrases the detail message.
    pub fn reconcile(&self, actually_blocking: bool, backend_object: &str) -> (r: (
        GuardState,
        Option<String>,
    ))
        ensures
            r.0 == reconciled_state(self.spec_state(), actually_blocking),
            r.1 is Some == reconciled_detail(self.spec_state(), actually_blocking, backend_object@) is Some,
            r.1 is Some ==> r.1->0@ == reconciled_detail(
                self.spec_state(),
                actually_blocking,
                backend_object@,
            )->0,
    {
        match (self.state, actually_blocking) {
            (GuardState::Enabled, false) => (
                GuardState::Faulted,
                Some(concat3("in-memory state says enabled but ", backend_object, " is missing")),
            ),
            (GuardState::Disabled, true) => (
                GuardState::Faulted,
                Some(
                    concat3(
                        "in-memory state says disabled but ",
                        backend_object,
                        " is still present",
                    ),
                ),
            ),
            (other, _) => (other, None),
        }
    }
}

impl Default for GuardStateMachine {
    fn default() -> (sm: Self)
        ensures
            sm.spec_state() == GuardState::Disabled,
    {
        GuardStateMachine::new()
    }
}

/// Fail-closed: a failed enable or a failed disable always lands in
/// `Faulted`, never in `Disabled` (which would claim nothing is blocked)
/// nor in `Enabled`.
pub proof fn law_failure_is_fail_closed(target: GuardState)
    ensures
        finished_state(false, target) == GuardState::Faulted,
        finished_state(false, target) != GuardState::Disabled,
        finished_state(false, target) != GuardState::Enabled,
{
}

/// Reconciliation never reports a state that contradicts the OS: it
/// reports `Enabled` only while rules are really present, `Disabled` only
/// while they are really absent, and otherwise either keeps the in-memory
/// state or reports `Faulted`.
pub proof fn law_reconcile_never_claims_false_safety(s: GuardState, blocking: bool)
    ensures
        reconciled_state(s, blocking) == GuardState::Enabled ==> blocking,
        reconciled_state(s, blocking) == GuardState::Disabled ==> !blocking,
        reconciled_state(s, blocking) == s || reconciled_state(s, blocking) == GuardState::Faulted,
        (reconciled_state(s, blocking) == s) <==> reconciled_detail(s, blocking, Seq::empty()) is None,
{
}

/// A transition already in flight (`Enabling`/`Disabling`) can never be
/// raced by a second enable or disable.
pub proof fn law_in_flight_transitions_are_exclusive(s: GuardState)
    requires
        s == GuardState::Enabling || s == GuardState::Disabling,
    ensures
        !can_begin_enable(s),
        !can_begin_disable(s),
{
}

/// Recovery is always possible: from `Faulted` both a retried enable and
/// an attempted disable may begin, and a disable may begin from every
/// state that is not an in-flight transition.
pub proof fn law_recovery_is_always_possible(s: GuardState)
    ensures
        s == GuardState::Faulted ==> can_begin_enable(s) && can_begin_disable(s),
        s != GuardState::Enabling && s != GuardState::Disabling ==> can_begin_disable(s),
{
}

/// A successful enable followed by a successful disable brings a fresh
/// guard back to `Disabled`, passing through `Enabling`, `Enabled` and
/// `Disabling`.
pub proof fn law_enable_then_disable_round_trip()
    ensures
        can_begin_enable(GuardState::Disabled),
        finished_state(true, GuardState::Enabled) == GuardState::Enabled,
        can_begin_disable(finished_state(true, GuardState::Enabled)),
        finished_state(true, GuardState::Disabled) == GuardState::Disabled,
{
}

} // verus!
