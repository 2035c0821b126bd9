//! The Linux kill switch on nftables: the ruleset it applies, the
//! lifecycle bookkeeping around applying and removing it, and how the
//! outcomes of the `nft` commands are judged. Running `nft`, reading the
//! user id and touching the persisted ruleset file are the application's.
//!
//! "Only allow traffic via the designated Tor egress" is "only allow
//! outbound traffic owned by this process's user, plus loopback and
//! established connections"; the chain's default policy drops everything
//! else, so the switch fails closed. Matching on the user id admits every
//! process of that user, not only this one and its Tor child.
//!
//! nftables rules live in kernel memory only, so enabling also persists
//! the ruleset to a file that a boot-time restore re-applies.

use std::path::PathBuf;

use vstd::prelude::*;

use crate::kill_switch::error::BlackholeError;
use crate::kill_switch::guard::{
    can_begin_disable, can_begin_enable, finished_state, invalid_transition, reconciled_detail,
    reconciled_state, GuardState, GuardStateMachine, GuardStatus,
};
use crate::kill_switch::tor::TorStatus;
use crate::text::{concat2, contains, decimal, has_infix, push_decimal};

verus! {

pub const NFT_BIN: &'static str = "nft";

pub const TABLE_FAMILY: &'static str = "inet";

pub const TABLE_NAME: &'static str = "blackhole";

pub const DEFAULT_RULESET_PATH: &'static str = "/etc/blackhole/nftables.rules";

/// The path std's `PathBuf::from` makes of the text `s`.
pub uninterp spec fn path_from_text(s: Seq<char>) -> PathBuf;

/// A path from its text (std's `PathBuf::from`), which depends on the
/// text alone.
#[verifier::external_body]
fn path_from(s: &str) -> (p: PathBuf)
    ensures
        p == path_from_text(s@),
{
    PathBuf::from(s)
}

/// Where the applied ruleset is persisted for the boot-time restore: the
/// `BLACKHOLE_NFTABLES_RULESET_PATH` override when set, else
/// `/etc/blackhole/nftables.rules`.
pub fn default_ruleset_path(env_override: Option<PathBuf>) -> (p: PathBuf)
    ensures
        env_override is Some ==> p == env_override->0,
        env_override is None ==> p == path_from_text(DEFAULT_RULESET_PATH@),
{
    match env_override {
        Some(p) => p,
        None => path_from(DEFAULT_RULESET_PATH),
    }
}

/// What the boot-time restore did.
#[derive(Debug, Clone, Copy, PartialEq, Eq, Structural)]
pub enum RulesetRestoreOutcome {
    /// A persisted ruleset existed and was re-applied.
    Restored,
    /// No persisted ruleset: the machine never enabled the kill switch, or
    /// disabled it cleanly. Not an error.
    NothingPersisted,
}

/// The outcome of the boot-time restore: nothing when no ruleset file
/// exists, else whether `nft -f <path>` succeeded. A file that fails to
/// load is an error, never skipped silently.
pub fn restore_outcome(
    persisted: bool,
    path: &str,
    nft_succeeded: bool,
    status: String,
    stderr: String,
) -> (r: Result<RulesetRestoreOutcome, BlackholeError>)
    ensures
        !persisted ==> r == Ok::<RulesetRestoreOutcome, BlackholeError>(
            RulesetRestoreOutcome::NothingPersisted,
        ),
        persisted && nft_succeeded ==> r == Ok::<RulesetRestoreOutcome, BlackholeError>(
            RulesetRestoreOutcome::Restored,
        ),
        persisted && !nft_succeeded ==> (r matches Err(
            BlackholeError::CommandFailed { command, status: s, stderr: e },
        ) && command@ == "nft -f "@ + path@ && s@ == status@ && e@ == stderr@),
{
    if !persisted {
        return Ok(RulesetRestoreOutcome::NothingPersisted);
    }
    if nft_succeeded {
        return Ok(RulesetRestoreOutcome::Restored);
    }
    Err(BlackholeError::CommandFailed { command: concat2("nft -f ", path), status, stderr })
}

/// The result of `nft delete table inet blackhole`: fine when it
/// succeeded or the table was already absent ("No such file or
/// directory"), else a command failure.
pub fn delete_table_outcome(succeeded: bool, status: String, stderr: String) -> (r: Result<(), BlackholeError>)
    ensures
        (succeeded || has_infix(stderr@, "No such file or directory"@)) ==> r is Ok,
        !(succeeded || has_infix(stderr@, "No such file or directory"@)) ==> (r matches Err(
            BlackholeError::CommandFailed { command, status: s, stderr: e },
        ) && command@ == "nft delete table inet blackhole"@ && s@ == status@ && e@ == stderr@),
{
    if succeeded || contains(stderr.as_str(), "No such file or directory") {
        Ok(())
    } else {
        Err(
            BlackholeError::CommandFailed {
                command: "nft delete table inet blackhole".to_owned(),
                status,
                stderr,
            },
        )
    }
}

/// The result of `nft -f -` with the ruleset on standard input.
pub fn apply_ruleset_outcome(succeeded: bool, status: String, stderr: String) -> (r: Result<(), BlackholeError>)
    ensures
        succeeded ==> r is Ok,
        !succeeded ==> (r matches Err(BlackholeError::CommandFailed { command, status: s, stderr: e })
            && command@ == "nft -f -"@ && s@ == status@ && e@ == stderr@),
{
    if succeeded {
        Ok(())
    } else {
        Err(BlackholeError::CommandFailed { command: "nft -f -".to_owned(), status, stderr })
    }
}

/// The nftables ruleset for user id `uid`: an `inet blackhole` table whose
/// output chain drops by default and accepts loopback, established
/// connections, and packets owned by `uid`.
pub open spec fn ruleset_text(uid: u32) -> Seq<char> {
    "table inet blackhole {\n    chain output {\n        type filter hook output priority 0; policy drop;\n        oif \"lo\" accept\n        ct state established,related accept\n        meta skuid "@
        + decimal(uid as nat) + " accept\n    }\n}\n"@
}

pub fn ruleset(uid: u32) -> (r: String)
    ensures
        r@ == ruleset_text(uid),
{
    let mut r = String::new();
    r.append(
        "table inet blackhole {\n    chain output {\n        type filter hook output priority 0; policy drop;\n        oif \"lo\" accept\n        ct state established,related accept\n        meta skuid ",
    );
    push_decimal(&mut r, uid as u64);
    r.append(" accept\n    }\n}\n");
    r
}

/// The Linux kill switch's own state: the lifecycle state machine and
/// where the applied ruleset is persisted. The Tor backend that runs
/// alongside is held by the application.
pub struct LinuxGuard {
    state: GuardStateMachine,
    ruleset_path: PathBuf,
    /// Whether an enable has ever begun, which is when Tor is started.
    tor_started: bool,
}

impl LinuxGuard {
    pub closed spec fn spec_state(&self) -> GuardState {
        self.state.spec_state()
    }

    pub closed spec fn spec_ruleset_path(&self) -> PathBuf {
        self.ruleset_path
    }

    /// Whether an enable has ever begun on this guard (Tor is started
    /// then), so that Tor's progress means something.
    pub closed spec fn spec_tor_started(&self) -> bool {
        self.tor_started
    }

    /// A guard persisting to the default path (see
    /// `default_ruleset_path`).
    pub fn new(env_override: Option<PathBuf>) -> (g: LinuxGuard)
        ensures
            g.spec_state() == GuardState::Disabled,
            !g.spec_tor_started(),
            env_override is Some ==> g.spec_ruleset_path() == env_override->0,
            env_override is None ==> g.spec_ruleset_path() == path_from_text(DEFAULT_RULESET_PATH@),
    {
        LinuxGuard::with_ruleset_path(default_ruleset_path(env_override))
    }

    /// A guard persisting its boot-restore ruleset at `ruleset_path`.
    pub fn with_ruleset_path(ruleset_path: PathBuf) -> (g: LinuxGuard)
        ensures
            g.spec_state() == GuardState::Disabled,
            g.spec_ruleset_path() == ruleset_path,
            !g.spec_tor_started(),
    {
        LinuxGuard { state: GuardStateMachine::new(), ruleset_path, tor_started: false }
    }

    /// Where this guard persists its ruleset.
    pub fn ruleset_path(&self) -> (p: &PathBuf)
        ensures
            *p == self.spec_ruleset_path(),
    {
        &self.ruleset_path
    }

    pub fn current(&self) -> (s: GuardState)
        ensures
            s == self.spec_state(),
    {
        self.state.current()
    }

    /// Starts enabling: refused unless the guard may begin an enable; on
    /// success returns the ruleset to apply (after deleting any stale
    /// table) and then persist.
    pub fn begin_enable(&mut self, uid: u32) -> (r: Result<String, BlackholeError>)
        ensures
            final(self).spec_ruleset_path() == old(self).spec_ruleset_path(),
            can_begin_enable(old(self).spec_state()) ==> r is Ok && r->Ok_0@ == ruleset_text(uid)
                && final(self).spec_state() == GuardState::Enabling && final(self).spec_tor_started(),
            !can_begin_enable(old(self).spec_state()) ==> r is Err && final(self).spec_state()
                == old(self).spec_state() && final(self).spec_tor_started() == old(self).spec_tor_started(),
    {
        match self.state.begin_enable() {
            Ok(()) => {
                self.tor_started = true;
                Ok(ruleset(uid))
            },
            Err(e) => Err(e),
        }
    }

    /// Ends enabling: `Enabled` when deleting, applying and persisting all
    /// succeeded, `Faulted` otherwise (never back to `Disabled`).
    pub fn finish_enable(&mut self, success: bool)
        ensures
            final(self).spec_tor_started() == old(self).spec_tor_started(),
            final(self).spec_ruleset_path() == old(self).spec_ruleset_path(),
            final(self).spec_state() == finished_state(success, GuardState::Enabled),
    {
        self.state.finish_enable(success);
    }

    pub fn begin_disable(&mut self) -> (r: Result<(), BlackholeError>)
        ensures
            final(self).spec_tor_started() == old(self).spec_tor_started(),
            final(self).spec_ruleset_path() == old(self).spec_ruleset_path(),
            can_begin_disable(old(self).spec_state()) ==> r is Ok && final(self).spec_state()
                == GuardState::Disabling,
            !can_begin_disable(old(self).spec_state()) ==> r == invalid_transition(
                "disable",
                old(self).spec_state(),
            ) && final(self).spec_state() == old(self).spec_state(),
    {
        self.state.begin_disable()
    }

    /// Ends disabling: `Disabled` when the table and the persisted file
    /// are gone, `Faulted` otherwise.
    pub fn finish_disable(&mut self, success: bool)
        ensures
            final(self).spec_tor_started() == old(self).spec_tor_started(),
            final(self).spec_ruleset_path() == old(self).spec_ruleset_path(),
            final(self).spec_state() == finished_state(success, GuardState::Disabled),
    {
        self.state.finish_disable(success);
    }

    /// The status to report: the in-memory state cross-checked against
    /// whether the table really exists, Tor's progress, the permitted
    /// user, and a detail (the mismatch, else Tor's blocked reason).
    pub fn status(&self, actually_blocking: bool, uid: u32, tor: TorStatus) -> (s: GuardStatus)
        ensures
            s.state == reconciled_state(self.spec_state(), actually_blocking),
            s.tor_bootstrap_percent == (if self.spec_tor_started() {
                Some(tor.bootstrap_percent)
            } else {
                None
            }),
            s.allowed_egress is Some && s.allowed_egress->0@ == "uid "@ + decimal(uid as nat),
            reconciled_detail(self.spec_state(), actually_blocking, "nftables table"@) is Some
                ==> s.detail is Some && s.detail->0@ == reconciled_detail(
                self.spec_state(),
                actually_blocking,
                "nftables table"@,
            )->0,
            reconciled_detail(self.spec_state(), actually_blocking, "nftables table"@) is None
                ==> s.detail == tor.blocked_reason,
    {
        let (state, detail) = self.state.reconcile(actually_blocking, "nftables table");
        let mut egress = String::new();
        egress.append("uid ");
        push_decimal(&mut egress, uid as u64);
        let detail = match detail {
            Some(d) => Some(d),
            None => tor.blocked_reason,
        };
        let tor_bootstrap_percent = if self.tor_started {
            Some(tor.bootstrap_percent)
        } else {
            None
        };
        GuardStatus {
            state,
            tor_bootstrap_percent,
            allowed_egress: Some(egress),
            detail,
        }
    }

    /// A new identity may only be requested while fully enabled.
    pub fn check_new_identity(&self) -> (r: Result<(), BlackholeError>)
        ensures
            self.spec_state() == GuardState::Enabled ==> r is Ok,
            self.spec_state() != GuardState::Enabled ==> r == invalid_transition(
                "new_identity",
                self.spec_state(),
            ),
    {
        self.state.require_enabled("new_identity")
    }
}

} // verus!
