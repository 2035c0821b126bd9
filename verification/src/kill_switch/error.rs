use vstd::prelude::*;

use crate::kill_switch::guard::{state_label, GuardState};
use crate::text::{concat2, concat3};

verus! {

/// Errors produced by the kill switch.
///
/// Platform backends and the Tor orchestration layer are collapsed into
/// string-carrying variants on purpose: callers only ever log or display
/// these.
#[derive(Debug)]
pub enum BlackholeError {
    InvalidTransition { action: &'static str, state: GuardState },
    Platform(String),
    Tor(String),
    CommandFailed { command: String, status: String, stderr: String },
    Io(String),
}

/// The message an error is displayed with.
pub open spec fn blackhole_error_text(e: BlackholeError) -> Seq<char> {
    match e {
        BlackholeError::InvalidTransition { action, state } => "cannot "@ + action@ + " while guard is "@
            + state_label(state),
        BlackholeError::Platform(m) => "firewall backend error: "@ + m@,
        BlackholeError::Tor(m) => "tor orchestration error: "@ + m@,
        BlackholeError::CommandFailed { command, status, stderr } => "external command '"@ + command@
            + "' failed (status "@ + status@ + "): "@ + stderr@,
        BlackholeError::Io(m) => m@,
    }
}

impl BlackholeError {
    /// The error's message, as it is shown to the user.
    pub fn to_string(&self) -> (text: String)
        ensures
            text@ == blackhole_error_text(*self),
    {
        match self {
            BlackholeError::InvalidTransition { action, state } => {
                let mut t = concat3("cannot ", action, " while guard is ");
                t.append(state.label());
                t
            },
            BlackholeError::Platform(m) => concat2("firewall backend error: ", m.as_str()),
            BlackholeError::Tor(m) => concat2("tor orchestration error: ", m.as_str()),
            BlackholeError::CommandFailed { command, status, stderr } => {
                let mut t = concat3("external command '", command.as_str(), "' failed (status ");
                t.append(status.as_str());
                t.append("): ");
                t.append(stderr.as_str());
                t
            },
            BlackholeError::Io(m) => m.clone(),
        }
    }
}

} // verus!
