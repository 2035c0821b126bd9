use vstd::prelude::*;

use crate::text::concat2;

verus! {

/// Errors of the traceability audit. Failures of outside work (reading
/// files, running commands, HTTP) are carried as their message.
#[derive(Debug)]
pub enum FingerprintError {
    /// System configuration could not be inspected.
    Inspect(String),
    /// A hardening change could not be applied.
    Harden(String),
    /// The public-exposure request failed.
    Exposure(String),
    /// The scan history could not be read or written.
    History(String),
    /// A file could not be read or written.
    Io(String),
}

/// The message an error is displayed with.
pub open spec fn fingerprint_error_text(e: FingerprintError) -> Seq<char> {
    match e {
        FingerprintError::Inspect(m) => "failed to inspect system configuration: "@ + m@,
        FingerprintError::Harden(m) => "failed to apply hardening change: "@ + m@,
        FingerprintError::Exposure(m) => "exposure check request failed: "@ + m@,
        FingerprintError::History(m) => "scan history error: "@ + m@,
        FingerprintError::Io(m) => m@,
    }
}

impl FingerprintError {
    /// The error's message, as it is shown to the user.
    pub fn to_string(&self) -> (text: String)
        ensures
            text@ == fingerprint_error_text(*self),
    {
        match self {
            FingerprintError::Inspect(m) => concat2("failed to inspect system configuration: ", m.as_str()),
            FingerprintError::Harden(m) => concat2("failed to apply hardening change: ", m.as_str()),
            FingerprintError::Exposure(m) => concat2("exposure check request failed: ", m.as_str()),
            FingerprintError::History(m) => concat2("scan history error: ", m.as_str()),
            FingerprintError::Io(m) => m.clone(),
        }
    }
}

} // verus!
