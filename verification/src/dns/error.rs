use vstd::prelude::*;

use crate::kill_switch::error::{blackhole_error_text, BlackholeError};
use crate::text::{concat2, concat3};

verus! {

/// Errors of the anti-DNS-leak layer.
#[derive(Debug)]
pub enum DnsError {
    /// An encrypted resolver query failed.
    Resolve(String),
    /// An answer's DNSSEC proof was `Bogus`: treated as tampering, never
    /// as a normal failure, and never trusted anyway.
    DnssecValidationFailed { name: String, detail: String },
    /// The OS resolver could not be inspected or configured.
    SystemConfig(String),
    /// The local relay failed.
    Relay(String),
    /// The kill switch failed.
    Guard(BlackholeError),
    /// A file or socket operation failed.
    Io(String),
}

/// The message an error is displayed with.
pub open spec fn dns_error_text(e: DnsError) -> Seq<char> {
    match e {
        DnsError::Resolve(m) => "encrypted resolver query failed: "@ + m@,
        DnsError::DnssecValidationFailed { name, detail } => "DNSSEC validation failed for '"@ + name@
            + "': "@ + detail@,
        DnsError::SystemConfig(m) => "failed to inspect or configure the OS resolver: "@ + m@,
        DnsError::Relay(m) => "local relay server error: "@ + m@,
        DnsError::Guard(g) => "kill switch integration error: "@ + blackhole_error_text(g),
        DnsError::Io(m) => m@,
    }
}

impl DnsError {
    /// The error's message, as it is shown to the user.
    pub fn to_string(&self) -> (text: String)
        ensures
            text@ == dns_error_text(*self),
    {
        match self {
            DnsError::Resolve(m) => concat2("encrypted resolver query failed: ", m.as_str()),
            DnsError::DnssecValidationFailed { name, detail } => {
                let mut t = concat3("DNSSEC validation failed for '", name.as_str(), "': ");
                t.append(detail.as_str());
                t
            },
            DnsError::SystemConfig(m) => concat2("failed to inspect or configure the OS resolver: ", m.as_str()),
            DnsError::Relay(m) => concat2("local relay server error: ", m.as_str()),
            DnsError::Guard(g) => concat2("kill switch integration error: ", g.to_string().as_str()),
            DnsError::Io(m) => m.clone(),
        }
    }
}

} // verus!
