//! The `[fingerprint]` section of the shared config file.

use vstd::prelude::*;

verus! {

#[derive(Debug, Clone, Copy, PartialEq, Eq, Structural)]
pub struct FingerprintConfig {
    /// Interval for the periodic scan mode, in seconds, when none is
    /// given on the command line.
    pub daemon_interval_secs: Option<u64>,
}

impl Default for FingerprintConfig {
    fn default() -> (c: FingerprintConfig)
        ensures
            c.daemon_interval_secs is None,
    {
        FingerprintConfig { daemon_interval_secs: None }
    }
}

/// The periodic scan's interval when neither the command line nor the
/// config file sets one: a day.
pub const DEFAULT_DAEMON_INTERVAL_SECS: u64 = 86_400;

/// The periodic scan's interval: the command line's, else the config
/// file's, else a day.
pub fn daemon_interval(cli: Option<u64>, config: &FingerprintConfig) -> (secs: u64)
    ensures
        secs == match cli {
            Some(s) => s,
            None => match config.daemon_interval_secs {
                Some(s) => s,
                None => DEFAULT_DAEMON_INTERVAL_SECS,
            },
        },
{
    match cli {
        Some(s) => s,
        None => match config.daemon_interval_secs {
            Some(s) => s,
            None => DEFAULT_DAEMON_INTERVAL_SECS,
        },
    }
}

} // verus!
