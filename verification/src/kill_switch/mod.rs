//! Fail-closed kill switch: the OS-independent guard state machine, the
//! error type, and the pure parts of the platform and Tor backends.

pub mod config;
pub mod error;
pub mod guard;
pub mod linux;
pub mod tor;
pub mod tor_control;
pub mod tor_subprocess;
pub mod windows;
