//! Cookie randomizer: the tracker list, the per-session table of
//! substitute cookie values, the header rewriting, the daily counter and
//! the local CA's fingerprint.

pub mod ca;
pub mod config;
pub mod cookie_store;
pub mod error;
pub mod handler;
pub mod stats;
pub mod tracker_list;
