//! BlackHole privacy toolkit: the verified decision logic behind the kill
//! switch, the anti-DNS-leak layer, the traceability audit, the cookie
//! randomizer and the status dashboard.

pub mod cookies;
pub mod dashboard;
pub mod dns;
pub mod fingerprint;
pub mod kill_switch;
pub mod mobile;
pub mod net;
pub mod paths;
pub mod status;
pub mod text;
