//! Traceability audit: local network identity, OS telemetry and public
//! network exposure, rolled up into one score with recommendations.

pub mod config;
pub mod exposure;
pub mod error;
pub mod history;
pub mod network_identity;
pub mod report;
pub mod scan;
pub mod telemetry;
