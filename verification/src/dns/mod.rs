//! Anti-DNS-leak layer: the encrypted resolver chain and its fallback
//! rules, the local relay's answers, leak detection and the kill-switch
//! enforcement it triggers, and the OS resolver configuration.

pub mod error;
pub mod resolver;
pub mod config;
pub mod leak;
pub mod relay;
pub mod system_dns;
