//! Gateway runtime decisions: transport recovery, the served HTTP surface
//! and northbound token checks.

pub mod auth;
pub mod reconnect;
pub mod router;
pub mod url;

pub use crate::config::legacy::validate_proxy_policy;
