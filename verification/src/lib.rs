//! Local MCP aggregation gateway: configuration model, fail-closed policy,
//! namespace planning and readiness tracking.

pub mod backend;
pub mod cli;
pub mod config;
pub mod error;
pub mod gateway;
pub mod health;
pub mod namespace;
pub mod text;

pub use config::legacy::validate_proxy_policy as validate_policy;
pub use config::migrate::DEFAULT_SERVER_NAME;
