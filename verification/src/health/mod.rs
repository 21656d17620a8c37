//! Readiness tracking.

pub mod state;
