//! Monitoring sessions.
pub mod lifecycle;
pub mod state;
