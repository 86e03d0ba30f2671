//! The rules of the commands.
pub mod bench;
pub mod diagnose;
pub mod plan;
pub mod probe;
pub mod watch;
