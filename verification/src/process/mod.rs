//! Finding and attaching to training processes.
pub mod attach;
pub mod container;
pub mod discover;
