//! Measured quantities and what is inferred from them.
pub mod breakdown;
pub mod mfu;
pub mod units;
pub mod window;
