//! Time that a training run takes.
pub mod estimator;
