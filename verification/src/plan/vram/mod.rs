//! Memory that a training run needs.
pub mod estimator;
