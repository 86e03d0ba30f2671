//! From measured figures to one bottleneck and one recommendation.
pub mod bottleneck;
pub mod recommendations;
