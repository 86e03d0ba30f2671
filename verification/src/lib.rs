//! GPU training efficiency analysis.
pub mod analysis;
pub mod bench;
pub mod cli;
pub mod collectors;
pub mod commands;
pub mod error;
pub mod float;
pub mod gpu_specs;
pub mod histogram;
pub mod json;
pub mod metrics;
pub mod output;
pub mod pattern;
pub mod plan;
pub mod process;
pub mod session;
pub mod text;
pub mod time;
