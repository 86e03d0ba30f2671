//! What a monitoring session shows.
use vstd::prelude::*;

use crate::analysis::bottleneck::Bottleneck;
use crate::analysis::recommendations::Recommendation;
use crate::float::{F32, F64};
use crate::metrics::breakdown::TimeBreakdown;
use crate::metrics::mfu::MfuEstimate;
use crate::metrics::units::{Celsius, Mib, Percent, Watts};

verus! {

/// MFU distribution across the session window, in tenths of a percent.
/// Present once ≥15 samples have been collected.
#[derive(Clone, Copy, Debug, PartialEq, Eq, Structural)]
pub struct MfuPercentiles {
    pub p50_tenths: u64,
    pub p75_tenths: u64,
    pub p95_tenths: u64,
}

/// Point-in-time view of the monitoring session, published each sampling interval.
#[derive(Debug)]
pub struct SessionSnapshot {
    pub elapsed_ms: u64,
    pub gpu_name: String,
    pub mfu: MfuEstimate,
    /// Present once ≥15 samples are collected.
    pub mfu_percentiles: Option<MfuPercentiles>,
    pub peak_mfu_pct: F32,
    pub breakdown: TimeBreakdown,
    pub bottleneck: Bottleneck,
    pub recommendation: Recommendation,
    pub temperature: Celsius,
    pub power_draw: Watts,
    pub power_limit: Watts,
    pub throttle_thermal: bool,
    pub vram_used_mib: Mib,
    pub vram_total_mib: Mib,
    pub vram_utilization: Percent,
    pub peak_vram_mib: Mib,
    /// Populated only when an hourly cost was supplied.
    pub cost_impact: Option<CostImpact>,
    pub per_gpu: Vec<GpuSnapshot>,
    pub steps_observed: u64,
    /// True when any two GPUs' SM utilisation differs by >20 ppt.
    pub mfu_divergent: bool,
    /// Max SM utilisation spread across GPUs (ppt). Zero for single-GPU runs.
    pub gpu_mfu_divergence_ppt: F32,
    /// False on non-NVIDIA hardware or when the nvidia driver is absent.
    pub nvml_available: bool,
    /// True when VRAM has been monotonically increasing for 8+ consecutive
    /// samples: a potential memory leak in the training loop.
    pub vram_growing: bool,
    /// Mean inter-sample interval in ms. Zero until enough samples exist.
    pub step_time_ms_mean: F32,
    /// True when step-time coefficient of variation exceeds 0.3 (erratic).
    pub step_time_erratic: bool,
}

/// Cost breakdown at the current MFU versus the 45% target.
#[derive(Clone, Copy, Debug, PartialEq, Eq, Structural)]
pub struct CostImpact {
    pub cost_per_hour: F64,
    pub current_cost_usd: F64,
    pub target_cost_usd: F64,
    /// Waste per hour (current − target cost rate).
    pub waste_per_hour: F64,
}

/// Snapshot for a single GPU device (multi-GPU display).
#[derive(Clone, Copy, Debug, PartialEq, Eq, Structural)]
pub struct GpuSnapshot {
    pub gpu_index: u32,
    pub sm_utilization: Percent,
    pub vram_used_mib: Mib,
    pub temperature: Celsius,
}

} // verus!
