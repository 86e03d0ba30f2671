//! Detection of the primary bottleneck.
use vstd::prelude::*;

use crate::float::F32;
use crate::metrics::breakdown::{TimeBreakdown, FIFTEEN, TEN};
use crate::metrics::mfu::MfuEstimate;

verus! {

/// The primary identified bottleneck for the current window.
///
/// Only the first matching condition is reported, so the user always gets one
/// clear answer.
#[derive(Clone, Copy, Debug, PartialEq, Eq, Structural)]
pub enum Bottleneck {
    /// Data loader is producing batches slower than the GPU can consume them.
    DataLoader,
    /// Excessive CUDA synchronization (`.item()`, scalar logging, etc.).
    CudaSync,
    /// High memory allocation/deallocation inside the training loop.
    MemoryFragmentation,
    /// GPU is reducing clock speed due to thermal stress.
    ThermalThrottle,
    /// GPU clock is running significantly below boost for non-thermal reasons.
    ClockUnderspeed,
    /// MFU is below the 45% target and no specific bottleneck dominates.
    BelowTargetMfu,
    /// No significant bottleneck identified; training is well-optimized.
    NoBottleneck,
}

/// The bits of 8 in single precision.
pub const EIGHT: u32 = 0x4100_0000;

/// The bits of 45 in single precision.
pub const FORTY_FIVE: u32 = 0x4234_0000;

/// The bits of 85 in single precision.
pub const EIGHTY_FIVE: u32 = 0x42aa_0000;

/// The bottleneck that figures indicate, by priority: thermal throttling, the
/// data loader over 15% of step time, CUDA synchronization over 8%, memory
/// allocation over 10%, a clock under 85% of boost, an MFU under 45%.
pub open spec fn bottleneck_of(
    mfu_pct: F32,
    breakdown: TimeBreakdown,
    throttle_thermal: bool,
    sm_clock_pct: F32,
) -> Bottleneck {
    if throttle_thermal {
        Bottleneck::ThermalThrottle
    } else if F32::of(FIFTEEN).below(breakdown.data_loader_pct) {
        Bottleneck::DataLoader
    } else if F32::of(EIGHT).below(breakdown.cuda_sync_pct) {
        Bottleneck::CudaSync
    } else if F32::of(TEN).below(breakdown.memory_alloc_pct) {
        Bottleneck::MemoryFragmentation
    } else if sm_clock_pct.below(F32::of(EIGHTY_FIVE)) {
        Bottleneck::ClockUnderspeed
    } else if mfu_pct.below(F32::of(FORTY_FIVE)) {
        Bottleneck::BelowTargetMfu
    } else {
        Bottleneck::NoBottleneck
    }
}

/// Detects the primary bottleneck from measured data.
pub struct BottleneckDetector;

impl BottleneckDetector {
    /// The primary bottleneck; `sm_clock_pct` is the clock in percent of boost.
    pub fn detect(
        mfu: &MfuEstimate,
        breakdown: &TimeBreakdown,
        throttle_thermal: bool,
        _throttle_power: bool,
        sm_clock_pct: F32,
    ) -> (r: Bottleneck)
        ensures
            r == bottleneck_of(mfu.mfu_pct.0, *breakdown, throttle_thermal, sm_clock_pct),
    {
        // Thermal throttling takes priority: it is an immediate hardware concern.
        if throttle_thermal {
            return Bottleneck::ThermalThrottle;
        }
        if breakdown.data_loader_pct.gt(F32::of(FIFTEEN)) {
            return Bottleneck::DataLoader;
        }
        if breakdown.cuda_sync_pct.gt(F32::of(EIGHT)) {
            return Bottleneck::CudaSync;
        }
        if breakdown.memory_alloc_pct.gt(F32::of(TEN)) {
            return Bottleneck::MemoryFragmentation;
        }
        // Power-limited or driver state.
        if sm_clock_pct.lt(F32::of(EIGHTY_FIVE)) {
            return Bottleneck::ClockUnderspeed;
        }
        if mfu.mfu_pct.0.lt(F32::of(FORTY_FIVE)) {
            return Bottleneck::BelowTargetMfu;
        }
        Bottleneck::NoBottleneck
    }
}

/// Thermal throttling overrides whatever else is measured, and nothing else is
/// reported as thermal throttling.
pub proof fn law_thermal_has_priority(
    mfu_pct: F32,
    breakdown: TimeBreakdown,
    throttle_thermal: bool,
    sm_clock_pct: F32,
)
    ensures
        bottleneck_of(mfu_pct, breakdown, throttle_thermal, sm_clock_pct)
            == Bottleneck::ThermalThrottle <==> throttle_thermal,
{
}

/// A job is reported as free of bottlenecks only at 45% MFU or more.
pub proof fn law_no_bottleneck_means_target_reached(
    mfu_pct: F32,
    breakdown: TimeBreakdown,
    throttle_thermal: bool,
    sm_clock_pct: F32,
)
    requires
        !mfu_pct.not_a_number(),
        bottleneck_of(mfu_pct, breakdown, throttle_thermal, sm_clock_pct) == Bottleneck::NoBottleneck,
    ensures
        F32::of(FORTY_FIVE).code() <= mfu_pct.code(),
{
}

/// Without thermal throttling a data loader share above 15 is the bottleneck, whatever
/// the MFU, the clock and the other shares are, and only such a share is reported so.
pub proof fn law_starving_is_reported(
    mfu_pct: F32,
    breakdown: TimeBreakdown,
    throttle_thermal: bool,
    sm_clock_pct: F32,
)
    ensures
        bottleneck_of(mfu_pct, breakdown, throttle_thermal, sm_clock_pct) == Bottleneck::DataLoader
            <==> !throttle_thermal && F32::of(0x4170_0000).below(breakdown.data_loader_pct),
{
}

/// With the data loader at 15 or less, a synchronization share above 8 is the
/// bottleneck; with that at 8 or less, an allocation share above 10.
pub proof fn law_waste_is_reported_in_order(
    mfu_pct: F32,
    breakdown: TimeBreakdown,
    throttle_thermal: bool,
    sm_clock_pct: F32,
)
    requires
        !throttle_thermal,
        !F32::of(0x4170_0000).below(breakdown.data_loader_pct),
    ensures
        bottleneck_of(mfu_pct, breakdown, throttle_thermal, sm_clock_pct) == Bottleneck::CudaSync
            <==> F32::of(0x4100_0000).below(breakdown.cuda_sync_pct),
        !F32::of(0x4100_0000).below(breakdown.cuda_sync_pct) ==> (bottleneck_of(
            mfu_pct,
            breakdown,
            throttle_thermal,
            sm_clock_pct,
        ) == Bottleneck::MemoryFragmentation <==> F32::of(0x4120_0000).below(
            breakdown.memory_alloc_pct,
        )),
{
}

/// Where no share of the time is wasted, a clock under 85 is the bottleneck; at 85 or
/// more an MFU under 45 is below target, and any other job has no bottleneck.
pub proof fn law_efficient_loops_go_by_clock_and_mfu(
    mfu_pct: F32,
    breakdown: TimeBreakdown,
    throttle_thermal: bool,
    sm_clock_pct: F32,
)
    requires
        !throttle_thermal,
        !F32::of(0x4170_0000).below(breakdown.data_loader_pct),
        !F32::of(0x4100_0000).below(breakdown.cuda_sync_pct),
        !F32::of(0x4120_0000).below(breakdown.memory_alloc_pct),
    ensures
        sm_clock_pct.below(F32::of(0x42aa_0000)) ==> bottleneck_of(
            mfu_pct,
            breakdown,
            throttle_thermal,
            sm_clock_pct,
        ) == Bottleneck::ClockUnderspeed,
        !sm_clock_pct.below(F32::of(0x42aa_0000)) && mfu_pct.below(F32::of(0x4234_0000))
            ==> bottleneck_of(mfu_pct, breakdown, throttle_thermal, sm_clock_pct)
            == Bottleneck::BelowTargetMfu,
        !sm_clock_pct.below(F32::of(0x42aa_0000)) && !mfu_pct.below(F32::of(0x4234_0000))
            ==> bottleneck_of(mfu_pct, breakdown, throttle_thermal, sm_clock_pct)
            == Bottleneck::NoBottleneck,
{
}

/// A job is reported as well-optimized only where nothing is wasted and the clock is
/// not below 85.
pub proof fn law_no_bottleneck_means_no_waste(
    mfu_pct: F32,
    breakdown: TimeBreakdown,
    throttle_thermal: bool,
    sm_clock_pct: F32,
)
    requires
        bottleneck_of(mfu_pct, breakdown, throttle_thermal, sm_clock_pct) == Bottleneck::NoBottleneck,
    ensures
        !throttle_thermal,
        !F32::of(0x4170_0000).below(breakdown.data_loader_pct),
        !F32::of(0x4100_0000).below(breakdown.cuda_sync_pct),
        !F32::of(0x4120_0000).below(breakdown.memory_alloc_pct),
        !sm_clock_pct.below(F32::of(0x42aa_0000)),
        !mfu_pct.below(F32::of(0x4234_0000)),
{
}

} // verus!
