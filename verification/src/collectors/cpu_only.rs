//! The collector for machines without NVML.
use vstd::prelude::*;

use crate::collectors::RawSample;
use crate::float::F32;
use crate::metrics::units::{Celsius, Mhz, Mib, Percent, Watts};

verus! {

/// Fallback collector used when NVML is unavailable (non-NVIDIA GPU or missing
/// nvidia driver).
///
/// Its samples come from the process statistics only. All GPU-specific fields are
/// zero so the analytics can still run and display "N/A".
#[derive(Clone, Copy, Debug, PartialEq, Eq, Structural)]
pub struct CpuOnlyCollector {
    pub pid: u32,
    pub interval_ms: u64,
}

/// What a collector that watches a process does on a tick.
#[derive(Clone, Copy, Debug, PartialEq, Eq, Structural)]
pub enum LivenessTick {
    /// It was told to stop.
    Break,
    /// The process has exited: stop the session.
    Stop,
    /// Sample, then sleep.
    Sample,
}

/// What to do on a tick; a stop request comes first.
pub open spec fn liveness_tick(stop: bool, alive: bool) -> LivenessTick {
    if stop {
        LivenessTick::Break
    } else if !alive {
        LivenessTick::Stop
    } else {
        LivenessTick::Sample
    }
}

/// Decides on a tick.
pub fn on_liveness(stop: bool, alive: bool) -> (r: LivenessTick)
    ensures
        r == liveness_tick(stop, alive),
{
    if stop {
        LivenessTick::Break
    } else if !alive {
        LivenessTick::Stop
    } else {
        LivenessTick::Sample
    }
}

/// A sample without a GPU.
pub open spec fn gpuless_sample(timestamp_ms: u64, cpu: Percent) -> RawSample {
    RawSample {
        timestamp_ms,
        gpu_index: 0,
        sm_utilization: Percent(F32::of(0)),
        sm_clock_mhz: Mhz(0),
        sm_clock_max_mhz: Mhz(0),
        vram_used_mib: Mib(0),
        vram_total_mib: Mib(0),
        mem_utilization: Percent(F32::of(0)),
        temperature: Celsius(F32::of(0)),
        power_draw: Watts(F32::of(0)),
        power_limit: Watts(F32::of(0)),
        throttle_thermal: false,
        throttle_power: false,
        throttle_hw_slowdown: false,
        cpu_utilization: cpu,
    }
}

impl CpuOnlyCollector {
    /// A collector for a process.
    pub fn new(pid: u32, interval_ms: u64) -> (r: Self)
        ensures
            r.pid == pid,
            r.interval_ms == interval_ms,
    {
        CpuOnlyCollector { pid, interval_ms }
    }

    /// A sample of the process's CPU utilization; zero where it could not be read.
    pub fn sample(&self, timestamp_ms: u64, cpu: Option<Percent>) -> (r: RawSample)
        ensures
            r == gpuless_sample(
                timestamp_ms,
                match cpu {
                    Some(p) => p,
                    None => Percent(F32::of(0)),
                },
            ),
    {
        let cpu_utilization = match cpu {
            Some(p) => p,
            None => Percent(F32::of(0)),
        };
        RawSample {
            timestamp_ms,
            gpu_index: 0,
            sm_utilization: Percent(F32::of(0)),
            sm_clock_mhz: Mhz(0),
            sm_clock_max_mhz: Mhz(0),
            vram_used_mib: Mib(0),
            vram_total_mib: Mib(0),
            mem_utilization: Percent(F32::of(0)),
            temperature: Celsius(F32::of(0)),
            power_draw: Watts(F32::of(0)),
            power_limit: Watts(F32::of(0)),
            throttle_thermal: false,
            throttle_power: false,
            throttle_hw_slowdown: false,
            cpu_utilization,
        }
    }
}

/// A collector samples exactly while the process lives and nobody asked it to stop; a
/// process that is gone stops the session, unless the collector was told to stop.
pub proof fn law_collection_lasts_as_long_as_the_process(stop: bool, alive: bool)
    ensures
        liveness_tick(stop, alive) is Sample <==> !stop && alive,
        liveness_tick(stop, alive) is Stop <==> !stop && !alive,
        liveness_tick(stop, alive) is Break <==> stop,
{
}

/// Without a GPU only the time and the CPU utilization of a sample say something.
pub proof fn law_samples_without_a_gpu(timestamp_ms: u64, cpu: Percent)
    ensures
        ({
            let r = gpuless_sample(timestamp_ms, cpu);
            &&& r.timestamp_ms == timestamp_ms
            &&& r.cpu_utilization == cpu
            &&& r.gpu_index == 0
            &&& r.sm_utilization.0 == F32::of(0) && r.mem_utilization.0 == F32::of(0)
            &&& r.sm_clock_mhz.0 == 0 && r.sm_clock_max_mhz.0 == 0
            &&& r.vram_used_mib.0 == 0 && r.vram_total_mib.0 == 0
            &&& r.temperature.0 == F32::of(0)
            &&& r.power_draw.0 == F32::of(0) && r.power_limit.0 == F32::of(0)
            &&& !r.throttle_thermal && !r.throttle_power && !r.throttle_hw_slowdown
        }),
{
}

} // verus!
