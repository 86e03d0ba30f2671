//! GPU metrics on Apple hardware.
use vstd::prelude::*;

use crate::collectors::nvml::MIB_BYTES;
use crate::collectors::RawSample;
use crate::error::CalibrateError;
use crate::float::F32;
use crate::metrics::units::{Celsius, Mhz, Mib, Percent, Watts, HUNDRED};

verus! {

/// What the accelerator registry reports of a device.
#[derive(Clone, Copy, Debug, PartialEq, Eq, Structural)]
pub struct RegistryReading {
    /// "Device Utilization %", on Apple Silicon.
    pub device_utilization: Option<i64>,
    /// "GPU Core Utilization", on some AMD and Intel models.
    pub core_utilization: Option<i64>,
    /// "In use system memory".
    pub memory_in_use: Option<i64>,
}

/// What is made of a device's report.
#[derive(Clone, Copy, Debug, PartialEq, Eq, Structural)]
pub struct GpuStats {
    /// Whole percent, 0 to 100.
    pub utilization_pct: u32,
    pub memory_used_bytes: u64,
}

/// A percentage brought between 0 and 100.
pub open spec fn clamped_pct(n: int) -> int {
    if n < 0 {
        0
    } else if n > 100 {
        100
    } else {
        n
    }
}

/// The utilization that a report gives: the device's, else the core's, else zero.
pub open spec fn reported_pct(r: RegistryReading) -> int {
    match (r.device_utilization, r.core_utilization) {
        (Some(d), _) => clamped_pct(d as int),
        (None, Some(c)) => clamped_pct(c as int),
        (None, None) => 0,
    }
}

/// The memory in use that a report gives, where it is positive.
pub open spec fn reported_memory(r: RegistryReading) -> int {
    match r.memory_in_use {
        Some(m) => if m > 0 {
            m as int
        } else {
            0
        },
        None => 0,
    }
}

/// Reads a device's report; negative figures count as zero.
pub fn read_stats(r: &RegistryReading) -> (s: GpuStats)
    ensures
        s.utilization_pct == reported_pct(*r),
        s.memory_used_bytes == reported_memory(*r),
{
    let raw: i64 = match r.device_utilization {
        Some(d) => d,
        None => match r.core_utilization {
            Some(c) => c,
            None => 0,
        },
    };
    let utilization_pct: u32 = if raw < 0 {
        0
    } else if raw > 100 {
        100
    } else {
        raw as u32
    };
    let memory_used_bytes: u64 = match r.memory_in_use {
        Some(m) => if m > 0 {
            m as u64
        } else {
            0
        },
        None => 0,
    };
    GpuStats { utilization_pct, memory_used_bytes }
}

/// Collects Apple Silicon (and AMD/Intel Mac) GPU metrics on a dedicated thread.
///
/// Utilization and memory are system-wide: macOS does not expose per-process GPU
/// isolation. The VRAM total is the physical RAM, which is the right budget under
/// unified memory.
#[derive(Clone, Copy, Debug, PartialEq, Eq, Structural)]
pub struct AppleGpuCollector {
    pub pid: u32,
    pub interval_ms: u64,
}

/// The sample of a device of which the utilization and the memory are known.
pub open spec fn apple_sample(
    gpu_index: u32,
    timestamp_ms: u64,
    utilization: F32,
    memory_pct: F32,
    memory_used_bytes: u64,
    total_bytes: u64,
) -> RawSample {
    RawSample {
        timestamp_ms,
        gpu_index,
        sm_utilization: Percent(utilization.within(F32::of(0), F32::of(HUNDRED))),
        sm_clock_mhz: Mhz(0),
        sm_clock_max_mhz: Mhz(0),
        vram_used_mib: Mib((memory_used_bytes / MIB_BYTES) as u64),
        vram_total_mib: Mib((total_bytes / MIB_BYTES) as u64),
        mem_utilization: Percent(
            if total_bytes > 0 {
                memory_pct.within(F32::of(0), F32::of(HUNDRED))
            } else {
                F32::of(0)
            },
        ),
        temperature: Celsius(F32::of(0)),
        power_draw: Watts(F32::of(0)),
        power_limit: Watts(F32::of(0)),
        throttle_thermal: false,
        throttle_power: false,
        throttle_hw_slowdown: false,
        cpu_utilization: Percent(F32::of(0)),
    }
}

impl AppleGpuCollector {
    /// A collector for a process.
    pub fn new(pid: u32, interval_ms: u64) -> (r: Self)
        ensures
            r.pid == pid,
            r.interval_ms == interval_ms,
    {
        AppleGpuCollector { pid, interval_ms }
    }

    /// What a single GPU query, made before collection begins, comes to.
    pub fn probe(query: Result<Vec<GpuStats>, CalibrateError>) -> (r: Result<(), CalibrateError>)
        ensures
            match query {
                Ok(_) => r is Ok,
                Err(e) => r == Err::<(), CalibrateError>(e),
            },
    {
        match query {
            Ok(_) => Ok(()),
            Err(e) => Err(e),
        }
    }

    /// The sample of a device; `utilization` and `memory_pct` are its utilization
    /// and its share of the total memory, in percent.
    pub fn sample(
        &self,
        gpu_index: u32,
        timestamp_ms: u64,
        utilization: F32,
        memory_pct: F32,
        memory_used_bytes: u64,
        total_bytes: u64,
    ) -> (r: RawSample)
        ensures
            r == apple_sample(
                gpu_index,
                timestamp_ms,
                utilization,
                memory_pct,
                memory_used_bytes,
                total_bytes,
            ),
    {
        let mem_utilization = if total_bytes > 0 {
            Percent::clamped(memory_pct)
        } else {
            Percent(F32::of(0))
        };
        RawSample {
            timestamp_ms,
            gpu_index,
            sm_utilization: Percent::clamped(utilization),
            sm_clock_mhz: Mhz(0),
            sm_clock_max_mhz: Mhz(0),
            vram_used_mib: Mib(memory_used_bytes / MIB_BYTES),
            vram_total_mib: Mib(total_bytes / MIB_BYTES),
            mem_utilization,
            temperature: Celsius(F32::of(0)),
            power_draw: Watts(F32::of(0)),
            power_limit: Watts(F32::of(0)),
            throttle_thermal: false,
            throttle_power: false,
            throttle_hw_slowdown: false,
            cpu_utilization: Percent(F32::of(0)),
        }
    }
}

/// The sum of the memory in use over devices.
pub open spec fn memory_sum(stats: Seq<GpuStats>) -> nat
    decreases stats.len(),
{
    if stats.len() == 0 {
        0
    } else {
        memory_sum(stats.drop_last()) + stats.last().memory_used_bytes as nat
    }
}

proof fn lemma_sum_grows(stats: Seq<GpuStats>, k: int)
    requires
        0 <= k <= stats.len(),
    ensures
        memory_sum(stats.take(k)) <= memory_sum(stats),
    decreases stats.len(),
{
    if k == stats.len() {
        assert(stats.take(k) =~= stats);
    } else {
        lemma_sum_grows(stats.drop_last(), k);
        assert(stats.drop_last().take(k) =~= stats.take(k));
    }
}

/// The GPU memory in use across all devices, in bytes; nothing where the sum does
/// not fit.
pub fn gpu_memory_used(stats: &Vec<GpuStats>) -> (r: Option<u64>)
    ensures
        match r {
            Some(n) => n == memory_sum(stats@),
            None => memory_sum(stats@) > u64::MAX,
        },
{
    let mut n: u64 = 0;
    let mut i: usize = 0;
    while i < stats.len()
        invariant
            i <= stats@.len(),
            n == memory_sum(stats@.take(i as int)),
        decreases stats.len() - i,
    {
        assert(stats@.take(i + 1).drop_last() =~= stats@.take(i as int));
        match n.checked_add(stats[i].memory_used_bytes) {
            Some(m) => n = m,
            None => {
                proof {
                    lemma_sum_grows(stats@, i + 1);
                }
                return None;
            },
        }
        i = i + 1;
    }
    assert(stats@.take(i as int) =~= stats@);
    Some(n)
}

/// A report gives the device's utilization before the core's, between 0 and 100, and the
/// memory in use unless that is negative.
pub proof fn law_reports_are_read(r: RegistryReading)
    ensures
        0 <= reported_pct(r) <= 100,
        r.device_utilization matches Some(d) ==> (0 <= d <= 100 ==> reported_pct(r) == d),
        r.device_utilization matches Some(d) ==> (d < 0 ==> reported_pct(r) == 0),
        r.device_utilization matches Some(d) ==> (d > 100 ==> reported_pct(r) == 100),
        r.device_utilization is None ==> (r.core_utilization matches Some(c) ==> (0 <= c <= 100
            ==> reported_pct(r) == c)),
        r.device_utilization is None ==> (r.core_utilization matches Some(c) ==> (c < 0
            ==> reported_pct(r) == 0)),
        r.device_utilization is None ==> (r.core_utilization matches Some(c) ==> (c > 100
            ==> reported_pct(r) == 100)),
        r.device_utilization is None && r.core_utilization is None ==> reported_pct(r) == 0,
        r.memory_in_use matches Some(m) ==> (m >= 0 ==> reported_memory(r) == m),
        r.memory_in_use matches Some(m) ==> (m < 0 ==> reported_memory(r) == 0),
        r.memory_in_use is None ==> reported_memory(r) == 0,
{
}

/// A sample holds the utilization and the memory that were read, and nothing that macOS
/// does not tell: clocks, temperature, power and throttling stay at zero.
pub proof fn law_samples_hold_what_was_read(
    gpu_index: u32,
    timestamp_ms: u64,
    utilization: F32,
    memory_pct: F32,
    memory_used_bytes: u64,
    total_bytes: u64,
)
    ensures
        ({
            let r = apple_sample(
                gpu_index,
                timestamp_ms,
                utilization,
                memory_pct,
                memory_used_bytes,
                total_bytes,
            );
            &&& r.timestamp_ms == timestamp_ms
            &&& r.gpu_index == gpu_index
            &&& r.vram_used_mib.0 * 1_048_576 <= memory_used_bytes < (r.vram_used_mib.0 + 1)
                * 1_048_576
            &&& r.vram_total_mib.0 * 1_048_576 <= total_bytes < (r.vram_total_mib.0 + 1)
                * 1_048_576
            &&& F32::of(0).at_most(utilization) && utilization.at_most(F32::of(0x42c8_0000))
                ==> r.sm_utilization.0 == utilization
            &&& F32::of(0x42c8_0000).below(utilization) ==> r.sm_utilization.0 == F32::of(
                0x42c8_0000,
            )
            &&& utilization.below(F32::of(0)) ==> r.sm_utilization.0 == F32::of(0)
            &&& total_bytes > 0 && F32::of(0).at_most(memory_pct) && memory_pct.at_most(
                F32::of(0x42c8_0000),
            ) ==> r.mem_utilization.0 == memory_pct
            &&& total_bytes > 0 && F32::of(0x42c8_0000).below(memory_pct) ==> r.mem_utilization.0
                == F32::of(0x42c8_0000)
            &&& total_bytes > 0 && memory_pct.below(F32::of(0)) ==> r.mem_utilization.0 == F32::of(
                0,
            )
            &&& total_bytes == 0 ==> r.mem_utilization.0 == F32::of(0)
            &&& r.sm_clock_mhz.0 == 0 && r.sm_clock_max_mhz.0 == 0
            &&& r.temperature.0 == F32::of(0) && r.power_draw.0 == F32::of(0)
            &&& r.power_limit.0 == F32::of(0) && r.cpu_utilization.0 == F32::of(0)
            &&& !r.throttle_thermal && !r.throttle_power && !r.throttle_hw_slowdown
        }),
{
}

/// The memory of one more device is added to the sum; no devices use none.
pub proof fn law_memory_adds_up(stats: Seq<GpuStats>, s: GpuStats)
    ensures
        memory_sum(Seq::empty()) == 0,
        memory_sum(stats.push(s)) == memory_sum(stats) + s.memory_used_bytes,
{
    assert(stats.push(s).drop_last() =~= stats);
}

} // verus!
