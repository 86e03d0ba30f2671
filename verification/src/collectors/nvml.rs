//! GPU metrics via NVML.
use vstd::prelude::*;

use crate::collectors::RawSample;
use crate::error::CalibrateError;
use crate::float::F32;
use crate::metrics::units::{Celsius, Mhz, Mib, Percent, Watts, HUNDRED};

verus! {

/// How many ticks in a row without a GPU end the collection.
pub const NO_GPU_EXIT_THRESHOLD: u32 = 5;

/// Collects GPU metrics via NVML on a dedicated thread.
///
/// GPU discovery is performed on every tick so multi-GPU jobs that acquire
/// devices after startup are automatically tracked.
#[derive(Clone, Copy, Debug, PartialEq, Eq, Structural)]
pub struct NvmlCollector {
    /// PID of the training process being monitored.
    pub pid: u32,
    pub interval_ms: u64,
    /// Ticks in a row on which the process used no GPU.
    pub ticks_without_gpu: u32,
}

/// What a collector does on a tick.
#[derive(Debug)]
pub enum Tick {
    /// Sleep until the next tick.
    Wait,
    /// The process has likely exited: stop the session.
    Stop,
    /// Sample these devices, then sleep.
    Sample(Vec<u32>),
}

/// The number of ticks without a GPU after one more. A tick on which discovery
/// failed does not count.
pub open spec fn idle_ticks(before: nat, found: Option<Seq<u32>>) -> nat {
    match found {
        None => before,
        Some(indices) => if indices.len() > 0 {
            0
        } else if before < NO_GPU_EXIT_THRESHOLD {
            before + 1
        } else {
            before
        },
    }
}

/// The number of ticks without a GPU after a run of ticks.
pub open spec fn idle_after(found: Seq<Option<Seq<u32>>>) -> nat
    decreases found.len(),
{
    if found.len() == 0 {
        0
    } else {
        idle_ticks(idle_after(found.drop_last()), found.last())
    }
}

/// Whether a collector stops on a tick.
pub open spec fn stops(before: nat, found: Option<Seq<u32>>) -> bool {
    found is Some && found->0.len() == 0 && idle_ticks(before, found) >= NO_GPU_EXIT_THRESHOLD
}

/// Whether `r` is what a collector does on a tick.
pub open spec fn is_tick(before: nat, found: Option<Vec<u32>>, r: Tick) -> bool {
    match r {
        Tick::Wait => !stops(before, found_view(found)) && (found is Some ==> found->0@.len() == 0),
        Tick::Stop => stops(before, found_view(found)),
        Tick::Sample(indices) => found == Some(indices) && indices@.len() > 0,
    }
}

/// The discoveries of a run of ticks that succeeded.
pub open spec fn successful(found: Seq<Option<Seq<u32>>>) -> Seq<Option<Seq<u32>>> {
    found.filter(|f: Option<Seq<u32>>| f is Some)
}

/// Whether the last `k` of a run of discoveries found no GPU.
pub open spec fn ends_idle(found: Seq<Option<Seq<u32>>>, k: int) -> bool {
    found.len() >= k && forall|i: int|
        found.len() - k <= i < found.len() ==> #[trigger] found[i] == Some(Seq::<u32>::empty())
}

/// A collector stops on a tick exactly when discovery succeeded on it, and the last
/// five discoveries that succeeded found no GPU. A tick on which discovery failed
/// neither stops it nor breaks the run.
pub proof fn law_stops_after_five_idle_ticks(found: Seq<Option<Seq<u32>>>)
    requires
        found.len() > 0,
    ensures
        stops(idle_after(found.drop_last()), found.last()) <==> found.last() is Some && ends_idle(
            successful(found),
            NO_GPU_EXIT_THRESHOLD as int,
        ),
{
    lemma_idle_counts_tail(found, NO_GPU_EXIT_THRESHOLD as int);
    match found.last() {
        Some(indices) => {
            if indices.len() > 0 {
                let ok = successful(found);
                reveal(Seq::filter);
                assert(ok.last() == found.last());
                assert(ok[ok.len() - 1] != Some(Seq::<u32>::empty()));
            }
        },
        None => {},
    }
}

/// At least `k` idle ticks are counted exactly when the last `k` discoveries that
/// succeeded found no GPU.
proof fn lemma_idle_counts_tail(found: Seq<Option<Seq<u32>>>, k: int)
    requires
        0 <= k <= NO_GPU_EXIT_THRESHOLD,
    ensures
        idle_after(found) >= k <==> ends_idle(successful(found), k),
    decreases found.len(),
{
    reveal(Seq::filter);
    if k > 0 && found.len() > 0 {
        let before = successful(found.drop_last());
        let ok = successful(found);
        match found.last() {
            None => {
                lemma_idle_counts_tail(found.drop_last(), k);
                assert(ok == before);
            },
            Some(indices) => {
                lemma_idle_counts_tail(found.drop_last(), k - 1);
                lemma_idle_counts_tail(found.drop_last(), NO_GPU_EXIT_THRESHOLD as int);
                assert(ok == before.push(found.last()));
                assert(ok[ok.len() - 1] == found.last());
                if indices.len() == 0 {
                    assert(indices =~= Seq::<u32>::empty());
                    assert(ends_idle(ok, k) <==> ends_idle(before, k - 1)) by {
                        if ends_idle(ok, k) {
                            assert forall|i: int|
                                before.len() - (k - 1) <= i < before.len() implies (
                            #[trigger] before[i]) == Some(Seq::<u32>::empty()) by {
                                assert(ok[i] == Some(Seq::<u32>::empty()));
                            }
                        }
                    }
                }
            },
        }
    }
}

impl NvmlCollector {
    /// A collector for a process.
    pub fn new(pid: u32, interval_ms: u64) -> (r: Self)
        ensures
            r.pid == pid,
            r.interval_ms == interval_ms,
            r.ticks_without_gpu == 0,
    {
        NvmlCollector { pid, interval_ms, ticks_without_gpu: 0 }
    }

    /// What an attempt to initialise NVML comes to.
    pub fn probe(init: Result<(), String>) -> (r: Result<(), CalibrateError>)
        ensures
            match init {
                Ok(_) => r is Ok,
                Err(e) => r == Err::<(), CalibrateError>(CalibrateError::NvmlInit(e)),
            },
    {
        match init {
            Ok(_) => Ok(()),
            Err(e) => Err(CalibrateError::NvmlInit(e)),
        }
    }

    /// Decides on a tick by the devices that the process was found on; nothing
    /// where discovery failed.
    pub fn on_tick(&mut self, found: Option<Vec<u32>>) -> (r: Tick)
        ensures
            final(self).pid == old(self).pid,
            final(self).interval_ms == old(self).interval_ms,
            final(self).ticks_without_gpu == idle_ticks(
                old(self).ticks_without_gpu as nat,
                found_view(found),
            ),
            is_tick(old(self).ticks_without_gpu as nat, found, r),
    {
        match found {
            None => Tick::Wait,
            Some(indices) => {
                if indices.len() > 0 {
                    self.ticks_without_gpu = 0;
                    return Tick::Sample(indices);
                }
                if self.ticks_without_gpu < NO_GPU_EXIT_THRESHOLD {
                    self.ticks_without_gpu = self.ticks_without_gpu + 1;
                }
                if self.ticks_without_gpu >= NO_GPU_EXIT_THRESHOLD {
                    Tick::Stop
                } else {
                    Tick::Wait
                }
            },
        }
    }
}

/// The devices found.
pub open spec fn found_view(found: Option<Vec<u32>>) -> Option<Seq<u32>> {
    match found {
        Some(v) => Some(v@),
        None => None,
    }
}

/// The devices on which a process runs, as indices in order.
pub open spec fn devices_with(devices: Seq<Vec<u32>>, pid: u32) -> Seq<u32>
    decreases devices.len(),
{
    if devices.len() == 0 {
        Seq::empty()
    } else {
        let before = devices_with(devices.drop_last(), pid);
        if devices.last()@.contains(pid) {
            before.push((devices.len() - 1) as u32)
        } else {
            before
        }
    }
}

/// Whether a process is in a list.
pub fn runs_here(pids: &Vec<u32>, pid: u32) -> (r: bool)
    ensures
        r == pids@.contains(pid),
{
    let mut i: usize = 0;
    while i < pids.len()
        invariant
            i <= pids@.len(),
            forall|k: int| 0 <= k < i ==> pids@[k] != pid,
        decreases pids.len() - i,
    {
        if pids[i] == pid {
            return true;
        }
        i = i + 1;
    }
    false
}

/// The device indices that have `pid` among their compute processes; `devices`
/// holds the processes of each device, or what went wrong in asking for them.
pub fn discover_gpu_indices(devices: &Result<Vec<Vec<u32>>, String>, pid: u32) -> (r: Result<
    Vec<u32>,
    CalibrateError,
>)
    requires
        devices is Ok ==> devices->Ok_0@.len() <= u32::MAX,
    ensures
        match devices {
            Ok(d) => r matches Ok(v) && v@ == devices_with(d@, pid),
            Err(e) => r matches Err(CalibrateError::NvmlQuery(m)) && m@ == e@,
        },
{
    match devices {
        Ok(d) => {
            let mut v: Vec<u32> = Vec::new();
            let mut i: usize = 0;
            while i < d.len()
                invariant
                    i <= d@.len() <= u32::MAX,
                    v@ == devices_with(d@.take(i as int), pid),
                decreases d.len() - i,
            {
                assert(d@.take(i + 1).drop_last() =~= d@.take(i as int));
                if runs_here(&d[i], pid) {
                    v.push(i as u32);
                }
                i = i + 1;
            }
            assert(d@.take(i as int) =~= d@);
            Ok(v)
        },
        Err(e) => Err(CalibrateError::NvmlQuery(e.clone())),
    }
}

/// What is read of one device.
#[derive(Clone, Copy, Debug, PartialEq, Eq, Structural)]
pub struct DeviceReading {
    pub gpu_utilization: F32,
    pub memory_utilization: F32,
    pub sm_clock: u32,
    pub sm_clock_max: u32,
    pub memory_used_bytes: u64,
    pub memory_total_bytes: u64,
    pub temperature: F32,
    pub power_draw: F32,
    pub power_limit: F32,
    pub thermal_slowdown: bool,
    pub power_cap: bool,
    pub hardware_slowdown: bool,
}

/// The number of bytes of a mebibyte.
pub const MIB_BYTES: u64 = 1_048_576;

/// The sample that a reading makes.
pub open spec fn device_sample(
    d: DeviceReading,
    gpu_index: u32,
    timestamp_ms: u64,
    cpu_pct: Percent,
) -> RawSample {
    RawSample {
        timestamp_ms,
        gpu_index,
        sm_utilization: Percent(d.gpu_utilization.within(F32::of(0), F32::of(HUNDRED))),
        sm_clock_mhz: Mhz(d.sm_clock),
        sm_clock_max_mhz: Mhz(d.sm_clock_max),
        vram_used_mib: Mib((d.memory_used_bytes / MIB_BYTES) as u64),
        vram_total_mib: Mib((d.memory_total_bytes / MIB_BYTES) as u64),
        mem_utilization: Percent(d.memory_utilization.within(F32::of(0), F32::of(HUNDRED))),
        temperature: Celsius(d.temperature),
        power_draw: Watts(d.power_draw),
        power_limit: Watts(d.power_limit),
        throttle_thermal: d.thermal_slowdown,
        throttle_power: d.power_cap,
        throttle_hw_slowdown: d.hardware_slowdown,
        cpu_utilization: cpu_pct,
    }
}

/// The sample that a reading makes: percentages clamped, memory in whole
/// mebibytes, and the CPU utilization of the companion collector.
pub fn sample_device(
    d: &DeviceReading,
    gpu_index: u32,
    timestamp_ms: u64,
    cpu_pct: Percent,
) -> (r: RawSample)
    ensures
        r == device_sample(*d, gpu_index, timestamp_ms, cpu_pct),
{
    RawSample {
        timestamp_ms,
        gpu_index,
        sm_utilization: Percent::clamped(d.gpu_utilization),
        sm_clock_mhz: Mhz(d.sm_clock),
        sm_clock_max_mhz: Mhz(d.sm_clock_max),
        vram_used_mib: Mib(d.memory_used_bytes / MIB_BYTES),
        vram_total_mib: Mib(d.memory_total_bytes / MIB_BYTES),
        mem_utilization: Percent::clamped(d.memory_utilization),
        temperature: Celsius(d.temperature),
        power_draw: Watts(d.power_draw),
        power_limit: Watts(d.power_limit),
        throttle_thermal: d.thermal_slowdown,
        throttle_power: d.power_cap,
        throttle_hw_slowdown: d.hardware_slowdown,
        cpu_utilization: cpu_pct,
    }
}

/// On a tick a collector samples the devices found, waits where discovery failed, and
/// without a device stops on the fifth tick and waits before it.
pub proof fn law_ticks(before: nat, found: Option<Vec<u32>>, r: Tick)
    requires
        is_tick(before, found, r),
        before <= 5,
    ensures
        found is None ==> r is Wait && idle_ticks(before, found_view(found)) == before,
        found is Some && found->0@.len() > 0 ==> r == Tick::Sample(found->0) && idle_ticks(
            before,
            found_view(found),
        ) == 0,
        found is Some && found->0@.len() == 0 && before < 4 ==> r is Wait && idle_ticks(
            before,
            found_view(found),
        ) == before + 1,
        found is Some && found->0@.len() == 0 && before >= 4 ==> r is Stop && idle_ticks(
            before,
            found_view(found),
        ) == 5,
{
}

/// The devices of a process are those, and only those, that list it, in rising order.
pub proof fn law_devices_list_the_process(devices: Seq<Vec<u32>>, pid: u32)
    requires
        devices.len() <= u32::MAX,
    ensures
        forall|i: u32|
            #![trigger devices_with(devices, pid).contains(i)]
            devices_with(devices, pid).contains(i) <==> i < devices.len()
                && devices[i as int]@.contains(pid),
        forall|j: int, k: int|
            0 <= j < k < devices_with(devices, pid).len() ==> (#[trigger] devices_with(
                devices,
                pid,
            )[j]) < (#[trigger] devices_with(devices, pid)[k]),
    decreases devices.len(),
{
    if devices.len() > 0 {
        let h = devices.drop_last();
        law_devices_list_the_process(h, pid);
        let before = devices_with(h, pid);
        let all = devices_with(devices, pid);
        let n = (devices.len() - 1) as u32;
        assert forall|k: int| 0 <= k < before.len() implies (#[trigger] before[k]) < n by {
            assert(before.contains(before[k]));
        }
        assert forall|i: u32| #![trigger all.contains(i)]
            all.contains(i) <==> i < devices.len() && devices[i as int]@.contains(pid) by {
            if all.contains(i) {
                let k = choose|k: int| 0 <= k < all.len() && all[k] == i;
                if k < before.len() {
                    assert(before[k] == i);
                    assert(before.contains(i));
                    assert(h[i as int] == devices[i as int]);
                }
            }
            if i < devices.len() && devices[i as int]@.contains(pid) {
                if i < n {
                    assert(h[i as int] == devices[i as int]);
                    assert(before.contains(i));
                    let k = choose|k: int| 0 <= k < before.len() && before[k] == i;
                    assert(all[k] == i);
                } else {
                    assert(all[all.len() - 1] == n);
                }
            }
        }
    }
}

/// A sample holds what was read: utilizations brought between 0 and 100 percent, memory in
/// whole mebibytes of 1,048,576 bytes, and the rest as it is.
pub proof fn law_samples_hold_what_was_read(
    d: DeviceReading,
    gpu_index: u32,
    timestamp_ms: u64,
    cpu_pct: Percent,
)
    ensures
        ({
            let r = device_sample(d, gpu_index, timestamp_ms, cpu_pct);
            &&& r.timestamp_ms == timestamp_ms
            &&& r.gpu_index == gpu_index
            &&& r.cpu_utilization == cpu_pct
            &&& r.sm_clock_mhz.0 == d.sm_clock
            &&& r.sm_clock_max_mhz.0 == d.sm_clock_max
            &&& r.temperature.0 == d.temperature
            &&& r.power_draw.0 == d.power_draw
            &&& r.power_limit.0 == d.power_limit
            &&& r.throttle_thermal == d.thermal_slowdown
            &&& r.throttle_power == d.power_cap
            &&& r.throttle_hw_slowdown == d.hardware_slowdown
            &&& r.vram_used_mib.0 * 1_048_576 <= d.memory_used_bytes < (r.vram_used_mib.0 + 1)
                * 1_048_576
            &&& r.vram_total_mib.0 * 1_048_576 <= d.memory_total_bytes < (r.vram_total_mib.0 + 1)
                * 1_048_576
            &&& F32::of(0).at_most(d.gpu_utilization) && d.gpu_utilization.at_most(
                F32::of(0x42c8_0000),
            ) ==> r.sm_utilization.0 == d.gpu_utilization
            &&& F32::of(0x42c8_0000).below(d.gpu_utilization) ==> r.sm_utilization.0 == F32::of(
                0x42c8_0000,
            )
            &&& d.gpu_utilization.below(F32::of(0)) ==> r.sm_utilization.0 == F32::of(0)
            &&& F32::of(0).at_most(d.memory_utilization) && d.memory_utilization.at_most(
                F32::of(0x42c8_0000),
            ) ==> r.mem_utilization.0 == d.memory_utilization
            &&& F32::of(0x42c8_0000).below(d.memory_utilization) ==> r.mem_utilization.0
                == F32::of(0x42c8_0000)
            &&& d.memory_utilization.below(F32::of(0)) ==> r.mem_utilization.0 == F32::of(0)
        }),
{
}

} // verus!
