//! The benchmark of one runtime across batch sizes.
//!
//! The harness is a state machine: it says what to do next ([`BenchRun::action`]),
//! and is told what came of it ([`BenchRun::advance`]). Every rule of the benchmark
//! is in the transitions; loading models, running them and reading clocks and
//! memory is the caller's part.
use vstd::prelude::*;

use crate::bench;
use crate::bench::budget;
use crate::bench::memory;
use crate::bench::memory::{MemorySnapshot, PeakMemoryTracker};
use crate::bench::stats;
use crate::bench::stats::{BenchStats, Spread, StatAccumulator};
use crate::bench::{BenchResult, SkippedRuntime};
use crate::float::F64;
use crate::text;

verus! {

broadcast use vstd::string::group_string_axioms;

/// Configuration for a single benchmark run.
#[derive(Clone, Copy, Debug, PartialEq, Eq, Structural)]
pub struct HarnessConfig {
    /// Warm-up iterations whose timings are discarded.
    pub warmup: u32,
    /// Timed measurement iterations.
    pub iterations: u32,
    /// Duration of the sustained throughput measurement window.
    pub throughput_window_ns: u128,
    /// NVML device index for VRAM measurement. `None` on CPU-only machines.
    pub gpu_device_index: Option<u32>,
    /// Maximum allowed wall-clock time for one (runtime, batch_size) pair
    /// before the harness reduces the iteration count automatically.
    pub max_total_ns: u128,
}

/// The configuration of a harness that nothing was asked of.
pub open spec fn default_config() -> HarnessConfig {
    HarnessConfig {
        warmup: 20,
        iterations: 100,
        throughput_window_ns: 5_000_000_000,
        gpu_device_index: None,
        max_total_ns: 600_000_000_000,
    }
}

impl Default for HarnessConfig {
    fn default() -> (r: Self)
        ensures
            r == default_config(),
            r.warmup == 20,
            r.iterations == 100,
            r.throughput_window_ns == 5 * 1_000_000_000,
            r.gpu_device_index is None,
            r.max_total_ns == 10 * 60 * 1_000_000_000,
    {
        HarnessConfig {
            warmup: 20,
            iterations: 100,
            throughput_window_ns: 5_000_000_000,
            gpu_device_index: None,
            max_total_ns: 600_000_000_000,  // 10 minutes
        }
    }
}

/// What an error says: in full for diagnosis, and in short for the report.
#[derive(Debug)]
pub struct ErrorText {
    pub debug: String,
    pub display: String,
}

/// What an [`ErrorText`] says.
pub ghost struct ErrorView {
    pub debug: Seq<char>,
    pub display: Seq<char>,
}

impl View for ErrorText {
    type V = ErrorView;

    open spec fn view(&self) -> ErrorView {
        ErrorView { debug: self.debug@, display: self.display@ }
    }
}

/// What an error says, where there is one.
pub open spec fn error_view(e: Option<ErrorText>) -> Option<ErrorView> {
    match e {
        Some(e) => Some(e@),
        None => None,
    }
}

/// Whether a message tells of an out-of-memory condition.
pub open spec fn tells_oom(message: Seq<char>) -> bool {
    let lower = text::lowercase(message);
    ||| text::occurs(lower, "out of memory"@)
    ||| text::occurs(lower, "cuda error"@)
    ||| text::occurs(lower, "oom"@)
    ||| text::occurs(lower, "cudaerrormemoryal"@)
}

/// Whether the full text of an error suggests an out-of-memory condition.
pub fn is_oom_error(message: &str) -> (r: bool)
    ensures
        r == tells_oom(message@),
{
    let lower = text::lower(message);
    let m = lower.as_str();
    text::contains(m, "out of memory") || text::contains(m, "cuda error") || text::contains(
        m,
        "oom",
    ) || text::contains(m, "cudaerrormemoryal")
}

/// What a runtime that measures internally has collected.
#[derive(Debug)]
pub struct Collected {
    pub samples_us: Vec<u64>,
    pub throughput_rps: F64,
    pub load_ms: u64,
}

/// What a [`Collected`] holds.
pub ghost struct CollectedView {
    pub samples_us: Seq<u64>,
    pub throughput_rps: F64,
    pub load_ms: u64,
}

impl View for Collected {
    type V = CollectedView;

    open spec fn view(&self) -> CollectedView {
        CollectedView {
            samples_us: self.samples_us@,
            throughput_rps: self.throughput_rps,
            load_ms: self.load_ms,
        }
    }
}

/// What was collected, where anything was.
pub open spec fn collected_view(c: Option<Collected>) -> Option<CollectedView> {
    match c {
        Some(c) => Some(c@),
        None => None,
    }
}

/// What the caller is to do next.
#[derive(Clone, Copy, Debug, PartialEq, Eq, Structural)]
pub enum Action {
    /// Read the memory in use; answer with [`Event::Memory`].
    ReadMemory,
    /// Load the model; answer with [`Event::Loaded`].
    Load,
    /// Run one inference and ask for collected samples; answer with
    /// [`Event::FirstInferred`].
    FirstInfer,
    /// Time one inference; answer with [`Event::Timed`], whether it failed or not.
    TimeOne,
    /// Run and time one measured inference; answer with [`Event::Inferred`].
    Infer,
    /// Measure sustained throughput; answer with [`Event::Throughput`].
    MeasureThroughput,
    /// Compute the spread of the samples; answer with [`Event::Spread`].
    ComputeSpread,
    /// Unload the model; answer with [`Event::Done`].
    Unload,
    /// Unload the model and wait for the GPU to idle; answer with [`Event::Done`].
    UnloadAndCoolDown,
    /// Nothing: the benchmark is over.
    Finish,
}

/// What came of an action.
#[derive(Debug)]
pub enum Event {
    Memory { reading: MemorySnapshot },
    Loaded { error: Option<ErrorText>, elapsed_ms: u64 },
    FirstInferred { error: Option<ErrorText>, collected: Option<Collected> },
    Timed { elapsed_ns: u64 },
    Inferred { error: Option<ErrorText>, elapsed_us: u64 },
    Throughput { rps: F64 },
    Spread { spread: Spread },
    Done,
}

/// What an [`Event`] says.
pub ghost enum EventView {
    Memory { reading: MemorySnapshot },
    Loaded { error: Option<ErrorView>, elapsed_ms: u64 },
    FirstInferred { error: Option<ErrorView>, collected: Option<CollectedView> },
    Timed { elapsed_ns: u64 },
    Inferred { error: Option<ErrorView>, elapsed_us: u64 },
    Throughput { rps: F64 },
    Spread { spread: Spread },
    Done,
}

impl View for Event {
    type V = EventView;

    open spec fn view(&self) -> EventView {
        match *self {
            Event::Memory { reading } => EventView::Memory { reading },
            Event::Loaded { error, elapsed_ms } => EventView::Loaded {
                error: error_view(error),
                elapsed_ms,
            },
            Event::FirstInferred { error, collected } => EventView::FirstInferred {
                error: error_view(error),
                collected: collected_view(collected),
            },
            Event::Timed { elapsed_ns } => EventView::Timed { elapsed_ns },
            Event::Inferred { error, elapsed_us } => EventView::Inferred {
                error: error_view(error),
                elapsed_us,
            },
            Event::Throughput { rps } => EventView::Throughput { rps },
            Event::Spread { spread } => EventView::Spread { spread },
            Event::Done => EventView::Done,
        }
    }
}

/// A batch size under way, with what was seen before and while loading.
#[derive(Clone, Copy, Debug, PartialEq, Eq, Structural)]
pub struct Batch {
    pub size: u32,
    pub baseline: MemorySnapshot,
    pub load_ms: u64,
}

/// A measurement under way.
pub struct Measuring {
    pub batch: Batch,
    /// How many iterations the time budget allows.
    pub effective: u32,
    /// Where the warm-up settled.
    pub stable_at: u32,
    /// How many iterations are done.
    pub done: u32,
    pub samples: StatAccumulator,
    pub peak: PeakMemoryTracker,
}

/// What a [`Measuring`] holds.
pub ghost struct MeasuringView {
    pub batch: Batch,
    pub effective: u32,
    pub stable_at: u32,
    pub done: u32,
    pub samples: Seq<u64>,
    pub peak: MemorySnapshot,
}

impl View for Measuring {
    type V = MeasuringView;

    open spec fn view(&self) -> MeasuringView {
        MeasuringView {
            batch: self.batch,
            effective: self.effective,
            stable_at: self.stable_at,
            done: self.done,
            samples: self.samples@,
            peak: self.peak.peak,
        }
    }
}

impl Measuring {
    /// Whether no more samples were taken than iterations done.
    pub open spec fn well_formed(&self) -> bool {
        &&& self.samples.well_formed()
        &&& self.samples@.len() <= self.done
    }
}

/// Where a benchmark stands.
pub enum Phase {
    /// No batch size is left.
    Finished,
    /// The memory before loading is being read.
    Baseline { size: u32 },
    /// The model is being loaded.
    Loading { size: u32, baseline: MemorySnapshot },
    /// The first inference is being run.
    FirstInfer { batch: Batch },
    /// The model is being unloaded after a failure.
    Unloading,
    /// The spread of samples that the runtime collected is being computed.
    CollectedSpread { batch: Batch, samples: StatAccumulator, rps: F64, load_ms: u64 },
    /// The memory after a run of such a runtime is being read.
    CollectedMemory { batch: Batch, stats: BenchStats, load_ms: u64 },
    /// One iteration is being timed for the budget.
    Pilot { batch: Batch },
    /// Warm-up iterations are being run; the last timings are kept.
    WarmingUp { batch: Batch, effective: u32, index: u32, window: Vec<u64> },
    /// Memory is being read before an iteration.
    Watching { m: Measuring },
    /// An iteration is being run.
    Inferring { m: Measuring },
    /// Sustained throughput is being measured.
    Sustaining { m: Measuring },
    /// The spread of the samples is being computed.
    Spreading { m: Measuring, rps: F64, oom: bool },
    /// The model is being unloaded after a measurement.
    Cooling { result: BenchResult },
}

/// What a [`Phase`] holds.
pub ghost enum PhaseView {
    Finished,
    Baseline { size: u32 },
    Loading { size: u32, baseline: MemorySnapshot },
    FirstInfer { batch: Batch },
    Unloading,
    CollectedSpread { batch: Batch, samples: Seq<u64>, rps: F64, load_ms: u64 },
    CollectedMemory { batch: Batch, stats: BenchStats, load_ms: u64 },
    Pilot { batch: Batch },
    WarmingUp { batch: Batch, effective: u32, index: u32, window: Seq<u64> },
    Watching { m: MeasuringView },
    Inferring { m: MeasuringView },
    Sustaining { m: MeasuringView },
    Spreading { m: MeasuringView, rps: F64, oom: bool },
    Cooling { result: bench::ResultView },
}

impl View for Phase {
    type V = PhaseView;

    open spec fn view(&self) -> PhaseView {
        match *self {
            Phase::Finished => PhaseView::Finished,
            Phase::Baseline { size } => PhaseView::Baseline { size },
            Phase::Loading { size, baseline } => PhaseView::Loading { size, baseline },
            Phase::FirstInfer { batch } => PhaseView::FirstInfer { batch },
            Phase::Unloading => PhaseView::Unloading,
            Phase::CollectedSpread { batch, samples, rps, load_ms } => PhaseView::CollectedSpread {
                batch,
                samples: samples@,
                rps,
                load_ms,
            },
            Phase::CollectedMemory { batch, stats, load_ms } => PhaseView::CollectedMemory {
                batch,
                stats,
                load_ms,
            },
            Phase::Pilot { batch } => PhaseView::Pilot { batch },
            Phase::WarmingUp { batch, effective, index, window } => PhaseView::WarmingUp {
                batch,
                effective,
                index,
                window: window@,
            },
            Phase::Watching { m } => PhaseView::Watching { m: m@ },
            Phase::Inferring { m } => PhaseView::Inferring { m: m@ },
            Phase::Sustaining { m } => PhaseView::Sustaining { m: m@ },
            Phase::Spreading { m, rps, oom } => PhaseView::Spreading { m: m@, rps, oom },
            Phase::Cooling { result } => PhaseView::Cooling { result: result@ },
        }
    }
}

impl Phase {
    /// Whether what the phase holds is consistent.
    pub open spec fn well_formed(&self, config: HarnessConfig) -> bool {
        match *self {
            Phase::CollectedSpread { batch, samples, rps, load_ms } => samples.well_formed()
                && samples@.len() <= u64::MAX,
            Phase::WarmingUp { batch, effective, index, window } => index < config.warmup
                && window@.len() < 6,
            Phase::Watching { m } => m.well_formed() && m.done < m.effective,
            Phase::Inferring { m } => m.well_formed() && m.done < m.effective,
            Phase::Sustaining { m } => m.well_formed(),
            Phase::Spreading { m, rps, oom } => m.well_formed(),
            _ => true,
        }
    }
}

/// What a phase waits for.
pub open spec fn awaited(phase: PhaseView) -> Action {
    match phase {
        PhaseView::Finished => Action::Finish,
        PhaseView::Baseline { .. } => Action::ReadMemory,
        PhaseView::Loading { .. } => Action::Load,
        PhaseView::FirstInfer { .. } => Action::FirstInfer,
        PhaseView::Unloading => Action::Unload,
        PhaseView::CollectedSpread { .. } => Action::ComputeSpread,
        PhaseView::CollectedMemory { .. } => Action::ReadMemory,
        PhaseView::Pilot { .. } => Action::TimeOne,
        PhaseView::WarmingUp { .. } => Action::TimeOne,
        PhaseView::Watching { .. } => Action::ReadMemory,
        PhaseView::Inferring { .. } => Action::Infer,
        PhaseView::Sustaining { .. } => Action::MeasureThroughput,
        PhaseView::Spreading { .. } => Action::ComputeSpread,
        PhaseView::Cooling { .. } => Action::UnloadAndCoolDown,
    }
}

/// The benchmark of one runtime over a list of batch sizes.
pub struct BenchRun {
    pub name: String,
    pub config: HarnessConfig,
    /// The batch sizes to benchmark, in order.
    pub batches: Vec<u32>,
    /// The batch sizes that there is an input for.
    pub inputs: Vec<u32>,
    /// How many of the batch sizes have been begun or passed over.
    pub position: usize,
    pub phase: Phase,
    pub results: Vec<BenchResult>,
    pub skipped: Vec<SkippedRuntime>,
    /// What is to be told the user.
    pub notes: Vec<String>,
}

/// What a [`BenchRun`] holds.
pub ghost struct RunView {
    pub name: Seq<char>,
    pub config: HarnessConfig,
    pub batches: Seq<u32>,
    pub inputs: Seq<u32>,
    pub position: int,
    pub phase: PhaseView,
    pub results: Seq<bench::ResultView>,
    pub skipped: Seq<bench::SkipView>,
    pub notes: Seq<Seq<char>>,
}

impl View for BenchRun {
    type V = RunView;

    open spec fn view(&self) -> RunView {
        RunView {
            name: self.name@,
            config: self.config,
            batches: self.batches@,
            inputs: self.inputs@,
            position: self.position as int,
            phase: self.phase@,
            results: bench::results_view(self.results@),
            skipped: bench::skips_view(self.skipped@),
            notes: text::texts(self.notes@),
        }
    }
}

/// The first index from `from` on whose batch size has an input; the length where
/// there is none.
pub open spec fn next_with_input(batches: Seq<u32>, inputs: Seq<u32>, from: int) -> int
    decreases batches.len() - from,
{
    if from < 0 || from >= batches.len() {
        batches.len() as int
    } else if inputs.contains(batches[from]) {
        from
    } else {
        next_with_input(batches, inputs, from + 1)
    }
}

/// The run as it begins the next batch size that has an input, or ends.
pub open spec fn begin_next(v: RunView) -> RunView {
    let i = next_with_input(v.batches, v.inputs, v.position);
    if i < v.batches.len() {
        RunView {
            position: i + 1,
            phase: PhaseView::Baseline { size: v.batches[i] },
            ..v
        }
    } else {
        RunView { position: i, phase: PhaseView::Finished, ..v }
    }
}

/// Whether another request starts in a throughput window, when `elapsed_ns` of it have
/// passed.
pub open spec fn window_is_open(elapsed_ns: int, window_ns: int) -> bool {
    elapsed_ns < window_ns
}

/// Whether another request starts in a throughput window, when `elapsed_ns` of it have
/// passed.
pub fn throughput_goes_on(elapsed_ns: u128, window_ns: u128) -> (r: bool)
    ensures
        r == window_is_open(elapsed_ns as int, window_ns as int),
{
    elapsed_ns < window_ns
}

/// The result of a batch size that ran out of memory before it was measured.
pub open spec fn oom_result(name: Seq<char>, size: u32, load_ms: u64) -> bench::ResultView {
    bench::ResultView {
        runtime: name,
        batch_size: size,
        stats: stats::stats_of(Seq::empty(), F64::of(0), stats::no_spread()),
        peak_memory_bytes: 0,
        memory_delta_bytes: 0,
        load_time_ms: load_ms,
        warmup_stable_at: 0,
        flagged_unreliable: false,
        oom: true,
    }
}

/// The entry for a batch size that failed.
pub open spec fn failure(name: Seq<char>, size: u32, what: Seq<char>, why: Seq<char>) ->
    bench::SkipView {
    bench::SkipView {
        name: name + " (batch="@ + text::decimal(size as nat) + ")"@,
        reason: what + why,
    }
}

/// The bits of 0.20 in double precision.
pub const UNRELIABLE_CV: u64 = 0x3fc9_9999_9999_999a;

/// The reading that counts on a machine: VRAM where a GPU is watched, else the
/// resident set.
pub open spec fn relevant(config: HarnessConfig, vram: u64, rss: u64) -> u64 {
    if config.gpu_device_index is Some {
        vram
    } else {
        rss
    }
}

/// The result of a measured batch size.
pub open spec fn measured_result(
    v: RunView,
    batch: Batch,
    st: BenchStats,
    memory: MemorySnapshot,
    load_ms: u64,
    stable_at: u32,
    oom: bool,
) -> bench::ResultView {
    let delta = memory.above(batch.baseline);
    bench::ResultView {
        runtime: v.name,
        batch_size: batch.size,
        stats: st,
        peak_memory_bytes: relevant(v.config, memory.vram_used_bytes, memory.rss_bytes),
        memory_delta_bytes: relevant(v.config, delta.vram_delta_bytes, delta.rss_delta_bytes),
        load_time_ms: load_ms,
        warmup_stable_at: stable_at,
        flagged_unreliable: F64::of(UNRELIABLE_CV).below(st.cv),
        oom,
    }
}

/// A measurement before its next iteration: memory is read before every tenth,
/// and throughput follows the last.
pub open spec fn before_iteration(m: MeasuringView) -> PhaseView {
    if m.done >= m.effective {
        PhaseView::Sustaining { m }
    } else if m.done % 10 == 0 {
        PhaseView::Watching { m }
    } else {
        PhaseView::Inferring { m }
    }
}

/// A measurement as it begins.
pub open spec fn begin_measuring(batch: Batch, effective: u32, stable_at: u32) -> PhaseView {
    before_iteration(
        MeasuringView {
            batch,
            effective,
            stable_at,
            done: 0,
            samples: Seq::empty(),
            peak: memory::nothing_used(),
        },
    )
}

/// The last five timings, with one more.
pub open spec fn slide(window: Seq<u64>, timing: u64) -> Seq<u64> {
    if window.len() >= 5 {
        window.push(timing).drop_first()
    } else {
        window.push(timing)
    }
}

/// Loading came to an end.
pub open spec fn after_load(
    v: RunView,
    size: u32,
    baseline: MemorySnapshot,
    error: Option<ErrorView>,
    elapsed_ms: u64,
) -> RunView {
    match error {
        Some(e) => if tells_oom(e.debug) {
            // Recorded, so that it appears in the table.
            RunView {
                phase: PhaseView::Unloading,
                results: v.results.push(oom_result(v.name, size, elapsed_ms)),
                ..v
            }
        } else {
            begin_next(
                RunView {
                    skipped: v.skipped.push(failure(v.name, size, "load failed: "@, e.display)),
                    ..v
                },
            )
        },
        None => RunView {
            phase: PhaseView::FirstInfer { batch: Batch { size, baseline, load_ms: elapsed_ms } },
            ..v
        },
    }
}

/// The first inference failed.
pub open spec fn after_first_failure(
    v: RunView,
    batch: Batch,
    e: ErrorView,
    what: Seq<char>,
) -> RunView {
    if tells_oom(e.debug) {
        RunView {
            phase: PhaseView::Unloading,
            results: v.results.push(oom_result(v.name, batch.size, batch.load_ms)),
            ..v
        }
    } else {
        RunView {
            phase: PhaseView::Unloading,
            skipped: v.skipped.push(failure(v.name, batch.size, what, e.display)),
            ..v
        }
    }
}

/// The first inference came to an end. A runtime that collected samples has
/// measured internally; any other is now measured.
pub open spec fn after_first_infer(
    v: RunView,
    batch: Batch,
    error: Option<ErrorView>,
    collected: Option<CollectedView>,
) -> RunView {
    match (error, collected) {
        (Some(e), Some(_)) => after_first_failure(v, batch, e, "subprocess error: "@),
        (Some(e), None) => after_first_failure(v, batch, e, "first infer error: "@),
        (None, Some(c)) => RunView {
            phase: PhaseView::CollectedSpread {
                batch,
                samples: c.samples_us.map_values(|us: u64| stats::counted(us)),
                rps: c.throughput_rps,
                load_ms: if c.load_ms > 0 {
                    c.load_ms
                } else {
                    batch.load_ms
                },
            },
            ..v
        },
        (None, None) => RunView { phase: PhaseView::Pilot { batch }, ..v },
    }
}

/// The pilot iteration was timed: the budget is set, and warm-up begins.
pub open spec fn after_pilot(v: RunView, batch: Batch, elapsed_ns: u64) -> RunView {
    let c = v.config;
    let effective = budget::allowed(
        c.iterations,
        c.warmup,
        elapsed_ns as nat,
        c.max_total_ns as nat,
    );
    let notes = match budget::budget_note(
        c.iterations,
        c.warmup,
        elapsed_ns as nat,
        c.max_total_ns as nat,
    ) {
        Some(n) => v.notes.push(n),
        None => v.notes,
    };
    let phase = if c.warmup == 0 {
        begin_measuring(batch, effective, 0)
    } else {
        PhaseView::WarmingUp { batch, effective, index: 0, window: Seq::empty() }
    };
    RunView { phase, notes, ..v }
}

/// A warm-up iteration was timed: measurement begins once five timings are steady,
/// or the warm-up is used up.
pub open spec fn after_warmup(
    v: RunView,
    batch: Batch,
    effective: u32,
    index: u32,
    window: Seq<u64>,
    elapsed_ns: u64,
) -> RunView {
    let w = slide(window, elapsed_ns);
    let phase = if budget::is_steady(w) {
        begin_measuring(batch, effective, index)
    } else if index + 1 >= v.config.warmup {
        begin_measuring(batch, effective, v.config.warmup)
    } else {
        PhaseView::WarmingUp { batch, effective, index: (index + 1) as u32, window: w }
    };
    RunView { phase, ..v }
}

/// A measured iteration came to an end. Out of memory ends the batch without a
/// throughput window; any other error ends the iterations.
pub open spec fn after_iteration(
    v: RunView,
    m: MeasuringView,
    error: Option<ErrorView>,
    elapsed_us: u64,
) -> RunView {
    let phase = match error {
        None => before_iteration(
            MeasuringView {
                done: (m.done + 1) as u32,
                samples: m.samples.push(stats::counted(elapsed_us)),
                ..m
            },
        ),
        Some(e) => if tells_oom(e.debug) {
            PhaseView::Spreading { m, rps: F64::of(0), oom: true }
        } else {
            PhaseView::Sustaining { m }
        },
    };
    RunView { phase, ..v }
}

/// The run after an event. An event that the phase does not wait for changes
/// nothing.
pub open spec fn step(v: RunView, e: EventView) -> RunView {
    match (v.phase, e) {
        (PhaseView::Baseline { size }, EventView::Memory { reading }) => RunView {
            phase: PhaseView::Loading { size, baseline: reading },
            ..v
        },
        (PhaseView::Loading { size, baseline }, EventView::Loaded { error, elapsed_ms }) =>
            after_load(v, size, baseline, error, elapsed_ms),
        (PhaseView::FirstInfer { batch }, EventView::FirstInferred { error, collected }) =>
            after_first_infer(v, batch, error, collected),
        (PhaseView::Unloading, EventView::Done) => begin_next(v),
        (
            PhaseView::CollectedSpread { batch, samples, rps, load_ms },
            EventView::Spread { spread },
        ) => RunView {
            phase: PhaseView::CollectedMemory {
                batch,
                stats: stats::stats_of(samples, rps, spread),
                load_ms,
            },
            ..v
        },
        (
            PhaseView::CollectedMemory { batch, stats, load_ms },
            EventView::Memory { reading },
        ) => RunView {
            phase: PhaseView::Cooling {
                result: measured_result(v, batch, stats, reading, load_ms, 0, false),
            },
            ..v
        },
        (PhaseView::Pilot { batch }, EventView::Timed { elapsed_ns }) => after_pilot(
            v,
            batch,
            elapsed_ns,
        ),
        (
            PhaseView::WarmingUp { batch, effective, index, window },
            EventView::Timed { elapsed_ns },
        ) => after_warmup(v, batch, effective, index, window, elapsed_ns),
        (PhaseView::Watching { m }, EventView::Memory { reading }) => RunView {
            phase: PhaseView::Inferring {
                m: MeasuringView { peak: m.peak.highest(reading), ..m },
            },
            ..v
        },
        (PhaseView::Inferring { m }, EventView::Inferred { error, elapsed_us }) => after_iteration(
            v,
            m,
            error,
            elapsed_us,
        ),
        (PhaseView::Sustaining { m }, EventView::Throughput { rps }) => RunView {
            phase: PhaseView::Spreading { m, rps, oom: false },
            ..v
        },
        (PhaseView::Spreading { m, rps, oom }, EventView::Spread { spread }) => RunView {
            phase: PhaseView::Cooling {
                result: measured_result(
                    v,
                    m.batch,
                    stats::stats_of(m.samples, rps, spread),
                    m.peak,
                    m.batch.load_ms,
                    m.stable_at,
                    oom,
                ),
            },
            ..v
        },
        (PhaseView::Cooling { result }, EventView::Done) => begin_next(
            RunView { results: v.results.push(result), ..v },
        ),
        _ => v,
    }
}

/// A run before its first event.
pub open spec fn initial(
    name: Seq<char>,
    config: HarnessConfig,
    batches: Seq<u32>,
    inputs: Seq<u32>,
) -> RunView {
    begin_next(
        RunView {
            name,
            config,
            batches,
            inputs,
            position: 0,
            phase: PhaseView::Finished,
            results: Seq::empty(),
            skipped: Seq::empty(),
            notes: Seq::empty(),
        },
    )
}

/// Whether a list of batch sizes holds one.
fn has_input(inputs: &Vec<u32>, size: u32) -> (r: bool)
    ensures
        r == inputs@.contains(size),
{
    let mut i: usize = 0;
    while i < inputs.len()
        invariant
            i <= inputs@.len(),
            forall|k: int| 0 <= k < i ==> inputs@[k] != size,
        decreases inputs.len() - i,
    {
        if inputs[i] == size {
            return true;
        }
        i = i + 1;
    }
    false
}

/// The result of a batch size that ran out of memory.
fn make_oom_result(name: &String, size: u32, load_ms: u64) -> (r: BenchResult)
    ensures
        r@ == oom_result(name@, size, load_ms),
{
    let st = StatAccumulator::new().finalize(
        F64::of(0),
        Spread { stddev_ms: F64::of(0), cv: F64::of(0) },
    );
    BenchResult {
        runtime: name.clone(),
        batch_size: size,
        stats: st,
        peak_memory_bytes: 0,
        memory_delta_bytes: 0,
        load_time_ms: load_ms,
        warmup_stable_at: 0,
        flagged_unreliable: false,
        oom: true,
    }
}

/// The entry for a batch size that failed.
fn make_failure(name: &String, size: u32, what: &str, why: &String) -> (r: SkippedRuntime)
    ensures
        r@ == failure(name@, size, what@, why@),
{
    let mut n = name.clone();
    n.append(" (batch=");
    n.append(text::decimal_text(size as u64).as_str());
    n.append(")");
    let mut reason = what.to_owned();
    reason.append(why.as_str());
    SkippedRuntime { name: n, reason }
}

/// A measurement before its next iteration.
fn next_iteration(m: Measuring) -> (r: Phase)
    requires
        m.well_formed(),
    ensures
        r@ == before_iteration(m@),
        forall|c: HarnessConfig| r.well_formed(c),
{
    if m.done >= m.effective {
        Phase::Sustaining { m }
    } else if m.done % 10 == 0 {
        Phase::Watching { m }
    } else {
        Phase::Inferring { m }
    }
}

/// A measurement as it begins.
fn start_measuring(batch: Batch, effective: u32, stable_at: u32) -> (r: Phase)
    ensures
        r@ == begin_measuring(batch, effective, stable_at),
        forall|c: HarnessConfig| r.well_formed(c),
{
    next_iteration(
        Measuring {
            batch,
            effective,
            stable_at,
            done: 0,
            samples: StatAccumulator::new(),
            peak: PeakMemoryTracker::new(),
        },
    )
}

/// The samples that a runtime collected.
fn accumulate(samples_us: &Vec<u64>) -> (r: StatAccumulator)
    ensures
        r.well_formed(),
        r@ == samples_us@.map_values(|us: u64| stats::counted(us)),
        r@.len() <= u64::MAX,
{
    let mut acc = StatAccumulator::new();
    let mut i: usize = 0;
    while i < samples_us.len()
        invariant
            i <= samples_us@.len(),
            acc.well_formed(),
            acc@ == samples_us@.take(i as int).map_values(|us: u64| stats::counted(us)),
        decreases samples_us.len() - i,
    {
        acc.record_micros(samples_us[i]);
        assert(acc@ =~= samples_us@.take(i + 1).map_values(|us: u64| stats::counted(us)));
        i = i + 1;
    }
    assert(samples_us@.take(i as int) =~= samples_us@);
    acc
}

impl BenchRun {
    /// Whether the run is consistent.
    pub open spec fn well_formed(&self) -> bool {
        &&& self.config.warmup + self.config.iterations <= u32::MAX
        &&& self.config.max_total_ns <= budget::LONGEST_NS
        &&& self.position <= self.batches@.len()
        &&& self.phase.well_formed(self.config)
    }

    /// The benchmark of a runtime; a batch size without an input is passed over.
    pub fn new(name: String, config: HarnessConfig, batches: Vec<u32>, inputs: Vec<u32>) -> (r: Self)
        requires
            config.warmup + config.iterations <= u32::MAX,
            config.max_total_ns <= budget::LONGEST_NS,
        ensures
            r@ == initial(name@, config, batches@, inputs@),
            r.well_formed(),
    {
        let run = BenchRun {
            name,
            config,
            batches,
            inputs,
            position: 0,
            phase: Phase::Finished,
            results: Vec::new(),
            skipped: Vec::new(),
            notes: Vec::new(),
        };
        assert(run@.results =~= Seq::empty());
        assert(run@.skipped =~= Seq::empty());
        assert(run@.notes =~= Seq::empty());
        run.next()
    }

    /// What is to be done next.
    pub fn action(&self) -> (r: Action)
        ensures
            r == awaited(self.phase@),
    {
        match &self.phase {
            Phase::Finished => Action::Finish,
            Phase::Baseline { .. } => Action::ReadMemory,
            Phase::Loading { .. } => Action::Load,
            Phase::FirstInfer { .. } => Action::FirstInfer,
            Phase::Unloading => Action::Unload,
            Phase::CollectedSpread { .. } => Action::ComputeSpread,
            Phase::CollectedMemory { .. } => Action::ReadMemory,
            Phase::Pilot { .. } => Action::TimeOne,
            Phase::WarmingUp { .. } => Action::TimeOne,
            Phase::Watching { .. } => Action::ReadMemory,
            Phase::Inferring { .. } => Action::Infer,
            Phase::Sustaining { .. } => Action::MeasureThroughput,
            Phase::Spreading { .. } => Action::ComputeSpread,
            Phase::Cooling { .. } => Action::UnloadAndCoolDown,
        }
    }

    /// The batch size under way, where there is one.
    pub open spec fn current_size(phase: PhaseView) -> Option<u32> {
        match phase {
            PhaseView::Baseline { size } => Some(size),
            PhaseView::Loading { size, .. } => Some(size),
            PhaseView::FirstInfer { batch } => Some(batch.size),
            PhaseView::CollectedSpread { batch, .. } => Some(batch.size),
            PhaseView::CollectedMemory { batch, .. } => Some(batch.size),
            PhaseView::Pilot { batch } => Some(batch.size),
            PhaseView::WarmingUp { batch, .. } => Some(batch.size),
            PhaseView::Watching { m } => Some(m.batch.size),
            PhaseView::Inferring { m } => Some(m.batch.size),
            PhaseView::Sustaining { m } => Some(m.batch.size),
            PhaseView::Spreading { m, .. } => Some(m.batch.size),
            PhaseView::Cooling { result } => Some(result.batch_size),
            PhaseView::Finished => None,
            PhaseView::Unloading => None,
        }
    }

    /// The batch size under way, where there is one.
    pub fn batch_size(&self) -> (r: Option<u32>)
        ensures
            r == Self::current_size(self.phase@),
    {
        match &self.phase {
            Phase::Baseline { size } => Some(*size),
            Phase::Loading { size, .. } => Some(*size),
            Phase::FirstInfer { batch } => Some(batch.size),
            Phase::CollectedSpread { batch, .. } => Some(batch.size),
            Phase::CollectedMemory { batch, .. } => Some(batch.size),
            Phase::Pilot { batch } => Some(batch.size),
            Phase::WarmingUp { batch, .. } => Some(batch.size),
            Phase::Watching { m } => Some(m.batch.size),
            Phase::Inferring { m } => Some(m.batch.size),
            Phase::Sustaining { m } => Some(m.batch.size),
            Phase::Spreading { m, .. } => Some(m.batch.size),
            Phase::Cooling { result } => Some(result.batch_size),
            Phase::Finished => None,
            Phase::Unloading => None,
        }
    }

    /// The samples whose spread is to be computed.
    pub fn samples(&self) -> (r: Option<&Vec<u64>>)
        ensures
            match (r, self.phase@) {
                (Some(s), PhaseView::CollectedSpread { samples, .. }) => s@ == samples,
                (Some(s), PhaseView::Spreading { m, .. }) => s@ == m.samples,
                (Some(_), _) => false,
                (None, p) => awaited(p) != Action::ComputeSpread,
            },
    {
        match &self.phase {
            Phase::CollectedSpread { samples, .. } => Some(samples.samples()),
            Phase::Spreading { m, .. } => Some(m.samples.samples()),
            _ => None,
        }
    }

    /// Begins the next batch size that has an input, or ends the run.
    fn next(self) -> (r: Self)
        requires
            self.config.warmup + self.config.iterations <= u32::MAX,
            self.config.max_total_ns <= budget::LONGEST_NS,
            self.position <= self.batches@.len(),
        ensures
            r@ == begin_next(self@),
            r.well_formed(),
    {
        let mut run = self;
        let mut i: usize = run.position;
        while i < run.batches.len() && !has_input(&run.inputs, run.batches[i])
            invariant
                run == self,
                run.position <= i <= run.batches@.len(),
                next_with_input(run.batches@, run.inputs@, run.position as int) == next_with_input(
                    run.batches@,
                    run.inputs@,
                    i as int,
                ),
            decreases run.batches.len() - i,
        {
            i = i + 1;
        }
        if i < run.batches.len() {
            run.phase = Phase::Baseline { size: run.batches[i] };
            run.position = i + 1;
        } else {
            run.phase = Phase::Finished;
            run.position = i;
        }
        run
    }

    /// The result of a measured batch size.
    fn result(
        &self,
        batch: Batch,
        st: BenchStats,
        memory: MemorySnapshot,
        load_ms: u64,
        stable_at: u32,
        oom: bool,
    ) -> (r: BenchResult)
        ensures
            r@ == measured_result(self@, batch, st, memory, load_ms, stable_at, oom),
    {
        let delta = memory.delta_from(&batch.baseline);
        let watched = self.config.gpu_device_index.is_some();
        BenchResult {
            runtime: self.name.clone(),
            batch_size: batch.size,
            stats: st,
            peak_memory_bytes: if watched {
                memory.vram_used_bytes
            } else {
                memory.rss_bytes
            },
            memory_delta_bytes: if watched {
                delta.vram_delta_bytes
            } else {
                delta.rss_delta_bytes
            },
            load_time_ms: load_ms,
            warmup_stable_at: stable_at,
            flagged_unreliable: st.cv.gt(F64::of(UNRELIABLE_CV)),
            oom,
        }
    }

    /// Loading came to an end.
    fn loaded(
        self,
        size: u32,
        baseline: MemorySnapshot,
        error: Option<ErrorText>,
        elapsed_ms: u64,
    ) -> (r: Self)
        requires
            self.config.warmup + self.config.iterations <= u32::MAX,
            self.config.max_total_ns <= budget::LONGEST_NS,
            self.position <= self.batches@.len(),
        ensures
            r@ == after_load(self@, size, baseline, error_view(error), elapsed_ms),
            r.well_formed(),
    {
        broadcast use bench::group_bench_views;

        let mut run = self;
        match error {
            Some(e) => {
                if is_oom_error(e.debug.as_str()) {
                    let result = make_oom_result(&run.name, size, elapsed_ms);
                    run.results.push(result);
                    run.phase = Phase::Unloading;
                    run
                } else {
                    let entry = make_failure(&run.name, size, "load failed: ", &e.display);
                    run.skipped.push(entry);
                    run.next()
                }
            },
            None => {
                run.phase = Phase::FirstInfer {
                    batch: Batch { size, baseline, load_ms: elapsed_ms },
                };
                run
            },
        }
    }

    /// The first inference failed.
    fn first_failed(self, batch: Batch, e: ErrorText, what: &str) -> (r: Self)
        requires
            self.config.warmup + self.config.iterations <= u32::MAX,
            self.config.max_total_ns <= budget::LONGEST_NS,
            self.position <= self.batches@.len(),
        ensures
            r@ == after_first_failure(self@, batch, e@, what@),
            r.well_formed(),
    {
        broadcast use bench::group_bench_views;

        let mut run = self;
        if is_oom_error(e.debug.as_str()) {
            let result = make_oom_result(&run.name, batch.size, batch.load_ms);
            run.results.push(result);
        } else {
            let entry = make_failure(&run.name, batch.size, what, &e.display);
            run.skipped.push(entry);
        }
        run.phase = Phase::Unloading;
        run
    }

    /// The first inference came to an end.
    fn first_inferred(
        self,
        batch: Batch,
        error: Option<ErrorText>,
        collected: Option<Collected>,
    ) -> (r: Self)
        requires
            self.config.warmup + self.config.iterations <= u32::MAX,
            self.config.max_total_ns <= budget::LONGEST_NS,
            self.position <= self.batches@.len(),
        ensures
            r@ == after_first_infer(self@, batch, error_view(error), collected_view(collected)),
            r.well_formed(),
    {
        let mut run = self;
        match error {
            Some(e) => match collected {
                Some(_) => run.first_failed(batch, e, "subprocess error: "),
                None => run.first_failed(batch, e, "first infer error: "),
            },
            None => match collected {
                Some(c) => {
                    let load_ms: u64 = if c.load_ms > 0 {
                        c.load_ms
                    } else {
                        batch.load_ms
                    };
                    let samples = accumulate(&c.samples_us);
                    run.phase = Phase::CollectedSpread {
                        batch,
                        samples,
                        rps: c.throughput_rps,
                        load_ms,
                    };
                    run
                },
                None => {
                    run.phase = Phase::Pilot { batch };
                    run
                },
            },
        }
    }

    /// The pilot iteration was timed.
    fn piloted(self, batch: Batch, elapsed_ns: u64) -> (r: Self)
        requires
            self.config.warmup + self.config.iterations <= u32::MAX,
            self.config.max_total_ns <= budget::LONGEST_NS,
            self.position <= self.batches@.len(),
        ensures
            r@ == after_pilot(self@, batch, elapsed_ns),
            r.well_formed(),
    {
        broadcast use text::group_texts;

        let mut run = self;
        let b = budget::budget_guard(
            run.config.iterations,
            run.config.warmup,
            elapsed_ns as u128,
            run.config.max_total_ns,
        );
        let effective: u32 = b.iterations;
        match b.note {
            Some(n) => run.notes.push(n),
            None => {},
        }
        if run.config.warmup == 0 {
            run.phase = start_measuring(batch, effective, 0);
        } else {
            run.phase = Phase::WarmingUp { batch, effective, index: 0, window: Vec::new() };
            assert(run.phase@ == PhaseView::WarmingUp {
                batch,
                effective,
                index: 0,
                window: Seq::empty(),
            });
        }
        run
    }

    /// A warm-up iteration was timed.
    fn warmed_up(
        self,
        batch: Batch,
        effective: u32,
        index: u32,
        window: Vec<u64>,
        elapsed_ns: u64,
    ) -> (r: Self)
        requires
            self.config.warmup + self.config.iterations <= u32::MAX,
            self.config.max_total_ns <= budget::LONGEST_NS,
            self.position <= self.batches@.len(),
            index < self.config.warmup,
            window@.len() < 6,
        ensures
            r@ == after_warmup(self@, batch, effective, index, window@, elapsed_ns),
            r.well_formed(),
    {
        let mut run = self;
        let mut w = window;
        w.push(elapsed_ns);
        if w.len() > 5 {
            let _ = w.remove(0);
        }
        assert(w@ =~= slide(window@, elapsed_ns));
        if budget::steady(&w) {
            run.phase = start_measuring(batch, effective, index);
        } else if index + 1 >= run.config.warmup {
            run.phase = start_measuring(batch, effective, run.config.warmup);
        } else {
            run.phase = Phase::WarmingUp { batch, effective, index: index + 1, window: w };
        }
        run
    }

    /// A measured iteration came to an end.
    fn iterated(self, m: Measuring, error: Option<ErrorText>, elapsed_us: u64) -> (r: Self)
        requires
            self.config.warmup + self.config.iterations <= u32::MAX,
            self.config.max_total_ns <= budget::LONGEST_NS,
            self.position <= self.batches@.len(),
            m.well_formed(),
            m.done < m.effective,
        ensures
            r@ == after_iteration(self@, m@, error_view(error), elapsed_us),
            r.well_formed(),
    {
        let mut run = self;
        let mut m = m;
        match error {
            None => {
                m.samples.record_micros(elapsed_us);
                m.done = m.done + 1;
                run.phase = next_iteration(m);
            },
            Some(e) => {
                if is_oom_error(e.debug.as_str()) {
                    run.phase = Phase::Spreading { m, rps: F64::of(0), oom: true };
                } else {
                    run.phase = Phase::Sustaining { m };
                }
            },
        }
        run
    }

    /// Takes in what came of the awaited action.
    pub fn advance(self, event: Event) -> (r: Self)
        requires
            self.well_formed(),
        ensures
            r@ == step(self@, event@),
            r.well_formed(),
    {
        broadcast use bench::group_bench_views;

        let mut run = self;
        let mut phase = Phase::Finished;
        std::mem::swap(&mut phase, &mut run.phase);
        match phase {
            Phase::Baseline { size } => match event {
                Event::Memory { reading } => {
                    run.phase = Phase::Loading { size, baseline: reading };
                    run
                },
                _ => {
                    run.phase = Phase::Baseline { size };
                    run
                },
            },
            Phase::Loading { size, baseline } => match event {
                Event::Loaded { error, elapsed_ms } => run.loaded(size, baseline, error, elapsed_ms),
                _ => {
                    run.phase = Phase::Loading { size, baseline };
                    run
                },
            },
            Phase::FirstInfer { batch } => match event {
                Event::FirstInferred { error, collected } => run.first_inferred(
                    batch,
                    error,
                    collected,
                ),
                _ => {
                    run.phase = Phase::FirstInfer { batch };
                    run
                },
            },
            Phase::Unloading => match event {
                Event::Done => run.next(),
                _ => {
                    run.phase = Phase::Unloading;
                    run
                },
            },
            Phase::CollectedSpread { batch, samples, rps, load_ms } => match event {
                Event::Spread { spread } => {
                    run.phase = Phase::CollectedMemory {
                        batch,
                        stats: samples.finalize(rps, spread),
                        load_ms,
                    };
                    run
                },
                _ => {
                    run.phase = Phase::CollectedSpread { batch, samples, rps, load_ms };
                    run
                },
            },
            Phase::CollectedMemory { batch, stats, load_ms } => match event {
                Event::Memory { reading } => {
                    let result = run.result(batch, stats, reading, load_ms, 0, false);
                    run.phase = Phase::Cooling { result };
                    run
                },
                _ => {
                    run.phase = Phase::CollectedMemory { batch, stats, load_ms };
                    run
                },
            },
            Phase::Pilot { batch } => match event {
                Event::Timed { elapsed_ns } => run.piloted(batch, elapsed_ns),
                _ => {
                    run.phase = Phase::Pilot { batch };
                    run
                },
            },
            Phase::WarmingUp { batch, effective, index, window } => match event {
                Event::Timed { elapsed_ns } => run.warmed_up(
                    batch,
                    effective,
                    index,
                    window,
                    elapsed_ns,
                ),
                _ => {
                    run.phase = Phase::WarmingUp { batch, effective, index, window };
                    run
                },
            },
            Phase::Watching { m } => match event {
                Event::Memory { reading } => {
                    let mut m = m;
                    m.peak.update(reading);
                    run.phase = Phase::Inferring { m };
                    run
                },
                _ => {
                    run.phase = Phase::Watching { m };
                    run
                },
            },
            Phase::Inferring { m } => match event {
                Event::Inferred { error, elapsed_us } => run.iterated(m, error, elapsed_us),
                _ => {
                    run.phase = Phase::Inferring { m };
                    run
                },
            },
            Phase::Sustaining { m } => match event {
                Event::Throughput { rps } => {
                    run.phase = Phase::Spreading { m, rps, oom: false };
                    run
                },
                _ => {
                    run.phase = Phase::Sustaining { m };
                    run
                },
            },
            Phase::Spreading { m, rps, oom } => match event {
                Event::Spread { spread } => {
                    let st = m.samples.finalize(rps, spread);
                    let result = run.result(
                        m.batch,
                        st,
                        m.peak.peak(),
                        m.batch.load_ms,
                        m.stable_at,
                        oom,
                    );
                    run.phase = Phase::Cooling { result };
                    run
                },
                _ => {
                    run.phase = Phase::Spreading { m, rps, oom };
                    run
                },
            },
            Phase::Cooling { result } => match event {
                Event::Done => {
                    run.results.push(result);
                    run.next()
                },
                _ => {
                    run.phase = Phase::Cooling { result };
                    run
                },
            },
            Phase::Finished => {
                run.phase = Phase::Finished;
                run
            },
        }
    }
}

/// Those of the first `n` batch sizes that have an input, in order.
pub open spec fn with_input(batches: Seq<u32>, inputs: Seq<u32>, n: int) -> Seq<u32>
    decreases n,
{
    if n <= 0 {
        Seq::empty()
    } else {
        let before = with_input(batches, inputs, n - 1);
        if inputs.contains(batches[n - 1]) {
            before.push(batches[n - 1])
        } else {
            before
        }
    }
}

/// Whether a result is that of a batch size of a runtime.
pub open spec fn result_names(r: bench::ResultView, name: Seq<char>, size: u32) -> bool {
    r.runtime == name && r.batch_size == size
}

/// Whether a skipped entry is that of a batch size of a runtime.
pub open spec fn skip_names(s: bench::SkipView, name: Seq<char>, size: u32) -> bool {
    s.name == failure(name, size, Seq::empty(), Seq::empty()).name
}

/// Whether each batch size has exactly one entry that names it, a result or a skipped
/// one, and both kinds of entries are in the order of the batch sizes.
pub open spec fn covers(
    name: Seq<char>,
    sizes: Seq<u32>,
    results: Seq<bench::ResultView>,
    skipped: Seq<bench::SkipView>,
) -> bool
    decreases sizes.len(),
{
    if sizes.len() == 0 {
        results.len() == 0 && skipped.len() == 0
    } else {
        ||| results.len() > 0 && result_names(results.last(), name, sizes.last()) && covers(
            name,
            sizes.drop_last(),
            results.drop_last(),
            skipped,
        )
        ||| skipped.len() > 0 && skip_names(skipped.last(), name, sizes.last()) && covers(
            name,
            sizes.drop_last(),
            results,
            skipped.drop_last(),
        )
    }
}

/// Where each batch size has one entry, there are as many entries as batch sizes, and
/// each result is that of one of them.
pub proof fn law_entries_are_counted(
    name: Seq<char>,
    sizes: Seq<u32>,
    results: Seq<bench::ResultView>,
    skipped: Seq<bench::SkipView>,
)
    requires
        covers(name, sizes, results, skipped),
    ensures
        results.len() + skipped.len() == sizes.len(),
        forall|i: int|
            0 <= i < results.len() ==> sizes.contains((#[trigger] results[i]).batch_size)
                && results[i].runtime == name,
    decreases sizes.len(),
{
    if sizes.len() > 0 {
        let before = sizes.drop_last();
        assert forall|x: u32| before.contains(x) implies sizes.contains(x) by {
            let i = choose|i: int| 0 <= i < before.len() && before[i] == x;
            assert(sizes[i] == x);
        }
        assert(sizes[sizes.len() - 1] == sizes.last());
        if results.len() > 0 && result_names(results.last(), name, sizes.last()) && covers(
            name,
            before,
            results.drop_last(),
            skipped,
        ) {
            law_entries_are_counted(name, before, results.drop_last(), skipped);
            assert forall|i: int| 0 <= i < results.len() implies sizes.contains(
                (#[trigger] results[i]).batch_size,
            ) && results[i].runtime == name by {
                if i < results.len() - 1 {
                    assert(results.drop_last()[i] == results[i]);
                }
            }
        } else {
            law_entries_are_counted(name, before, results, skipped.drop_last());
        }
    }
}

/// Whether every batch size with an input that was begun has one entry that names it,
/// but for the last one where it is under way.
pub open spec fn accounted(v: RunView) -> bool {
    let begun = with_input(v.batches, v.inputs, v.position);
    &&& 0 <= v.position <= v.batches.len()
    &&& match BenchRun::current_size(v.phase) {
        Some(size) => begun.len() > 0 && begun.last() == size && covers(
            v.name,
            begun.drop_last(),
            v.results,
            v.skipped,
        ),
        None => covers(v.name, begun, v.results, v.skipped),
    }
    &&& v.phase matches PhaseView::Cooling { result } ==> result.runtime == v.name
    &&& v.phase is Finished ==> v.position == v.batches.len()
}

proof fn lemma_next_with_input(batches: Seq<u32>, inputs: Seq<u32>, from: int)
    requires
        0 <= from <= batches.len(),
    ensures
        from <= next_with_input(batches, inputs, from) <= batches.len(),
        with_input(batches, inputs, next_with_input(batches, inputs, from)) == with_input(
            batches,
            inputs,
            from,
        ),
        next_with_input(batches, inputs, from) < batches.len() ==> inputs.contains(
            batches[next_with_input(batches, inputs, from)],
        ),
    decreases batches.len() - from,
{
    if from < batches.len() && !inputs.contains(batches[from]) {
        lemma_next_with_input(batches, inputs, from + 1);
    }
}

proof fn lemma_begin_next_accounts(v: RunView)
    requires
        0 <= v.position <= v.batches.len(),
        covers(v.name, with_input(v.batches, v.inputs, v.position), v.results, v.skipped),
    ensures
        accounted(begin_next(v)),
{
    lemma_next_with_input(v.batches, v.inputs, v.position);
    let i = next_with_input(v.batches, v.inputs, v.position);
    let begun = with_input(v.batches, v.inputs, v.position);
    if i < v.batches.len() {
        assert(begun.push(v.batches[i]).drop_last() =~= begun);
    }
}

/// A result for the last batch size covers it.
proof fn lemma_result_covers(
    name: Seq<char>,
    sizes: Seq<u32>,
    results: Seq<bench::ResultView>,
    skipped: Seq<bench::SkipView>,
    r: bench::ResultView,
)
    requires
        sizes.len() > 0,
        covers(name, sizes.drop_last(), results, skipped),
        result_names(r, name, sizes.last()),
    ensures
        covers(name, sizes, results.push(r), skipped),
{
    assert(results.push(r).drop_last() =~= results);
}

/// A skipped entry for the last batch size covers it.
proof fn lemma_skip_covers(
    name: Seq<char>,
    sizes: Seq<u32>,
    results: Seq<bench::ResultView>,
    skipped: Seq<bench::SkipView>,
    s: bench::SkipView,
)
    requires
        sizes.len() > 0,
        covers(name, sizes.drop_last(), results, skipped),
        skip_names(s, name, sizes.last()),
    ensures
        covers(name, sizes, results, skipped.push(s)),
{
    assert(skipped.push(s).drop_last() =~= skipped);
}

/// Every run accounts for each batch size with an input, from its first event to
/// its last: none is dropped in silence, and none has two entries.
pub proof fn law_batches_are_accounted(v: RunView, e: EventView)
    requires
        accounted(v),
    ensures
        accounted(step(v, e)),
{
    let begun = with_input(v.batches, v.inputs, v.position);
    let after = step(v, e);
    match (v.phase, e) {
        (PhaseView::Loading { size, baseline }, EventView::Loaded { error, elapsed_ms }) => {
            if error is Some {
                if tells_oom(error->0.debug) {
                    let r = oom_result(v.name, size, elapsed_ms);
                    lemma_result_covers(v.name, begun, v.results, v.skipped, r);
                } else {
                    let s = failure(v.name, size, "load failed: "@, error->0.display);
                    lemma_skip_covers(v.name, begun, v.results, v.skipped, s);
                    lemma_begin_next_accounts(RunView { skipped: v.skipped.push(s), ..v });
                }
            }
        },
        (PhaseView::FirstInfer { batch }, EventView::FirstInferred { error, collected }) => {
            if error is Some {
                if tells_oom(error->0.debug) {
                    let r = oom_result(v.name, batch.size, batch.load_ms);
                    lemma_result_covers(v.name, begun, v.results, v.skipped, r);
                } else {
                    lemma_skip_covers(
                        v.name,
                        begun,
                        v.results,
                        v.skipped,
                        after.skipped.last(),
                    );
                }
            }
        },
        (PhaseView::Unloading, EventView::Done) => {
            lemma_begin_next_accounts(v);
        },
        (PhaseView::Cooling { result }, EventView::Done) => {
            lemma_result_covers(v.name, begun, v.results, v.skipped, result);
            lemma_begin_next_accounts(RunView { results: v.results.push(result), ..v });
        },
        _ => {},
    }
}

/// A new run accounts for every batch size, having begun none. Once it is finished,
/// each batch size with an input, in order, has exactly one entry that names it, a
/// result or a skipped one.
pub proof fn law_runs_begin_and_end_accounted(
    name: Seq<char>,
    config: HarnessConfig,
    batches: Seq<u32>,
    inputs: Seq<u32>,
    v: RunView,
)
    ensures
        accounted(initial(name, config, batches, inputs)),
        accounted(v) && v.phase is Finished ==> covers(
            v.name,
            with_input(v.batches, v.inputs, v.batches.len() as int),
            v.results,
            v.skipped,
        ),
{
    lemma_begin_next_accounts(
        RunView {
            name,
            config,
            batches,
            inputs,
            position: 0,
            phase: PhaseView::Finished,
            results: Seq::empty(),
            skipped: Seq::empty(),
            notes: Seq::empty(),
        },
    );
}

/// The run after a sequence of events.
pub open spec fn after_events(v: RunView, es: Seq<EventView>) -> RunView
    decreases es.len(),
{
    if es.len() == 0 {
        v
    } else {
        step(after_events(v, es.drop_last()), es.last())
    }
}

proof fn lemma_events_account(
    name: Seq<char>,
    config: HarnessConfig,
    batches: Seq<u32>,
    inputs: Seq<u32>,
    es: Seq<EventView>,
)
    ensures
        ({
            let v = after_events(initial(name, config, batches, inputs), es);
            v.name == name && v.batches == batches && v.inputs == inputs && accounted(v)
        }),
    decreases es.len(),
{
    let start = initial(name, config, batches, inputs);
    law_runs_begin_and_end_accounted(name, config, batches, inputs, start);
    if es.len() > 0 {
        lemma_events_account(name, config, batches, inputs, es.drop_last());
        law_batches_are_accounted(after_events(start, es.drop_last()), es.last());
    }
}

/// Whatever happened, a run that is finished has exactly one entry for each batch size
/// with an input, in order.
pub proof fn law_finished_runs_cover_every_batch(
    name: Seq<char>,
    config: HarnessConfig,
    batches: Seq<u32>,
    inputs: Seq<u32>,
    es: Seq<EventView>,
)
    requires
        after_events(initial(name, config, batches, inputs), es).phase is Finished,
    ensures
        ({
            let v = after_events(initial(name, config, batches, inputs), es);
            covers(name, with_input(batches, inputs, batches.len() as int), v.results, v.skipped)
        }),
{
    lemma_events_account(name, config, batches, inputs, es);
}

/// What holds of every result: it is flagged exactly when its spread is above
/// 0.20, it has no throughput where memory ran out, and the warm-up settled within
/// its iterations.
pub open spec fn is_sound_result(config: HarnessConfig, r: bench::ResultView) -> bool {
    &&& r.flagged_unreliable == F64::of(UNRELIABLE_CV).below(r.stats.cv)
    &&& r.oom ==> r.stats.throughput_rps == F64::of(0)
    &&& r.warmup_stable_at <= config.warmup
}

/// Whether a measurement has run no more than the iterations it was allowed, and
/// taken no more samples.
pub open spec fn is_sound_measurement(config: HarnessConfig, m: MeasuringView) -> bool {
    m.samples.len() <= m.done <= m.effective && m.stable_at <= config.warmup
}

/// Whether every result so far is sound, and the phase leads to a sound one.
pub open spec fn is_sound(v: RunView) -> bool {
    &&& forall|i: int|
        0 <= i < v.results.len() ==> is_sound_result(v.config, #[trigger] v.results[i])
    &&& match v.phase {
        PhaseView::WarmingUp { index, .. } => index < v.config.warmup,
        PhaseView::Watching { m } => is_sound_measurement(v.config, m) && m.done < m.effective,
        PhaseView::Inferring { m } => is_sound_measurement(v.config, m) && m.done < m.effective,
        PhaseView::Sustaining { m } => is_sound_measurement(v.config, m),
        PhaseView::Spreading { m, rps, oom } => is_sound_measurement(v.config, m) && (oom ==> rps
            == F64::of(0)),
        PhaseView::Cooling { result } => is_sound_result(v.config, result),
        _ => true,
    }
}

/// Soundness of results lasts through every event.
pub proof fn law_results_stay_sound(v: RunView, e: EventView)
    requires
        is_sound(v),
    ensures
        is_sound(step(v, e)),
{
}

/// A new run is sound.
pub proof fn law_new_runs_are_sound(
    name: Seq<char>,
    config: HarnessConfig,
    batches: Seq<u32>,
    inputs: Seq<u32>,
)
    ensures
        is_sound(initial(name, config, batches, inputs)),
{
}

/// Whether an event answers an action.
pub open spec fn answers(a: Action, e: EventView) -> bool {
    match a {
        Action::ReadMemory => e is Memory,
        Action::Load => e is Loaded,
        Action::FirstInfer => e is FirstInferred,
        Action::TimeOne => e is Timed,
        Action::Infer => e is Inferred,
        Action::MeasureThroughput => e is Throughput,
        Action::ComputeSpread => e is Spread,
        Action::Unload => e is Done,
        Action::UnloadAndCoolDown => e is Done,
        Action::Finish => false,
    }
}

/// How far a phase is from the end of its batch size, in events, at most.
pub open spec fn distance(config: HarnessConfig, phase: PhaseView) -> int {
    match phase {
        PhaseView::Finished => 0,
        PhaseView::Unloading => 1,
        PhaseView::Cooling { .. } => 1,
        PhaseView::CollectedMemory { .. } => 2,
        PhaseView::CollectedSpread { .. } => 3,
        PhaseView::Spreading { .. } => 2,
        PhaseView::Sustaining { .. } => 3,
        PhaseView::Inferring { m } => 2 + 2 * (m.effective - m.done),
        PhaseView::Watching { m } => 3 + 2 * (m.effective - m.done),
        PhaseView::WarmingUp { index, .. } => 0x2_0000_0010 + (config.warmup - index),
        PhaseView::Pilot { .. } => 0x3_0000_0010,
        PhaseView::FirstInfer { .. } => 0x3_0000_0011,
        PhaseView::Loading { .. } => 0x3_0000_0012,
        PhaseView::Baseline { .. } => 0x3_0000_0013,
    }
}

/// How far a run is from its end, in events, at most.
pub open spec fn remaining(v: RunView) -> int {
    (v.batches.len() - v.position) * 0x3_0000_0020 + distance(v.config, v.phase)
}

/// Every answer to an awaited action brings a run closer to its end, so that a
/// benchmark ends whatever the runtime does.
pub proof fn law_runs_end(v: RunView, e: EventView)
    requires
        is_sound(v),
        accounted(v),
        answers(awaited(v.phase), e),
    ensures
        0 <= remaining(step(v, e)) < remaining(v),
{
    lemma_next_with_input(v.batches, v.inputs, v.position);
    law_batches_are_accounted(v, e);
    law_results_stay_sound(v, e);
}

/// An error is one of memory exactly when its text, in lower case, holds one of the four
/// signs of it.
pub proof fn law_signs_of_exhausted_memory(message: Seq<char>)
    ensures
        text::occurs(text::lowercase(message), "out of memory"@) ==> tells_oom(message),
        text::occurs(text::lowercase(message), "cuda error"@) ==> tells_oom(message),
        text::occurs(text::lowercase(message), "oom"@) ==> tells_oom(message),
        text::occurs(text::lowercase(message), "cudaerrormemoryal"@) ==> tells_oom(message),
        tells_oom(message) ==> text::occurs(text::lowercase(message), "out of memory"@)
            || text::occurs(text::lowercase(message), "cuda error"@) || text::occurs(
            text::lowercase(message),
            "oom"@,
        ) || text::occurs(text::lowercase(message), "cudaerrormemoryal"@),
{
}

/// The measurement that a phase is in, where it is in one.
pub open spec fn measurement(phase: PhaseView) -> Option<MeasuringView> {
    match phase {
        PhaseView::Watching { m } => Some(m),
        PhaseView::Inferring { m } => Some(m),
        PhaseView::Sustaining { m } => Some(m),
        PhaseView::Spreading { m, .. } => Some(m),
        _ => None,
    }
}

/// A measured inference that succeeds adds its latency as a sample, and nothing else
/// does. Memory is read before every tenth iteration, and throughput follows the last.
pub proof fn law_iterations_are_recorded(
    v: RunView,
    m: MeasuringView,
    error: Option<ErrorView>,
    elapsed_us: u64,
)
    requires
        v.phase == (PhaseView::Inferring { m }),
        m.done < m.effective,
    ensures
        ({
            let w = step(v, EventView::Inferred { error, elapsed_us });
            &&& measurement(w.phase) matches Some(n) && n.batch == m.batch && n.effective
                == m.effective && n.stable_at == m.stable_at && n.peak == m.peak && (error is None
                ==> n.done == m.done + 1 && n.samples.len() == m.samples.len() + 1
                && n.samples.drop_last() == m.samples && (elapsed_us > 0 ==> n.samples.last()
                == elapsed_us)) && (error is Some ==> n.samples == m.samples)
            &&& error is None && m.done + 1 == m.effective ==> awaited(w.phase)
                == Action::MeasureThroughput
            &&& error is None && m.done + 1 < m.effective && (m.done + 1) % 10 == 0 ==> awaited(
                w.phase,
            ) == Action::ReadMemory
            &&& error is None && m.done + 1 < m.effective && (m.done + 1) % 10 != 0 ==> awaited(
                w.phase,
            ) == Action::Infer
            &&& w.results == v.results
            &&& w.skipped == v.skipped
        }),
{
    assert(m.samples.push(stats::counted(elapsed_us)).drop_last() =~= m.samples);
}

/// Running out of memory while measuring skips the throughput, which is then zero; any
/// other error goes on to it.
pub proof fn law_errors_end_the_iterations(
    v: RunView,
    m: MeasuringView,
    error: ErrorView,
    elapsed_us: u64,
)
    requires
        v.phase == (PhaseView::Inferring { m }),
    ensures
        ({
            let w = step(v, EventView::Inferred { error: Some(error), elapsed_us });
            &&& tells_oom(error.debug) ==> w.phase == (PhaseView::Spreading {
                m,
                rps: F64::of(0),
                oom: true,
            })
            &&& !tells_oom(error.debug) ==> awaited(w.phase) == Action::MeasureThroughput
        }),
{
}

/// A memory reading before an iteration raises the peak to what it shows, and no
/// further; then the iteration is run.
pub proof fn law_watching_raises_the_peak(v: RunView, m: MeasuringView, reading: MemorySnapshot)
    requires
        v.phase == (PhaseView::Watching { m }),
    ensures
        ({
            let w = step(v, EventView::Memory { reading });
            &&& awaited(w.phase) == Action::Infer
            &&& measurement(w.phase) matches Some(n) && n.samples == m.samples && n.done == m.done
                && n.peak.vram_used_bytes >= m.peak.vram_used_bytes && n.peak.vram_used_bytes
                >= reading.vram_used_bytes && (n.peak.vram_used_bytes == m.peak.vram_used_bytes
                || n.peak.vram_used_bytes == reading.vram_used_bytes) && n.peak.rss_bytes
                >= m.peak.rss_bytes && n.peak.rss_bytes >= reading.rss_bytes && (n.peak.rss_bytes
                == m.peak.rss_bytes || n.peak.rss_bytes == reading.rss_bytes)
        }),
{
}

/// What was measured becomes the result once the model is unloaded: the statistics of
/// its samples with the measured throughput, under the size and the load time of its
/// batch. It is flagged when the variation is above 0.20.
pub proof fn law_measurements_become_results(
    v: RunView,
    m: MeasuringView,
    rps: F64,
    oom: bool,
    spread: Spread,
)
    requires
        v.phase == (PhaseView::Spreading { m, rps, oom }),
        m.samples.len() > 1,
    ensures
        ({
            let cooling = step(v, EventView::Spread { spread });
            let w = step(cooling, EventView::Done);
            &&& awaited(cooling.phase) == Action::UnloadAndCoolDown
            &&& w.skipped == v.skipped
            &&& w.results.len() == v.results.len() + 1
            &&& w.results.drop_last() == v.results
            &&& w.results.last().runtime == v.name
            &&& w.results.last().batch_size == m.batch.size
            &&& w.results.last().stats.throughput_rps == rps
            &&& w.results.last().stats.cv == spread.cv
            &&& w.results.last().stats.stddev_ms == spread.stddev_ms
            &&& w.results.last().stats == stats::stats_of(m.samples, rps, spread)
            &&& w.results.last().load_time_ms == m.batch.load_ms
            &&& w.results.last().warmup_stable_at == m.stable_at
            &&& w.results.last().oom == oom
            &&& w.results.last().flagged_unreliable <==> F64::of(0x3fc9_9999_9999_999a).below(
                spread.cv,
            )
        }),
{
    let cooling = step(v, EventView::Spread { spread });
    let w = step(cooling, EventView::Done);
    assert(w.results.drop_last() =~= v.results);
}

/// The memory of a result is that of the GPU where one is watched, else that of the
/// process; its growth leads from the reading before loading to the peak.
pub proof fn law_results_show_the_relevant_memory(
    v: RunView,
    batch: Batch,
    st: BenchStats,
    memory: MemorySnapshot,
    load_ms: u64,
    stable_at: u32,
    oom: bool,
)
    requires
        batch.baseline.vram_used_bytes <= memory.vram_used_bytes,
        batch.baseline.rss_bytes <= memory.rss_bytes,
    ensures
        ({
            let r = measured_result(v, batch, st, memory, load_ms, stable_at, oom);
            &&& v.config.gpu_device_index is Some ==> r.peak_memory_bytes == memory.vram_used_bytes
                && batch.baseline.vram_used_bytes + r.memory_delta_bytes == memory.vram_used_bytes
            &&& v.config.gpu_device_index is None ==> r.peak_memory_bytes == memory.rss_bytes
                && batch.baseline.rss_bytes + r.memory_delta_bytes == memory.rss_bytes
        }),
{
}

/// A model that loads is tried once; one that runs out of memory gives a result that
/// says so, with no latency and no throughput; any other failure is skipped with its
/// reason, and the next batch size begins.
pub proof fn law_loading_decides(
    v: RunView,
    size: u32,
    baseline: MemorySnapshot,
    error: Option<ErrorView>,
    elapsed_ms: u64,
)
    requires
        v.phase == (PhaseView::Loading { size, baseline }),
    ensures
        ({
            let w = step(v, EventView::Loaded { error, elapsed_ms });
            &&& error is None ==> w.results == v.results && w.skipped == v.skipped && w.phase == (
            PhaseView::FirstInfer { batch: Batch { size, baseline, load_ms: elapsed_ms } })
            &&& error matches Some(e) ==> {
                &&& tells_oom(e.debug) ==> w.skipped == v.skipped && w.results.drop_last()
                    == v.results && w.results.last().oom && w.results.last().batch_size == size
                    && w.results.last().load_time_ms == elapsed_ms
                    && w.results.last().stats.sample_count == 0
                    && w.results.last().stats.throughput_rps == F64::of(0)
                    && !w.results.last().flagged_unreliable && awaited(w.phase) == Action::Unload
                &&& !tells_oom(e.debug) ==> w.results == v.results && w.skipped.drop_last()
                    == v.skipped && w.skipped.last().reason == "load failed: "@ + e.display && (
                w.phase is Finished || w.phase is Baseline)
            }
        }),
{
    let w = step(v, EventView::Loaded { error, elapsed_ms });
    if error is Some {
        if tells_oom(error->0.debug) {
            assert(w.results.drop_last() =~= v.results);
        } else {
            assert(w.skipped.drop_last() =~= v.skipped);
        }
    }
}

/// A runtime that measures itself is taken at its samples and its throughput, and at its
/// load time where it gives one; a runtime that does not is timed once for the budget.
pub proof fn law_first_inference_decides(
    v: RunView,
    batch: Batch,
    error: Option<ErrorView>,
    collected: Option<CollectedView>,
)
    requires
        v.phase == (PhaseView::FirstInfer { batch }),
    ensures
        ({
            let w = step(v, EventView::FirstInferred { error, collected });
            &&& error is None && collected is None ==> w.phase == (PhaseView::Pilot { batch })
                && w.results == v.results && w.skipped == v.skipped
            &&& error is None ==> (collected matches Some(c) ==> awaited(w.phase)
                == Action::ComputeSpread && (w.phase matches PhaseView::CollectedSpread {
                batch: b,
                samples,
                rps,
                load_ms,
            } && b == batch && samples.len() == c.samples_us.len() && (forall|i: int|
                0 <= i < samples.len() && c.samples_us[i] > 0 ==> #[trigger] samples[i]
                    == c.samples_us[i]) && rps == c.throughput_rps && (c.load_ms > 0 ==> load_ms
                == c.load_ms) && (c.load_ms == 0 ==> load_ms == batch.load_ms)))
            &&& error matches Some(e) ==> {
                &&& awaited(w.phase) == Action::Unload
                &&& tells_oom(e.debug) ==> w.skipped == v.skipped && w.results.drop_last()
                    == v.results && w.results.last().oom && w.results.last().batch_size
                    == batch.size
                &&& !tells_oom(e.debug) ==> w.results == v.results && w.skipped.drop_last()
                    == v.skipped && e.display.is_suffix_of(w.skipped.last().reason)
            }
        }),
{
    let w = step(v, EventView::FirstInferred { error, collected });
    if error is Some {
        let e = error->0;
        if tells_oom(e.debug) {
            assert(w.results.drop_last() =~= v.results);
        } else {
            assert(w.skipped.drop_last() =~= v.skipped);
            let why = w.skipped.last().reason;
            assert(e.display =~= why.subrange(why.len() - e.display.len(), why.len() as int));
        }
    }
}

/// The pilot sets the number of iterations by the time budget; warm-up follows, or the
/// measurement where there is none.
pub proof fn law_pilot_sets_the_budget(v: RunView, batch: Batch, elapsed_ns: u64)
    requires
        v.phase == (PhaseView::Pilot { batch }),
    ensures
        ({
            let w = step(v, EventView::Timed { elapsed_ns });
            let n = budget::allowed(
                v.config.iterations,
                v.config.warmup,
                elapsed_ns as nat,
                v.config.max_total_ns as nat,
            );
            &&& v.config.warmup > 0 ==> w.phase == (PhaseView::WarmingUp {
                batch,
                effective: n,
                index: 0,
                window: Seq::empty(),
            })
            &&& v.config.warmup == 0 ==> (measurement(w.phase) matches Some(m) && m.effective == n
                && m.done == 0 && m.samples.len() == 0 && m.batch == batch)
            &&& w.results == v.results
            &&& w.skipped == v.skipped
        }),
{
}

/// Warm-up looks at the last five timings. It ends at the first iteration at which they
/// are steady, or after its last one, and is recorded so; no sample is taken before.
pub proof fn law_warmup_settles(
    v: RunView,
    batch: Batch,
    effective: u32,
    index: u32,
    window: Seq<u64>,
    elapsed_ns: u64,
)
    requires
        v.phase == (PhaseView::WarmingUp { batch, effective, index, window }),
        window.len() <= 5,
        index < v.config.warmup,
    ensures
        ({
            let w = step(v, EventView::Timed { elapsed_ns });
            let timings = window.push(elapsed_ns);
            let last = if timings.len() > 5 {
                timings.skip(1)
            } else {
                timings
            };
            &&& budget::is_steady(last) ==> (measurement(w.phase) matches Some(m) && m.stable_at
                == index && m.effective == effective && m.samples.len() == 0 && m.batch == batch)
            &&& !budget::is_steady(last) && index + 1 == v.config.warmup ==> (measurement(
                w.phase,
            ) matches Some(m) && m.stable_at == v.config.warmup && m.effective == effective
                && m.samples.len() == 0 && m.batch == batch)
            &&& !budget::is_steady(last) && index + 1 < v.config.warmup ==> w.phase == (
            PhaseView::WarmingUp {
                batch,
                effective,
                index: (index + 1) as u32,
                window: last,
            })
        }),
{
    let timings = window.push(elapsed_ns);
    if timings.len() > 5 {
        assert(timings.skip(1) =~= timings.drop_first());
    }
}

/// The samples that a runtime collected become a result with the memory read after its
/// run; the throughput is its own.
pub proof fn law_collected_samples_become_results(
    v: RunView,
    batch: Batch,
    samples: Seq<u64>,
    rps: F64,
    load_ms: u64,
    spread: Spread,
    reading: MemorySnapshot,
)
    requires
        v.phase == (PhaseView::CollectedSpread { batch, samples, rps, load_ms }),
    ensures
        ({
            let read = step(v, EventView::Spread { spread });
            let cooling = step(read, EventView::Memory { reading });
            let w = step(cooling, EventView::Done);
            &&& awaited(read.phase) == Action::ReadMemory
            &&& awaited(cooling.phase) == Action::UnloadAndCoolDown
            &&& w.skipped == v.skipped
            &&& w.results.drop_last() == v.results
            &&& w.results.last().runtime == v.name
            &&& w.results.last().batch_size == batch.size
            &&& w.results.last().stats == stats::stats_of(samples, rps, spread)
            &&& w.results.last().load_time_ms == load_ms
            &&& w.results.last().warmup_stable_at == 0
            &&& !w.results.last().oom
            &&& v.config.gpu_device_index is Some ==> w.results.last().peak_memory_bytes
                == reading.vram_used_bytes
            &&& v.config.gpu_device_index is None ==> w.results.last().peak_memory_bytes
                == reading.rss_bytes
        }),
{
    let read = step(v, EventView::Spread { spread });
    let cooling = step(read, EventView::Memory { reading });
    let w = step(cooling, EventView::Done);
    assert(w.results.drop_last() =~= v.results);
}

/// A throughput window ends the iterations with the rate that was measured.
pub proof fn law_throughput_is_taken_over(v: RunView, m: MeasuringView, rps: F64)
    requires
        v.phase == (PhaseView::Sustaining { m }),
    ensures
        step(v, EventView::Throughput { rps }).phase == (PhaseView::Spreading {
            m,
            rps,
            oom: false,
        }),
{
}

/// The next batch size to begin is the first from the position on that has an input.
pub proof fn law_batches_are_begun_in_order(v: RunView, k: int)
    requires
        0 <= v.position <= k < v.batches.len(),
        v.inputs.contains(v.batches[k]),
        forall|j: int| v.position <= j < k ==> !v.inputs.contains(#[trigger] v.batches[j]),
    ensures
        begin_next(v).phase == (PhaseView::Baseline { size: v.batches[k] }),
        begin_next(v).position == k + 1,
    decreases k - v.position,
{
    lemma_first_with_input(v.batches, v.inputs, v.position, k);
}

proof fn lemma_first_with_input(batches: Seq<u32>, inputs: Seq<u32>, from: int, k: int)
    requires
        0 <= from <= k < batches.len(),
        inputs.contains(batches[k]),
        forall|j: int| from <= j < k ==> !inputs.contains(#[trigger] batches[j]),
    ensures
        next_with_input(batches, inputs, from) == k,
    decreases k - from,
{
    if from < k {
        assert(!inputs.contains(batches[from]));
        lemma_first_with_input(batches, inputs, from + 1, k);
    }
}

/// Where no batch size with an input is left, the run ends.
pub proof fn law_runs_end_without_inputs(v: RunView)
    requires
        0 <= v.position <= v.batches.len(),
        forall|j: int|
            v.position <= j < v.batches.len() ==> !v.inputs.contains(#[trigger] v.batches[j]),
    ensures
        begin_next(v).phase is Finished,
{
    lemma_next_with_input(v.batches, v.inputs, v.position);
    let i = next_with_input(v.batches, v.inputs, v.position);
    if i < v.batches.len() {
        assert(!v.inputs.contains(v.batches[i]));
    }
}

/// Unless something else is asked for, twenty iterations warm up, a hundred are timed, the
/// throughput is taken over five seconds, and a runtime has ten minutes.
pub proof fn law_defaults()
    ensures
        default_config().warmup == 20,
        default_config().iterations == 100,
        default_config().throughput_window_ns == 5 * 1_000_000_000,
        default_config().max_total_ns == 10 * 60 * 1_000_000_000,
        default_config().gpu_device_index is None,
{
}

/// A window is open from its beginning up to its end, which no longer belongs to it.
pub proof fn law_windows_close_at_their_end(elapsed_ns: int, window_ns: int)
    requires
        window_ns > 0,
    ensures
        window_is_open(0, window_ns),
        !window_is_open(window_ns, window_ns),
        window_is_open(elapsed_ns, window_ns) <==> window_ns - elapsed_ns >= 1,
{
}

} // verus!
