//! Benchmarks of a model file across inference runtimes.
use vstd::prelude::*;

pub mod budget;
pub mod compare;
pub mod harness;
pub mod idle;
pub mod input;
pub mod memory;
pub mod runtime;
pub mod runtimes;
pub mod stats;

pub use stats::BenchStats;

verus! {

/// A single benchmarked (runtime, batch_size) combination.
#[derive(Debug)]
pub struct BenchResult {
    pub runtime: String,
    pub batch_size: u32,
    pub stats: BenchStats,
    /// Peak memory consumed during the measurement phase.
    pub peak_memory_bytes: u64,
    /// Memory delta above the pre-load baseline.
    pub memory_delta_bytes: u64,
    /// Wall-clock time to load the model into this runtime (ms).
    pub load_time_ms: u64,
    /// First warm-up iteration at which std dev of the rolling 5-sample window
    /// dropped below 10% of the mean, indicating performance has stabilized.
    pub warmup_stable_at: u32,
    /// True when coefficient of variation of measurement samples exceeds 0.20,
    /// indicating high system noise during this benchmark.
    pub flagged_unreliable: bool,
    /// True if the runtime ran out of memory at this batch size.
    pub oom: bool,
}

/// What a [`BenchResult`] says.
pub ghost struct ResultView {
    pub runtime: Seq<char>,
    pub batch_size: u32,
    pub stats: BenchStats,
    pub peak_memory_bytes: u64,
    pub memory_delta_bytes: u64,
    pub load_time_ms: u64,
    pub warmup_stable_at: u32,
    pub flagged_unreliable: bool,
    pub oom: bool,
}

impl View for BenchResult {
    type V = ResultView;

    open spec fn view(&self) -> ResultView {
        ResultView {
            runtime: self.runtime@,
            batch_size: self.batch_size,
            stats: self.stats,
            peak_memory_bytes: self.peak_memory_bytes,
            memory_delta_bytes: self.memory_delta_bytes,
            load_time_ms: self.load_time_ms,
            warmup_stable_at: self.warmup_stable_at,
            flagged_unreliable: self.flagged_unreliable,
            oom: self.oom,
        }
    }
}

/// A runtime that was not benchmarked, with the reason why.
#[derive(Debug)]
pub struct SkippedRuntime {
    pub name: String,
    pub reason: String,
}

/// What a [`SkippedRuntime`] says.
pub ghost struct SkipView {
    pub name: Seq<char>,
    pub reason: Seq<char>,
}

impl View for SkippedRuntime {
    type V = SkipView;

    open spec fn view(&self) -> SkipView {
        SkipView { name: self.name@, reason: self.reason@ }
    }
}

/// What a list of results says.
pub open spec fn results_view(v: Seq<BenchResult>) -> Seq<ResultView> {
    v.map_values(|r: BenchResult| r@)
}

/// What a list of skipped runtimes says.
pub open spec fn skips_view(v: Seq<SkippedRuntime>) -> Seq<SkipView> {
    v.map_values(|s: SkippedRuntime| s@)
}

/// Pushing a result pushes what it says.
pub broadcast proof fn lemma_results_push(v: Seq<BenchResult>, r: BenchResult)
    ensures
        #[trigger] results_view(v.push(r)) == results_view(v).push(r@),
{
    assert(results_view(v.push(r)) =~= results_view(v).push(r@));
}

/// Pushing a skipped runtime pushes what it says.
pub broadcast proof fn lemma_skips_push(v: Seq<SkippedRuntime>, s: SkippedRuntime)
    ensures
        #[trigger] skips_view(v.push(s)) == skips_view(v).push(s@),
{
    assert(skips_view(v.push(s)) =~= skips_view(v).push(s@));
}

/// What lists say as they are built.
pub broadcast group group_bench_views {
    lemma_results_push,
    lemma_skips_push,
}

/// The recommended (runtime, batch_size) configuration.
#[derive(Debug)]
pub struct Recommendation {
    pub runtime: String,
    pub batch_size: u32,
    /// Plain-English explanation of why this configuration was chosen.
    pub rationale: String,
}

/// The complete output of a benchmark.
#[derive(Debug)]
pub struct BenchReport {
    pub model_path: String,
    pub optimize_for: String,
    pub results: Vec<BenchResult>,
    pub skipped: Vec<SkippedRuntime>,
    pub recommendation: Option<Recommendation>,
    /// When the benchmark was run, in seconds since the Unix epoch.
    pub ran_at: i64,
}

} // verus!
