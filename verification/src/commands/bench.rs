//! The recommendation that ends a benchmark.
use vstd::prelude::*;

use crate::bench::harness::HarnessConfig;
use crate::bench::input;
use crate::bench::input::ModelFormat;
use crate::bench::{BenchResult, Recommendation, SkippedRuntime};
use crate::cli::OptimizeFor;
use crate::output::bench_terminal;
use crate::text;

verus! {

broadcast use vstd::string::group_string_axioms;

/// Whether the first result is better than the second by the given metric. All but
/// throughput are better when smaller.
pub open spec fn better(a: BenchResult, b: BenchResult, by: OptimizeFor) -> bool {
    match by {
        OptimizeFor::Latency => a.stats.p99_us < b.stats.p99_us,
        OptimizeFor::Throughput => b.stats.throughput_rps.below(a.stats.throughput_rps),
        OptimizeFor::Memory => a.peak_memory_bytes < b.peak_memory_bytes,
    }
}

/// Whether the result at index `i` is the best of those that completed without
/// running out of memory. Of equal ones the first wins, for throughput the last.
pub open spec fn is_best(results: Seq<BenchResult>, by: OptimizeFor, i: int) -> bool {
    &&& 0 <= i < results.len()
    &&& !results[i].oom
    &&& forall|j: int|
        0 <= j < results.len() && !(#[trigger] results[j]).oom ==> !better(results[j], results[i], by)
    &&& by != OptimizeFor::Throughput ==> forall|j: int|
        0 <= j < i && !(#[trigger] results[j]).oom ==> better(results[i], results[j], by)
    &&& by == OptimizeFor::Throughput ==> forall|j: int|
        i < j < results.len() && !(#[trigger] results[j]).oom ==> better(results[i], results[j], by)
}

/// Whether any two measured throughputs, where they are to be compared, are numbers.
pub open spec fn comparable(results: Seq<BenchResult>, by: OptimizeFor) -> bool {
    by == OptimizeFor::Throughput ==> forall|i: int, j: int|
        0 <= i < j < results.len() && !(#[trigger] results[i]).oom && !(#[trigger] results[j]).oom
            ==> !results[i].stats.throughput_rps.not_a_number()
            && !results[j].stats.throughput_rps.not_a_number()
}

/// There is one best result.
pub proof fn law_best_is_unique(results: Seq<BenchResult>, by: OptimizeFor, i: int, j: int)
    requires
        is_best(results, by, i),
        is_best(results, by, j),
    ensures
        i == j,
{
    let a = results[i];
    let b = results[j];
    assert(!a.oom && !b.oom);
}

/// The index of the best result.
pub fn best_index(results: &Vec<BenchResult>, by: OptimizeFor) -> (r: Option<usize>)
    requires
        comparable(results@, by),
    ensures
        match r {
            Some(i) => is_best(results@, by, i as int),
            None => forall|j: int| 0 <= j < results@.len() ==> (#[trigger] results@[j]).oom,
        },
{
    let mut best: Option<usize> = None;
    let mut i: usize = 0;
    while i < results.len()
        invariant
            i <= results@.len(),
            comparable(results@, by),
            match best {
                Some(b) => b < i && is_best(results@.take(i as int), by, b as int),
                None => forall|j: int| 0 <= j < i ==> (#[trigger] results@[j]).oom,
            },
        decreases results.len() - i,
    {
        let ghost seen = results@.take(i as int);
        let ghost more = results@.take(i + 1);
        assert forall|j: int| 0 <= j < i implies seen[j] == #[trigger] more[j] by {}
        assert(more[i as int] == results@[i as int]);
        if !results[i].oom {
            match best {
                None => {
                    best = Some(i);
                },
                Some(b) => {
                    assert(seen[b as int] == results@[b as int]);
                    let wins = match by {
                        OptimizeFor::Latency => results[i].stats.p99_us < results[b].stats.p99_us,
                        OptimizeFor::Throughput => results[b].stats.throughput_rps.le(
                            results[i].stats.throughput_rps,
                        ),
                        OptimizeFor::Memory => results[i].peak_memory_bytes
                            < results[b].peak_memory_bytes,
                    };
                    if wins {
                        best = Some(i);
                    }
                },
            }
        }
        i = i + 1;
    }
    assert(results@.take(i as int) =~= results@);
    best
}

/// Why a configuration was chosen.
pub open spec fn rationale_text(r: BenchResult, by: OptimizeFor, figure: Seq<char>) -> Seq<char> {
    let start = r.runtime@ + " at batch="@ + text::decimal(r.batch_size as nat);
    match by {
        OptimizeFor::Latency => start + " achieves the lowest p99 latency ("@ + figure + "ms)."@,
        OptimizeFor::Throughput => start + " achieves the highest throughput ("@ + figure
            + " req/s)."@,
        OptimizeFor::Memory => start + " uses the least memory ("@ + figure + " MiB peak)."@,
    }
}

/// Why a configuration was chosen.
fn rationale(r: &BenchResult, by: OptimizeFor, figure: &str) -> (s: String)
    ensures
        s@ == rationale_text(*r, by, figure@),
{
    let mut s = r.runtime.clone();
    s.append(" at batch=");
    s.append(text::decimal_text(r.batch_size as u64).as_str());
    match by {
        OptimizeFor::Latency => {
            s.append(" achieves the lowest p99 latency (");
            s.append(figure);
            s.append("ms).");
        },
        OptimizeFor::Throughput => {
            s.append(" achieves the highest throughput (");
            s.append(figure);
            s.append(" req/s).");
        },
        OptimizeFor::Memory => {
            s.append(" uses the least memory (");
            s.append(figure);
            s.append(" MiB peak).");
        },
    }
    s
}

/// The recommended configuration; none where every result ran out of memory.
///
/// `figures` holds each result's figure for the metric: milliseconds to one
/// decimal, requests per second or mebibytes without decimals.
pub fn build_recommendation(
    results: &Vec<BenchResult>,
    optimize_for: OptimizeFor,
    figures: &Vec<String>,
) -> (r: Option<Recommendation>)
    requires
        comparable(results@, optimize_for),
        figures@.len() == results@.len(),
    ensures
        match r {
            Some(rec) => exists|i: int| #[trigger]
                is_best(results@, optimize_for, i) && rec.runtime@ == results@[i].runtime@
                    && rec.batch_size == results@[i].batch_size && rec.rationale@ == rationale_text(
                    results@[i],
                    optimize_for,
                    figures@[i]@,
                ),
            None => forall|j: int| 0 <= j < results@.len() ==> (#[trigger] results@[j]).oom,
        },
{
    match best_index(results, optimize_for) {
        Some(i) => {
            let best = &results[i];
            let rec = Recommendation {
                runtime: best.runtime.clone(),
                batch_size: best.batch_size,
                rationale: rationale(best, optimize_for, figures[i].as_str()),
            };
            assert(is_best(results@, optimize_for, i as int));
            Some(rec)
        },
        None => None,
    }
}

/// The word for a metric.
pub open spec fn metric_word(by: OptimizeFor) -> Seq<char> {
    match by {
        OptimizeFor::Latency => "latency"@,
        OptimizeFor::Throughput => "throughput"@,
        OptimizeFor::Memory => "memory"@,
    }
}

/// The word for a metric, as reports give it.
pub fn metric_name(by: OptimizeFor) -> (r: &'static str)
    ensures
        r@ == metric_word(by),
{
    match by {
        OptimizeFor::Latency => "latency",
        OptimizeFor::Throughput => "throughput",
        OptimizeFor::Memory => "memory",
    }
}

/// The configuration of the harness that the user asks for.
pub open spec fn config_for(
    warmup: u32,
    iterations: u32,
    gpu_device_index: Option<u32>,
) -> HarnessConfig {
    HarnessConfig { warmup, iterations, gpu_device_index, ..crate::bench::harness::default_config() }
}

/// The configuration of the harness that the user asks for: the defaults but for
/// the numbers of iterations and the GPU.
pub fn harness_config(warmup: u32, iterations: u32, gpu_device_index: Option<u32>) -> (r:
    HarnessConfig)
    ensures
        r == config_for(warmup, iterations, gpu_device_index),
        r.throughput_window_ns == 5 * 1_000_000_000,
        r.max_total_ns == 10 * 60 * 1_000_000_000,
{
    let defaults = HarnessConfig::default();
    HarnessConfig {
        warmup,
        iterations,
        throughput_window_ns: defaults.throughput_window_ns,
        gpu_device_index,
        max_total_ns: defaults.max_total_ns,
    }
}

/// What is said where no runtime can be benchmarked.
pub open spec fn no_runtimes_text(format: ModelFormat, skipped: Seq<SkippedRuntime>) -> Seq<
    Seq<char>,
> {
    seq![
        "No benchmarkable runtimes found for the "@ + input::format_name(format) + " format."@,
        "Install onnxruntime, llama.cpp, or PyTorch and try again."@,
    ] + if skipped.len() == 0 {
        Seq::empty()
    } else {
        seq!["\nSkipped:"@] + bench_terminal::skipped_rows(skipped, skipped.len())
    }
}

/// What is said where no runtime can be benchmarked, line by line.
pub fn no_runtimes_lines(format: ModelFormat, skipped: &Vec<SkippedRuntime>) -> (r: Vec<String>)
    ensures
        text::texts(r@) == no_runtimes_text(format, skipped@),
{
    broadcast use text::group_texts;

    let mut first = "No benchmarkable runtimes found for the ".to_owned();
    first.append(format.as_str());
    first.append(" format.");
    let mut r: Vec<String> = Vec::new();
    r.push(first);
    r.push("Install onnxruntime, llama.cpp, or PyTorch and try again.".to_owned());
    if skipped.len() == 0 {
        assert(text::texts(r@) =~= no_runtimes_text(format, skipped@));
        return r;
    }
    r.push("\nSkipped:".to_owned());
    let ghost head = text::texts(r@);
    let mut i: usize = 0;
    assert(text::texts(r@) =~= head + bench_terminal::skipped_rows(skipped@, 0));
    while i < skipped.len()
        invariant
            i <= skipped@.len(),
            text::texts(r@) == head + bench_terminal::skipped_rows(skipped@, i as nat),
        decreases skipped.len() - i,
    {
        broadcast use text::group_texts;

        let mut s = "  ".to_owned();
        s.append(skipped[i].name.as_str());
        s.append(": ");
        s.append(skipped[i].reason.as_str());
        r.push(s);
        assert(text::texts(r@) =~= head + bench_terminal::skipped_rows(skipped@, (i + 1) as nat));
        i = i + 1;
    }
    assert(text::texts(r@) =~= no_runtimes_text(format, skipped@));
    r
}

/// The best result did not run out of memory, and no other that did not has a lower p99
/// latency, a higher throughput, or a lower peak of memory, by what is asked for.
pub proof fn law_best_is_optimal(results: Seq<BenchResult>, by: OptimizeFor, i: int, j: int)
    requires
        is_best(results, by, i),
        0 <= j < results.len(),
        !results[j].oom,
    ensures
        !results[i].oom,
        by == OptimizeFor::Latency ==> results[i].stats.p99_us <= results[j].stats.p99_us,
        by == OptimizeFor::Memory ==> results[i].peak_memory_bytes <= results[j].peak_memory_bytes,
        by == OptimizeFor::Throughput && !results[i].stats.throughput_rps.not_a_number()
            && !results[j].stats.throughput_rps.not_a_number()
            ==> results[j].stats.throughput_rps.at_most(results[i].stats.throughput_rps),
{
}

/// Of results that are equally good the first is best, and for throughput the last.
pub proof fn law_ties_are_broken_by_order(
    results: Seq<BenchResult>,
    by: OptimizeFor,
    i: int,
    j: int,
)
    requires
        is_best(results, by, i),
        0 <= j < results.len(),
        !results[j].oom,
    ensures
        by == OptimizeFor::Latency && results[j].stats.p99_us == results[i].stats.p99_us ==> i <= j,
        by == OptimizeFor::Memory && results[j].peak_memory_bytes == results[i].peak_memory_bytes
            ==> i <= j,
        by == OptimizeFor::Throughput && results[j].stats.throughput_rps
            == results[i].stats.throughput_rps ==> j <= i,
{
}

/// What speaks for a configuration: its runtime first, then the quality that it was
/// chosen for.
pub proof fn law_rationales_name_the_quality(r: BenchResult, figure: Seq<char>)
    ensures
        r.runtime@.is_prefix_of(rationale_text(r, OptimizeFor::Latency, figure)),
        r.runtime@.is_prefix_of(rationale_text(r, OptimizeFor::Throughput, figure)),
        r.runtime@.is_prefix_of(rationale_text(r, OptimizeFor::Memory, figure)),
        (figure + "ms)."@).is_suffix_of(rationale_text(r, OptimizeFor::Latency, figure)),
        (figure + " req/s)."@).is_suffix_of(rationale_text(r, OptimizeFor::Throughput, figure)),
        (figure + " MiB peak)."@).is_suffix_of(rationale_text(r, OptimizeFor::Memory, figure)),
{
    let a = rationale_text(r, OptimizeFor::Latency, figure);
    let b = rationale_text(r, OptimizeFor::Throughput, figure);
    let c = rationale_text(r, OptimizeFor::Memory, figure);
    let n = r.runtime@;
    assert(n =~= a.take(n.len() as int));
    assert(n =~= b.take(n.len() as int));
    assert(n =~= c.take(n.len() as int));
    let x = figure + "ms)."@;
    let y = figure + " req/s)."@;
    let z = figure + " MiB peak)."@;
    assert(x =~= a.subrange(a.len() - x.len(), a.len() as int));
    assert(y =~= b.subrange(b.len() - y.len(), b.len() as int));
    assert(z =~= c.subrange(c.len() - z.len(), c.len() as int));
}

/// What is asked for is what the harness does; the throughput window stays at five seconds,
/// and the limit at ten minutes.
pub proof fn law_configurations_hold_what_is_asked_for(
    warmup: u32,
    iterations: u32,
    gpu_device_index: Option<u32>,
)
    ensures
        config_for(warmup, iterations, gpu_device_index).warmup == warmup,
        config_for(warmup, iterations, gpu_device_index).iterations == iterations,
        config_for(warmup, iterations, gpu_device_index).gpu_device_index == gpu_device_index,
        config_for(warmup, iterations, gpu_device_index).throughput_window_ns == 5
            * 1_000_000_000,
        config_for(warmup, iterations, gpu_device_index).max_total_ns == 10 * 60 * 1_000_000_000,
{
}

/// No result is better than itself or than one that is better than it, and one with the
/// same figure is not better.
pub proof fn law_better_is_strict(a: BenchResult, b: BenchResult, by: OptimizeFor)
    ensures
        !better(a, a, by),
        better(a, b, by) ==> !better(b, a, by),
        better(a, b, OptimizeFor::Latency) <==> a.stats.p99_us < b.stats.p99_us,
        better(a, b, OptimizeFor::Memory) <==> a.peak_memory_bytes < b.peak_memory_bytes,
        better(a, b, OptimizeFor::Throughput) ==> !a.stats.throughput_rps.at_most(
            b.stats.throughput_rps,
        ),
{
}

} // verus!
