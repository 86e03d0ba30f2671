//! Latency statistics of a benchmark.
use vstd::multiset::Multiset;
use vstd::prelude::*;

use crate::float::F64;
use crate::histogram;
use crate::histogram::ValueHistogram;

verus! {

/// Summary statistics for a single (runtime, batch_size) benchmark. Latencies are
/// in microseconds.
#[derive(Clone, Copy, Debug, PartialEq, Eq, Structural)]
pub struct BenchStats {
    pub p50_us: u64,
    pub p95_us: u64,
    pub p99_us: u64,
    pub min_us: u64,
    pub max_us: u64,
    /// Actual sustained throughput (requests per second) measured via a
    /// separate fixed-duration load window, not simply 1 / mean_latency.
    pub throughput_rps: F64,
    pub stddev_ms: F64,
    /// Coefficient of variation (stddev / mean). Values above 0.20 indicate
    /// the system was under variable load and results may be unreliable.
    pub cv: F64,
    pub sample_count: u64,
}

/// How raw samples spread around their mean.
#[derive(Clone, Copy, Debug, PartialEq, Eq, Structural)]
pub struct Spread {
    pub stddev_ms: F64,
    pub cv: F64,
}

/// The spread of no samples, or of one.
pub open spec fn no_spread() -> Spread {
    Spread { stddev_ms: F64::of(0), cv: F64::of(0) }
}

/// The spread that is reported of samples: none where there is at most one.
pub open spec fn spread_of(samples: Seq<u64>, spread: Spread) -> Spread {
    if samples.len() <= 1 {
        no_spread()
    } else {
        spread
    }
}

/// The longest latency that the histogram is made for: one hour.
pub const ONE_HOUR_US: u64 = 3_600_000_000;

/// The longest latency that the histogram can record.
pub const LONGEST_US: u64 = 0xffff_ffff;

/// The sample that a measurement counts as: at least one microsecond.
pub open spec fn counted(micros: u64) -> u64 {
    if micros == 0 {
        1
    } else {
        micros
    }
}

/// What the histogram records of a sample: a latency that it cannot hold counts as
/// one hour.
pub open spec fn kept(sample: u64) -> u64 {
    if sample <= LONGEST_US {
        sample
    } else {
        ONE_HOUR_US
    }
}

/// What the histogram has recorded of a run of samples.
pub open spec fn kept_all(samples: Seq<u64>) -> Multiset<u64>
    decreases samples.len(),
{
    if samples.len() == 0 {
        Multiset::empty()
    } else {
        kept_all(samples.drop_last()).insert(kept(samples.last()))
    }
}

proof fn lemma_kept_all_len(samples: Seq<u64>)
    ensures
        kept_all(samples).len() == samples.len(),
    decreases samples.len(),
{
    if samples.len() > 0 {
        lemma_kept_all_len(samples.drop_last());
    }
}

/// Accumulates per-iteration latency samples and computes summary statistics.
///
/// Uses an HDR histogram for accurate percentile queries and a parallel raw
/// sample list for stddev / CV computation (HDR histograms quantise values
/// and cannot produce an exact stddev).
pub struct StatAccumulator {
    histogram: ValueHistogram,
    samples: Vec<u64>,
}

impl View for StatAccumulator {
    type V = Seq<u64>;

    /// The samples, in microseconds, in the order in which they were recorded.
    closed spec fn view(&self) -> Seq<u64> {
        self.samples@
    }
}

/// The statistics of the given samples: percentiles and extremes as the histogram
/// shows them, and a spread where there are two samples or more.
pub open spec fn stats_of(samples: Seq<u64>, throughput_rps: F64, spread: Spread) -> BenchStats {
    let values = kept_all(samples);
    BenchStats {
        p50_us: histogram::percentile(values, 50),
        p95_us: histogram::percentile(values, 95),
        p99_us: histogram::percentile(values, 99),
        min_us: histogram::lowest_shown(values),
        max_us: histogram::highest_shown(values),
        throughput_rps,
        stddev_ms: spread_of(samples, spread).stddev_ms,
        cv: spread_of(samples, spread).cv,
        sample_count: samples.len() as u64,
    }
}

/// One sample, or none, has no deviation, whatever spread is handed in.
pub proof fn law_single_samples_do_not_spread(
    samples: Seq<u64>,
    throughput_rps: F64,
    spread: Spread,
)
    requires
        samples.len() <= 1,
    ensures
        stats_of(samples, throughput_rps, spread).stddev_ms == F64::of(0),
        stats_of(samples, throughput_rps, spread).cv == F64::of(0),
{
}

/// Deviation and variation are not negative where those of the spread are not.
pub proof fn law_deviation_is_not_negative(
    samples: Seq<u64>,
    throughput_rps: F64,
    spread: Spread,
)
    requires
        F64::of(0).at_most(spread.stddev_ms),
        F64::of(0).at_most(spread.cv),
    ensures
        F64::of(0).at_most(stats_of(samples, throughput_rps, spread).stddev_ms),
        F64::of(0).at_most(stats_of(samples, throughput_rps, spread).cv),
{
}

/// Whether the latencies of `s` are shown values of the given samples, in order.
pub open spec fn summarises(s: BenchStats, samples: Seq<u64>) -> bool {
    let values = kept_all(samples);
    &&& samples.len() == 0 ==> s.min_us == 0 && s.p50_us == 0 && s.p95_us == 0 && s.p99_us == 0
        && s.max_us == 0
    &&& samples.len() > 0 ==> histogram::shows_one_below(values, s.min_us)
        && histogram::shows_one_above(values, s.p50_us) && histogram::shows_one_above(
        values,
        s.p95_us,
    ) && histogram::shows_one_above(values, s.p99_us) && histogram::shows_one_above(
        values,
        s.max_us,
    )
    &&& forall|v: u64| #[trigger] values.count(v) > 0 ==> s.min_us <= v <= s.max_us
    &&& s.min_us <= s.p50_us <= s.p95_us <= s.p99_us <= s.max_us
}

/// Whether each latency of `s` is at the percentile of the samples that it is named
/// after.
pub open spec fn at_percentiles(s: BenchStats, samples: Seq<u64>) -> bool {
    let values = kept_all(samples);
    &&& histogram::is_at_percentile(values, 50, s.p50_us)
    &&& histogram::is_at_percentile(values, 95, s.p95_us)
    &&& histogram::is_at_percentile(values, 99, s.p99_us)
}

impl StatAccumulator {
    /// Whether the histogram holds what the samples say.
    pub closed spec fn well_formed(&self) -> bool {
        &&& histogram::recorded(self.histogram) == kept_all(self.samples@)
        &&& histogram::limit(self.histogram) == LONGEST_US
    }

    /// An accumulator without samples.
    pub fn new() -> (r: Self)
        ensures
            r@ == Seq::<u64>::empty(),
            r.well_formed(),
    {
        assert(histogram::reach(ONE_HOUR_US as nat) == LONGEST_US) by {
            reveal_with_fuel(histogram::reach, 24);
        }
        StatAccumulator { histogram: histogram::new_histogram(ONE_HOUR_US), samples: Vec::new() }
    }

    /// Records a single latency measurement given in microseconds.
    pub fn record_micros(&mut self, micros: u64)
        requires
            old(self).well_formed(),
            old(self)@.len() < u64::MAX,
        ensures
            final(self).well_formed(),
            final(self)@ == old(self)@.push(counted(micros)),
    {
        let v: u64 = if micros == 0 {
            1
        } else {
            micros
        };
        proof {
            lemma_kept_all_len(self.samples@);
            assert(self.samples@.push(v).drop_last() =~= self.samples@);
        }
        if !histogram::record(&mut self.histogram, v) {
            // The value exceeds what the histogram holds: clamp it.
            let _ = histogram::record(&mut self.histogram, ONE_HOUR_US);
        }
        self.samples.push(v);
    }

    /// The raw samples in microseconds.
    pub fn samples(&self) -> (r: &Vec<u64>)
        ensures
            r@ == self@,
    {
        &self.samples
    }

    /// Consumes the accumulator and produces a `BenchStats`.
    ///
    /// `throughput_rps` is measured via a separate sustained-load window, not
    /// derivable from latency alone; `spread` is that of the raw samples, and is not
    /// looked at where there is at most one.
    pub fn finalize(self, throughput_rps: F64, spread: Spread) -> (r: BenchStats)
        requires
            self.well_formed(),
            self@.len() <= u64::MAX,
        ensures
            r == stats_of(self@, throughput_rps, spread),
            summarises(r, self@),
            0 < self@.len() <= 0x100_0000_0000 ==> at_percentiles(r, self@),
    {
        proof {
            lemma_kept_all_len(self.samples@);
        }
        let h = &self.histogram;
        let p50_us: u64 = histogram::value_at(h, 50);
        let p95_us: u64 = histogram::value_at(h, 95);
        let p99_us: u64 = histogram::value_at(h, 99);
        let min_us: u64 = histogram::lowest(h);
        let max_us: u64 = histogram::highest(h);
        let spread = if self.samples.len() <= 1 {
            Spread { stddev_ms: F64::of(0), cv: F64::of(0) }
        } else {
            spread
        };
        BenchStats {
            p50_us,
            p95_us,
            p99_us,
            min_us,
            max_us,
            throughput_rps,
            stddev_ms: spread.stddev_ms,
            cv: spread.cv,
            sample_count: self.samples.len() as u64,
        }
    }
}

/// A multiset of kept samples has as many of a kind as the run of samples.
proof fn lemma_kept_filter(samples: Seq<u64>, f: spec_fn(u64) -> bool)
    ensures
        kept_all(samples).filter(f).len() == samples.map_values(|s: u64| kept(s)).filter(f).len(),
    decreases samples.len(),
{
    reveal(Seq::filter);
    let all = samples.map_values(|s: u64| kept(s));
    if samples.len() > 0 {
        let before = kept_all(samples.drop_last());
        let x = kept(samples.last());
        lemma_kept_filter(samples.drop_last(), f);
        assert(all.drop_last() =~= samples.drop_last().map_values(|s: u64| kept(s)));
        assert(all.last() == x);
        if f(x) {
            assert(before.insert(x).filter(f) =~= before.filter(f).insert(x));
        } else {
            assert(before.insert(x).filter(f) =~= before.filter(f));
        }
    } else {
        assert(kept_all(samples).filter(f) =~= Multiset::empty());
    }
}

/// At least half, nineteen twentieths and ninety-nine hundredths of the latencies are at
/// most the percentiles of these names, and fewer are clearly below them.
pub proof fn law_percentiles_have_their_rank(s: BenchStats, samples: Seq<u64>)
    requires
        at_percentiles(s, samples),
        forall|i: int| 0 <= i < samples.len() ==> samples[i] <= 3_600_000_000,
    ensures
        2 * samples.filter(|v: u64| v <= s.p50_us).len() >= samples.len(),
        2 * samples.filter(|v: u64| v + v / 1024 < s.p50_us).len() < samples.len(),
        20 * samples.filter(|v: u64| v <= s.p95_us).len() >= 19 * samples.len(),
        20 * samples.filter(|v: u64| v + v / 1024 < s.p95_us).len() < 19 * samples.len(),
        100 * samples.filter(|v: u64| v <= s.p99_us).len() >= 99 * samples.len(),
        100 * samples.filter(|v: u64| v + v / 1024 < s.p99_us).len() < 99 * samples.len(),
{
    assert(samples.map_values(|x: u64| kept(x)) =~= samples);
    lemma_kept_all_len(samples);
    lemma_kept_filter(samples, |v: u64| v <= s.p50_us);
    lemma_kept_filter(samples, |v: u64| v + v / 1024 < s.p50_us);
    lemma_kept_filter(samples, |v: u64| v <= s.p95_us);
    lemma_kept_filter(samples, |v: u64| v + v / 1024 < s.p95_us);
    lemma_kept_filter(samples, |v: u64| v <= s.p99_us);
    lemma_kept_filter(samples, |v: u64| v + v / 1024 < s.p99_us);
}

proof fn lemma_kept_members(samples: Seq<u64>, v: u64)
    requires
        forall|i: int| 0 <= i < samples.len() ==> samples[i] <= 3_600_000_000,
    ensures
        kept_all(samples).count(v) > 0 <==> samples.contains(v),
    decreases samples.len(),
{
    if samples.len() > 0 {
        let before = samples.drop_last();
        lemma_kept_members(before, v);
        assert(samples[samples.len() - 1] == samples.last());
        assert(kept(samples.last()) == samples.last());
        if before.contains(v) {
            let i = choose|i: int| 0 <= i < before.len() && before[i] == v;
            assert(samples[i] == v);
        }
        if samples.contains(v) && samples.last() != v {
            let i = choose|i: int| 0 <= i < samples.len() && samples[i] == v;
            assert(before[i] == v);
        }
    }
}

/// All latencies lie between the shown minimum and maximum, these and the percentiles
/// are in order, and the extremes are a latency each, to one part in 1024.
pub proof fn law_extremes_enclose_the_latencies(s: BenchStats, samples: Seq<u64>, i: int)
    requires
        summarises(s, samples),
        forall|k: int| 0 <= k < samples.len() ==> samples[k] <= 3_600_000_000,
        0 <= i < samples.len(),
    ensures
        s.min_us <= samples[i] <= s.max_us,
        s.min_us <= s.p50_us <= s.p95_us <= s.p99_us <= s.max_us,
        exists|k: int|
            0 <= k < samples.len() && s.min_us <= #[trigger] samples[k] && samples[k] - samples[k]
                / 1024 <= s.min_us,
        exists|k: int|
            0 <= k < samples.len() && #[trigger] samples[k] <= s.max_us && s.max_us <= samples[k]
                + samples[k] / 1024,
{
    let values = kept_all(samples);
    lemma_kept_members(samples, samples[i]);
    let low = choose|v: u64| values.count(v) > 0 && #[trigger] histogram::shows_below(v, s.min_us);
    lemma_kept_members(samples, low);
    let k = choose|k: int| 0 <= k < samples.len() && samples[k] == low;
    assert(s.min_us <= samples[k]);
    let high = choose|v: u64| values.count(v) > 0 && #[trigger] histogram::shows_above(v, s.max_us);
    lemma_kept_members(samples, high);
    let m = choose|m: int| 0 <= m < samples.len() && samples[m] == high;
    assert(samples[m] <= s.max_us);
}

/// Statistics count the samples and pass on the throughput; a sample is its measurement,
/// but at least one microsecond.
pub proof fn law_statistics_count(samples: Seq<u64>, rps: F64, spread: Spread, micros: u64)
    requires
        samples.len() <= u64::MAX,
    ensures
        stats_of(samples, rps, spread).sample_count == samples.len(),
        stats_of(samples, rps, spread).throughput_rps == rps,
        samples.len() > 1 ==> stats_of(samples, rps, spread).stddev_ms == spread.stddev_ms
            && stats_of(samples, rps, spread).cv == spread.cv,
        counted(0) == 1,
        micros > 0 ==> counted(micros) == micros,
        micros <= 3_600_000_000 ==> kept(micros) == micros,
        micros > 0xffff_ffff ==> kept(micros) == 3_600_000_000,
{
}

/// Latencies are recorded as they are up to what 32 bits hold, and as one hour above; none
/// counts as less than a microsecond.
pub proof fn law_long_latencies_count_as_an_hour(micros: u64)
    ensures
        micros < 0x1_0000_0000 ==> kept(micros) == micros,
        micros >= 0x1_0000_0000 ==> kept(micros) == 60 * 60 * 1_000_000,
        micros > 0 ==> counted(micros) == micros,
        counted(0) == 1,
{
}

} // verus!
