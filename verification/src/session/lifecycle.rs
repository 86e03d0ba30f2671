//! The sampling loop of a monitoring session.
//!
//! Each sample passes through three steps. [`MonitoringSession::observe`] takes it
//! in and hands out the integers that averages are computed from;
//! [`MonitoringSession::estimate`] makes an MFU estimate of the averages; and
//! [`MonitoringSession::conclude`] makes the snapshot to publish.
use std::collections::VecDeque;
use std::marker::PhantomData;

use vstd::multiset::Multiset;
use vstd::prelude::*;

use crate::analysis::bottleneck;
use crate::analysis::bottleneck::BottleneckDetector;
use crate::analysis::recommendations;
use crate::analysis::recommendations::RecommendationEngine;
use crate::collectors::RawSample;
use crate::float::{F32, F64};
use crate::gpu_specs::GpuSpec;
use crate::histogram;
use crate::histogram::ValueHistogram;
use crate::metrics::breakdown::{PhaseCounts, TimeBreakdown, TimeBreakdownInferrer};
use crate::metrics::mfu;
use crate::metrics::mfu::{ClockTerm, MfuCalculator, MfuEstimate, MfuFigures};
use crate::metrics::units::{Mib, Percent, HUNDRED};
use crate::metrics::window;
use crate::metrics::window::{MetricsWindow, MAX_WINDOW_SIZE, MIN_RELIABLE_SAMPLES};
use crate::session::state::{CostImpact, GpuSnapshot, MfuPercentiles, SessionSnapshot};

verus! {

/// A session that has not begun to sample.
pub struct Initializing;

/// A session that takes samples.
pub struct Sampling;

/// A session that has ended.
pub struct Done;

/// How many consecutive rising VRAM readings count as growth.
pub const VRAM_RISING: usize = 8;

/// How many timestamps are kept for step timing.
pub const STEP_HISTORY: usize = 30;

/// How many timestamps step timing needs.
pub const STEP_MINIMUM: usize = 5;

/// The largest MFU in tenths of a percent.
pub const MFU_TENTHS: u64 = 1000;

/// The largest value that the MFU histogram records.
pub const MFU_LIMIT: u64 = 2047;

/// The bits of 20 in single precision.
pub const TWENTY: u32 = 0x41a0_0000;

/// The bits of 0.3 in double precision.
pub const ERRATIC_CV: u64 = 0x3fd3_3333_3333_3333;

/// The bits of negative infinity in single precision.
pub const MINUS_INFINITY: u32 = 0xff80_0000;

/// The bits of infinity in single precision.
pub const PLUS_INFINITY: u32 = 0x7f80_0000;

/// The largest VRAM reading of a run of samples.
pub open spec fn peak_vram(history: Seq<RawSample>) -> u64
    decreases history.len(),
{
    if history.len() == 0 {
        0
    } else {
        let before = peak_vram(history.drop_last());
        if history.last().vram_used_mib.0 > before {
            history.last().vram_used_mib.0
        } else {
            before
        }
    }
}

/// The VRAM readings of a run of samples.
pub open spec fn vram_readings(history: Seq<RawSample>) -> Seq<u64> {
    history.map_values(|s: RawSample| s.vram_used_mib.0)
}

/// The timestamps of a run of samples.
pub open spec fn timestamps(history: Seq<RawSample>) -> Seq<u64> {
    history.map_values(|s: RawSample| s.timestamp_ms)
}

/// What is shown of a GPU by its last sample.
pub open spec fn gpu_snapshot(s: RawSample) -> GpuSnapshot {
    GpuSnapshot {
        gpu_index: s.gpu_index,
        sm_utilization: s.sm_utilization,
        vram_used_mib: s.vram_used_mib,
        temperature: s.temperature,
    }
}

/// The last sample of a GPU.
pub open spec fn last_sample(history: Seq<RawSample>, gpu: u32) -> Option<RawSample>
    decreases history.len(),
{
    if history.len() == 0 {
        None
    } else if history.last().gpu_index == gpu {
        Some(history.last())
    } else {
        last_sample(history.drop_last(), gpu)
    }
}

/// Whether `gpus` shows each GPU that was sampled once, by its last sample, in the
/// order of the indices.
pub open spec fn shows_each_gpu(gpus: Seq<GpuSnapshot>, history: Seq<RawSample>) -> bool {
    &&& forall|i: int, j: int|
        0 <= i < j < gpus.len() ==> (#[trigger] gpus[i]).gpu_index < (#[trigger] gpus[j]).gpu_index
    &&& forall|i: int|
        0 <= i < gpus.len() ==> match last_sample(history, (#[trigger] gpus[i]).gpu_index) {
            Some(s) => gpus[i] == gpu_snapshot(s),
            None => false,
        }
    &&& forall|g: u32| #[trigger]
        last_sample(history, g) is Some ==> exists|i: int|
            0 <= i < gpus.len() && (#[trigger] gpus[i]).gpu_index == g
}

/// Whether a list of readings rises at every step.
pub open spec fn rises(readings: Seq<u64>) -> bool {
    forall|i: int, j: int| 0 <= i < j < readings.len() ==> readings[i] < readings[j]
}

/// The highest of the utilizations from index `i` on and `seen`.
pub open spec fn highest_from(gpus: Seq<GpuSnapshot>, seen: F32, i: int) -> F32
    decreases gpus.len() - i,
{
    if i < 0 || i >= gpus.len() {
        seen
    } else {
        let u = gpus[i].sm_utilization.0;
        highest_from(
            gpus,
            if seen.below(u) {
                u
            } else {
                seen
            },
            i + 1,
        )
    }
}

/// The lowest of the utilizations from index `i` on and `seen`.
pub open spec fn lowest_from(gpus: Seq<GpuSnapshot>, seen: F32, i: int) -> F32
    decreases gpus.len() - i,
{
    if i < 0 || i >= gpus.len() {
        seen
    } else {
        let u = gpus[i].sm_utilization.0;
        lowest_from(
            gpus,
            if u.below(seen) {
                u
            } else {
                seen
            },
            i + 1,
        )
    }
}

/// The highest and the lowest utilization of several GPUs.
#[derive(Clone, Copy, Debug, PartialEq, Eq, Structural)]
pub struct UtilizationRange {
    pub highest: F32,
    pub lowest: F32,
}

/// The range of utilizations; there is none of a single GPU.
pub open spec fn utilization_range(gpus: Seq<GpuSnapshot>) -> Option<UtilizationRange> {
    if gpus.len() > 1 {
        Some(
            UtilizationRange {
                highest: highest_from(gpus, F32::of(MINUS_INFINITY), 0),
                lowest: lowest_from(gpus, F32::of(PLUS_INFINITY), 0),
            },
        )
    } else {
        None
    }
}

/// The differences of successive timestamps; zero where the clock ran backwards.
pub open spec fn step_deltas(stamps: Seq<u64>) -> Seq<u64> {
    if stamps.len() >= STEP_MINIMUM {
        Seq::new(
            (stamps.len() - 1) as nat,
            |i: int|
                if stamps[i + 1] > stamps[i] {
                    (stamps[i + 1] - stamps[i]) as u64
                } else {
                    0
                },
        )
    } else {
        Seq::empty()
    }
}

/// What a sample leaves to be averaged.
#[derive(Debug)]
pub struct Observation {
    pub sample: RawSample,
    /// How many samples of the window are in each phase.
    pub phases: PhaseCounts,
    /// SM utilization and clock fraction of each sample of the window.
    pub terms: Vec<ClockTerm>,
    /// The intervals between the last samples in ms; none until there are enough.
    pub step_deltas_ms: Vec<u64>,
    /// The range of SM utilization over several GPUs.
    pub range: Option<UtilizationRange>,
    /// The memory that the sample's VRAM reading is a share of; not zero.
    pub vram_capacity_mib: u64,
}

/// What the averages of an observation come to.
#[derive(Clone, Copy, Debug, PartialEq, Eq, Structural)]
pub struct Figures {
    /// The counts of the phases in percent.
    pub breakdown: TimeBreakdown,
    /// The average clock in percent of boost.
    pub avg_clock_pct: F32,
    /// Six tenths of the data loader's percentage.
    pub data_loader_share: F32,
    /// The MFU in whole tenths of a percent.
    pub mfu_tenths: u64,
    /// The VRAM reading in percent of capacity.
    pub vram_pct: F32,
    /// The mean of the step intervals in ms.
    pub step_mean_ms: F32,
    /// The coefficient of variation of the step intervals.
    pub step_cv: F64,
    /// The spread of the utilization range in percentage points.
    pub spread_ppt: F32,
    /// The hourly cost at the target MFU.
    pub target_cost_usd: F64,
    /// The hourly waste against the target MFU.
    pub waste_per_hour: F64,
    /// Time since the session began.
    pub elapsed_ms: u64,
}

/// What the samples of a session come to.
pub struct Aggregates {
    window: MetricsWindow,
    steps_observed: u64,
    mfu_hist: ValueHistogram,
    peak_mfu: F32,
    peak_vram: Mib,
    gpus: Vec<GpuSnapshot>,
    vram_history: VecDeque<u64>,
    step_timestamps: VecDeque<u64>,
    history: Ghost<Seq<RawSample>>,
    buckets: Ghost<Seq<u64>>,
    mfus: Ghost<Seq<F32>>,
}

/// The multiset of a run of MFU buckets.
pub open spec fn bucket_set(buckets: Seq<u64>) -> Multiset<u64>
    decreases buckets.len(),
{
    if buckets.len() == 0 {
        Multiset::empty()
    } else {
        bucket_set(buckets.drop_last()).insert(buckets.last())
    }
}

proof fn lemma_bucket_set_len(buckets: Seq<u64>)
    ensures
        bucket_set(buckets).len() == buckets.len(),
    decreases buckets.len(),
{
    if buckets.len() > 0 {
        lemma_bucket_set_len(buckets.drop_last());
    }
}

proof fn lemma_bucket_set_members(buckets: Seq<u64>, v: u64)
    requires
        bucket_set(buckets).count(v) > 0,
    ensures
        buckets.contains(v),
    decreases buckets.len(),
{
    if buckets.len() > 0 {
        if buckets.last() == v {
            assert(buckets[buckets.len() - 1] == v);
        } else {
            lemma_bucket_set_members(buckets.drop_last(), v);
            let i = choose|i: int|
                0 <= i < buckets.drop_last().len() && buckets.drop_last()[i] == v;
            assert(buckets[i] == v);
        }
    }
}

/// Buckets are small enough for the histogram to show them exactly.
proof fn lemma_shown_bucket(buckets: Seq<u64>, shown: u64)
    requires
        forall|i: int| 0 <= i < buckets.len() ==> buckets[i] <= MFU_TENTHS,
        histogram::shows_one_above(bucket_set(buckets), shown),
    ensures
        buckets.contains(shown),
{
    let v = choose|v: u64|
        bucket_set(buckets).count(v) > 0 && #[trigger] histogram::shows_above(v, shown);
    lemma_bucket_set_members(buckets, v);
    assert(v <= MFU_TENTHS);
}

/// Whether percentiles are in order and each is a recorded bucket.
pub open spec fn are_recorded(p: MfuPercentiles, buckets: Seq<u64>) -> bool {
    &&& p.p50_tenths <= p.p75_tenths <= p.p95_tenths
    &&& buckets.contains(p.p50_tenths)
    &&& buckets.contains(p.p75_tenths)
    &&& buckets.contains(p.p95_tenths)
}

/// Whether `shown` is the bucket at a percentile: the given share of the buckets does
/// not exceed it, and fewer are below it.
pub open spec fn is_bucket_at(buckets: Seq<u64>, percent: nat, shown: u64) -> bool {
    &&& bucket_set(buckets).filter(|v: u64| v <= shown).len() * 100 >= buckets.len() * percent
    &&& bucket_set(buckets).filter(|v: u64| v < shown).len() * 100 < buckets.len() * percent
}

/// Whether each percentile is the recorded bucket of its rank.
pub open spec fn are_ranked(p: MfuPercentiles, buckets: Seq<u64>) -> bool {
    &&& is_bucket_at(buckets, 50, p.p50_tenths)
    &&& is_bucket_at(buckets, 75, p.p75_tenths)
    &&& is_bucket_at(buckets, 95, p.p95_tenths)
}

/// What a histogram shows of buckets is exact.
proof fn lemma_bucket_at(buckets: Seq<u64>, percent: nat, shown: u64)
    requires
        forall|i: int| 0 <= i < buckets.len() ==> buckets[i] <= MFU_TENTHS,
        histogram::is_at_percentile(bucket_set(buckets), percent, shown),
    ensures
        is_bucket_at(buckets, percent, shown),
{
    let all = bucket_set(buckets);
    lemma_bucket_set_len(buckets);
    let near = all.filter(|v: u64| v + v / 1024 < shown);
    let below = all.filter(|v: u64| v < shown);
    assert forall|v: u64| #[trigger] near.count(v) == below.count(v) by {
        if all.count(v) > 0 {
            lemma_bucket_set_members(buckets, v);
        }
    }
    assert(near =~= below);
}

/// The last readings, with one more.
fn push_recent(d: &mut VecDeque<u64>, x: u64, keep: usize, Ghost(all): Ghost<Seq<u64>>)
    requires
        keep > 0,
        old(d)@ == window::last_of(all, keep as int),
    ensures
        final(d)@ == window::last_of(all.push(x), keep as int),
{
    d.push_back(x);
    if d.len() > keep {
        d.pop_front();
    }
    assert(d@ =~= window::last_of(all.push(x), keep as int));
}

/// Whether the readings rise at every step.
fn all_rise(d: &VecDeque<u64>) -> (r: bool)
    ensures
        r == rises(d@),
{
    let mut i: usize = 1;
    while i < d.len()
        invariant
            1 <= i,
            i <= d@.len() || i == 1,
            forall|a: int, b: int| 0 <= a < b < i && b < d@.len() ==> d@[a] < d@[b],
        decreases d.len() - i,
    {
        if d[i] <= d[i - 1] {
            assert(!(d@[i - 1] < d@[i as int]));
            return false;
        }
        assert forall|a: int, b: int| 0 <= a < b < i + 1 && b < d@.len() implies d@[a] < d@[b] by {
            if b == i && a < i - 1 {
                assert(d@[a] < d@[i - 1]);
            }
        }
        i = i + 1;
    }
    true
}

/// The differences of successive timestamps.
fn deltas(d: &VecDeque<u64>) -> (r: Vec<u64>)
    ensures
        r@ == step_deltas(d@),
{
    let mut r: Vec<u64> = Vec::new();
    if d.len() < STEP_MINIMUM {
        assert(r@ =~= step_deltas(d@));
        return r;
    }
    let mut i: usize = 1;
    while i < d.len()
        invariant
            1 <= i <= d@.len(),
            d@.len() >= STEP_MINIMUM,
            r@.len() == i - 1,
            forall|k: int| 0 <= k < i - 1 ==> r@[k] == #[trigger] step_deltas(d@)[k],
        decreases d.len() - i,
    {
        r.push(d[i].saturating_sub(d[i - 1]));
        i = i + 1;
    }
    assert(r@ =~= step_deltas(d@));
    r
}

/// The range of utilizations of several GPUs.
fn range_of(gpus: &Vec<GpuSnapshot>) -> (r: Option<UtilizationRange>)
    ensures
        r == utilization_range(gpus@),
{
    if gpus.len() <= 1 {
        return None;
    }
    let mut highest = F32::of(MINUS_INFINITY);
    let mut lowest = F32::of(PLUS_INFINITY);
    let mut i: usize = 0;
    while i < gpus.len()
        invariant
            i <= gpus@.len(),
            highest_from(gpus@, F32::of(MINUS_INFINITY), 0) == highest_from(
                gpus@,
                highest,
                i as int,
            ),
            lowest_from(gpus@, F32::of(PLUS_INFINITY), 0) == lowest_from(gpus@, lowest, i as int),
        decreases gpus.len() - i,
    {
        let u = gpus[i].sm_utilization.0;
        if highest.lt(u) {
            highest = u;
        }
        if u.lt(lowest) {
            lowest = u;
        }
        i = i + 1;
    }
    Some(UtilizationRange { highest, lowest })
}

/// Shows a sample among the GPUs.
fn show_gpu(gpus: &mut Vec<GpuSnapshot>, sample: RawSample, Ghost(history): Ghost<Seq<RawSample>>)
    requires
        shows_each_gpu(old(gpus)@, history),
    ensures
        shows_each_gpu(final(gpus)@, history.push(sample)),
{
    let shown = GpuSnapshot {
        gpu_index: sample.gpu_index,
        sm_utilization: sample.sm_utilization,
        vram_used_mib: sample.vram_used_mib,
        temperature: sample.temperature,
    };
    let ghost before = gpus@;
    let ghost all = history.push(sample);
    let mut i: usize = 0;
    while i < gpus.len() && gpus[i].gpu_index < sample.gpu_index
        invariant
            i <= gpus@.len(),
            gpus@ == before,
            forall|k: int| 0 <= k < i ==> (#[trigger] gpus@[k]).gpu_index < sample.gpu_index,
        decreases gpus.len() - i,
    {
        i = i + 1;
    }
    proof {
        assert(all.drop_last() =~= history);
        assert forall|g: u32| #[trigger]
            last_sample(all, g) == if g == sample.gpu_index {
                Some(sample)
            } else {
                last_sample(history, g)
            } by {}
    }
    if i < gpus.len() && gpus[i].gpu_index == sample.gpu_index {
        gpus.set(i, shown);
        proof {
            let after = gpus@;
            assert forall|k: int| 0 <= k < after.len() implies match last_sample(
                all,
                (#[trigger] after[k]).gpu_index,
            ) {
                Some(s) => after[k] == gpu_snapshot(s),
                None => false,
            } by {
                if k != i {
                    assert(after[k] == before[k]);
                    assert(before[k].gpu_index != before[i as int].gpu_index);
                }
            }
            assert forall|g: u32| #[trigger] last_sample(all, g) is Some implies exists|k: int|
                0 <= k < after.len() && (#[trigger] after[k]).gpu_index == g by {
                if g == sample.gpu_index {
                    assert(after[i as int].gpu_index == g);
                } else {
                    assert(last_sample(history, g) is Some);
                    let k = choose|k: int|
                        0 <= k < before.len() && (#[trigger] before[k]).gpu_index == g;
                    assert(after[k].gpu_index == g);
                }
            }
        }
    } else {
        gpus.insert(i, shown);
        proof {
            let after = gpus@;
            assert forall|k: int| 0 <= k < after.len() implies match last_sample(
                all,
                (#[trigger] after[k]).gpu_index,
            ) {
                Some(s) => after[k] == gpu_snapshot(s),
                None => false,
            } by {
                if k < i {
                    assert(after[k] == before[k]);
                } else if k > i {
                    assert(after[k] == before[k - 1]);
                    assert(before[i as int].gpu_index <= before[k - 1].gpu_index);
                }
            }
            assert forall|a: int, b: int| 0 <= a < b < after.len() implies (#[trigger]
            after[a]).gpu_index < (#[trigger] after[b]).gpu_index by {
                if b < i {
                    assert(after[a] == before[a] && after[b] == before[b]);
                } else if b == i {
                    assert(after[a] == before[a]);
                } else {
                    assert(after[b] == before[b - 1]);
                    if i < before.len() {
                        assert(before[i as int].gpu_index <= before[b - 1].gpu_index);
                    }
                    if a < i {
                        assert(after[a] == before[a]);
                    } else if a > i {
                        assert(after[a] == before[a - 1]);
                    }
                }
            }
            assert forall|g: u32| #[trigger] last_sample(all, g) is Some implies exists|k: int|
                0 <= k < after.len() && (#[trigger] after[k]).gpu_index == g by {
                if g == sample.gpu_index {
                    assert(after[i as int].gpu_index == g);
                } else {
                    assert(last_sample(history, g) is Some);
                    let k = choose|k: int|
                        0 <= k < before.len() && (#[trigger] before[k]).gpu_index == g;
                    if k < i {
                        assert(after[k].gpu_index == g);
                    } else {
                        assert(after[k + 1].gpu_index == g);
                    }
                }
            }
        }
    }
}

impl Aggregates {
    /// The samples taken in so far.
    pub closed spec fn history(&self) -> Seq<RawSample> {
        self.history@
    }

    /// The MFU buckets recorded so far.
    pub closed spec fn buckets(&self) -> Seq<u64> {
        self.buckets@
    }

    /// The MFU estimates concluded so far.
    pub closed spec fn mfus(&self) -> Seq<F32> {
        self.mfus@
    }

    /// The highest MFU seen.
    pub closed spec fn peak_mfu(&self) -> F32 {
        self.peak_mfu
    }

    /// The GPUs, as they are shown.
    pub closed spec fn gpus(&self) -> Seq<GpuSnapshot> {
        self.gpus@
    }

    /// Whether the aggregates are those of the samples taken in.
    pub closed spec fn well_formed(&self) -> bool {
        &&& self.window.well_formed()
        &&& self.window.capacity() == MAX_WINDOW_SIZE
        &&& self.window@ == window::last_of(self.history@, MAX_WINDOW_SIZE as int)
        &&& self.steps_observed == self.history@.len()
        &&& histogram::recorded(self.mfu_hist) == bucket_set(self.buckets@)
        &&& histogram::limit(self.mfu_hist) == MFU_LIMIT
        &&& self.buckets@.len() <= self.history@.len()
        &&& forall|i: int| 0 <= i < self.buckets@.len() ==> self.buckets@[i] <= MFU_TENTHS
        &&& self.peak_mfu == highest_mfu(self.mfus@)
        &&& self.peak_vram.0 == peak_vram(self.history@)
        &&& shows_each_gpu(self.gpus@, self.history@)
        &&& self.vram_history@ == window::last_of(
            vram_readings(self.history@),
            VRAM_RISING as int,
        )
        &&& self.step_timestamps@ == window::last_of(
            timestamps(self.history@),
            STEP_HISTORY as int,
        )
    }

    /// The aggregates of no sample.
    pub fn new() -> (r: Self)
        ensures
            r.well_formed(),
            r.history() == Seq::<RawSample>::empty(),
            r.buckets() == Seq::<u64>::empty(),
            r.mfus() == Seq::<F32>::empty(),
            r.peak_mfu() == F32::of(0),
    {
        let r = Aggregates {
            window: MetricsWindow::new(MAX_WINDOW_SIZE),
            steps_observed: 0,
            mfu_hist: histogram::new_histogram(MFU_TENTHS),
            peak_mfu: F32::of(0),
            peak_vram: Mib(0),
            gpus: Vec::new(),
            vram_history: VecDeque::new(),
            step_timestamps: VecDeque::new(),
            history: Ghost(Seq::empty()),
            buckets: Ghost(Seq::empty()),
            mfus: Ghost(Seq::empty()),
        };
        assert(vram_readings(r.history@) =~= Seq::empty());
        assert(timestamps(r.history@) =~= Seq::empty());
        r
    }

    /// Takes in a sample.
    fn take(&mut self, sample: RawSample)
        requires
            old(self).well_formed(),
            old(self).history().len() < u64::MAX,
        ensures
            final(self).well_formed(),
            final(self).history() == old(self).history().push(sample),
            final(self).buckets() == old(self).buckets(),
            final(self).mfus() == old(self).mfus(),
            final(self).peak_mfu() == old(self).peak_mfu(),
    {
        let ghost before = self.history@;
        let ghost after = before.push(sample);
        if sample.vram_used_mib.0 > self.peak_vram.0 {
            self.peak_vram = sample.vram_used_mib;
        }
        show_gpu(&mut self.gpus, sample, Ghost(before));
        self.window.push(sample);
        self.steps_observed = self.steps_observed + 1;
        push_recent(
            &mut self.vram_history,
            sample.vram_used_mib.0,
            VRAM_RISING,
            Ghost(vram_readings(before)),
        );
        push_recent(
            &mut self.step_timestamps,
            sample.timestamp_ms,
            STEP_HISTORY,
            Ghost(timestamps(before)),
        );
        self.history = Ghost(after);
        proof {
            window::law_window_is_last_pushed(before, sample, MAX_WINDOW_SIZE as nat);
            assert(after.drop_last() =~= before);
            assert(vram_readings(after) =~= vram_readings(before).push(sample.vram_used_mib.0));
            assert(timestamps(after) =~= timestamps(before).push(sample.timestamp_ms));
        }
    }

    /// Whether VRAM rose over the last eight readings.
    fn vram_growing(&self) -> (r: bool)
        requires
            self.well_formed(),
        ensures
            r == is_growing(self.history()),
    {
        self.vram_history.len() >= VRAM_RISING && all_rise(&self.vram_history)
    }
}

/// Whether VRAM use grows: the last eight readings rise at every step.
pub open spec fn is_growing(history: Seq<RawSample>) -> bool {
    let recent = window::last_of(vram_readings(history), VRAM_RISING as int);
    recent.len() >= VRAM_RISING && rises(recent)
}

/// Whether an observation is that of the last sample of a history.
pub open spec fn is_observation(
    o: Observation,
    history: Seq<RawSample>,
    gpus: Seq<GpuSnapshot>,
) -> bool {
    let recent = window::last_of(history, MAX_WINDOW_SIZE as int);
    &&& history.len() > 0
    &&& o.sample == history.last()
    &&& o.phases.counts(recent)
    &&& o.terms@ == recent.map_values(|s: RawSample| mfu::term_of(s))
    &&& o.step_deltas_ms@ == step_deltas(
        window::last_of(timestamps(history), STEP_HISTORY as int),
    )
    &&& o.range == utilization_range(gpus)
    &&& o.vram_capacity_mib == (if o.sample.vram_total_mib.0 == 0 {
        1
    } else {
        o.sample.vram_total_mib.0
    })
}

/// What the percentiles of a session are: none before there are enough samples.
pub open spec fn percentiles_of(steps: nat, buckets: Seq<u64>) -> Option<MfuPercentiles> {
    if steps >= MIN_RELIABLE_SAMPLES {
        Some(
            MfuPercentiles {
                p50_tenths: histogram::percentile(bucket_set(buckets), 50),
                p75_tenths: histogram::percentile(bucket_set(buckets), 75),
                p95_tenths: histogram::percentile(bucket_set(buckets), 95),
            },
        )
    } else {
        None
    }
}

/// What is shown of the cost, where one was given.
pub open spec fn cost_of(cost_per_hour: Option<F64>, f: Figures) -> Option<CostImpact> {
    match cost_per_hour {
        Some(c) => Some(
            CostImpact {
                cost_per_hour: c,
                current_cost_usd: c,
                target_cost_usd: f.target_cost_usd,
                waste_per_hour: f.waste_per_hour,
            },
        ),
        None => None,
    }
}

/// Whether a snapshot shows what a session has come to. `peak` is the highest MFU
/// before it, `buckets` are those recorded with it.
pub open spec fn is_snapshot(
    s: SessionSnapshot,
    name: Seq<char>,
    cost_per_hour: Option<F64>,
    nvml_available: bool,
    history: Seq<RawSample>,
    gpus: Seq<GpuSnapshot>,
    buckets: Seq<u64>,
    peak: F32,
    o: Observation,
    mfu: MfuEstimate,
    f: Figures,
) -> bool {
    let found = bottleneck::bottleneck_of(
        mfu.mfu_pct.0,
        f.breakdown,
        o.sample.throttle_thermal,
        f.avg_clock_pct,
    );
    &&& s.elapsed_ms == f.elapsed_ms
    &&& s.gpu_name@ == name
    &&& s.mfu == mfu
    &&& s.mfu_percentiles == percentiles_of(history.len(), buckets)
    &&& s.peak_mfu_pct == higher(peak, mfu.mfu_pct.0)
    &&& s.breakdown == f.breakdown
    &&& s.bottleneck == found
    &&& s.recommendation.title@ == recommendations::title_for(found)
    &&& s.recommendation.action@ == recommendations::action_for(found)
    &&& s.recommendation.expected_mfu_gain_ppt == recommendations::gain_for(
        found,
        f.data_loader_share,
    )
    &&& s.temperature == o.sample.temperature
    &&& s.power_draw == o.sample.power_draw
    &&& s.power_limit == o.sample.power_limit
    &&& s.throttle_thermal == o.sample.throttle_thermal
    &&& s.vram_used_mib == o.sample.vram_used_mib
    &&& s.vram_total_mib == o.sample.vram_total_mib
    &&& s.vram_utilization.0 == f.vram_pct.within(F32::of(0), F32::of(HUNDRED))
    &&& s.peak_vram_mib.0 == peak_vram(history)
    &&& s.cost_impact == cost_of(cost_per_hour, f)
    &&& s.per_gpu@ == gpus
    &&& s.steps_observed == history.len()
    &&& s.mfu_divergent == (gpus.len() > 1 && F32::of(TWENTY).below(f.spread_ppt))
    &&& s.gpu_mfu_divergence_ppt == (if gpus.len() > 1 {
        f.spread_ppt
    } else {
        F32::of(0)
    })
    &&& s.nvml_available == nvml_available
    &&& s.vram_growing == is_growing(history)
    &&& s.step_time_ms_mean == (if has_step_times(history) {
        f.step_mean_ms
    } else {
        F32::of(0)
    })
    &&& s.step_time_erratic == (has_step_times(history) && F64::of(ERRATIC_CV).below(f.step_cv))
}

/// The higher of a peak and another MFU.
pub open spec fn higher(peak: F32, mfu: F32) -> F32 {
    if peak.below(mfu) {
        mfu
    } else {
        peak
    }
}

/// The highest of a run of MFU estimates; zero where none is above it.
pub open spec fn highest_mfu(mfus: Seq<F32>) -> F32
    decreases mfus.len(),
{
    if mfus.len() == 0 {
        F32::of(0)
    } else {
        higher(highest_mfu(mfus.drop_last()), mfus.last())
    }
}

/// Whether there are enough timestamps for step timing.
pub open spec fn has_step_times(history: Seq<RawSample>) -> bool {
    history.len() >= STEP_MINIMUM
}

/// Drives the aggregation of samples as a typestate machine.
///
/// Transitions: `Initializing → Sampling → Done`.
pub struct MonitoringSession<S> {
    pub pid: u32,
    pub gpu_spec: GpuSpec,
    pub cost_per_hour: Option<F64>,
    /// Whether NVML was available at startup.
    pub nvml_available: bool,
    pub aggregates: Aggregates,
    pub latest: Option<SessionSnapshot>,
    pub stage: PhantomData<S>,
}

impl MonitoringSession<Initializing> {
    /// A session for a process on a GPU.
    pub fn new(
        pid: u32,
        gpu_spec: GpuSpec,
        cost_per_hour: Option<F64>,
        nvml_available: bool,
    ) -> (r: Self)
        ensures
            r.pid == pid,
            r.gpu_spec == gpu_spec,
            r.cost_per_hour == cost_per_hour,
            r.nvml_available == nvml_available,
            r.aggregates.well_formed(),
            r.aggregates.history() == Seq::<RawSample>::empty(),
            r.aggregates.buckets() == Seq::<u64>::empty(),
            r.aggregates.mfus() == Seq::<F32>::empty(),
            r.aggregates.peak_mfu() == F32::of(0),
            r.latest is None,
    {
        MonitoringSession {
            pid,
            gpu_spec,
            cost_per_hour,
            nvml_available,
            aggregates: Aggregates::new(),
            latest: None,
            stage: PhantomData,
        }
    }

    /// Begins to sample.
    pub fn start(self) -> (r: MonitoringSession<Sampling>)
        ensures
            r.pid == self.pid,
            r.gpu_spec == self.gpu_spec,
            r.cost_per_hour == self.cost_per_hour,
            r.nvml_available == self.nvml_available,
            r.aggregates == self.aggregates,
            r.latest == self.latest,
    {
        MonitoringSession {
            pid: self.pid,
            gpu_spec: self.gpu_spec,
            cost_per_hour: self.cost_per_hour,
            nvml_available: self.nvml_available,
            aggregates: self.aggregates,
            latest: self.latest,
            stage: PhantomData,
        }
    }
}

/// What came of waiting for a sample.
#[derive(Clone, Copy, Debug, PartialEq, Eq, Structural)]
pub enum Received {
    Sample,
    Timeout,
    Disconnected,
}

/// Whether the sampling loop goes on.
pub open spec fn samples_on(stop: bool, received: Received) -> bool {
    !stop && received != Received::Disconnected
}

/// Whether the sampling loop goes on. It ends when it is told to stop, and when the
/// collector is gone because the training process exited.
pub fn goes_on(stop: bool, received: Received) -> (r: bool)
    ensures
        r == samples_on(stop, received),
{
    if stop {
        return false;
    }
    match received {
        Received::Disconnected => false,
        _ => true,
    }
}

impl MonitoringSession<Sampling> {
    /// Takes in a sample, and hands out what is to be averaged.
    pub fn observe(&mut self, sample: RawSample) -> (r: Observation)
        requires
            old(self).aggregates.well_formed(),
            old(self).aggregates.history().len() < u64::MAX,
        ensures
            final(self).aggregates.well_formed(),
            final(self).aggregates.history() == old(self).aggregates.history().push(sample),
            final(self).aggregates.buckets() == old(self).aggregates.buckets(),
            final(self).aggregates.mfus() == old(self).aggregates.mfus(),
            final(self).aggregates.peak_mfu() == old(self).aggregates.peak_mfu(),
            shows_each_gpu(
                final(self).aggregates.gpus(),
                old(self).aggregates.history().push(sample),
            ),
            is_observation(
                r,
                old(self).aggregates.history().push(sample),
                final(self).aggregates.gpus(),
            ),
            final(self).pid == old(self).pid,
            final(self).gpu_spec == old(self).gpu_spec,
            final(self).cost_per_hour == old(self).cost_per_hour,
            final(self).nvml_available == old(self).nvml_available,
            final(self).latest == old(self).latest,
    {
        self.aggregates.take(sample);
        let phases = TimeBreakdownInferrer::infer(&self.aggregates.window);
        let terms = mfu::clock_terms(&self.aggregates.window);
        let step_deltas_ms = deltas(&self.aggregates.step_timestamps);
        let range = range_of(&self.aggregates.gpus);
        let vram_capacity_mib: u64 = if sample.vram_total_mib.0 == 0 {
            1
        } else {
            sample.vram_total_mib.0
        };
        Observation { sample, phases, terms, step_deltas_ms, range, vram_capacity_mib }
    }

    /// The MFU estimate for the window, given its averages.
    pub fn estimate(&self, figures: MfuFigures) -> (r: MfuEstimate)
        requires
            self.aggregates.well_formed(),
        ensures
            r == mfu::estimate(
                self.gpu_spec,
                window::last_of(self.aggregates.history(), MAX_WINDOW_SIZE as int),
                figures,
            ),
    {
        let calculator = MfuCalculator::new(&self.gpu_spec);
        calculator.compute(&self.aggregates.window, figures)
    }

    /// Makes the snapshot of an observation the latest one.
    pub fn conclude(&mut self, o: Observation, mfu: MfuEstimate, f: Figures)
        requires
            old(self).aggregates.well_formed(),
            old(self).aggregates.buckets().len() < old(self).aggregates.history().len(),
            f.mfu_tenths <= MFU_TENTHS,
        ensures
            final(self).aggregates.well_formed(),
            final(self).aggregates.history() == old(self).aggregates.history(),
            final(self).aggregates.buckets() == old(self).aggregates.buckets().push(f.mfu_tenths),
            final(self).aggregates.gpus() == old(self).aggregates.gpus(),
            final(self).aggregates.mfus() == old(self).aggregates.mfus().push(mfu.mfu_pct.0),
            final(self).aggregates.peak_mfu() == highest_mfu(final(self).aggregates.mfus()),
            old(self).aggregates.peak_mfu().at_most(final(self).aggregates.peak_mfu()),
            final(self).pid == old(self).pid,
            final(self).gpu_spec == old(self).gpu_spec,
            final(self).cost_per_hour == old(self).cost_per_hour,
            final(self).nvml_available == old(self).nvml_available,
            final(self).latest matches Some(s) && is_snapshot(
                s,
                old(self).gpu_spec.name@,
                old(self).cost_per_hour,
                old(self).nvml_available,
                old(self).aggregates.history(),
                old(self).aggregates.gpus(),
                old(self).aggregates.buckets().push(f.mfu_tenths),
                old(self).aggregates.peak_mfu(),
                o,
                mfu,
                f,
            ) && final(self).aggregates.peak_mfu() == s.peak_mfu_pct && (
            s.mfu_percentiles matches Some(p) ==> are_recorded(
                p,
                old(self).aggregates.buckets().push(f.mfu_tenths),
            ) && (old(self).aggregates.buckets().len() < 0x100_0000_0000 ==> are_ranked(
                p,
                old(self).aggregates.buckets().push(f.mfu_tenths),
            ))),
    {
        let ghost before = self.aggregates.buckets@;
        let ghost after = before.push(f.mfu_tenths);
        proof {
            lemma_bucket_set_len(before);
            lemma_bucket_set_len(after);
            assert(after.drop_last() =~= before);
            assert(self.aggregates.steps_observed == self.aggregates.history@.len());
        }
        let _ = histogram::record(&mut self.aggregates.mfu_hist, f.mfu_tenths);
        self.aggregates.buckets = Ghost(after);
        proof {
            let mfus = self.aggregates.mfus@;
            law_peak_mfu_is_highest(mfus);
            assert(mfus.push(mfu.mfu_pct.0).drop_last() =~= mfus);
        }
        self.aggregates.mfus = Ghost(self.aggregates.mfus@.push(mfu.mfu_pct.0));
        if mfu.mfu_pct.0.gt(self.aggregates.peak_mfu) {
            self.aggregates.peak_mfu = mfu.mfu_pct.0;
        }
        let mfu_percentiles = if self.aggregates.steps_observed >= MIN_RELIABLE_SAMPLES as u64 {
            let p50_tenths: u64 = histogram::value_at(&self.aggregates.mfu_hist, 50);
            let p75_tenths: u64 = histogram::value_at(&self.aggregates.mfu_hist, 75);
            let p95_tenths: u64 = histogram::value_at(&self.aggregates.mfu_hist, 95);
            proof {
                lemma_shown_bucket(after, p50_tenths);
                lemma_shown_bucket(after, p75_tenths);
                lemma_shown_bucket(after, p95_tenths);
                if before.len() < 0x100_0000_0000 {
                    lemma_bucket_at(after, 50, p50_tenths);
                    lemma_bucket_at(after, 75, p75_tenths);
                    lemma_bucket_at(after, 95, p95_tenths);
                }
            }
            Some(MfuPercentiles { p50_tenths, p75_tenths, p95_tenths })
        } else {
            None
        };
        let found = BottleneckDetector::detect(
            &mfu,
            &f.breakdown,
            o.sample.throttle_thermal,
            o.sample.throttle_power,
            f.avg_clock_pct,
        );
        let recommendation = RecommendationEngine::recommend(&found, f.data_loader_share);
        let cost_impact = match self.cost_per_hour {
            Some(c) => Some(
                CostImpact {
                    cost_per_hour: c,
                    current_cost_usd: c,
                    target_cost_usd: f.target_cost_usd,
                    waste_per_hour: f.waste_per_hour,
                },
            ),
            None => None,
        };
        let many = self.aggregates.gpus.len() > 1;
        let timed = self.aggregates.step_timestamps.len() >= STEP_MINIMUM;
        let vram_growing = self.aggregates.vram_growing();
        let snapshot = SessionSnapshot {
            elapsed_ms: f.elapsed_ms,
            gpu_name: self.gpu_spec.name.clone(),
            mfu,
            mfu_percentiles,
            peak_mfu_pct: self.aggregates.peak_mfu,
            breakdown: f.breakdown,
            bottleneck: found,
            recommendation,
            temperature: o.sample.temperature,
            power_draw: o.sample.power_draw,
            power_limit: o.sample.power_limit,
            throttle_thermal: o.sample.throttle_thermal,
            vram_used_mib: o.sample.vram_used_mib,
            vram_total_mib: o.sample.vram_total_mib,
            vram_utilization: Percent::clamped(f.vram_pct),
            peak_vram_mib: self.aggregates.peak_vram,
            cost_impact,
            per_gpu: copy_gpus(&self.aggregates.gpus),
            steps_observed: self.aggregates.steps_observed,
            mfu_divergent: many && f.spread_ppt.gt(F32::of(TWENTY)),
            gpu_mfu_divergence_ppt: if many {
                f.spread_ppt
            } else {
                F32::of(0)
            },
            nvml_available: self.nvml_available,
            vram_growing,
            step_time_ms_mean: if timed {
                f.step_mean_ms
            } else {
                F32::of(0)
            },
            step_time_erratic: timed && f.step_cv.gt(F64::of(ERRATIC_CV)),
        };
        self.latest = Some(snapshot);
    }

    /// Ends the session.
    pub fn finish(self) -> (r: MonitoringSession<Done>)
        ensures
            r.pid == self.pid,
            r.gpu_spec == self.gpu_spec,
            r.cost_per_hour == self.cost_per_hour,
            r.nvml_available == self.nvml_available,
            r.aggregates == self.aggregates,
            r.latest == self.latest,
    {
        MonitoringSession {
            pid: self.pid,
            gpu_spec: self.gpu_spec,
            cost_per_hour: self.cost_per_hour,
            nvml_available: self.nvml_available,
            aggregates: self.aggregates,
            latest: self.latest,
            stage: PhantomData,
        }
    }
}

/// A copy of what is shown of the GPUs.
fn copy_gpus(gpus: &Vec<GpuSnapshot>) -> (r: Vec<GpuSnapshot>)
    ensures
        r@ == gpus@,
{
    let mut r: Vec<GpuSnapshot> = Vec::new();
    let mut i: usize = 0;
    while i < gpus.len()
        invariant
            i <= gpus@.len(),
            r@ == gpus@.take(i as int),
        decreases gpus.len() - i,
    {
        r.push(gpus[i]);
        i = i + 1;
    }
    r
}

impl MonitoringSession<Done> {
    /// The final snapshot, if any samples were processed.
    pub fn final_snapshot(&self) -> (r: Option<&SessionSnapshot>)
        ensures
            match r {
                Some(s) => self.latest == Some(*s),
                None => self.latest is None,
            },
    {
        match &self.latest {
            Some(s) => Some(s),
            None => None,
        }
    }
}

/// No MFU estimate lies above the peak, and the peak is zero or an estimate.
pub proof fn law_peak_mfu_is_highest(mfus: Seq<F32>)
    ensures
        F32::of(0).at_most(highest_mfu(mfus)),
        forall|i: int|
            0 <= i < mfus.len() && !mfus[i].not_a_number() ==> (#[trigger] mfus[i]).at_most(
                highest_mfu(mfus),
            ),
        highest_mfu(mfus) == F32::of(0) || mfus.contains(highest_mfu(mfus)),
    decreases mfus.len(),
{
    if mfus.len() > 0 {
        let before = mfus.drop_last();
        law_peak_mfu_is_highest(before);
        assert forall|i: int| 0 <= i < mfus.len() && !mfus[i].not_a_number() implies (
        #[trigger] mfus[i]).at_most(highest_mfu(mfus)) by {
            if i < before.len() {
                assert(before[i].at_most(highest_mfu(before)));
            }
        }
        if highest_mfu(before).below(mfus.last()) {
            assert(mfus[mfus.len() - 1] == highest_mfu(mfus));
        } else if before.contains(highest_mfu(before)) {
            let i = choose|i: int| 0 <= i < before.len() && before[i] == highest_mfu(before);
            assert(mfus[i] == highest_mfu(mfus));
        }
    }
}

/// The peak MFU never falls as further estimates are concluded.
pub proof fn law_peak_mfu_never_falls(earlier: Seq<F32>, later: Seq<F32>)
    requires
        earlier.is_prefix_of(later),
    ensures
        highest_mfu(earlier).at_most(highest_mfu(later)),
    decreases later.len(),
{
    law_peak_mfu_is_highest(later);
    if earlier.len() < later.len() {
        assert(earlier.is_prefix_of(later.drop_last()));
        law_peak_mfu_never_falls(earlier, later.drop_last());
    } else {
        assert(earlier =~= later);
    }
}

/// No VRAM reading lies above the peak, and the peak is zero or a reading.
pub proof fn law_peak_vram_is_highest(history: Seq<RawSample>)
    ensures
        forall|i: int|
            0 <= i < history.len() ==> (#[trigger] history[i]).vram_used_mib.0 <= peak_vram(history),
        peak_vram(history) == 0 || exists|i: int|
            0 <= i < history.len() && (#[trigger] history[i]).vram_used_mib.0 == peak_vram(history),
    decreases history.len(),
{
    if history.len() > 0 {
        let h = history.drop_last();
        law_peak_vram_is_highest(h);
        assert forall|i: int| 0 <= i < history.len() implies (
        #[trigger] history[i]).vram_used_mib.0 <= peak_vram(history) by {
            if i < h.len() {
                assert(h[i].vram_used_mib.0 <= peak_vram(h));
            }
        }
        if peak_vram(history) != 0 {
            if history.last().vram_used_mib.0 > peak_vram(h) {
                assert(history[history.len() - 1].vram_used_mib.0 == peak_vram(history));
            } else {
                let i = choose|i: int|
                    0 <= i < h.len() && (#[trigger] h[i]).vram_used_mib.0 == peak_vram(h);
                assert(history[i].vram_used_mib.0 == peak_vram(history));
            }
        }
    }
}

/// A session over one GPU shows one GPU, so it is never flagged as divergent.
pub proof fn law_single_gpu_never_diverges(
    gpus: Seq<GpuSnapshot>,
    history: Seq<RawSample>,
    gpu: u32,
)
    requires
        shows_each_gpu(gpus, history),
        forall|i: int| 0 <= i < history.len() ==> (#[trigger] history[i]).gpu_index == gpu,
    ensures
        gpus.len() <= 1,
        utilization_range(gpus) is None,
{
    assert forall|i: int| 0 <= i < gpus.len() implies (#[trigger] gpus[i]).gpu_index == gpu by {
        lemma_last_sample(history, gpus[i].gpu_index);
    }
    if gpus.len() > 1 {
        assert(gpus[0].gpu_index < gpus[1].gpu_index);
    }
}

/// The last sample of a GPU is a sample of that GPU.
proof fn lemma_last_sample(history: Seq<RawSample>, gpu: u32)
    ensures
        last_sample(history, gpu) matches Some(s) ==> s.gpu_index == gpu && exists|i: int|
            0 <= i < history.len() && history[i] == s,
    decreases history.len(),
{
    if history.len() > 0 {
        if history.last().gpu_index == gpu {
            assert(history[history.len() - 1] == history.last());
        } else {
            lemma_last_sample(history.drop_last(), gpu);
            if last_sample(history, gpu) is Some {
                let s = last_sample(history, gpu)->0;
                let i = choose|i: int|
                    0 <= i < history.drop_last().len() && history.drop_last()[i] == s;
                assert(history[i] == s);
            }
        }
    }
}

/// Whether a GPU is among those shown.
pub open spec fn is_shown(gpus: Seq<GpuSnapshot>, gpu: u32) -> bool {
    exists|i: int| 0 <= i < gpus.len() && (#[trigger] gpus[i]).gpu_index == gpu
}

/// Whether the GPUs shown are in the order of their indices.
pub open spec fn in_order(gpus: Seq<GpuSnapshot>) -> bool {
    forall|i: int, j: int|
        0 <= i < j < gpus.len() ==> (#[trigger] gpus[i]).gpu_index < (#[trigger] gpus[j]).gpu_index
}

proof fn lemma_same_indices(a: Seq<GpuSnapshot>, b: Seq<GpuSnapshot>)
    requires
        in_order(a),
        in_order(b),
        forall|g: u32| #[trigger] is_shown(a, g) <==> is_shown(b, g),
    ensures
        a.len() == b.len(),
        forall|i: int| 0 <= i < a.len() ==> (#[trigger] a[i]).gpu_index == b[i].gpu_index,
    decreases a.len(),
{
    if a.len() == 0 {
        if b.len() > 0 {
            assert(is_shown(b, b[0].gpu_index));
            assert(is_shown(a, b[0].gpu_index));
        }
    } else {
        let m = a.last().gpu_index;
        assert(a[a.len() - 1].gpu_index == m);
        assert(is_shown(a, m));
        assert(is_shown(b, m));
        let j = choose|j: int| 0 <= j < b.len() && (#[trigger] b[j]).gpu_index == m;
        let n = b.last().gpu_index;
        assert(b[b.len() - 1].gpu_index == n);
        assert(is_shown(b, n));
        assert(is_shown(a, n));
        let i = choose|i: int| 0 <= i < a.len() && (#[trigger] a[i]).gpu_index == n;
        assert(n <= m);
        assert(m <= n);
        let x = a.drop_last();
        let y = b.drop_last();
        assert forall|g: u32| #[trigger] is_shown(x, g) <==> is_shown(y, g) by {
            if is_shown(x, g) {
                let k = choose|k: int| 0 <= k < x.len() && (#[trigger] x[k]).gpu_index == g;
                assert(a[k].gpu_index == g);
                assert(a[k].gpu_index < a[a.len() - 1].gpu_index);
                assert(is_shown(a, g));
                assert(is_shown(b, g));
                let l = choose|l: int| 0 <= l < b.len() && (#[trigger] b[l]).gpu_index == g;
                assert(y[l].gpu_index == g);
            }
            if is_shown(y, g) {
                let k = choose|k: int| 0 <= k < y.len() && (#[trigger] y[k]).gpu_index == g;
                assert(b[k].gpu_index == g);
                assert(b[k].gpu_index < b[b.len() - 1].gpu_index);
                assert(is_shown(b, g));
                assert(is_shown(a, g));
                let l = choose|l: int| 0 <= l < a.len() && (#[trigger] a[l]).gpu_index == g;
                assert(x[l].gpu_index == g);
            }
        }
        lemma_same_indices(x, y);
        assert forall|i: int| 0 <= i < a.len() implies (#[trigger] a[i]).gpu_index
            == b[i].gpu_index by {
            if i < a.len() - 1 {
                assert(x[i].gpu_index == y[i].gpu_index);
            }
        }
    }
}

/// What is shown of the GPUs depends on the samples alone.
pub proof fn law_shown_gpus_are_determined(
    a: Seq<GpuSnapshot>,
    b: Seq<GpuSnapshot>,
    history: Seq<RawSample>,
)
    requires
        shows_each_gpu(a, history),
        shows_each_gpu(b, history),
    ensures
        a == b,
{
    assert forall|g: u32| #[trigger] is_shown(a, g) <==> is_shown(b, g) by {
        if is_shown(a, g) {
            let i = choose|i: int| 0 <= i < a.len() && (#[trigger] a[i]).gpu_index == g;
            assert(last_sample(history, a[i].gpu_index) is Some);
        }
        if is_shown(b, g) {
            let i = choose|i: int| 0 <= i < b.len() && (#[trigger] b[i]).gpu_index == g;
            assert(last_sample(history, b[i].gpu_index) is Some);
        }
    }
    lemma_same_indices(a, b);
    assert forall|i: int| 0 <= i < a.len() implies a[i] == b[i] by {
        assert(a[i].gpu_index == b[i].gpu_index);
    }
    assert(a =~= b);
}

/// VRAM growth is reported of exactly those sessions that have eight samples or
/// more and whose last eight readings rise at every step.
pub proof fn law_growth_is_eight_rising_readings(history: Seq<RawSample>)
    ensures
        is_growing(history) <==> history.len() >= VRAM_RISING && forall|i: int|
            history.len() - VRAM_RISING < i < history.len() ==> history[i - 1].vram_used_mib.0 < (
            #[trigger] history[i]).vram_used_mib.0,
{
    let all = vram_readings(history);
    let recent = window::last_of(all, VRAM_RISING as int);
    let skipped = all.len() - recent.len();
    if is_growing(history) {
        assert forall|i: int| history.len() - VRAM_RISING < i < history.len() implies history[i
            - 1].vram_used_mib.0 < (#[trigger] history[i]).vram_used_mib.0 by {
            assert(recent[i - 1 - skipped] == all[i - 1]);
            assert(recent[i - skipped] == all[i]);
        }
    } else if history.len() >= VRAM_RISING && forall|i: int|
        history.len() - VRAM_RISING < i < history.len() ==> history[i - 1].vram_used_mib.0 < (
        #[trigger] history[i]).vram_used_mib.0 {
        assert forall|i: int, j: int| 0 <= i < j < recent.len() implies recent[i] < recent[j] by {
            lemma_rises_between(history, skipped + i, skipped + j);
        }
    }
}

proof fn lemma_rises_between(history: Seq<RawSample>, i: int, j: int)
    requires
        0 <= i < j < history.len(),
        forall|k: int|
            i < k <= j ==> history[k - 1].vram_used_mib.0 < (
            #[trigger] history[k]).vram_used_mib.0,
    ensures
        history[i].vram_used_mib.0 < history[j].vram_used_mib.0,
    decreases j - i,
{
    if i < j - 1 {
        lemma_rises_between(history, i, j - 1);
    }
    assert(history[j - 1].vram_used_mib.0 < history[j].vram_used_mib.0);
}

/// A multiset of buckets has as many of a kind as the run of buckets.
proof fn lemma_bucket_filter(buckets: Seq<u64>, f: spec_fn(u64) -> bool)
    ensures
        bucket_set(buckets).filter(f).len() == buckets.filter(f).len(),
    decreases buckets.len(),
{
    reveal(Seq::filter);
    if buckets.len() > 0 {
        let before = bucket_set(buckets.drop_last());
        let x = buckets.last();
        lemma_bucket_filter(buckets.drop_last(), f);
        if f(x) {
            assert(before.insert(x).filter(f) =~= before.filter(f).insert(x));
        } else {
            assert(before.insert(x).filter(f) =~= before.filter(f));
        }
    } else {
        assert(bucket_set(buckets).filter(f) =~= Multiset::empty());
    }
}

/// Half of the estimates are at most the median and less than half below it; three
/// quarters and nineteen twentieths likewise for the two higher percentiles.
pub proof fn law_percentiles_have_their_rank(p: MfuPercentiles, buckets: Seq<u64>)
    requires
        are_ranked(p, buckets),
    ensures
        2 * buckets.filter(|v: u64| v <= p.p50_tenths).len() >= buckets.len(),
        2 * buckets.filter(|v: u64| v < p.p50_tenths).len() < buckets.len(),
        4 * buckets.filter(|v: u64| v <= p.p75_tenths).len() >= 3 * buckets.len(),
        4 * buckets.filter(|v: u64| v < p.p75_tenths).len() < 3 * buckets.len(),
        20 * buckets.filter(|v: u64| v <= p.p95_tenths).len() >= 19 * buckets.len(),
        20 * buckets.filter(|v: u64| v < p.p95_tenths).len() < 19 * buckets.len(),
{
    lemma_bucket_filter(buckets, |v: u64| v <= p.p50_tenths);
    lemma_bucket_filter(buckets, |v: u64| v < p.p50_tenths);
    lemma_bucket_filter(buckets, |v: u64| v <= p.p75_tenths);
    lemma_bucket_filter(buckets, |v: u64| v < p.p75_tenths);
    lemma_bucket_filter(buckets, |v: u64| v <= p.p95_tenths);
    lemma_bucket_filter(buckets, |v: u64| v < p.p95_tenths);
}

proof fn lemma_range_bounds(gpus: Seq<GpuSnapshot>, high: F32, low: F32, i: int)
    requires
        0 <= i <= gpus.len(),
        !high.not_a_number(),
        !low.not_a_number(),
    ensures
        high.at_most(highest_from(gpus, high, i)),
        lowest_from(gpus, low, i).at_most(low),
        forall|k: int|
            i <= k < gpus.len() && !gpus[k].sm_utilization.0.not_a_number() ==> (
            #[trigger] gpus[k]).sm_utilization.0.at_most(highest_from(gpus, high, i))
                && lowest_from(gpus, low, i).at_most(gpus[k].sm_utilization.0),
        highest_from(gpus, high, i) == high || exists|k: int|
            i <= k < gpus.len() && (#[trigger] gpus[k]).sm_utilization.0 == highest_from(
                gpus,
                high,
                i,
            ),
        lowest_from(gpus, low, i) == low || exists|k: int|
            i <= k < gpus.len() && (#[trigger] gpus[k]).sm_utilization.0 == lowest_from(gpus, low, i),
    decreases gpus.len() - i,
{
    if i < gpus.len() {
        let u = gpus[i].sm_utilization.0;
        let h = if high.below(u) {
            u
        } else {
            high
        };
        let l = if u.below(low) {
            u
        } else {
            low
        };
        lemma_range_bounds(gpus, h, l, i + 1);
    }
}

/// The range of several GPUs reaches from the lowest utilization to the highest: no
/// GPU lies outside it, and both ends are those of a GPU. One GPU has no range.
pub proof fn law_range_spans_the_gpus(gpus: Seq<GpuSnapshot>)
    requires
        forall|k: int|
            0 <= k < gpus.len() ==> F32::of(0).at_most((#[trigger] gpus[k]).sm_utilization.0)
                && gpus[k].sm_utilization.0.at_most(F32::of(0x42c8_0000)),
    ensures
        utilization_range(gpus) is None <==> gpus.len() <= 1,
        utilization_range(gpus) matches Some(r) ==> {
            &&& forall|k: int|
                0 <= k < gpus.len() ==> r.lowest.at_most((#[trigger] gpus[k]).sm_utilization.0)
                    && gpus[k].sm_utilization.0.at_most(r.highest)
            &&& exists|k: int|
                0 <= k < gpus.len() && (#[trigger] gpus[k]).sm_utilization.0 == r.highest
            &&& exists|k: int|
                0 <= k < gpus.len() && (#[trigger] gpus[k]).sm_utilization.0 == r.lowest
        },
{
    if gpus.len() > 1 {
        lemma_range_bounds(gpus, F32::of(0xff80_0000), F32::of(0x7f80_0000), 0);
        assert(gpus[0].sm_utilization.0.at_most(F32::of(0x42c8_0000)));
    }
}

/// From five timestamps on, each interval leads from one timestamp to the next; before
/// that there are none.
pub proof fn law_intervals_join_the_timestamps(stamps: Seq<u64>, i: int)
    requires
        0 <= i < stamps.len() - 1,
        stamps[i] <= stamps[i + 1],
    ensures
        stamps.len() < 5 ==> step_deltas(stamps).len() == 0,
        stamps.len() >= 5 ==> step_deltas(stamps).len() == stamps.len() - 1 && stamps[i]
            + step_deltas(stamps)[i] == stamps[i + 1],
{
}

/// An observation is that of the last sample. Its window is the last 150 samples, its
/// intervals those of the last 30 timestamps.
pub proof fn law_observations_look_back(
    o: Observation,
    history: Seq<RawSample>,
    gpus: Seq<GpuSnapshot>,
)
    requires
        is_observation(o, history, gpus),
        history.len() >= 150,
    ensures
        o.sample == history[history.len() - 1],
        o.phases.counts(history.skip(history.len() - 150)),
        o.terms@.len() == 150,
        forall|i: int|
            0 <= i < 150 ==> (#[trigger] o.terms@[i]) == mfu::term_of(
                history[history.len() - 150 + i],
            ),
        o.step_deltas_ms@.len() == 29,
        forall|i: int|
            0 <= i < 29 && history[history.len() - 30 + i].timestamp_ms <= history[history.len() - 29
                + i].timestamp_ms ==> history[history.len() - 30 + i].timestamp_ms + (
            #[trigger] o.step_deltas_ms@[i]) == history[history.len() - 29 + i].timestamp_ms,
        o.vram_capacity_mib > 0,
        o.sample.vram_total_mib.0 > 0 ==> o.vram_capacity_mib == o.sample.vram_total_mib.0,
{
    let stamps = timestamps(history);
    let recent = window::last_of(stamps, 30);
    assert(window::last_of(history, 150) =~= history.skip(history.len() - 150));
    assert forall|i: int| 0 <= i < 30 implies #[trigger] recent[i] == history[history.len() - 30
        + i].timestamp_ms by {}
}

/// An early observation looks at all samples.
pub proof fn law_early_observations_see_all(
    o: Observation,
    history: Seq<RawSample>,
    gpus: Seq<GpuSnapshot>,
)
    requires
        is_observation(o, history, gpus),
        history.len() <= 150,
    ensures
        o.phases.counts(history),
        o.terms@.len() == history.len(),
        forall|i: int|
            0 <= i < history.len() ==> (#[trigger] o.terms@[i]) == mfu::term_of(history[i]),
{
}

/// A snapshot shows the last sample as it was measured, counts all samples, and shows
/// the highest VRAM reading of all.
pub proof fn law_snapshots_show_the_last_sample(
    s: SessionSnapshot,
    name: Seq<char>,
    cost_per_hour: Option<F64>,
    nvml_available: bool,
    history: Seq<RawSample>,
    gpus: Seq<GpuSnapshot>,
    buckets: Seq<u64>,
    peak: F32,
    o: Observation,
    mfu: MfuEstimate,
    f: Figures,
)
    requires
        is_snapshot(
            s,
            name,
            cost_per_hour,
            nvml_available,
            history,
            gpus,
            buckets,
            peak,
            o,
            mfu,
            f,
        ),
        is_observation(o, history, gpus),
    ensures
        s.gpu_name@ == name,
        s.mfu == mfu,
        s.elapsed_ms == f.elapsed_ms,
        s.breakdown == f.breakdown,
        s.steps_observed == history.len(),
        s.temperature == history[history.len() - 1].temperature,
        s.power_draw == history[history.len() - 1].power_draw,
        s.power_limit == history[history.len() - 1].power_limit,
        s.throttle_thermal == history[history.len() - 1].throttle_thermal,
        s.vram_used_mib == history[history.len() - 1].vram_used_mib,
        s.vram_total_mib == history[history.len() - 1].vram_total_mib,
        s.per_gpu@ == gpus,
        s.nvml_available == nvml_available,
        forall|i: int|
            0 <= i < history.len() ==> (#[trigger] history[i]).vram_used_mib.0
                <= s.peak_vram_mib.0,
        s.peak_vram_mib.0 > 0 ==> exists|i: int|
            0 <= i < history.len() && (#[trigger] history[i]).vram_used_mib.0 == s.peak_vram_mib.0,
        !peak.not_a_number() ==> peak.at_most(s.peak_mfu_pct) && (!mfu.mfu_pct.0.not_a_number()
            ==> mfu.mfu_pct.0.at_most(s.peak_mfu_pct)),
        F32::of(0).at_most(f.vram_pct) && f.vram_pct.at_most(F32::of(0x42c8_0000))
            ==> s.vram_utilization.0 == f.vram_pct,
{
    law_peak_vram_is_highest(history);
}

/// What a snapshot warns of: divergence above 20 points where there are several GPUs,
/// eight rising VRAM readings, and step times that vary by more than 0.3 from the fifth
/// sample on. Percentiles come with the fifteenth sample, costs with an hourly price.
pub proof fn law_snapshots_warn(
    s: SessionSnapshot,
    name: Seq<char>,
    cost_per_hour: Option<F64>,
    nvml_available: bool,
    history: Seq<RawSample>,
    gpus: Seq<GpuSnapshot>,
    buckets: Seq<u64>,
    peak: F32,
    o: Observation,
    mfu: MfuEstimate,
    f: Figures,
)
    requires
        is_snapshot(
            s,
            name,
            cost_per_hour,
            nvml_available,
            history,
            gpus,
            buckets,
            peak,
            o,
            mfu,
            f,
        ),
    ensures
        s.mfu_divergent <==> gpus.len() > 1 && F32::of(0x41a0_0000).below(f.spread_ppt),
        gpus.len() > 1 ==> s.gpu_mfu_divergence_ppt == f.spread_ppt,
        gpus.len() <= 1 ==> s.gpu_mfu_divergence_ppt == F32::of(0),
        s.vram_growing <==> history.len() >= 8 && forall|i: int|
            history.len() - 8 < i < history.len() ==> history[i - 1].vram_used_mib.0 < (
            #[trigger] history[i]).vram_used_mib.0,
        history.len() < 5 ==> s.step_time_ms_mean == F32::of(0) && !s.step_time_erratic,
        history.len() >= 5 ==> s.step_time_ms_mean == f.step_mean_ms && (s.step_time_erratic
            <==> F64::of(0x3fd3_3333_3333_3333).below(f.step_cv)),
        s.mfu_percentiles is Some <==> history.len() >= 15,
        s.cost_impact is Some <==> cost_per_hour is Some,
        s.cost_impact matches Some(c) ==> Some(c.cost_per_hour) == cost_per_hour
            && c.current_cost_usd == c.cost_per_hour && c.target_cost_usd == f.target_cost_usd
            && c.waste_per_hour == f.waste_per_hour,
{
    law_growth_is_eight_rising_readings(history);
}

/// What a snapshot names as the bottleneck follows from its own figures: throttling
/// first, then the data loader above 15, whatever the MFU is.
pub proof fn law_snapshots_name_the_bottleneck(
    s: SessionSnapshot,
    name: Seq<char>,
    cost_per_hour: Option<F64>,
    nvml_available: bool,
    history: Seq<RawSample>,
    gpus: Seq<GpuSnapshot>,
    buckets: Seq<u64>,
    peak: F32,
    o: Observation,
    mfu: MfuEstimate,
    f: Figures,
)
    requires
        is_snapshot(
            s,
            name,
            cost_per_hour,
            nvml_available,
            history,
            gpus,
            buckets,
            peak,
            o,
            mfu,
            f,
        ),
    ensures
        s.bottleneck == bottleneck::Bottleneck::ThermalThrottle <==> o.sample.throttle_thermal,
        s.bottleneck == bottleneck::Bottleneck::DataLoader <==> !o.sample.throttle_thermal
            && F32::of(0x4170_0000).below(s.breakdown.data_loader_pct),
        s.bottleneck == bottleneck::Bottleneck::CudaSync ==> F32::of(0x4100_0000).below(
            s.breakdown.cuda_sync_pct,
        ),
        s.bottleneck == bottleneck::Bottleneck::MemoryFragmentation ==> F32::of(0x4120_0000).below(
            s.breakdown.memory_alloc_pct,
        ),
        s.bottleneck == bottleneck::Bottleneck::ClockUnderspeed ==> f.avg_clock_pct.below(
            F32::of(0x42aa_0000),
        ),
        s.bottleneck == bottleneck::Bottleneck::BelowTargetMfu ==> s.mfu.mfu_pct.0.below(
            F32::of(0x4234_0000),
        ),
        s.recommendation.title@ == recommendations::title_for(s.bottleneck),
        s.recommendation.action@ == recommendations::action_for(s.bottleneck),
        s.recommendation.expected_mfu_gain_ppt == recommendations::gain_for(
            s.bottleneck,
            f.data_loader_share,
        ),
{
}

/// Each GPU that was sampled is shown exactly once, with the figures of its last sample.
pub proof fn law_gpus_are_shown_by_their_last_sample(
    gpus: Seq<GpuSnapshot>,
    history: Seq<RawSample>,
    k: int,
)
    requires
        shows_each_gpu(gpus, history),
        0 <= k < history.len(),
        forall|j: int| k < j < history.len() ==> (#[trigger] history[j]).gpu_index
            != history[k].gpu_index,
    ensures
        exists|i: int|
            0 <= i < gpus.len() && (#[trigger] gpus[i]).gpu_index == history[k].gpu_index
                && gpus[i].sm_utilization == history[k].sm_utilization && gpus[i].vram_used_mib
                == history[k].vram_used_mib && gpus[i].temperature == history[k].temperature,
{
    lemma_last_of_gpu(history, k);
    let g = history[k].gpu_index;
    let i = choose|i: int| 0 <= i < gpus.len() && (#[trigger] gpus[i]).gpu_index == g;
    assert(gpus[i] == gpu_snapshot(history[k]));
}

proof fn lemma_last_of_gpu(history: Seq<RawSample>, k: int)
    requires
        0 <= k < history.len(),
        forall|j: int| k < j < history.len() ==> (#[trigger] history[j]).gpu_index
            != history[k].gpu_index,
    ensures
        last_sample(history, history[k].gpu_index) == Some(history[k]),
    decreases history.len(),
{
    if k < history.len() - 1 {
        let h = history.drop_last();
        assert(history[history.len() - 1].gpu_index != history[k].gpu_index);
        assert forall|j: int| k < j < h.len() implies (#[trigger] h[j]).gpu_index
            != h[k].gpu_index by {
            assert(history[j].gpu_index != history[k].gpu_index);
        }
        lemma_last_of_gpu(h, k);
    }
}

/// The loop goes on after a sample and after a wait without one, unless it is told to stop;
/// without a collector it ends.
pub proof fn law_sampling_ends_with_the_collector(stop: bool)
    ensures
        samples_on(stop, Received::Sample) <==> !stop,
        samples_on(stop, Received::Timeout) <==> !stop,
        !samples_on(stop, Received::Disconnected),
{
}

/// The percentiles of a session are the 50th, the 75th and the 95th of what was recorded,
/// from the fifteenth sample on.
pub proof fn law_percentiles_are_of_what_was_recorded(steps: nat, buckets: Seq<u64>)
    ensures
        steps < 15 ==> percentiles_of(steps, buckets) is None,
        steps >= 15 ==> (percentiles_of(steps, buckets) matches Some(p) && p.p50_tenths
            == histogram::percentile(buckets.to_multiset(), 50) && p.p75_tenths
            == histogram::percentile(buckets.to_multiset(), 75) && p.p95_tenths
            == histogram::percentile(buckets.to_multiset(), 95)),
{
    lemma_bucket_set(buckets);
}

/// The set of buckets holds each as often as the run does.
proof fn lemma_bucket_set(buckets: Seq<u64>)
    ensures
        bucket_set(buckets) == buckets.to_multiset(),
    decreases buckets.len(),
{
    buckets.to_multiset_ensures();
    if buckets.len() > 0 {
        let before = buckets.drop_last();
        lemma_bucket_set(before);
        before.to_multiset_ensures();
        assert(buckets =~= before.push(buckets.last()));
    } else {
        assert(bucket_set(buckets) =~= buckets.to_multiset());
    }
}

/// Every GPU of which there was a sample is shown, and no other; they are shown by rising
/// index.
pub proof fn law_every_gpu_is_shown(gpus: Seq<GpuSnapshot>, history: Seq<RawSample>, g: u32)
    requires
        shows_each_gpu(gpus, history),
    ensures
        last_sample(history, g) is Some <==> exists|i: int|
            0 <= i < gpus.len() && (#[trigger] gpus[i]).gpu_index == g,
        forall|i: int, j: int|
            0 <= i < j < gpus.len() ==> (#[trigger] gpus[i]).gpu_index < (
            #[trigger] gpus[j]).gpu_index,
{
    if exists|i: int| 0 <= i < gpus.len() && (#[trigger] gpus[i]).gpu_index == g {
        let i = choose|i: int| 0 <= i < gpus.len() && (#[trigger] gpus[i]).gpu_index == g;
        assert(last_sample(history, gpus[i].gpu_index) is Some);
    }
}

} // verus!
