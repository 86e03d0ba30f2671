//! How step time is distributed over the phases of a training loop.
use vstd::prelude::*;

use crate::collectors::RawSample;
use crate::float::F32;
use crate::metrics::window::MetricsWindow;

verus! {

/// How time is distributed across the five observable training-loop phases, in
/// percent.
///
/// Values are inferred from the correlation between GPU SM utilization and CPU
/// utilization.
#[derive(Clone, Copy, Debug, PartialEq, Eq, Structural)]
pub struct TimeBreakdown {
    /// Time the GPU was doing forward/backward pass math.
    pub forward_backward_pct: F32,
    /// Time the GPU was idle waiting for the data loader to deliver a batch.
    pub data_loader_pct: F32,
    /// Time lost to CUDA synchronization (`.item()` calls, scalar logging, etc.).
    pub cuda_sync_pct: F32,
    /// Time lost to memory allocation/deallocation inside the training loop.
    pub memory_alloc_pct: F32,
    /// Time in the optimizer step.
    pub optimizer_pct: F32,
}

/// Classification of a single raw sample into a training-loop phase.
#[derive(Clone, Copy, Debug, PartialEq, Eq, Structural)]
pub enum TimeSlot {
    ForwardBackward,
    DataLoader,
    CudaSync,
    MemoryAlloc,
    Optimizer,
}

/// How many samples of a window fall into each phase. Each percentage of a
/// [`TimeBreakdown`] is one of the counts over their sum.
#[derive(Clone, Copy, Debug, PartialEq, Eq, Structural)]
pub struct PhaseCounts {
    pub forward_backward: usize,
    pub data_loader: usize,
    pub cuda_sync: usize,
    pub memory_alloc: usize,
    pub optimizer: usize,
}

/// The bits of 10 in single precision.
pub const TEN: u32 = 0x4120_0000;

/// The bits of 15 in single precision.
pub const FIFTEEN: u32 = 0x4170_0000;

/// The bits of 30 in single precision.
pub const THIRTY: u32 = 0x41f0_0000;

/// The bits of 60 in single precision.
pub const SIXTY: u32 = 0x4270_0000;

/// The bits of 80 in single precision.
pub const EIGHTY: u32 = 0x42a0_0000;

/// The phase that utilization figures indicate.
///
/// Priority order matters: a sample can only be in one slot.
///
/// | SM util | CPU %  | Classification             |
/// |---------|--------|----------------------------|
/// | >60%    | any    | forward/backward           |
/// | <15%    | >30%   | data loader waiting        |
/// | <15%    | <10%   | CUDA sync overhead         |
/// | any     | any, memory controller >80% | memory alloc |
/// | else    | any    | optimizer step             |
pub open spec fn slot_for(sm_util: F32, cpu_pct: F32, mem_util: F32) -> TimeSlot {
    if F32::of(SIXTY).below(sm_util) {
        TimeSlot::ForwardBackward
    } else if sm_util.below(F32::of(FIFTEEN)) && F32::of(THIRTY).below(cpu_pct) {
        TimeSlot::DataLoader
    } else if sm_util.below(F32::of(FIFTEEN)) && cpu_pct.below(F32::of(TEN)) {
        TimeSlot::CudaSync
    } else if F32::of(EIGHTY).below(mem_util) {
        TimeSlot::MemoryAlloc
    } else {
        TimeSlot::Optimizer
    }
}

/// Classifies one sample into a time slot using observable proxy metrics.
pub fn classify_sample(sm_util: F32, cpu_pct: F32, mem_util: F32) -> (r: TimeSlot)
    ensures
        r == slot_for(sm_util, cpu_pct, mem_util),
{
    if sm_util.gt(F32::of(SIXTY)) {
        return TimeSlot::ForwardBackward;
    }
    if sm_util.lt(F32::of(FIFTEEN)) && cpu_pct.gt(F32::of(THIRTY)) {
        return TimeSlot::DataLoader;
    }
    if sm_util.lt(F32::of(FIFTEEN)) && cpu_pct.lt(F32::of(TEN)) {
        return TimeSlot::CudaSync;
    }
    // High memory controller utilization with mid-range SM: memory-bound op
    // (common during gradient checkpointing or large embedding lookups).
    if mem_util.gt(F32::of(EIGHTY)) {
        return TimeSlot::MemoryAlloc;
    }
    // Residual: mid-range SM and low CPU, an optimizer step.
    TimeSlot::Optimizer
}

/// The phase of a sample.
pub open spec fn slot_of(s: RawSample) -> TimeSlot {
    slot_for(s.sm_utilization.0, s.cpu_utilization.0, s.mem_utilization.0)
}

/// How many samples are in a phase.
pub open spec fn slot_count(s: Seq<RawSample>, slot: TimeSlot) -> nat
    decreases s.len(),
{
    if s.len() == 0 {
        0
    } else {
        slot_count(s.drop_last(), slot) + if slot_of(s.last()) == slot {
            1nat
        } else {
            0
        }
    }
}

impl PhaseCounts {
    /// Whether these are the counts of the given samples.
    pub open spec fn counts(self, s: Seq<RawSample>) -> bool {
        &&& self.forward_backward == slot_count(s, TimeSlot::ForwardBackward)
        &&& self.data_loader == slot_count(s, TimeSlot::DataLoader)
        &&& self.cuda_sync == slot_count(s, TimeSlot::CudaSync)
        &&& self.memory_alloc == slot_count(s, TimeSlot::MemoryAlloc)
        &&& self.optimizer == slot_count(s, TimeSlot::Optimizer)
    }
}

/// Every sample is in exactly one phase, so the counts sum to the number of
/// samples and the percentages to the whole.
pub proof fn law_phases_partition(s: Seq<RawSample>)
    ensures
        slot_count(s, TimeSlot::ForwardBackward) + slot_count(s, TimeSlot::DataLoader) + slot_count(
            s,
            TimeSlot::CudaSync,
        ) + slot_count(s, TimeSlot::MemoryAlloc) + slot_count(s, TimeSlot::Optimizer) == s.len(),
    decreases s.len(),
{
    if s.len() > 0 {
        law_phases_partition(s.drop_last());
    }
}

/// Classifies the samples of a window and counts them by phase.
///
/// The classification is *correlation-based*, not direct instrumentation.
pub struct TimeBreakdownInferrer;

impl TimeBreakdownInferrer {
    /// The counts of a window.
    pub fn infer(window: &MetricsWindow) -> (r: PhaseCounts)
        ensures
            r.counts(window@),
            r.forward_backward + r.data_loader + r.cuda_sync + r.memory_alloc + r.optimizer
                == window@.len(),
    {
        let mut c = PhaseCounts {
            forward_backward: 0,
            data_loader: 0,
            cuda_sync: 0,
            memory_alloc: 0,
            optimizer: 0,
        };
        let n: usize = window.len();
        let mut i: usize = 0;
        while i < n
            invariant
                n == window@.len(),
                i <= n,
                c.counts(window@.take(i as int)),
                c.forward_backward + c.data_loader + c.cuda_sync + c.memory_alloc + c.optimizer == i,
            decreases n - i,
        {
            let s = window.get(i);
            assert(window@.take(i + 1).drop_last() =~= window@.take(i as int));
            match classify_sample(s.sm_utilization.0, s.cpu_utilization.0, s.mem_utilization.0) {
                TimeSlot::ForwardBackward => c.forward_backward = c.forward_backward + 1,
                TimeSlot::DataLoader => c.data_loader = c.data_loader + 1,
                TimeSlot::CudaSync => c.cuda_sync = c.cuda_sync + 1,
                TimeSlot::MemoryAlloc => c.memory_alloc = c.memory_alloc + 1,
                TimeSlot::Optimizer => c.optimizer = c.optimizer + 1,
            }
            i = i + 1;
        }
        assert(window@.take(n as int) =~= window@);
        c
    }
}

/// A sample is forward/backward time exactly when its SM utilization is above 60,
/// whatever the CPU and the memory controller do.
pub proof fn law_busy_samples_are_math(sm_util: F32, cpu_pct: F32, mem_util: F32)
    ensures
        slot_for(sm_util, cpu_pct, mem_util) == TimeSlot::ForwardBackward <==> F32::of(
            0x4270_0000,
        ).below(sm_util),
{
}

/// On an idle GPU, with an SM utilization under 15, the CPU decides: above 30 the GPU
/// waits for data, under 10 it waits for synchronization. Neither is reported
/// otherwise.
pub proof fn law_idle_samples_go_by_the_cpu(sm_util: F32, cpu_pct: F32, mem_util: F32)
    ensures
        slot_for(sm_util, cpu_pct, mem_util) == TimeSlot::DataLoader <==> sm_util.below(
            F32::of(0x4170_0000),
        ) && F32::of(0x41f0_0000).below(cpu_pct),
        slot_for(sm_util, cpu_pct, mem_util) == TimeSlot::CudaSync <==> sm_util.below(
            F32::of(0x4170_0000),
        ) && cpu_pct.below(F32::of(0x4120_0000)),
{
}

/// Where neither SM utilization nor an idle GPU decides, a memory controller above 80
/// makes the difference between allocation and the optimizer step.
pub proof fn law_other_samples_go_by_the_memory(sm_util: F32, cpu_pct: F32, mem_util: F32)
    requires
        !sm_util.not_a_number(),
        sm_util.at_most(F32::of(0x4270_0000)),
        F32::of(0x4170_0000).at_most(sm_util) || (F32::of(0x4120_0000).at_most(cpu_pct)
            && cpu_pct.at_most(F32::of(0x41f0_0000))),
    ensures
        F32::of(0x42a0_0000).below(mem_util) ==> slot_for(sm_util, cpu_pct, mem_util)
            == TimeSlot::MemoryAlloc,
        !F32::of(0x42a0_0000).below(mem_util) ==> slot_for(sm_util, cpu_pct, mem_util)
            == TimeSlot::Optimizer,
{
}

/// A phase is counted once for each of its samples.
proof fn lemma_slots_are_filtered(s: Seq<RawSample>, slot: TimeSlot)
    ensures
        slot_count(s, slot) == s.filter(|x: RawSample| slot_of(x) == slot).len(),
    decreases s.len(),
{
    reveal(Seq::filter);
    if s.len() > 0 {
        lemma_slots_are_filtered(s.drop_last(), slot);
    }
}

/// The samples that satisfy equivalent conditions are the same.
proof fn lemma_same_filter(
    s: Seq<RawSample>,
    p: spec_fn(RawSample) -> bool,
    q: spec_fn(RawSample) -> bool,
)
    requires
        forall|x: RawSample| #[trigger] p(x) == q(x),
    ensures
        s.filter(p) == s.filter(q),
    decreases s.len(),
{
    reveal(Seq::filter);
    if s.len() > 0 {
        lemma_same_filter(s.drop_last(), p, q);
        assert(p(s.last()) == q(s.last()));
    }
}

/// The counts of a window are those of its samples that are busy, that starve while the
/// CPU works, and that idle while the CPU does too; allocation and the optimizer share
/// the others, and of these the first has those that keep the memory controller busy.
pub proof fn law_counts_tell_the_samples_apart(c: PhaseCounts, s: Seq<RawSample>)
    requires
        c.counts(s),
    ensures
        c.forward_backward == s.filter(
            |x: RawSample| F32::of(0x4270_0000).below(x.sm_utilization.0),
        ).len(),
        c.data_loader == s.filter(
            |x: RawSample|
                x.sm_utilization.0.below(F32::of(0x4170_0000)) && F32::of(0x41f0_0000).below(
                    x.cpu_utilization.0,
                ),
        ).len(),
        c.cuda_sync == s.filter(
            |x: RawSample|
                x.sm_utilization.0.below(F32::of(0x4170_0000)) && x.cpu_utilization.0.below(
                    F32::of(0x4120_0000),
                ),
        ).len(),
        c.memory_alloc + c.optimizer == s.len() - c.forward_backward - c.data_loader - c.cuda_sync,
        c.memory_alloc <= s.filter(
            |x: RawSample| F32::of(0x42a0_0000).below(x.mem_utilization.0),
        ).len(),
        c.optimizer <= s.filter(
            |x: RawSample| !F32::of(0x42a0_0000).below(x.mem_utilization.0),
        ).len(),
{
    law_phases_partition(s);
    let fb = |x: RawSample| F32::of(0x4270_0000).below(x.sm_utilization.0);
    lemma_slots_are_filtered(s, TimeSlot::ForwardBackward);
    lemma_same_filter(s, |x: RawSample| slot_of(x) == TimeSlot::ForwardBackward, fb);
    let dl = |x: RawSample|
        x.sm_utilization.0.below(F32::of(0x4170_0000)) && F32::of(0x41f0_0000).below(
            x.cpu_utilization.0,
        );
    lemma_slots_are_filtered(s, TimeSlot::DataLoader);
    lemma_same_filter(s, |x: RawSample| slot_of(x) == TimeSlot::DataLoader, dl);
    let cs = |x: RawSample|
        x.sm_utilization.0.below(F32::of(0x4170_0000)) && x.cpu_utilization.0.below(
            F32::of(0x4120_0000),
        );
    lemma_slots_are_filtered(s, TimeSlot::CudaSync);
    lemma_same_filter(s, |x: RawSample| slot_of(x) == TimeSlot::CudaSync, cs);
    lemma_memory_slots(s);
}

proof fn lemma_memory_slots(s: Seq<RawSample>)
    ensures
        slot_count(s, TimeSlot::MemoryAlloc) <= s.filter(
            |x: RawSample| F32::of(0x42a0_0000).below(x.mem_utilization.0),
        ).len(),
        slot_count(s, TimeSlot::Optimizer) <= s.filter(
            |x: RawSample| !F32::of(0x42a0_0000).below(x.mem_utilization.0),
        ).len(),
    decreases s.len(),
{
    reveal(Seq::filter);
    if s.len() > 0 {
        lemma_memory_slots(s.drop_last());
    }
}

/// A window of busy samples is forward/backward time and nothing else.
pub proof fn law_busy_windows_are_math(c: PhaseCounts, s: Seq<RawSample>)
    requires
        c.counts(s),
        forall|i: int|
            0 <= i < s.len() ==> F32::of(0x4270_0000).below((#[trigger] s[i]).sm_utilization.0),
    ensures
        c.forward_backward == s.len(),
        c.data_loader == 0,
        c.cuda_sync == 0,
        c.memory_alloc == 0,
        c.optimizer == 0,
    decreases s.len(),
{
    if s.len() > 0 {
        lemma_busy_samples(s);
    }
    law_phases_partition(s);
}

proof fn lemma_busy_samples(s: Seq<RawSample>)
    requires
        forall|i: int|
            0 <= i < s.len() ==> F32::of(0x4270_0000).below((#[trigger] s[i]).sm_utilization.0),
    ensures
        slot_count(s, TimeSlot::ForwardBackward) == s.len(),
    decreases s.len(),
{
    if s.len() > 0 {
        assert forall|i: int| 0 <= i < s.drop_last().len() implies F32::of(0x4270_0000).below(
            (#[trigger] s.drop_last()[i]).sm_utilization.0,
        ) by {
            assert(s[i] == s.drop_last()[i]);
        }
        lemma_busy_samples(s.drop_last());
        assert(s[s.len() - 1] == s.last());
    }
}

} // verus!
