//! Model FLOP utilization.
use vstd::prelude::*;

use crate::collectors::RawSample;
use crate::float::{F32, F64};
use crate::gpu_specs::GpuSpec;
use crate::metrics::units::{Percent, Tflops, HUNDRED};
use crate::metrics::window::{MetricsWindow, MIN_RELIABLE_SAMPLES};

verus! {

/// The computed MFU estimate for the current window.
#[derive(Clone, Copy, Debug, PartialEq, Eq, Structural)]
pub struct MfuEstimate {
    /// Model FLOP Utilization as a percentage (0–100).
    pub mfu_pct: Percent,
    /// Estimated actual TFLOPS being used for training math.
    pub actual_tflops: Tflops,
    /// GPU's theoretical peak (from spec DB).
    pub peak_tflops: Tflops,
    /// Confidence level: `Low` when fewer than [`MIN_RELIABLE_SAMPLES`] are available.
    pub confidence: Confidence,
}

/// How reliable the MFU estimate is.
#[derive(Clone, Copy, Debug, PartialEq, Eq, Structural)]
pub enum Confidence {
    /// Enough samples for reliable statistics (≥15 samples).
    High,
    /// Fewer than 15 samples: the value is approximate.
    Low,
}

/// What one sample contributes to the averages: its SM utilization, and its
/// clock as a fraction of the boost clock.
#[derive(Clone, Copy, Debug, PartialEq, Eq, Structural)]
pub struct ClockTerm {
    pub sm_utilization: F32,
    pub clock: u32,
    pub boost: u32,
}

/// The averages of a window: the share of peak compute that was delivered, in
/// percent, and the same in TFLOPS.
#[derive(Clone, Copy, Debug, PartialEq, Eq, Structural)]
pub struct MfuFigures {
    pub actual_pct: F32,
    pub actual_tflops: F64,
}

/// The term of a sample. Where the boost clock is unknown the GPU is taken to
/// run at it.
pub open spec fn term_of(s: RawSample) -> ClockTerm {
    if s.sm_clock_max_mhz.0 > 0 {
        ClockTerm {
            sm_utilization: s.sm_utilization.0,
            clock: s.sm_clock_mhz.0,
            boost: s.sm_clock_max_mhz.0,
        }
    } else {
        ClockTerm { sm_utilization: s.sm_utilization.0, clock: 1, boost: 1 }
    }
}

/// The terms of a window; each sample contributes equally. No boost clock in them
/// is zero.
pub fn clock_terms(window: &MetricsWindow) -> (r: Vec<ClockTerm>)
    ensures
        r@ == window@.map_values(|s: RawSample| term_of(s)),
        forall|i: int| 0 <= i < r@.len() ==> (#[trigger] r@[i]).boost > 0,
        forall|i: int|
            0 <= i < r@.len() && window@[i].sm_clock_max_mhz.0 > 0 ==> (#[trigger] r@[i]).clock
                * window@[i].sm_clock_max_mhz.0 == window@[i].sm_clock_mhz.0 * r@[i].boost,
{
    let mut r: Vec<ClockTerm> = Vec::new();
    let n: usize = window.len();
    let mut i: usize = 0;
    while i < n
        invariant
            n == window@.len(),
            i <= n,
            r@ == window@.take(i as int).map_values(|s: RawSample| term_of(s)),
        decreases n - i,
    {
        let s = window.get(i);
        if s.sm_clock_max_mhz.0 > 0 {
            r.push(
                ClockTerm {
                    sm_utilization: s.sm_utilization.0,
                    clock: s.sm_clock_mhz.0,
                    boost: s.sm_clock_max_mhz.0,
                },
            );
        } else {
            r.push(ClockTerm { sm_utilization: s.sm_utilization.0, clock: 1, boost: 1 });
        }
        assert(r@ =~= window@.take(i + 1).map_values(|s: RawSample| term_of(s)));
        i = i + 1;
    }
    assert(window@.take(n as int) =~= window@);
    r
}

/// Calculates MFU from the metrics window and GPU specification.
///
/// ## Formula
/// ```text
/// clock_ratio   = current_sm_clock / boost_sm_clock
/// actual_pct    = average sm_utilization * average clock_ratio   (0–100)
/// mfu_pct       = actual_pct
/// actual_tflops = (actual_pct / 100) * peak_tflops
/// ```
///
/// SM utilization tells "what fraction of SMs are active", the clock ratio "at
/// what fraction of peak frequency". Their product is the fraction of peak
/// compute being delivered to the kernel.
///
/// This is an *external* approximation: the ground-truth MFU would require
/// counting FLOPs from inside the model.
pub struct MfuCalculator<'a> {
    pub spec: &'a GpuSpec,
}

/// The estimate for a window with the given averages.
pub open spec fn estimate(
    gpu: GpuSpec,
    samples: Seq<RawSample>,
    figures: MfuFigures,
) -> MfuEstimate {
    if samples.len() == 0 {
        MfuEstimate {
            mfu_pct: Percent(F32::of(0)),
            actual_tflops: Tflops(F64::of(0)),
            peak_tflops: Tflops(gpu.bf16_tflops),
            confidence: Confidence::Low,
        }
    } else {
        MfuEstimate {
            mfu_pct: Percent(figures.actual_pct.within(F32::of(0), F32::of(HUNDRED))),
            actual_tflops: Tflops(figures.actual_tflops),
            peak_tflops: Tflops(gpu.bf16_tflops),
            confidence: if samples.len() >= MIN_RELIABLE_SAMPLES {
                Confidence::High
            } else {
                Confidence::Low
            },
        }
    }
}

impl<'a> MfuCalculator<'a> {
    /// A calculator for one GPU model.
    pub fn new(spec: &'a GpuSpec) -> (r: Self)
        ensures
            r.spec == spec,
    {
        MfuCalculator { spec }
    }

    /// The estimate for a window, given the averages of its terms.
    pub fn compute(&self, window: &MetricsWindow, figures: MfuFigures) -> (r: MfuEstimate)
        ensures
            r == estimate(*self.spec, window@, figures),
    {
        if window.is_empty() {
            return MfuEstimate {
                mfu_pct: Percent(F32::of(0)),
                actual_tflops: Tflops(F64::of(0)),
                peak_tflops: Tflops(self.spec.bf16_tflops),
                confidence: Confidence::Low,
            };
        }
        let confidence = if window.is_reliable() {
            Confidence::High
        } else {
            Confidence::Low
        };
        MfuEstimate {
            mfu_pct: Percent::clamped(figures.actual_pct),
            actual_tflops: Tflops(figures.actual_tflops),
            peak_tflops: Tflops(self.spec.bf16_tflops),
            confidence,
        }
    }
}

/// The ratio of a term is that of the sample's clock to its boost clock, and one where
/// the boost clock is unknown; the utilization of a term is that of its sample.
pub proof fn law_terms_keep_the_clock_ratio(s: RawSample)
    ensures
        term_of(s).boost > 0,
        s.sm_clock_max_mhz.0 > 0 ==> term_of(s).clock * s.sm_clock_max_mhz.0 == s.sm_clock_mhz.0
            * term_of(s).boost,
        s.sm_clock_max_mhz.0 == 0 ==> term_of(s).clock == term_of(s).boost,
        term_of(s).sm_utilization == s.sm_utilization.0,
{
}

/// Doubling both clocks of a sample leaves the ratio of its term as it is, and halving
/// the clock alone halves it.
pub proof fn law_terms_scale_with_the_clock(s: RawSample, half: RawSample)
    requires
        s.sm_clock_max_mhz.0 > 0,
        half.sm_clock_max_mhz == s.sm_clock_max_mhz,
        2 * half.sm_clock_mhz.0 == s.sm_clock_mhz.0,
    ensures
        2 * (term_of(half).clock * term_of(s).boost) == term_of(s).clock * term_of(half).boost,
{
    let c = half.sm_clock_mhz.0 as int;
    let m = s.sm_clock_max_mhz.0 as int;
    assert(2 * (c * m) == (2 * c) * m) by (nonlinear_arith);
}

/// An estimate is measured against the bf16 peak of the GPU. It is zero for no samples;
/// otherwise it is the delivered share, brought between 0 and 100, and is trusted from
/// fifteen samples on.
pub proof fn law_estimates_go_by_the_window(
    gpu: GpuSpec,
    samples: Seq<RawSample>,
    figures: MfuFigures,
)
    ensures
        estimate(gpu, samples, figures).peak_tflops.0 == gpu.bf16_tflops,
        (estimate(gpu, samples, figures).confidence == Confidence::High) == (samples.len() >= 15),
        samples.len() == 0 ==> estimate(gpu, samples, figures).mfu_pct.0 == F32::of(0)
            && estimate(gpu, samples, figures).actual_tflops.0 == F64::of(0),
        samples.len() > 0 ==> estimate(gpu, samples, figures).actual_tflops.0
            == figures.actual_tflops,
        samples.len() > 0 && F32::of(0).at_most(figures.actual_pct) && figures.actual_pct.at_most(
            F32::of(0x42c8_0000),
        ) ==> estimate(gpu, samples, figures).mfu_pct.0 == figures.actual_pct,
        samples.len() > 0 && figures.actual_pct.below(F32::of(0)) ==> estimate(
            gpu,
            samples,
            figures,
        ).mfu_pct.0 == F32::of(0),
        samples.len() > 0 && F32::of(0x42c8_0000).below(figures.actual_pct) ==> estimate(
            gpu,
            samples,
            figures,
        ).mfu_pct.0 == F32::of(0x42c8_0000),
{
}

} // verus!
