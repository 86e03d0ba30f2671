//! The work of a training run and the rate at which a GPU does it.
use vstd::arithmetic::overflow::CheckedU128;
use vstd::prelude::*;

use crate::float::F64;
use crate::gpu_specs;
use crate::gpu_specs::fallback::FallbackRepository;
use crate::gpu_specs::SpecsRepository;
use crate::plan::model::ModelSpec;

verus! {

/// The bits of 0.30, the MFU that is taken where none was measured.
pub const DEFAULT_MFU: u64 = 0x3fd3_3333_3333_3333;

/// The bits of 0.01, the lowest MFU that is reckoned with.
pub const LOWEST_MFU: u64 = 0x3f84_7ae1_47ae_147b;

/// The bits of 1, the highest MFU that is reckoned with.
pub const HIGHEST_MFU: u64 = 0x3ff0_0000_0000_0000;

/// The MFU that is reckoned with.
pub open spec fn mfu_used(measured: Option<F64>) -> F64 {
    let mfu = match measured {
        Some(m) => m,
        None => F64::of(DEFAULT_MFU),
    };
    mfu.within(F64::of(LOWEST_MFU), F64::of(HIGHEST_MFU))
}

/// The MFU that is reckoned with: the measured one, or 0.30, brought between 0.01
/// and 1.
pub fn effective_mfu(measured: Option<F64>) -> (r: F64)
    ensures
        r == mfu_used(measured),
{
    let mfu = match measured {
        Some(m) => m,
        None => F64::of(DEFAULT_MFU),
    };
    mfu.clamp(F64::of(LOWEST_MFU), F64::of(HIGHEST_MFU))
}

/// A measured number is reckoned with as one between 0.01 and 1.
pub proof fn law_mfu_is_a_share(measured: Option<F64>)
    requires
        measured matches Some(m) ==> !m.not_a_number(),
    ensures
        F64::of(LOWEST_MFU).at_most(mfu_used(measured)),
        mfu_used(measured).at_most(F64::of(HIGHEST_MFU)),
{
}

/// Steps in an epoch: the batches that the rows make, the last one maybe partly
/// filled.
pub open spec fn steps_per_epoch(rows: nat, batch_size: nat) -> nat {
    (rows + batch_size - 1) as nat / batch_size
}

/// The FLOPs of a run: six per parameter and row of a batch in every step.
pub open spec fn total_flops(params: nat, rows: nat, batch_size: nat, epochs: nat) -> nat {
    6 * params * batch_size * (steps_per_epoch(rows, batch_size) * epochs)
}

/// The work scales with the number of epochs.
pub proof fn law_epochs_scale_the_work(
    params: nat,
    rows: nat,
    batch_size: nat,
    epochs: nat,
    times: nat,
)
    ensures
        total_flops(params, rows, batch_size, times * epochs) == times * total_flops(
            params,
            rows,
            batch_size,
            epochs,
        ),
{
    let f = 6 * params * batch_size;
    let s = steps_per_epoch(rows, batch_size);
    assert(f * (s * (times * epochs)) == times * (f * (s * epochs))) by (nonlinear_arith);
}

/// An epoch has just enough steps for its rows.
pub proof fn law_steps_cover_the_rows(rows: nat, batch_size: nat)
    requires
        batch_size > 0,
    ensures
        steps_per_epoch(rows, batch_size) * batch_size >= rows,
        rows > 0 ==> (steps_per_epoch(rows, batch_size) - 1) * batch_size < rows,
{
    let n = (rows + batch_size - 1) as nat;
    let s = n / batch_size;
    assert(n == batch_size * s + n % batch_size) by {
        vstd::arithmetic::div_mod::lemma_fundamental_div_mod(n as int, batch_size as int);
    }
    assert(n % batch_size < batch_size) by {
        vstd::arithmetic::div_mod::lemma_mod_bound(n as int, batch_size as int);
    }
    assert(s * batch_size == batch_size * s) by (nonlinear_arith);
    assert((s - 1) * batch_size == batch_size * s - batch_size) by (nonlinear_arith);
}

/// The low end of a duration, in percent of the quotient: a GPU slightly above average
/// MFU.
pub const LOW_PERCENT: u32 = 80;

/// The high end of a duration, in percent of the quotient: data-loading stalls,
/// scheduling overhead, cold starts.
pub const HIGH_PERCENT: u32 = 150;

/// What a duration follows from: `flops / (tflops × 10^12 × mfu)` seconds. It ranges
/// from [`LOW_PERCENT`] to [`HIGH_PERCENT`] of that.
#[derive(Clone, Copy, Debug, PartialEq, Eq, Structural)]
pub struct TrainingWork {
    /// The FLOPs of the whole run.
    pub flops: u128,
    /// The peak rate of the GPU.
    pub peak_tflops: F64,
    /// The share of it that is reached.
    pub mfu: F64,
}

/// Whether a GPU with the given peak rate makes any progress.
pub open spec fn makes_progress(peak_tflops: F64, mfu: F64) -> bool {
    mfu.not_a_number() || !peak_tflops.at_most(F64::of(0))
}

/// What is known of the work of a run on the GPU with `gpu`, if any, as its spec.
pub open spec fn work_on(
    gpu: Option<gpu_specs::GpuSpec>,
    params: nat,
    rows: nat,
    batch_size: nat,
    epochs: nat,
    mfu: F64,
) -> Option<TrainingWork> {
    match gpu {
        Some(g) => if makes_progress(g.bf16_tflops, mfu) && total_flops(
            params,
            rows,
            batch_size,
            epochs,
        ) <= u128::MAX {
            Some(
                TrainingWork {
                    flops: total_flops(params, rows, batch_size, epochs) as u128,
                    peak_tflops: g.bf16_tflops,
                    mfu,
                },
            )
        } else {
            None
        },
        None => None,
    }
}

/// The work that takes as long as the low end of a duration, in hundredths of a FLOP.
pub open spec fn low_work(w: TrainingWork) -> nat {
    w.flops as nat * LOW_PERCENT as nat
}

/// The work that takes as long as the high end of a duration, in hundredths of a FLOP.
pub open spec fn high_work(w: TrainingWork) -> nat {
    w.flops as nat * HIGH_PERCENT as nat
}

/// The high end of a duration is 1.875 times the low end, and both are above zero where
/// there is work.
pub proof fn law_ends_of_a_duration(w: TrainingWork)
    ensures
        1000 * high_work(w) == 1875 * low_work(w),
        w.flops > 0 ==> 0 < low_work(w) < high_work(w),
{
}

/// A run of parameters, rows and epochs has work.
pub proof fn law_runs_have_work(params: nat, rows: nat, batch_size: nat, epochs: nat)
    requires
        params > 0,
        rows > 0,
        batch_size > 0,
        epochs > 0,
    ensures
        total_flops(params, rows, batch_size, epochs) > 0,
{
    let steps = steps_per_epoch(rows, batch_size);
    law_steps_cover_the_rows(rows, batch_size);
    assert(steps > 0) by (nonlinear_arith)
        requires
            steps * batch_size >= rows,
            rows > 0,
    ;
    assert(steps * epochs > 0) by (nonlinear_arith)
        requires
            steps > 0,
            epochs > 0,
    ;
    assert(6 * params * batch_size > 0) by (nonlinear_arith)
        requires
            params > 0,
            batch_size > 0,
    ;
    assert(6 * params * batch_size * (steps * epochs) > 0) by (nonlinear_arith)
        requires
            6 * params * batch_size > 0,
            steps * epochs > 0,
    ;
}

/// The inputs of an estimate, but for the GPU and the MFU.
pub ghost struct RunView {
    pub params: nat,
    /// The rows of the data set, where they are known.
    pub rows: Option<nat>,
    pub batch_size: nat,
    pub epochs: nat,
}

/// Whether `r` is what is known of the work of a run on the GPU that a name matches
/// best among `specs`: nothing where the number of rows is not known.
pub open spec fn is_work(
    specs: Seq<gpu_specs::GpuSpec>,
    gpu_model: Seq<char>,
    run: RunView,
    measured: Option<F64>,
    r: Option<TrainingWork>,
) -> bool {
    match run.rows {
        None => r is None,
        Some(rows) => exists|gpu: Option<gpu_specs::GpuSpec>| #[trigger]
            gpu_specs::is_best_match(specs, gpu_model, gpu) && r == work_on(
                gpu,
                run.params,
                rows,
                run.batch_size,
                run.epochs,
                mfu_used(measured),
            ),
    }
}

/// The spec that an estimate goes by.
spec fn matched(specs: Seq<gpu_specs::GpuSpec>, gpu_model: Seq<char>) -> Option<
    gpu_specs::GpuSpec,
> {
    choose|gpu: Option<gpu_specs::GpuSpec>| gpu_specs::is_best_match(specs, gpu_model, gpu)
}

/// An estimate goes by the one spec that matches best.
proof fn lemma_work_on_matched(
    specs: Seq<gpu_specs::GpuSpec>,
    gpu_model: Seq<char>,
    run: RunView,
    measured: Option<F64>,
    r: Option<TrainingWork>,
)
    requires
        is_work(specs, gpu_model, run, measured, r),
        run.rows is Some,
    ensures
        gpu_specs::is_best_match(specs, gpu_model, matched(specs, gpu_model)),
        r == work_on(
            matched(specs, gpu_model),
            run.params,
            run.rows->0,
            run.batch_size,
            run.epochs,
            mfu_used(measured),
        ),
{
    let gpu = choose|gpu: Option<gpu_specs::GpuSpec>| #[trigger]
        gpu_specs::is_best_match(specs, gpu_model, gpu) && r == work_on(
            gpu,
            run.params,
            run.rows->0,
            run.batch_size,
            run.epochs,
            mfu_used(measured),
        );
    gpu_specs::law_best_match_is_unique(specs, gpu_model, gpu, matched(specs, gpu_model));
}

/// With a catalog of positive rates, work that fits in 128 bits is unknown exactly
/// where the number of rows is, or where no spec matches the GPU.
pub proof fn law_work_is_known_of_known_gpus(
    specs: Seq<gpu_specs::GpuSpec>,
    gpu_model: Seq<char>,
    run: RunView,
    measured: Option<F64>,
    r: Option<TrainingWork>,
)
    requires
        is_work(specs, gpu_model, run, measured, r),
        forall|i: int| 0 <= i < specs.len() ==> F64::of(0).below((#[trigger] specs[i]).bf16_tflops),
        run.rows matches Some(rows) ==> total_flops(
            run.params,
            rows,
            run.batch_size,
            run.epochs,
        ) <= u128::MAX,
    ensures
        r is None <==> run.rows is None || gpu_specs::is_best_match(specs, gpu_model, None),
{
    if run.rows is Some {
        lemma_work_on_matched(specs, gpu_model, run, measured, r);
        if gpu_specs::is_best_match(specs, gpu_model, None) {
            gpu_specs::law_best_match_is_unique(
                specs,
                gpu_model,
                None,
                matched(specs, gpu_model),
            );
        }
    }
}

/// Where no MFU was measured, the work is that of a measured MFU of 0.30.
pub proof fn law_default_mfu(
    specs: Seq<gpu_specs::GpuSpec>,
    gpu_model: Seq<char>,
    run: RunView,
    unmeasured: Option<TrainingWork>,
    measured: Option<TrainingWork>,
)
    requires
        is_work(specs, gpu_model, run, None, unmeasured),
        is_work(specs, gpu_model, run, Some(F64::of(DEFAULT_MFU)), measured),
    ensures
        unmeasured == measured,
{
    if run.rows is Some {
        lemma_work_on_matched(specs, gpu_model, run, None, unmeasured);
        lemma_work_on_matched(specs, gpu_model, run, Some(F64::of(DEFAULT_MFU)), measured);
    }
}

/// A higher MFU has the same work done at no lower share of the same rate, and at a
/// higher one where both are between 0.01 and 1.
pub proof fn law_higher_mfu_is_no_slower(
    specs: Seq<gpu_specs::GpuSpec>,
    gpu_model: Seq<char>,
    run: RunView,
    lower: F64,
    higher: F64,
    a: Option<TrainingWork>,
    b: Option<TrainingWork>,
)
    requires
        lower.below(higher),
        is_work(specs, gpu_model, run, Some(lower), a),
        is_work(specs, gpu_model, run, Some(higher), b),
    ensures
        match (a, b) {
            (Some(v), Some(w)) => {
                &&& v.flops == w.flops
                &&& v.peak_tflops == w.peak_tflops
                &&& v.mfu.at_most(w.mfu)
                &&& F64::of(LOWEST_MFU).at_most(lower) && higher.at_most(F64::of(HIGHEST_MFU))
                    ==> v.mfu.below(w.mfu)
            },
            (None, None) => true,
            _ => false,
        },
{
    if run.rows is Some {
        lemma_work_on_matched(specs, gpu_model, run, Some(lower), a);
        lemma_work_on_matched(specs, gpu_model, run, Some(higher), b);
    }
}

/// So many times the epochs are so many times the work at both ends, at the same share
/// of the same rate.
pub proof fn law_epochs_scale_the_run(
    specs: Seq<gpu_specs::GpuSpec>,
    gpu_model: Seq<char>,
    run: RunView,
    measured: Option<F64>,
    times: nat,
    a: TrainingWork,
    b: TrainingWork,
)
    requires
        is_work(specs, gpu_model, run, measured, Some(a)),
        is_work(
            specs,
            gpu_model,
            (RunView { epochs: times * run.epochs, ..run }),
            measured,
            Some(b),
        ),
    ensures
        b.flops == times * a.flops,
        low_work(b) == times * low_work(a),
        high_work(b) == times * high_work(a),
        b.peak_tflops == a.peak_tflops,
        b.mfu == a.mfu,
{
    let longer = RunView { epochs: times * run.epochs, ..run };
    lemma_work_on_matched(specs, gpu_model, run, measured, Some(a));
    lemma_work_on_matched(specs, gpu_model, longer, measured, Some(b));
    law_epochs_scale_the_work(run.params, run.rows->0, run.batch_size, run.epochs, times);
    let f = a.flops as nat;
    assert((times * f) * 80 == times * (f * 80)) by (nonlinear_arith);
    assert((times * f) * 150 == times * (f * 150)) by (nonlinear_arith);
}

/// Steps in an epoch.
fn steps(rows: u64, batch_size: u32) -> (r: u128)
    requires
        batch_size > 0,
    ensures
        r == steps_per_epoch(rows as nat, batch_size as nat),
{
    (rows as u128 + batch_size as u128 - 1) / (batch_size as u128)
}

/// The work of a training run on one GPU, from which the range of its duration
/// follows.
///
/// `None` when the number of rows is not known, when the catalog does not hold the
/// GPU or has no positive rate for it, or when the FLOPs do not fit in 128 bits.
pub fn training_work(
    catalog: &FallbackRepository,
    spec: &ModelSpec,
    gpu_model: &str,
    dataset_rows: Option<u64>,
    batch_size: u32,
    epochs: u32,
    mfu_override: Option<F64>,
) -> (r: Option<TrainingWork>)
    requires
        batch_size > 0,
    ensures
        is_work(
            catalog.known(),
            gpu_model@,
            (RunView {
                params: spec.params as nat,
                rows: match dataset_rows {
                    Some(n) => Some(n as nat),
                    None => None,
                },
                batch_size: batch_size as nat,
                epochs: epochs as nat,
            }),
            mfu_override,
            r,
        ),
{
    let rows: u64 = match dataset_rows {
        Some(n) => n,
        None => {
            return None;
        },
    };
    let mfu = effective_mfu(mfu_override);
    let gpu = catalog.get_by_name(gpu_model);
    let ghost found = gpu;
    assert(gpu_specs::is_best_match(catalog.known(), gpu_model@, found));
    let peak = match gpu {
        Some(g) => g.bf16_tflops,
        None => {
            return None;
        },
    };
    if !mfu.is_nan() && peak.le(F64::of(0)) {
        return None;
    }
    let total_steps = CheckedU128::new(steps(rows, batch_size)).mul_value(epochs as u128);
    let work = CheckedU128::new(6).mul_value(spec.params).mul_value(batch_size as u128).mul_checked(
        &total_steps,
    );
    assert(work@ == total_flops(
        spec.params as nat,
        rows as nat,
        batch_size as nat,
        epochs as nat,
    ));
    match work.to_option() {
        Some(flops) => Some(TrainingWork { flops, peak_tflops: peak, mfu }),
        None => None,
    }
}

/// The rate of known work is the bf16 rate of the catalog entry that matches the name of
/// the GPU best, and its share is the MFU that is reckoned with.
pub proof fn law_work_is_done_at_the_bf16_rate(
    specs: Seq<gpu_specs::GpuSpec>,
    gpu_model: Seq<char>,
    run: RunView,
    measured: Option<F64>,
    w: TrainingWork,
    best: gpu_specs::GpuSpec,
)
    requires
        is_work(specs, gpu_model, run, measured, Some(w)),
        gpu_specs::is_best_match(specs, gpu_model, Some(best)),
    ensures
        w.peak_tflops == best.bf16_tflops,
        w.mfu == mfu_used(measured),
{
    lemma_work_on_matched(specs, gpu_model, run, measured, Some(w));
    gpu_specs::law_best_match_is_unique(
        specs,
        gpu_model,
        Some(best),
        matched(specs, gpu_model),
    );
}

/// Known work is six FLOPs for each parameter and each row of a full batch, in as many
/// steps as the rows need: enough for all of them, and one fewer would not do.
pub proof fn law_work_covers_the_rows(
    specs: Seq<gpu_specs::GpuSpec>,
    gpu_model: Seq<char>,
    run: RunView,
    measured: Option<F64>,
    w: TrainingWork,
    steps: nat,
)
    requires
        is_work(specs, gpu_model, run, measured, Some(w)),
        run.batch_size > 0,
        run.rows matches Some(rows) && steps * run.batch_size >= rows && (steps == 0 || (steps - 1)
            * run.batch_size < rows),
    ensures
        w.flops == 6 * run.params * run.batch_size * steps * run.epochs,
{
    lemma_work_on_matched(specs, gpu_model, run, measured, Some(w));
    let rows = run.rows->0;
    let b = run.batch_size;
    let s = steps_per_epoch(rows, b);
    law_steps_cover_the_rows(rows, b);
    if rows == 0 {
        vstd::arithmetic::div_mod::lemma_basic_div((b - 1) as int, b as int);
        assert(steps == 0) by (nonlinear_arith)
            requires
                steps == 0 || (steps - 1) * b < 0,
                b > 0,
        ;
    } else {
        assert(s == steps) by (nonlinear_arith)
            requires
                s * b >= rows,
                (s - 1) * b < rows,
                steps * b >= rows,
                steps == 0 || (steps - 1) * b < rows,
                b > 0,
                rows > 0,
        ;
    }
    let p = run.params;
    let e = run.epochs;
    assert(6 * p * b * (steps * e) == 6 * p * b * steps * e) by (nonlinear_arith);
}

/// A measured MFU from 0.01 to 1 is taken as it is, a lower or higher one as the nearer
/// of the two, and where none was measured it is 0.30.
pub proof fn law_measured_mfu_is_used(m: F64)
    ensures
        mfu_used(None) == F64::of(0x3fd3_3333_3333_3333),
        F64::of(0x3f84_7ae1_47ae_147b).at_most(m) && m.at_most(F64::of(0x3ff0_0000_0000_0000))
            ==> mfu_used(Some(m)) == m,
        m.below(F64::of(0x3f84_7ae1_47ae_147b)) ==> mfu_used(Some(m)) == F64::of(
            0x3f84_7ae1_47ae_147b,
        ),
        F64::of(0x3ff0_0000_0000_0000).below(m) ==> mfu_used(Some(m)) == F64::of(
            0x3ff0_0000_0000_0000,
        ),
{
}

/// The ends of a duration are four fifths and three halves of what the work takes.
pub proof fn law_ends_are_shares_of_the_work(w: TrainingWork)
    ensures
        5 * low_work(w) == 4 * (100 * w.flops),
        2 * high_work(w) == 3 * (100 * w.flops),
{
}

} // verus!
