use calibrate::collectors::RawSample;
use calibrate::float::{F32, F64};
use calibrate::gpu_specs::GpuSpec;
use calibrate::metrics::breakdown::TimeBreakdown;
use calibrate::metrics::mfu::MfuFigures;
use calibrate::metrics::units::{Celsius, Mhz, Mib, Percent, Watts};
use calibrate::session::lifecycle::{
    goes_on, Done, Figures, Initializing, MonitoringSession, Received, Sampling,
};

fn f32_of(x: f32) -> F32 {
    F32::of(x.to_bits())
}

fn f64_of(x: f64) -> F64 {
    F64::of(x.to_bits())
}

fn single(x: F32) -> f32 {
    f32::from_bits(x.bits)
}

fn test_spec() -> GpuSpec {
    GpuSpec {
        name: "Test GPU".to_string(),
        bf16_tflops: f64_of(100.0),
        fp32_tflops: f64_of(50.0),
        vram_gib: 16,
        boost_clock_mhz: 2000,
    }
}

fn make_sample(sm: f32, cpu: f32, vram_mib: u64) -> RawSample {
    make_sample_gpu(sm, cpu, vram_mib, 0)
}

fn make_sample_gpu(sm: f32, cpu: f32, vram_mib: u64, gpu_index: u32) -> RawSample {
    RawSample {
        timestamp_ms: 0,
        gpu_index,
        sm_utilization: Percent(f32_of(sm)),
        sm_clock_mhz: Mhz(2000),
        sm_clock_max_mhz: Mhz(2000),
        vram_used_mib: Mib(vram_mib),
        vram_total_mib: Mib(16384),
        mem_utilization: Percent(f32_of(40.0)),
        temperature: Celsius(f32_of(65.0)),
        power_draw: Watts(f32_of(200.0)),
        power_limit: Watts(f32_of(350.0)),
        throttle_thermal: false,
        throttle_power: false,
        throttle_hw_slowdown: false,
        cpu_utilization: Percent(f32_of(cpu)),
    }
}

fn start(cost_per_hour: Option<f64>) -> MonitoringSession<Sampling> {
    MonitoringSession::<Initializing>::new(9999, test_spec(), cost_per_hour.map(f64_of), true).start()
}

/// Hands a sample to a session, with the averages that it asks for.
fn feed(session: &mut MonitoringSession<Sampling>, sample: RawSample) {
    let o = session.observe(sample);
    let n = o.terms.len() as f64;
    let share = o
        .terms
        .iter()
        .map(|t| single(t.sm_utilization) as f64 / 100.0 * t.clock as f64 / t.boost as f64)
        .sum::<f64>()
        / n;
    let clock = o.terms.iter().map(|t| t.clock as f64 / t.boost as f64 * 100.0).sum::<f64>() / n;
    let mfu = session.estimate(MfuFigures {
        actual_pct: f32_of((share * 100.0) as f32),
        actual_tflops: f64_of(share * 100.0),
    });
    let pct = single(mfu.mfu_pct.0);
    let phases = [
        o.phases.forward_backward,
        o.phases.data_loader,
        o.phases.cuda_sync,
        o.phases.memory_alloc,
        o.phases.optimizer,
    ];
    let total: usize = phases.iter().sum();
    let of = |count: usize| f32_of(count as f32 / total as f32 * 100.0);
    let steps = &o.step_deltas_ms;
    let mean = steps.iter().sum::<u64>() as f64 / steps.len().max(1) as f64;
    let variance =
        steps.iter().map(|d| (*d as f64 - mean).powi(2)).sum::<f64>() / steps.len().max(1) as f64;
    let waste = if pct > 0.0 { (45.0 - pct.min(45.0)) / 45.0 } else { 0.0 } as f64;
    let cost = session.cost_per_hour.map_or(0.0, |c| f64::from_bits(c.bits));
    let figures = Figures {
        breakdown: TimeBreakdown {
            forward_backward_pct: of(phases[0]),
            data_loader_pct: of(phases[1]),
            cuda_sync_pct: of(phases[2]),
            memory_alloc_pct: of(phases[3]),
            optimizer_pct: of(phases[4]),
        },
        avg_clock_pct: f32_of(clock as f32),
        data_loader_share: f32_of(single(of(phases[1])) * 0.6),
        mfu_tenths: (pct * 10.0).clamp(0.0, 1000.0) as u64,
        vram_pct: f32_of(
            o.sample.vram_used_mib.0 as f32 / o.vram_capacity_mib as f32 * 100.0,
        ),
        step_mean_ms: f32_of(mean as f32),
        step_cv: f64_of(variance.sqrt() / mean.max(1.0)),
        spread_ppt: f32_of(o.range.map_or(0.0, |r| single(r.highest) - single(r.lowest))),
        target_cost_usd: f64_of(cost * (1.0 - waste)),
        waste_per_hour: f64_of(cost * waste),
        elapsed_ms: 1000,
    };
    session.conclude(o, mfu, figures);
}

fn run(cost_per_hour: Option<f64>, samples: Vec<RawSample>) -> MonitoringSession<Done> {
    let mut session = start(cost_per_hour);
    for s in samples {
        feed(&mut session, s);
    }
    session.finish()
}

#[test]
fn session_produces_snapshots_from_mock_collector() {
    // 20 samples, all forward/backward pattern.
    let done = run(None, vec![make_sample(80.0, 20.0, 8192); 20]);
    let snapshot = done.final_snapshot().expect("must have at least one snapshot");

    assert_eq!(snapshot.steps_observed, 20);
    let mfu = single(snapshot.mfu.mfu_pct.0);
    assert!(mfu > 0.0, "MFU should be positive for active GPU");
    // 80% SM at full clock: MFU ≈ 80%.
    assert!((mfu - 80.0).abs() < 1.0, "expected ~80% MFU, got {mfu:.1}%");
    // All 20 samples are ForwardBackward: 100% forward/backward.
    let bd = &snapshot.breakdown;
    let forward = single(bd.forward_backward_pct);
    assert!(forward > 90.0, "expected mostly forward/backward, got {forward:.1}%");
    // Percentages sum to 100.
    let sum = single(bd.forward_backward_pct)
        + single(bd.data_loader_pct)
        + single(bd.cuda_sync_pct)
        + single(bd.memory_alloc_pct)
        + single(bd.optimizer_pct);
    assert!((sum - 100.0).abs() < 0.1, "breakdown percents must sum to 100, got {sum:.2}");
}

#[test]
fn session_tracks_peak_vram_across_samples() {
    // Samples with increasing VRAM usage, then lower.
    let samples =
        [1000u64, 5000, 9000, 7000, 3000].iter().map(|&v| make_sample(80.0, 20.0, v)).collect();
    let done = run(None, samples);
    let snapshot = done.final_snapshot().unwrap();
    assert_eq!(snapshot.peak_vram_mib, Mib(9000), "peak VRAM should be 9000 MiB");
}

#[test]
fn peak_mfu_never_falls() {
    let mut session = start(None);
    let mut peaks = vec![];
    for sm in [20.0, 80.0, 10.0, 10.0, 10.0] {
        feed(&mut session, make_sample(sm, 20.0, 8192));
        peaks.push(single(session.latest.as_ref().unwrap().peak_mfu_pct));
    }
    assert!((peaks[0] - 20.0).abs() < 0.1, "{peaks:?}");
    assert!((peaks[1] - 50.0).abs() < 0.1, "{peaks:?}");
    assert!(peaks[2..].iter().all(|p| *p == peaks[1]), "{peaks:?}");
}

#[test]
fn session_computes_percentiles_after_15_samples() {
    let done = run(None, vec![make_sample(60.0, 20.0, 8192); 15]);
    let snapshot = done.final_snapshot().unwrap();
    assert!(
        snapshot.mfu_percentiles.is_some(),
        "percentiles should be present after 15 samples"
    );
    let p = snapshot.mfu_percentiles.unwrap();
    assert!(p.p50_tenths > 0, "p50 should be positive: {}", p.p50_tenths);
    assert!(p.p95_tenths >= p.p50_tenths, "p95 must be >= p50");
    assert_eq!(p.p50_tenths, 600);
}

#[test]
fn percentiles_wait_for_enough_samples() {
    let done = run(None, vec![make_sample(60.0, 20.0, 8192); 14]);
    assert!(done.final_snapshot().unwrap().mfu_percentiles.is_none());
}

#[test]
fn session_propagates_cost_impact() {
    let done = run(Some(2.50), vec![make_sample(20.0, 20.0, 8192)]);
    let snapshot = done.final_snapshot().unwrap();
    let cost = snapshot.cost_impact.expect("cost_impact must be set");
    assert!((f64::from_bits(cost.cost_per_hour.bits) - 2.50).abs() < 0.001);
    assert!(f64::from_bits(cost.waste_per_hour.bits) >= 0.0);
}

#[test]
fn multi_gpu_divergence_flagged_above_threshold() {
    // GPU 0 at 80% SM, GPU 1 at 40% SM: spread is 40 ppt (> 20 threshold).
    let mut samples = vec![];
    for _ in 0..3 {
        samples.push(make_sample_gpu(80.0, 20.0, 8192, 0));
        samples.push(make_sample_gpu(40.0, 20.0, 8192, 1));
    }
    let done = run(None, samples);
    let snapshot = done.final_snapshot().unwrap();
    assert_eq!(snapshot.per_gpu.len(), 2, "both GPUs must appear in per_gpu");
    assert!(snapshot.mfu_divergent, "divergence flag should be set when spread > 20 ppt");
    let spread = single(snapshot.gpu_mfu_divergence_ppt);
    assert!(spread >= 20.0, "divergence_ppt should reflect the spread: {spread}");
}

#[test]
fn single_gpu_no_divergence() {
    let done = run(None, vec![make_sample(70.0, 20.0, 8192); 5]);
    let snapshot = done.final_snapshot().unwrap();
    assert!(!snapshot.mfu_divergent, "single GPU must never trigger divergence flag");
    assert_eq!(snapshot.gpu_mfu_divergence_ppt, f32_of(0.0));
}

#[test]
fn gpus_are_shown_in_order() {
    let samples = [3, 1, 2, 1].iter().map(|&g| make_sample_gpu(50.0, 20.0, 100, g)).collect();
    let done = run(None, samples);
    let shown: Vec<u32> =
        done.final_snapshot().unwrap().per_gpu.iter().map(|g| g.gpu_index).collect();
    assert_eq!(shown, vec![1, 2, 3]);
}

#[test]
fn vram_growth_needs_eight_rising_readings() {
    let rising = |n: u64| (0..n).map(|i| make_sample(80.0, 20.0, 1000 + i)).collect();
    assert!(!run(None, rising(7)).final_snapshot().unwrap().vram_growing);
    assert!(run(None, rising(8)).final_snapshot().unwrap().vram_growing);
    let mut flat: Vec<RawSample> = rising(7);
    flat.push(make_sample(80.0, 20.0, 1006));
    assert!(!run(None, flat).final_snapshot().unwrap().vram_growing);
    let mut dipped: Vec<RawSample> = vec![make_sample(80.0, 20.0, 5000)];
    dipped.extend::<Vec<RawSample>>(rising(8));
    assert!(run(None, dipped).final_snapshot().unwrap().vram_growing);
}

#[test]
fn erratic_steps_are_flagged() {
    let at = |ms: u64| RawSample { timestamp_ms: ms, ..make_sample(80.0, 20.0, 100) };
    let even = [0, 1000, 2000, 3000, 4000].iter().map(|&t| at(t)).collect();
    let s = run(None, even);
    let s = s.final_snapshot().unwrap();
    assert_eq!(s.step_time_ms_mean, f32_of(1000.0));
    assert!(!s.step_time_erratic);
    let uneven = [0, 100, 5000, 5100, 9000].iter().map(|&t| at(t)).collect();
    let s = run(None, uneven);
    assert!(s.final_snapshot().unwrap().step_time_erratic);
    let few = [0, 1000, 2000, 3000].iter().map(|&t| at(t)).collect();
    let s = run(None, few);
    assert_eq!(s.final_snapshot().unwrap().step_time_ms_mean, f32_of(0.0));
}

#[test]
fn sessions_without_samples_show_nothing() {
    assert!(run(None, vec![]).final_snapshot().is_none());
}

#[test]
fn sampling_ends_on_request_or_without_a_collector() {
    assert!(goes_on(false, Received::Sample));
    assert!(goes_on(false, Received::Timeout));
    assert!(!goes_on(true, Received::Sample));
    assert!(!goes_on(false, Received::Disconnected));
}
