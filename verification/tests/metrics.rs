use calibrate::collectors::RawSample;
use calibrate::float::{F32, F64};
use calibrate::gpu_specs::GpuSpec;
use calibrate::metrics::breakdown::{classify_sample, TimeBreakdownInferrer, TimeSlot};
use calibrate::metrics::mfu::{clock_terms, Confidence, MfuCalculator, MfuEstimate, MfuFigures};
use calibrate::metrics::units::{Celsius, Mhz, Mib, Percent, Watts};
use calibrate::metrics::window::MetricsWindow;

fn f32_of(x: f32) -> F32 {
    F32::of(x.to_bits())
}

fn f64_of(x: f64) -> F64 {
    F64::of(x.to_bits())
}

fn base() -> RawSample {
    RawSample {
        timestamp_ms: 0,
        gpu_index: 0,
        sm_utilization: Percent(f32_of(80.0)),
        sm_clock_mhz: Mhz(1800),
        sm_clock_max_mhz: Mhz(2000),
        vram_used_mib: Mib(8192),
        vram_total_mib: Mib(24576),
        mem_utilization: Percent(f32_of(50.0)),
        temperature: Celsius(f32_of(65.0)),
        power_draw: Watts(f32_of(250.0)),
        power_limit: Watts(f32_of(350.0)),
        throttle_thermal: false,
        throttle_power: false,
        throttle_hw_slowdown: false,
        cpu_utilization: Percent(f32_of(30.0)),
    }
}

fn sample(sm: f32, cpu: f32, mem_util: f32) -> RawSample {
    RawSample {
        sm_utilization: Percent(f32_of(sm)),
        mem_utilization: Percent(f32_of(mem_util)),
        cpu_utilization: Percent(f32_of(cpu)),
        ..base()
    }
}

fn make_sample(timestamp_ms: u64) -> RawSample {
    RawSample { timestamp_ms, ..base() }
}

fn sample_with(sm: f32, clock: u32, max_clock: u32) -> RawSample {
    RawSample {
        sm_utilization: Percent(f32_of(sm)),
        sm_clock_mhz: Mhz(clock),
        sm_clock_max_mhz: Mhz(max_clock),
        ..base()
    }
}

/// The phases of a window in percent.
fn percentages(w: &MetricsWindow) -> [f32; 5] {
    let c = TimeBreakdownInferrer::infer(w);
    let counts =
        [c.forward_backward, c.data_loader, c.cuda_sync, c.memory_alloc, c.optimizer];
    let total: usize = counts.iter().sum();
    counts.map(|n| if total == 0 { 0.0 } else { n as f32 / total as f32 * 100.0 })
}

#[test]
fn mostly_data_loader() {
    let mut w = MetricsWindow::new(150);
    // 70% data loader, 30% forward pass
    for _ in 0..7 {
        w.push(sample(5.0, 60.0, 20.0));
    }
    for _ in 0..3 {
        w.push(sample(80.0, 20.0, 50.0));
    }
    let [forward, loader, ..] = percentages(&w);
    assert!(loader > 60.0, "expected >60% data loader, got {loader:.1}%");
    assert!(forward > 20.0);
}

#[test]
fn classify_forward_backward() {
    let slot = classify_sample(f32_of(75.0), f32_of(20.0), f32_of(50.0));
    assert_eq!(slot, TimeSlot::ForwardBackward);
}

#[test]
fn classify_cuda_sync() {
    let slot = classify_sample(f32_of(5.0), f32_of(5.0), f32_of(10.0));
    assert_eq!(slot, TimeSlot::CudaSync);
}

#[test]
fn classify_optimizer_step() {
    // Mid-range SM with low CPU and normal mem: optimizer.
    let slot = classify_sample(f32_of(35.0), f32_of(15.0), f32_of(30.0));
    assert_eq!(slot, TimeSlot::Optimizer);
}

#[test]
fn classify_memory_alloc() {
    // High mem controller utilization with lower SM: memory alloc.
    let slot = classify_sample(f32_of(40.0), f32_of(20.0), f32_of(90.0));
    assert_eq!(slot, TimeSlot::MemoryAlloc);
}

#[test]
fn all_forward_backward_gives_100pct() {
    let mut w = MetricsWindow::new(150);
    for _ in 0..20 {
        w.push(sample(80.0, 20.0, 50.0)); // all ForwardBackward
    }
    let [forward, loader, sync, ..] = percentages(&w);
    assert!((forward - 100.0).abs() < 0.1, "expected 100% forward/backward, got {forward:.1}%");
    assert_eq!(loader, 0.0);
    assert_eq!(sync, 0.0);
}

#[test]
fn breakdown_percentages_sum_to_100() {
    let mut w = MetricsWindow::new(150);
    // Mixed workload touching every slot.
    for _ in 0..4 {
        w.push(sample(80.0, 20.0, 50.0));
    } // ForwardBackward
    for _ in 0..3 {
        w.push(sample(5.0, 70.0, 20.0));
    } // DataLoader
    for _ in 0..2 {
        w.push(sample(5.0, 5.0, 10.0));
    } // CudaSync
    for _ in 0..1 {
        w.push(sample(40.0, 10.0, 85.0));
    } // MemoryAlloc
    let sum: f32 = percentages(&w).iter().sum();
    assert!((sum - 100.0).abs() < 0.01, "percentages should sum to 100, got {sum:.2}");
}

#[test]
fn empty_window_returns_all_zeros() {
    let w = MetricsWindow::new(150);
    assert_eq!(percentages(&w), [0.0; 5]);
}

fn spec() -> GpuSpec {
    GpuSpec {
        name: "RTX 3090".to_string(),
        bf16_tflops: f64_of(35.6),
        fp32_tflops: f64_of(35.6),
        vram_gib: 24,
        boost_clock_mhz: 1695,
    }
}

/// The estimate from the averages of the terms of a window.
fn estimate(window: &MetricsWindow) -> MfuEstimate {
    let terms = clock_terms(window);
    let share: f64 = terms
        .iter()
        .map(|t| {
            f32::from_bits(t.sm_utilization.bits) as f64 / 100.0 * t.clock as f64 / t.boost as f64
        })
        .sum::<f64>()
        / terms.len().max(1) as f64;
    let figures = MfuFigures {
        actual_pct: f32_of((share * 100.0) as f32),
        actual_tflops: f64_of(share * 35.6),
    };
    let s = spec();
    MfuCalculator::new(&s).compute(window, figures)
}

#[test]
fn mfu_at_full_clock_and_sm() {
    let mut window = MetricsWindow::new(150);
    for _ in 0..20 {
        window.push(sample_with(100.0, 2000, 2000));
    }
    let est = estimate(&window);
    assert!((f32::from_bits(est.mfu_pct.0.bits) - 100.0).abs() < 1.0);
}

#[test]
fn mfu_at_20_pct_sm() {
    let mut window = MetricsWindow::new(150);
    for _ in 0..20 {
        window.push(sample_with(20.0, 2000, 2000));
    }
    let est = estimate(&window);
    assert!((f32::from_bits(est.mfu_pct.0.bits) - 20.0).abs() < 1.0);
    assert_eq!(est.peak_tflops.0, f64_of(35.6));
}

#[test]
fn low_confidence_below_threshold() {
    let mut window = MetricsWindow::new(150);
    for _ in 0..5 {
        window.push(sample_with(50.0, 1800, 2000));
    }
    assert_eq!(estimate(&window).confidence, Confidence::Low);
}

#[test]
fn window_evicts_oldest() {
    let mut w = MetricsWindow::new(3);
    w.push(make_sample(1000));
    w.push(make_sample(2000));
    w.push(make_sample(3000));
    w.push(make_sample(4000)); // should evict sample at 1000
    assert_eq!(w.len(), 3);
    assert_eq!(w.get(0).timestamp_ms, 2000);
}

#[test]
fn duration_calculation() {
    let mut w = MetricsWindow::new(150);
    w.push(make_sample(1_000));
    w.push(make_sample(3_000));
    assert_eq!(w.duration(), 2000);
}

#[test]
fn duration_secs_matches_duration() {
    let mut w = MetricsWindow::new(150);
    w.push(make_sample(0));
    w.push(make_sample(5_000));
    assert!((w.duration() as f64 / 1000.0 - 5.0).abs() < 1e-6);
}

#[test]
fn duration_secs_empty_is_zero() {
    let w = MetricsWindow::new(10);
    assert!(w.is_empty());
    assert_eq!(w.duration() as f64 / 1000.0, 0.0);
}

#[test]
fn is_reliable_at_threshold() {
    let mut w = MetricsWindow::new(150);
    for i in 0..14 {
        w.push(make_sample(i as u64 * 2000));
    }
    assert!(!w.is_reliable(), "14 samples should not be reliable");
    w.push(make_sample(14 * 2000));
    assert!(w.is_reliable(), "15 samples should be reliable");
}

#[test]
fn single_sample_not_reliable() {
    let mut w = MetricsWindow::new(150);
    w.push(make_sample(0));
    assert!(!w.is_reliable());
}

#[test]
fn units_are_shown_in_words() {
    assert_eq!(Mib(512).text(), "512 MiB");
    assert_eq!(Mib(24576).text(), "24.0 GiB");
    assert_eq!(Mib(1588).text(), "1.6 GiB");
    assert_eq!(Mhz(1695).text(), "1695 MHz");
}

#[test]
fn percentages_are_clamped() {
    assert_eq!(Percent::clamped(f32_of(130.0)).as_f32(), f32_of(100.0));
    assert_eq!(Percent::clamped(f32_of(-3.0)).as_f32(), f32_of(0.0));
    assert_eq!(Percent::clamped(f32_of(42.5)).as_f32(), f32_of(42.5));
}

#[test]
fn comparisons_agree_with_the_numbers() {
    let numbers = [f64::NEG_INFINITY, -2.5, -0.0, 0.0, 1e-300, 1.0, 7.25, f64::INFINITY, f64::NAN];
    for a in numbers {
        for b in numbers {
            let (x, y) = (f64_of(a), f64_of(b));
            assert_eq!(x.lt(y), a < b, "{a} {b}");
            assert_eq!(x.le(y), a <= b, "{a} {b}");
            assert_eq!(x.gt(y), a > b, "{a} {b}");
            assert_eq!(x.ge(y), a >= b, "{a} {b}");
            let (x, y) = (f32_of(a as f32), f32_of(b as f32));
            assert_eq!(x.lt(y), (a as f32) < b as f32, "{a} {b}");
        }
    }
    assert!(f64_of(f64::NAN).is_nan());
    assert_eq!(f64_of(3.0).clamp(f64_of(0.0), f64_of(1.0)), f64_of(1.0));
}
