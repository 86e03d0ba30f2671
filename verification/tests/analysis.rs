use calibrate::analysis::bottleneck::{Bottleneck, BottleneckDetector};
use calibrate::analysis::recommendations::RecommendationEngine;
use calibrate::float::{F32, F64};
use calibrate::metrics::breakdown::TimeBreakdown;
use calibrate::metrics::mfu::{Confidence, MfuEstimate};
use calibrate::metrics::units::{Percent, Tflops};

fn f32_of(x: f32) -> F32 {
    F32::of(x.to_bits())
}

fn f64_of(x: f64) -> F64 {
    F64::of(x.to_bits())
}

fn mfu(pct: f32) -> MfuEstimate {
    MfuEstimate {
        mfu_pct: Percent(f32_of(pct)),
        actual_tflops: Tflops(f64_of(1.0)),
        peak_tflops: Tflops(f64_of(35.6)),
        confidence: Confidence::High,
    }
}

fn breakdown(dl: f32, sync: f32, mem: f32) -> TimeBreakdown {
    let rest = (100.0 - dl - sync - mem).max(0.0);
    TimeBreakdown {
        forward_backward_pct: f32_of(rest),
        data_loader_pct: f32_of(dl),
        cuda_sync_pct: f32_of(sync),
        memory_alloc_pct: f32_of(mem),
        optimizer_pct: f32_of(0.0),
    }
}

fn detect(pct: f32, shares: TimeBreakdown, thermal: bool, clock: f32) -> Bottleneck {
    BottleneckDetector::detect(&mfu(pct), &shares, thermal, false, f32_of(clock))
}

#[test]
fn data_loader_wins() {
    let b = detect(20.0, breakdown(28.0, 3.0, 1.0), false, 95.0);
    assert_eq!(b, Bottleneck::DataLoader);
}

#[test]
fn thermal_has_highest_priority() {
    let b = detect(20.0, breakdown(28.0, 9.0, 12.0), true, 95.0);
    assert_eq!(b, Bottleneck::ThermalThrottle);
}

#[test]
fn no_bottleneck_at_good_mfu() {
    let b = detect(55.0, breakdown(5.0, 2.0, 1.0), false, 97.0);
    assert_eq!(b, Bottleneck::NoBottleneck);
}

#[test]
fn cuda_sync_detected() {
    let b = detect(30.0, breakdown(5.0, 12.0, 1.0), false, 95.0);
    assert_eq!(b, Bottleneck::CudaSync);
}

#[test]
fn memory_fragmentation_detected() {
    let b = detect(30.0, breakdown(5.0, 2.0, 15.0), false, 95.0);
    assert_eq!(b, Bottleneck::MemoryFragmentation);
}

#[test]
fn clock_underspeed_detected() {
    // Low clock (80%), no other bottleneck triggers.
    let b = detect(30.0, breakdown(5.0, 2.0, 1.0), false, 80.0);
    assert_eq!(b, Bottleneck::ClockUnderspeed);
}

#[test]
fn below_target_mfu_when_no_specific_bottleneck() {
    let b = detect(30.0, breakdown(5.0, 2.0, 1.0), false, 95.0);
    assert_eq!(b, Bottleneck::BelowTargetMfu);
}

#[test]
fn thermal_overrides_data_loader() {
    // Even when data loader is high, thermal takes priority.
    let b = detect(10.0, breakdown(50.0, 0.0, 0.0), true, 95.0);
    assert_eq!(b, Bottleneck::ThermalThrottle);
}

#[test]
fn data_loader_overrides_cuda_sync() {
    // data_loader_pct=20 and cuda_sync_pct=12: data loader should win.
    let b = detect(20.0, breakdown(20.0, 12.0, 1.0), false, 95.0);
    assert_eq!(b, Bottleneck::DataLoader);
}

#[test]
fn target_mfu_itself_is_good_enough() {
    assert_eq!(detect(45.0, breakdown(5.0, 2.0, 1.0), false, 97.0), Bottleneck::NoBottleneck);
    assert_eq!(detect(44.9, breakdown(5.0, 2.0, 1.0), false, 97.0), Bottleneck::BelowTargetMfu);
}

#[test]
fn recommendations_follow_the_bottleneck() {
    let r = RecommendationEngine::recommend(&Bottleneck::ThermalThrottle, f32_of(0.0));
    assert_eq!(r.title, "GPU is thermal throttling");
    assert!(r.action.contains("cooling"));
    let r = RecommendationEngine::recommend(&Bottleneck::NoBottleneck, f32_of(0.0));
    assert_eq!(r.title, "Training is well-optimized");
    assert_eq!(r.expected_mfu_gain_ppt, f32_of(0.0));
}

#[test]
fn data_loader_gain_is_bounded() {
    let gain = |share: f32| {
        RecommendationEngine::recommend(&Bottleneck::DataLoader, f32_of(share)).expected_mfu_gain_ppt
    };
    assert_eq!(gain(12.0), f32_of(12.0));
    assert_eq!(gain(1.0), f32_of(5.0));
    assert_eq!(gain(90.0), f32_of(30.0));
}
