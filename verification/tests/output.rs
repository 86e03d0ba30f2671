use calibrate::analysis::bottleneck::Bottleneck;
use calibrate::analysis::recommendations::Recommendation;
use calibrate::bench::{BenchReport, BenchResult, BenchStats, SkippedRuntime};
use calibrate::float::{F32, F64};
use calibrate::metrics::breakdown::TimeBreakdown;
use calibrate::metrics::mfu::{Confidence, MfuEstimate};
use calibrate::metrics::units::{Celsius, Mib, Percent, Tflops, Watts};
use calibrate::output::bench_markdown;
use calibrate::output::bench_terminal;
use calibrate::output::bench_terminal::BenchCells;
use calibrate::output::json::JsonRenderer;
use calibrate::output::plan_terminal::{format_flags, render, PlanCells, WorkloadCells};
use calibrate::output::summary::SummaryReport;
use calibrate::output::terminal::{
    breakdown_lines, gauge_color, gauge_label, hardware_line, header_text, multi_gpu_rows,
    per_gpu_lines, percentile_text, recommendation_text, recommendation_title, status_lines,
    status_rows, Color,
};
use calibrate::output::{
    clock_text, tenths_text, BreakdownCells, GpuCells, ShareCells, SnapshotCells,
};
use calibrate::plan::{
    AvailabilityStatus, CostCells, CostRange, DurationCells, DurationRange, ListingCells,
    ListingFlag, PlanRecommendation, PlanReport, RankedListing, SkippedProvider, VramBreakdown,
    WorkloadSummary,
};
use calibrate::session::state::{CostImpact, GpuSnapshot, MfuPercentiles, SessionSnapshot};

fn f32_of(x: f32) -> F32 {
    F32::of(x.to_bits())
}

fn f64_of(x: f64) -> F64 {
    F64::of(x.to_bits())
}

// The plan

/// A breakdown of 14 GiB, in hundredths of a byte.
fn make_vram_breakdown() -> VramBreakdown {
    let total: u128 = 14 << 30;
    VramBreakdown {
        weights: total * 60,
        gradients: total,
        optimizer: total * 20,
        activations: total * 10,
        kv_cache: total * 9,
        library_savings: 0,
        total: total * 100,
        units_per_byte: 100,
    }
}

fn make_report_empty() -> PlanReport {
    PlanReport {
        workload: WorkloadSummary {
            model_id: "meta-llama/Llama-3-8B".to_string(),
            params: 8_000_000_000,
            vram_breakdown: make_vram_breakdown(),
            required_vram_gib: f64_of(14.7),
            fitting_tiers: vec!["16G".to_string(), "24G".to_string()],
        },
        listings: vec![],
        recommendation: None,
        skipped_providers: vec![],
    }
}

fn make_listing(provider: &str, gpu: &str, vram: f64, hourly: f64, cost_low: f64) -> RankedListing {
    RankedListing {
        provider: provider.to_string(),
        gpu_model: gpu.to_string(),
        vram_gib: f64_of(vram),
        hourly_usd: f64_of(hourly),
        daily_usd: f64_of(hourly * 24.0),
        duration_range: Some(DurationRange {
            low_secs: f64_of(cost_low / hourly * 3600.0),
            high_secs: f64_of(cost_low / hourly * 3600.0 * 1.5),
        }),
        cost_range: Some(CostRange { low_usd: f64_of(cost_low), high_usd: f64_of(cost_low * 1.5) }),
        availability: AvailabilityStatus::Available,
        flags: vec![],
    }
}

fn listing_cells() -> ListingCells {
    ListingCells {
        vram: "24".to_string(),
        hourly: "0.44".to_string(),
        duration: DurationCells {
            low_minutes: "65".to_string(),
            high_minutes: "98".to_string(),
            low_hours: "1.1".to_string(),
            high_hours: "1.6".to_string(),
        },
        cost: CostCells { low: "0.48".to_string(), high: "0.72".to_string() },
    }
}

fn plan_cells(listings: usize) -> PlanCells {
    PlanCells {
        workload: WorkloadCells {
            params_b: "8.00".to_string(),
            needed: "14.0".to_string(),
            required: "14.7".to_string(),
            weights: "8.40".to_string(),
            gradients: "0.14".to_string(),
            optimizer: "2.80".to_string(),
            activations: "1.40".to_string(),
            kv_cache: "1.26".to_string(),
            library_savings: "0.00".to_string(),
            total: "14.00".to_string(),
        },
        listings: (0..listings).map(|_| listing_cells()).collect(),
        recommended: listing_cells(),
        alternative: listing_cells(),
    }
}

#[test]
fn render_empty_listings_no_panic() {
    let lines = render(&make_report_empty(), None, &plan_cells(0));
    assert_eq!(lines[1], "  Model:     meta-llama/Llama-3-8B  (8.00B parameters)");
    assert_eq!(lines[2], "  Required:  14.0 GiB VRAM");
    assert_eq!(lines[3], "             fits 16G, 24G  tiers");
    assert_eq!(lines[7], "  Weights                       8.40");
    assert_eq!(lines[8], "  Gradients                     0.14  (adapter only)");
    assert!(lines.contains(&"  No GPU listings found with ≥ 14.7 GiB VRAM.".to_string()));
    assert!(!lines.iter().any(|l| l.contains("Efficiency reduction")));
    assert_eq!(lines.last().unwrap(), "");
}

#[test]
fn render_with_recommendation_no_panic() {
    let listing = make_listing("RunPod", "RTX 4090", 24.0, 0.44, 0.48);
    let mut report = make_report_empty();
    report.recommendation = Some(PlanRecommendation {
        listing: listing.copy(),
        rationale: "Cheapest stable option.".to_string(),
        safe_alternative: None,
    });
    report.listings = vec![listing];
    let lines = render(&report, None, &plan_cells(1));
    assert!(lines.contains(
        &"> RunPod     RTX 4090                  24G    0.44     1.1–1.6h     $0.48–$0.72  "
            .to_string()
    ));
    assert!(lines.contains(&"  Recommendation: RunPod RTX 4090 at $0.44/hr".to_string()));
    assert!(lines.contains(&"    Cheapest stable option.".to_string()));
}

#[test]
fn render_with_safe_alternative_no_panic() {
    let mut top = make_listing("Vast.ai", "RTX 3090", 24.0, 0.22, 0.46);
    top.flags.push(ListingFlag::PriceVolatile);
    let stable = make_listing("RunPod", "RTX 4090", 24.0, 0.44, 0.48);
    let mut report = make_report_empty();
    report.recommendation = Some(PlanRecommendation {
        listing: top.copy(),
        rationale: "Cheapest option.".to_string(),
        safe_alternative: Some(stable.copy()),
    });
    report.listings = vec![top, stable];
    let lines = render(&report, None, &plan_cells(2));
    assert!(lines.contains(
        &"  Safe alternative (stable price): RunPod RTX 4090 at $0.44/hr".to_string()
    ));
    assert!(lines.contains(&"    Estimated cost: $0.48–$0.72".to_string()));
    assert!(lines.iter().any(|l| l.starts_with("  ~ Price volatile")));
}

#[test]
fn render_with_budget_over_shows_flag() {
    let mut report = make_report_empty();
    report.listings = vec![make_listing("Lambda", "A10", 24.0, 0.60, 1.20)];
    // A budget of $0.50 means a $1.20 estimate is over-budget.
    let lines = render(&report, Some(f64_of(0.50)), &plan_cells(1));
    assert!(lines.iter().any(|l| l.starts_with("  Lambda") && l.ends_with(" !")));
    assert!(lines.contains(&"  ! Over budget      — exceeds --budget limit.".to_string()));
    let lines = render(&report, Some(f64_of(1.20)), &plan_cells(1));
    assert!(!lines.iter().any(|l| l.starts_with("  Lambda") && l.ends_with(" !")));
}

#[test]
fn render_skipped_providers_no_panic() {
    let mut report = make_report_empty();
    report.skipped_providers = vec![SkippedProvider {
        name: "RunPod".to_string(),
        reason: "API timeout".to_string(),
    }];
    let lines = render(&report, None, &plan_cells(0));
    assert!(lines.contains(&"  Skipped:".to_string()));
    assert!(lines.contains(&"    RunPod: API timeout".to_string()));
}

#[test]
fn render_shows_full_training_and_savings() {
    let mut report = make_report_empty();
    report.workload.vram_breakdown.gradients = report.workload.vram_breakdown.weights;
    report.workload.vram_breakdown.library_savings = -5;
    report.workload.fitting_tiers.clear();
    let lines = render(&report, None, &plan_cells(0));
    assert!(lines.iter().any(|l| l.ends_with("(full fine-tune)")));
    assert!(lines.iter().any(|l| l.starts_with("  Efficiency reduction")));
    assert!(lines.contains(&"             Warning: no standard GPU tier is large enough.".to_string()));
}

#[test]
fn format_flags_empty() {
    assert_eq!(format_flags(&vec![], &AvailabilityStatus::Available), "");
}

#[test]
fn format_flags_spot() {
    assert_eq!(format_flags(&vec![ListingFlag::Spot], &AvailabilityStatus::Available), "*");
}

#[test]
fn format_flags_volatile_and_unavailable() {
    let s = format_flags(&vec![ListingFlag::PriceVolatile], &AvailabilityStatus::Unavailable);
    assert!(s.contains('~'), "should contain volatile marker");
    assert!(s.contains("unavail"), "should contain unavail marker");
    assert_eq!(s, "~ unavail");
}

#[test]
fn format_flags_low_reliability() {
    let s = format_flags(&vec![ListingFlag::LowReliability], &AvailabilityStatus::Available);
    assert!(s.contains("low-rel"));
}

// Benchmarks

fn bench_result(runtime: &str, batch_size: u32, flagged_unreliable: bool, oom: bool) -> BenchResult {
    BenchResult {
        runtime: runtime.to_string(),
        batch_size,
        stats: BenchStats {
            p50_us: 7_000,
            p95_us: 9_000,
            p99_us: 10_000,
            min_us: 5_000,
            max_us: 11_000,
            throughput_rps: f64_of(50.0),
            stddev_ms: f64_of(1.0),
            cv: f64_of(0.05),
            sample_count: 100,
        },
        peak_memory_bytes: 1 << 29,
        memory_delta_bytes: 1 << 28,
        load_time_ms: 300,
        warmup_stable_at: 5,
        flagged_unreliable,
        oom,
    }
}

fn bench_cells() -> BenchCells {
    BenchCells {
        p50: "7.0".to_string(),
        p99: "10.0".to_string(),
        throughput: "50".to_string(),
        memory: "512".to_string(),
    }
}

fn bench_report(results: Vec<BenchResult>) -> BenchReport {
    BenchReport {
        model_path: "m.onnx".to_string(),
        optimize_for: "latency".to_string(),
        results,
        skipped: vec![SkippedRuntime { name: "tensorrt".to_string(), reason: "none".to_string() }],
        recommendation: Some(calibrate::bench::Recommendation {
            runtime: "candle".to_string(),
            batch_size: 1,
            rationale: "fast".to_string(),
        }),
        ran_at: 1_767_323_040,
    }
}

#[test]
fn benchmarks_are_tabulated() {
    let report = bench_report(vec![
        bench_result("candle", 1, false, false),
        bench_result("onnxruntime", 16, true, false),
        bench_result("candle", 32, false, true),
    ]);
    let cells = vec![bench_cells(), bench_cells(), bench_cells()];
    let lines = bench_terminal::render(&report, &cells);
    assert_eq!(
        lines[1],
        "  Runtime      Batch        p50        p99    Throughput      Memory"
    );
    assert_eq!(
        lines[3],
        ">  candle           1      7.0ms     10.0ms      50 req/s     512 MiB"
    );
    assert!(lines[4].starts_with(" * onnxruntime     16"), "got: {}", lines[4]);
    assert_eq!(
        lines[5],
        " ! candle          32        OOM        OOM           OOM         OOM"
    );
    assert!(lines.contains(&"  * High variance detected — results may be unreliable.".to_string()));
    assert!(lines
        .contains(&"Recommendation (optimising for latency): candle at batch=1".to_string()));
    assert!(lines.contains(&"  tensorrt: none".to_string()));
}

#[test]
fn empty_benchmarks_say_so() {
    let lines = bench_terminal::render(&bench_report(vec![]), &vec![]);
    assert_eq!(lines[0], "No benchmark results to display.");
    assert_eq!(lines[1], "Skipped runtimes:");
}

#[test]
fn benchmarks_become_markdown() {
    let report = bench_report(vec![
        bench_result("candle", 1, true, false),
        bench_result("onnxruntime", 2, false, true),
    ]);
    let cells = vec![bench_cells(), bench_cells()];
    let doc = bench_markdown::render(&report, &cells);
    assert!(doc.starts_with("# calibrate bench report\n\n**Model:** `m.onnx`  \n"));
    assert!(doc.contains("**Ran at:** 2026-01-02 03:04 UTC  \n\n## Results\n\n"));
    assert!(doc.contains("| **candle** ✓ * | 1 | 7.0ms | 10.0ms | 50 req/s | 512 MiB |\n"));
    assert!(doc.contains("| onnxruntime | 2 | OOM | OOM | OOM | OOM |\n"));
    assert!(doc.contains("> \\* High variance detected."));
    assert!(doc.contains("**candle at batch=1** — fast\n\n"));
    assert!(doc.ends_with("## Skipped runtimes\n\n- **tensorrt**: none\n\n"));
}

// Sessions

fn snapshot() -> SessionSnapshot {
    SessionSnapshot {
        elapsed_ms: 3_725_900,
        gpu_name: "RTX 3090".to_string(),
        mfu: MfuEstimate {
            mfu_pct: Percent(f32_of(38.0)),
            actual_tflops: Tflops(f64_of(13.5)),
            peak_tflops: Tflops(f64_of(35.6)),
            confidence: Confidence::Low,
        },
        mfu_percentiles: Some(MfuPercentiles { p50_tenths: 380, p75_tenths: 401, p95_tenths: 425 }),
        peak_mfu_pct: f32_of(44.0),
        breakdown: TimeBreakdown {
            forward_backward_pct: f32_of(60.0),
            data_loader_pct: f32_of(40.0),
            cuda_sync_pct: f32_of(0.0),
            memory_alloc_pct: f32_of(0.0),
            optimizer_pct: f32_of(0.0),
        },
        bottleneck: Bottleneck::NoBottleneck,
        recommendation: Recommendation {
            title: "Title",
            action: "Do it.",
            expected_mfu_gain_ppt: f32_of(5.0),
        },
        temperature: Celsius(f32_of(65.0)),
        power_draw: Watts(f32_of(200.0)),
        power_limit: Watts(f32_of(350.0)),
        throttle_thermal: false,
        vram_used_mib: Mib(8192),
        vram_total_mib: Mib(24576),
        vram_utilization: Percent(f32_of(33.0)),
        peak_vram_mib: Mib(9216),
        cost_impact: Some(CostImpact {
            cost_per_hour: f64_of(2.5),
            current_cost_usd: f64_of(2.5),
            target_cost_usd: f64_of(2.0),
            waste_per_hour: f64_of(0.5),
        }),
        per_gpu: vec![gpu(0), gpu(1)],
        steps_observed: 20,
        mfu_divergent: true,
        gpu_mfu_divergence_ppt: f32_of(40.0),
        nvml_available: true,
        vram_growing: false,
        step_time_ms_mean: f32_of(1000.0),
        step_time_erratic: true,
    }
}

fn gpu(gpu_index: u32) -> GpuSnapshot {
    GpuSnapshot {
        gpu_index,
        sm_utilization: Percent(f32_of(80.0)),
        vram_used_mib: Mib(512),
        temperature: Celsius(f32_of(65.0)),
    }
}

fn share(filled: usize) -> ShareCells {
    ShareCells { percent: "60.0".to_string(), filled }
}

fn snapshot_cells() -> SnapshotCells {
    let gpu = || GpuCells { sm_utilization: "80.0".to_string(), temperature: "65".to_string() };
    SnapshotCells {
        mfu: "38.0".to_string(),
        peak_mfu: "44.0".to_string(),
        actual_tflops: "13.5".to_string(),
        peak_tflops: "35.6".to_string(),
        breakdown: BreakdownCells {
            forward_backward: share(18),
            data_loader: share(12),
            cuda_sync: share(0),
            optimizer: share(0),
            memory_alloc: share(30),
        },
        temperature: "65".to_string(),
        power_draw: "200".to_string(),
        power_limit: "350".to_string(),
        divergence: "40".to_string(),
        step_time: "1000".to_string(),
        cost_per_hour: "2.50".to_string(),
        waste_per_hour: "0.50".to_string(),
        expected_gain: "5".to_string(),
        per_gpu: vec![gpu(), gpu()],
    }
}

#[test]
fn summaries_tell_the_session() {
    let lines = SummaryReport::print(&snapshot(), &snapshot_cells());
    for expected in [
        "  GPU              : RTX 3090",
        "  Duration         : 01:02:05",
        "  Steps observed   : 20",
        "  MFU              : 38.0%  (target: >45%)",
        "  MFU p50/p75/p95  : 38.0% / 40.1% / 42.5%",
        "  Peak VRAM        : 9.0 GiB / 24.0 GiB",
        "  Temperature      : 65°C",
        "  ⚠  GPU MFU divergence: 40 ppt spread across devices.",
        "  Step time (mean)   : 1000 ms  ← ERRATIC (CV > 0.3 — check data loader or memory allocation)",
        "    GPU1: SM 80.0%  VRAM 512 MiB  Temp 65°C",
        "  Primary bottleneck : None",
        "  Recommendation     : Do it.",
        "  Waste per hour   : $0.50  (at $2.50/hr)",
    ] {
        assert!(lines.contains(&expected.to_string()), "missing: {expected}");
    }
    assert!(!lines.iter().any(|l| l.contains("under 30 seconds")));
    assert!(!lines.iter().any(|l| l.contains("memory leak")));
}

#[test]
fn summaries_without_nvml_leave_out_mfu() {
    let mut s = snapshot();
    s.nvml_available = false;
    s.elapsed_ms = 29_999;
    s.per_gpu.truncate(1);
    s.cost_impact = None;
    let mut cells = snapshot_cells();
    cells.per_gpu.truncate(1);
    let lines = SummaryReport::print(&s, &cells);
    assert!(lines.iter().any(|l| l.contains("NVML unavailable")));
    assert!(!lines.iter().any(|l| l.starts_with("  MFU  ")));
    assert!(lines.iter().any(|l| l.contains("under 30 seconds")));
    assert!(!lines.iter().any(|l| l.contains("Per-GPU")));
    assert!(!lines.iter().any(|l| l.contains("Waste")));
}

#[test]
fn dashboards_show_their_parts() {
    let s = snapshot();
    let cells = snapshot_cells();
    assert_eq!(header_text(&s, &cells), "GPU: RTX 3090  •  $2.50/hr  •  Elapsed: 01:02:05");
    assert_eq!(status_rows(&s), 1);
    assert_eq!(multi_gpu_rows(&s), 4);
    let status = status_lines(&s, &cells);
    assert_eq!(status.len(), 1);
    assert_eq!(status[0].color, Color::Red);
    assert_eq!(
        gauge_label(&s.mfu, &cells),
        "MFU: 38.0% (approx)  •  13.5 / 35.6 TFLOPS  (target >45%)"
    );
    assert_eq!(
        percentile_text(&s, &cells),
        "  p50: 38.0%   p75: 40.1%   p95: 42.5%   peak: 44.0%"
    );
    let hardware = hardware_line(&s, &cells);
    assert_eq!(
        hardware.text,
        "  Temp: 65°C  •  Power: 200W / 350W  •  Throttle: OK  •  VRAM: 8.0 GiB / 24.0 GiB  •  Step: 1000 ms avg  •  Steps: ERRATIC"
    );
    assert!(!hardware.bold);
    let gpus = per_gpu_lines(&s, &cells.per_gpu);
    assert_eq!(gpus[1], "  GPU0     80.0% ⚠   512 MiB   65°C");
    assert_eq!(recommendation_text(&s, &cells), "  [+5 ppt MFU expected]\n\n  Do it.");
    assert_eq!(recommendation_title(&s), " Recommendation: Title ");
}

#[test]
fn bars_fill_up() {
    let lines = breakdown_lines(&snapshot_cells().breakdown);
    assert_eq!(lines.len(), 5);
    assert_eq!(
        lines[0].text,
        "  Forward/backward  ██████████████████░░░░░░░░░░░░   60.0%"
    );
    assert_eq!(lines[4].text.matches('█').count(), 30);
    assert_eq!(lines[4].color, Color::Magenta);
}

#[test]
fn gauges_are_coloured_by_mfu() {
    assert_eq!(gauge_color(f32_of(45.0)), Color::Green);
    assert_eq!(gauge_color(f32_of(44.9)), Color::Yellow);
    assert_eq!(gauge_color(f32_of(25.0)), Color::Yellow);
    assert_eq!(gauge_color(f32_of(24.9)), Color::Red);
    assert_eq!(gauge_color(f32_of(f32::NAN)), Color::Red);
    assert_eq!(gauge_color(f32_of(f32::INFINITY)), Color::Green);
}

#[test]
fn sessions_end_with_a_record() {
    let end = JsonRenderer.finish(Some(&snapshot())).unwrap();
    assert_eq!((end.elapsed_secs, end.steps_observed), (3725, 20));
    assert_eq!(end.final_mfu_pct, f32_of(38.0));
    assert_eq!(end.primary_bottleneck, Bottleneck::NoBottleneck);
    assert!(JsonRenderer.finish(None).is_none());
}

#[test]
fn clocks_have_two_digits() {
    assert_eq!(clock_text(0), "00:00:00");
    assert_eq!(clock_text(59), "00:00:59");
    assert_eq!(clock_text(360_000), "100:00:00");
    assert_eq!(tenths_text(1000), "100.0");
    assert_eq!(tenths_text(7), "0.7");
}
