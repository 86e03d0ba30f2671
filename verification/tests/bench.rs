use calibrate::bench::budget::{budget_guard, steady};
use calibrate::bench::compare::{
    find_configuration, format_latency_delta, p99_movement, print_comparison, DeltaCells, Movement,
};
use calibrate::bench::harness::{
    is_oom_error, throughput_goes_on, Action, BenchRun, Collected, ErrorText, Event, HarnessConfig,
};
use calibrate::bench::idle::{concurrent_warning, idle_step, slow_to_load, IdleStep};
use calibrate::bench::input::{BenchInput, ModelFormat};
use calibrate::bench::memory::{MemorySnapshot, PeakMemoryTracker};
use calibrate::bench::runtime::{build_runtime_list, registry, RuntimeKind};
use calibrate::bench::runtimes::candle::{check_header, item_spans, Header};
use calibrate::bench::runtimes::delegated::{
    driver_lines, leading_dimension, Delegated, DriverRecord, Request,
};
use calibrate::bench::runtimes::llamacpp::{
    absorb_output, detect_binary, read_bench_output, LineFigures,
};
use calibrate::bench::runtimes::metal::{
    input_vector, parse_first_tensor_shape, threads_per_group, weight_data,
};
use calibrate::bench::stats::{Spread, StatAccumulator};
use calibrate::bench::{BenchReport, BenchResult, BenchStats};
use calibrate::cli::OptimizeFor;
use calibrate::commands::bench::{
    build_recommendation, harness_config, metric_name, no_runtimes_lines,
};
use calibrate::float::{F32, F64};

fn f64_of(x: f64) -> F64 {
    F64::of(x.to_bits())
}

fn f32_of(x: f32) -> F32 {
    F32::of(x.to_bits())
}

fn no_spread() -> Spread {
    Spread { stddev_ms: f64_of(0.0), cv: f64_of(0.0) }
}

/// The spread of samples, in floating point.
fn spread_of(samples_us: &[u64]) -> Spread {
    let n = samples_us.len() as f64;
    let mean = samples_us.iter().sum::<u64>() as f64 / n;
    let squares = samples_us.iter().map(|&x| (x as f64 - mean).powi(2)).sum::<f64>();
    let stddev = (squares / (n - 1.0)).sqrt();
    Spread { stddev_ms: f64_of(stddev / 1_000.0), cv: f64_of(stddev / mean) }
}

fn stats(p99_us: u64, tput: f64) -> BenchStats {
    BenchStats {
        p50_us: p99_us * 7 / 10,
        p95_us: p99_us * 9 / 10,
        p99_us,
        min_us: p99_us / 2,
        max_us: p99_us * 11 / 10,
        throughput_rps: f64_of(tput),
        stddev_ms: f64_of(1.0),
        cv: f64_of(0.05),
        sample_count: 100,
    }
}

fn result(runtime: &str, batch: u32, p99_us: u64, tput: f64, mem_mib: u64, oom: bool) -> BenchResult {
    BenchResult {
        runtime: runtime.to_string(),
        batch_size: batch,
        stats: stats(p99_us, tput),
        peak_memory_bytes: mem_mib * 1024 * 1024,
        memory_delta_bytes: mem_mib * 512 * 1024,
        load_time_ms: 200,
        warmup_stable_at: 5,
        flagged_unreliable: false,
        oom,
    }
}

fn report(results: Vec<BenchResult>) -> BenchReport {
    BenchReport {
        model_path: "/tmp/model.onnx".to_string(),
        optimize_for: "latency".to_string(),
        results,
        skipped: vec![],
        recommendation: None,
        ran_at: 1_767_323_040,
    }
}

fn figures(n: usize) -> Vec<String> {
    (0..n).map(|i| format!("{i}.0")).collect()
}

// Comparison

#[test]
fn zero_baseline_has_no_percentage() {
    let base = result("onnx", 1, 0, 50.0, 512, false);
    let cur = result("onnx", 1, 10_000, 50.0, 512, false);
    assert_eq!(format_latency_delta(&base, &cur, "+0.0"), "n/a");
}

#[test]
fn format_latency_delta_regression_label() {
    // 10 % increase: regression (threshold is > 5 %)
    let base = result("onnx", 1, 10_000, 50.0, 512, false);
    let cur = result("onnx", 1, 11_000, 50.0, 512, false);
    let s = format_latency_delta(&base, &cur, "+10.0");
    assert!(s.contains("regression"), "got: {s}");
    assert_eq!(s, "+10.0% (regression)");
}

#[test]
fn format_latency_delta_improvement_label() {
    // 20 % decrease: improved
    let base = result("onnx", 1, 10_000, 50.0, 512, false);
    let cur = result("onnx", 1, 8_000, 50.0, 512, false);
    let s = format_latency_delta(&base, &cur, "-20.0");
    assert!(s.contains("improved"), "got: {s}");
}

#[test]
fn format_latency_delta_unchanged_within_threshold() {
    // 3 % increase: within the ±5 % unchanged band
    let base = result("onnx", 1, 10_000, 50.0, 512, false);
    let cur = result("onnx", 1, 10_300, 50.0, 512, false);
    let s = format_latency_delta(&base, &cur, "+3.0");
    assert!(s.contains("unchanged"), "got: {s}");
}

#[test]
fn movement_threshold_is_exact() {
    assert_eq!(p99_movement(10_000, 10_500), Movement::Unchanged);
    assert_eq!(p99_movement(10_000, 10_501), Movement::Regression);
    assert_eq!(p99_movement(10_000, 9_500), Movement::Unchanged);
    assert_eq!(p99_movement(10_000, 9_499), Movement::Improvement);
    assert_eq!(p99_movement(0, 5), Movement::Unchanged);
    assert_eq!(p99_movement(u64::MAX, u64::MAX), Movement::Unchanged);
}

fn delta_cells() -> DeltaCells {
    DeltaCells {
        p50: "-1.0".to_string(),
        p99: "+2.0".to_string(),
        throughput: "+3.0".to_string(),
        memory: "-4".to_string(),
    }
}

#[test]
fn print_comparison_does_not_panic_on_new_and_removed_entries() {
    let base = report(vec![result("onnx", 1, 20_000, 50.0, 512, false)]);
    let cur = report(vec![result("candle", 1, 15_000, 50.0, 512, false)]);
    // "onnx" is removed in current, "candle" is new: both code paths exercised.
    let lines = print_comparison(&base, &cur, &vec![delta_cells()]);
    assert_eq!(lines.len(), 8);
    assert_eq!(lines[1], "  Baseline : /tmp/model.onnx (2026-01-02)");
    assert_eq!(lines[6], "candle (1)              NEW");
    assert_eq!(lines[7], "onnx (1)             REMOVED");
}

#[test]
fn print_comparison_shows_differences() {
    let base = report(vec![result("onnx", 4, 20_000, 50.0, 512, false)]);
    let cur = report(vec![result("onnx", 4, 30_000, 50.0, 512, false)]);
    let lines = print_comparison(&base, &cur, &vec![delta_cells()]);
    assert_eq!(lines.len(), 7);
    assert_eq!(
        lines[6],
        "onnx (4)                         -1.0ms     +2.0ms     +3.0/s          -4MiB   REGRESSION"
    );
}

#[test]
fn configurations_match_by_runtime_and_batch() {
    let all = vec![
        result("onnx", 1, 1, 1.0, 1, false),
        result("onnx", 8, 1, 1.0, 1, false),
        result("onnx", 8, 2, 1.0, 1, false),
    ];
    assert_eq!(find_configuration(&all, &result("onnx", 8, 9, 9.0, 9, false)), Some(1));
    assert_eq!(find_configuration(&all, &result("candle", 8, 9, 9.0, 9, false)), None);
}

// Out-of-memory errors and the configuration

#[test]
fn oom_error_detects_oom_string() {
    assert!(is_oom_error("CUDA error: out of memory"));
}

#[test]
fn oom_error_detects_oom_abbreviation() {
    assert!(is_oom_error("RuntimeError: CUDA out of memory (OOM)"));
}

#[test]
fn oom_error_does_not_match_unrelated_error() {
    assert!(!is_oom_error("model file not found"));
}

#[test]
fn harness_config_default_values() {
    let cfg = HarnessConfig::default();
    assert_eq!(cfg.warmup, 20);
    assert_eq!(cfg.iterations, 100);
    assert_eq!(cfg.gpu_device_index, None);
    // 10-minute budget
    assert_eq!(cfg.max_total_ns, std::time::Duration::from_secs(600).as_nanos());
}

#[test]
fn harness_config_takes_what_the_user_asks_for() {
    let cfg = harness_config(3, 7, Some(1));
    assert_eq!((cfg.warmup, cfg.iterations, cfg.gpu_device_index), (3, 7, Some(1)));
    assert_eq!(cfg.throughput_window_ns, 5_000_000_000);
}

// Inputs

#[test]
fn format_from_path() {
    let cases = [
        ("model.onnx", ModelFormat::Onnx),
        ("weights.gguf", ModelFormat::Gguf),
        ("model.pt", ModelFormat::TorchScript),
        ("model.safetensors", ModelFormat::SafeTensors),
        ("model.bin", ModelFormat::Unknown),
    ];
    for (name, expected) in cases {
        assert_eq!(ModelFormat::from_path(name), expected, "{name}");
    }
}

#[test]
fn format_from_awkward_paths() {
    assert_eq!(ModelFormat::from_path("/models/v1.2/model.pth"), ModelFormat::TorchScript);
    assert_eq!(ModelFormat::from_path("/models.onnx/model"), ModelFormat::Unknown);
    assert_eq!(ModelFormat::from_path(".onnx"), ModelFormat::Unknown);
    assert_eq!(ModelFormat::from_path("model.onnx/"), ModelFormat::Onnx);
    assert_eq!(ModelFormat::from_path("model.ONNX"), ModelFormat::Unknown);
    assert_eq!(ModelFormat::from_path(""), ModelFormat::Unknown);
}

#[test]
fn formats_have_names() {
    assert_eq!(ModelFormat::Onnx.as_str(), "ONNX");
    assert_eq!(ModelFormat::Unknown.as_str(), "Unknown");
}

#[test]
fn default_shapes_lead_with_the_batch() {
    assert_eq!(BenchInput::default_shape_for_format(ModelFormat::Onnx, 4), vec![4, 3, 224, 224]);
    assert_eq!(BenchInput::default_shape_for_format(ModelFormat::Gguf, 2), vec![2, 512]);
}

#[test]
fn element_count_multiplies_the_shape() {
    assert_eq!(BenchInput::element_count(&vec![4, 3, 224, 224]), Some(4 * 3 * 224 * 224));
    assert_eq!(BenchInput::element_count(&vec![usize::MAX, 2]), None);
}

// Statistics

fn ms_to_us(ms: u64) -> u64 {
    ms * 1_000
}

#[test]
fn percentiles_correct() {
    let mut acc = StatAccumulator::new();
    // 100 samples: 98 × 10 ms, 2 × 100 ms.
    // 98% of values are at 10ms, so p99 falls at 100ms.
    for _ in 0..98 {
        acc.record_micros(ms_to_us(10));
    }
    for _ in 0..2 {
        acc.record_micros(ms_to_us(100));
    }
    let stats = acc.finalize(f64_of(0.0), no_spread());
    assert!((stats.p50_us as f64 / 1000.0 - 10.0).abs() < 1.0, "p50 ≈ 10ms");
    assert!(stats.p99_us as f64 / 1000.0 >= 50.0, "p99 should reflect the 100ms tail");
    assert!((stats.max_us as f64 / 1000.0 - 100.0).abs() < 1.0, "max should be 100ms");
    assert_eq!(stats.sample_count, 100);
}

#[test]
fn cv_zero_for_uniform_samples() {
    let mut acc = StatAccumulator::new();
    for _ in 0..50 {
        acc.record_micros(ms_to_us(20));
    }
    assert_eq!(acc.samples().len(), 50);
    let spread = spread_of(acc.samples());
    let stats = acc.finalize(f64_of(100.0), spread);
    assert!(f64::from_bits(stats.cv.bits) < 0.01, "CV should be near zero for uniform samples");
    assert!((f64::from_bits(stats.throughput_rps.bits) - 100.0).abs() < f64::EPSILON);
}

#[test]
fn empty_accumulator_produces_zeros() {
    let acc = StatAccumulator::new();
    let stats = acc.finalize(f64_of(0.0), no_spread());
    assert_eq!(stats.sample_count, 0);
    assert_eq!(stats.cv, f64_of(0.0));
    assert_eq!(stats.p99_us, 0);
}

#[test]
fn instant_samples_count_as_a_microsecond() {
    let mut acc = StatAccumulator::new();
    acc.record_micros(0);
    assert_eq!(acc.samples(), &vec![1]);
    let stats = acc.finalize(f64_of(0.0), no_spread());
    assert_eq!((stats.min_us, stats.max_us), (1, 1));
}

#[test]
fn single_samples_do_not_spread() {
    let wide = Spread { stddev_ms: f64_of(2.0), cv: f64_of(0.25) };
    let mut acc = StatAccumulator::new();
    acc.record_micros(ms_to_us(20));
    let stats = acc.finalize(f64_of(0.0), wide);
    assert_eq!((stats.stddev_ms, stats.cv), (f64_of(0.0), f64_of(0.0)));
    let stats = StatAccumulator::new().finalize(f64_of(0.0), wide);
    assert_eq!((stats.stddev_ms, stats.cv), (f64_of(0.0), f64_of(0.0)));
    let mut acc = StatAccumulator::new();
    acc.record_micros(ms_to_us(20));
    acc.record_micros(ms_to_us(30));
    let stats = acc.finalize(f64_of(0.0), wide);
    assert_eq!((stats.stddev_ms, stats.cv), (f64_of(2.0), f64_of(0.25)));
}

#[test]
fn spreads_are_those_of_the_samples() {
    let mut acc = StatAccumulator::new();
    for ms in [10, 20, 30] {
        acc.record_micros(ms_to_us(ms));
    }
    let spread = spread_of(acc.samples());
    let stats = acc.finalize(f64_of(1.0), spread);
    assert!((f64::from_bits(stats.stddev_ms.bits) - 10.0).abs() < 1e-9);
    assert!((f64::from_bits(stats.cv.bits) - 0.5).abs() < 1e-9);
}

#[test]
fn throughput_windows_end_on_time() {
    assert!(throughput_goes_on(0, 1));
    assert!(throughput_goes_on(4_999_999_999, 5_000_000_000));
    assert!(!throughput_goes_on(5_000_000_000, 5_000_000_000));
    assert!(!throughput_goes_on(0, 0));
}

// Memory

#[test]
fn memory_growth_never_goes_below_zero() {
    let before = MemorySnapshot::take(Some(100), Some(50));
    let after = MemorySnapshot::take(Some(300), Some(20));
    let d = after.delta_from(&before);
    assert_eq!((d.vram_delta_bytes, d.rss_delta_bytes), (200, 0));
}

#[test]
fn peak_memory_is_the_highest_reading() {
    let mut peak = PeakMemoryTracker::new();
    for (v, r) in [(1, 9), (7, 2), (3, 4)] {
        peak.update(MemorySnapshot::take(Some(v), Some(r)));
    }
    let p = peak.peak();
    assert_eq!((p.vram_used_bytes, p.rss_bytes), (7, 9));
}

// The recommendation

#[test]
fn recommendation_latency_picks_lowest_p99() {
    let results = vec![
        result("onnx", 1, 25_000, 40.0, 512, false),
        result("candle", 1, 10_000, 90.0, 380, false), // lowest p99
        result("llama", 1, 50_000, 20.0, 800, false),
    ];
    let rec = build_recommendation(&results, OptimizeFor::Latency, &figures(3)).unwrap();
    assert_eq!(rec.runtime, "candle");
    assert_eq!(rec.batch_size, 1);
}

#[test]
fn recommendation_throughput_picks_highest_rps() {
    let results = vec![
        result("onnx", 1, 20_000, 60.0, 512, false),
        result("candle", 1, 15_000, 120.0, 380, false), // highest tput
        result("llama", 1, 30_000, 30.0, 800, false),
    ];
    let rec = build_recommendation(&results, OptimizeFor::Throughput, &figures(3)).unwrap();
    assert_eq!(rec.runtime, "candle");
}

#[test]
fn recommendation_memory_picks_lowest_memory() {
    let results = vec![
        result("onnx", 1, 20_000, 60.0, 512, false),
        result("candle", 1, 15_000, 90.0, 200, false), // lowest memory
        result("llama", 1, 30_000, 30.0, 900, false),
    ];
    let rec = build_recommendation(&results, OptimizeFor::Memory, &figures(3)).unwrap();
    assert_eq!(rec.runtime, "candle");
}

#[test]
fn recommendation_excludes_oom_results() {
    let results = vec![
        result("onnx", 1, 20_000, 60.0, 512, false),
        result("candle", 1, 5_000, 999.0, 100, true), // oom: must be ignored
    ];
    let rec = build_recommendation(&results, OptimizeFor::Latency, &figures(2)).unwrap();
    assert_eq!(rec.runtime, "onnx", "OOM result should not win");
}

#[test]
fn recommendation_all_oom_returns_none() {
    let results = vec![
        result("onnx", 1, 0, 0.0, 0, true),
        result("candle", 1, 0, 0.0, 0, true),
    ];
    assert!(build_recommendation(&results, OptimizeFor::Latency, &figures(2)).is_none());
}

#[test]
fn equal_results_are_settled_by_position() {
    let results = vec![
        result("a", 1, 10, 5.0, 1, false),
        result("b", 1, 10, 5.0, 1, false),
    ];
    let pick = |by| build_recommendation(&results, by, &figures(2)).unwrap().runtime;
    assert_eq!(pick(OptimizeFor::Latency), "a");
    assert_eq!(pick(OptimizeFor::Memory), "a");
    assert_eq!(pick(OptimizeFor::Throughput), "b");
}

#[test]
fn metrics_have_names() {
    assert_eq!(metric_name(OptimizeFor::Latency), "latency");
    assert_eq!(metric_name(OptimizeFor::Throughput), "throughput");
    assert_eq!(metric_name(OptimizeFor::Memory), "memory");
}

// Budget and warm-up

#[test]
fn budget_reduces_iterations() {
    let second: u128 = 1_000_000_000;
    let b = budget_guard(100, 20, second, 600 * second);
    assert_eq!(b.iterations, 100);
    assert!(b.note.is_none());
    let b = budget_guard(100, 20, 10 * second, 600 * second);
    assert!(b.iterations < 100);
    assert!(b.note.is_some());
    let b = budget_guard(100, 20, 0, 600 * second);
    assert_eq!(b.iterations, 100);
}

#[test]
fn budgets_only_reduce() {
    let second: u128 = 1_000_000_000;
    // Ten of the requested iterations are kept where the warm-up uses up the budget.
    let b = budget_guard(100, 20, 60 * second, 600 * second);
    assert_eq!(b.iterations, 10);
    // Fewer than ten requested stay as they are.
    let b = budget_guard(5, 0, 200 * second, 600 * second);
    assert_eq!(b.iterations, 5);
    let b = budget_guard(5, 20, 60 * second, 600 * second);
    assert_eq!(b.iterations, 5);
    assert!(b.note.unwrap().ends_with("Proceeding with 5 measurement iterations."));
}

#[test]
fn steadiness_needs_five_close_timings() {
    assert!(steady(&vec![100, 101, 99, 100, 100]));
    assert!(!steady(&vec![100, 150, 50, 100, 100]));
    assert!(!steady(&vec![100, 100, 100, 100]));
    // The spread goes by its ratio to the mean.
    assert!(steady(&vec![100_000, 101_000, 99_000, 100_000, 100_000]));
    // Timings of every length are told apart.
    let day: u64 = 86_400_000_000_000;
    assert!(steady(&vec![100 * day, 101 * day, 99 * day, 100 * day, 100 * day]));
    assert!(!steady(&vec![100 * day, 150 * day, 50 * day, 100 * day, 100 * day]));
    assert!(steady(&vec![u64::MAX, u64::MAX, u64::MAX, u64::MAX, u64::MAX]));
    assert!(!steady(&vec![u64::MAX, 0, u64::MAX, u64::MAX, u64::MAX]));
    assert!(!steady(&vec![0, 0, 0, 0, 0]));
}

// Idle waiting

#[test]
fn idle_waits_until_quiet_or_late() {
    assert_eq!(idle_step(0, Some(80)), IdleStep::Wait);
    assert_eq!(idle_step(0, Some(5)), IdleStep::Idle);
    assert_eq!(idle_step(0, None), IdleStep::Wait);
    assert_eq!(idle_step(u64::MAX, Some(0)), IdleStep::TimedOut);
}

#[test]
fn other_gpu_processes_are_counted() {
    assert!(concurrent_warning(&vec![7], 7).is_none());
    let w = concurrent_warning(&vec![7, 8, 9], 7).unwrap();
    assert!(w.starts_with("Warning: 2 other GPU compute process(es)"), "got: {w}");
}

#[test]
fn slow_loads_are_noticed() {
    assert!(!slow_to_load(0));
    assert!(slow_to_load(u64::MAX));
}

// Runtimes

#[test]
fn every_runtime_is_run_or_skipped() {
    let all = registry(&vec![RuntimeKind::OnnxRuntime]);
    assert_eq!(all.len(), 5);
    let (ready, skipped) = build_runtime_list(&all, &None, ModelFormat::Onnx);
    assert_eq!(ready, vec![RuntimeKind::OnnxRuntime]);
    assert_eq!(skipped.len(), 4);
}

#[test]
fn runtimes_are_requested_by_name() {
    let all = registry(&vec![RuntimeKind::OnnxRuntime]);
    let asked = Some(vec!["ONNXRuntime".to_string(), "candle".to_string()]);
    let (ready, skipped) = build_runtime_list(&all, &asked, ModelFormat::Onnx);
    assert_eq!(ready, vec![RuntimeKind::OnnxRuntime]);
    assert_eq!(skipped.len(), 1);
    assert_eq!(skipped[0].name, "candle");
}

#[test]
fn missing_runtimes_are_explained() {
    let all = registry(&vec![]);
    let (ready, skipped) = build_runtime_list(&all, &None, ModelFormat::Gguf);
    assert!(ready.is_empty());
    let lines = no_runtimes_lines(ModelFormat::Gguf, &skipped);
    assert_eq!(lines[0], "No benchmarkable runtimes found for the GGUF format.");
    assert_eq!(lines[2], "\nSkipped:");
    assert_eq!(lines.len(), 3 + skipped.len());
}

// Driver processes

#[test]
fn delegated_samples_are_handed_out_once() {
    let mut d = Delegated::new();
    assert!(d.load("/m.onnx", true).is_ok());
    assert!(matches!(d.request("onnxruntime"), Request::Run(p) if p == "/m.onnx"));
    let errors = d.absorb(&vec![
        DriverRecord::LoadMs { ms: 12 },
        DriverRecord::LatencyUs { us: 500 },
        DriverRecord::LatencyUs { us: 700 },
        DriverRecord::ThroughputRps { rps: f64_of(90.0) },
        DriverRecord::Error { message: "slow".to_string() },
    ]);
    assert_eq!(errors, vec!["slow".to_string()]);
    assert!(matches!(d.request("onnxruntime"), Request::Replay));
    let c = d.pre_collected_samples().unwrap();
    assert_eq!(c.samples_us, vec![500, 700]);
    assert_eq!((c.load_ms, c.throughput_rps), (12, f64_of(90.0)));
    assert!(d.pre_collected_samples().is_none());
    d.unload();
    assert!(matches!(d.request("onnxruntime"), Request::Fail(_)));
}

#[test]
fn delegated_model_must_exist() {
    let mut d = Delegated::new();
    let e = d.load("/missing.onnx", false).unwrap_err();
    assert!(e.contains("/missing.onnx"), "got: {e}");
}

#[test]
fn driver_output_is_read_by_lines() {
    assert_eq!(driver_lines("{\"a\":1}\n\n  \n{\"b\":2}\n").len(), 2);
    assert_eq!(leading_dimension(&vec![8, 512]), 8);
    assert_eq!(leading_dimension(&vec![]), 1);
}

#[test]
fn llama_binaries_are_preferred_in_order() {
    assert_eq!(detect_binary(true, true), "llama-bench");
    assert_eq!(detect_binary(false, true), "llama-cli");
    assert_eq!(detect_binary(false, false), "");
}

#[test]
fn llama_output_is_read() {
    let out = "build: 123\n{\"t_load_ms\": 250.5, \"t_pp_ms\": 80.0, \"n_pp\": 512}\n{\"n_pp\": 0, \"t_pp_ms\": 1.0}\n{broken\n";
    let lines = read_bench_output(out);
    assert_eq!(lines.len(), 3);
    assert_eq!(lines[0].t_load_ms, Some(f64_of(250.5)));
    let run = lines[0].prompt.unwrap();
    assert_eq!((run.t_pp_ms, run.n_pp), (f64_of(80.0), 512));
    assert!(lines[1].prompt.is_none());
    assert!(lines[2].t_load_ms.is_none());
}

#[test]
fn llama_prompt_times_have_two_names() {
    let out = "{\"t_p_ms\": 40.0, \"n_pp\": 8}\n{\"t_pp_ms\": 80.0, \"t_p_ms\": 40.0, \"n_pp\": 8}\n\
               {\"t_pp_ms\": null, \"t_p_ms\": 20.0, \"n_pp\": 8}\n{\"n_pp\": 8}\n";
    let lines = read_bench_output(out);
    let times: Vec<_> = lines.iter().map(|l| l.prompt.map(|p| p.t_pp_ms)).collect();
    assert_eq!(times, vec![Some(f64_of(40.0)), Some(f64_of(80.0)), Some(f64_of(20.0)), None]);
}

#[test]
fn llama_output_without_runs_falls_back_to_elapsed_time() {
    let mut d = Delegated::new();
    assert!(!absorb_output(&mut d, &vec![], 40, f64_of(25.0)));
    assert_eq!(d.latency_samples_us, vec![40_000]);
    assert_eq!(d.throughput_rps, f64_of(25.0));
    let mut d = Delegated::new();
    let line = LineFigures { load_ms: Some(9), run: Some((0, f64_of(3.0))) };
    assert!(absorb_output(&mut d, &vec![line], 40, f64_of(25.0)));
    assert_eq!(d.load_ms, 9);
    assert!(d.latency_samples_us.iter().all(|&us| us == 1));
    assert_eq!(d.throughput_rps, f64_of(3.0));
}

// Checkpoints

#[test]
fn checkpoint_headers_are_checked() {
    assert_eq!(check_header(&vec![1, 2, 3]), Header::TooSmall);
    assert_eq!(check_header(&vec![4, 0, 0, 0, 0, 0, 0, 0, 1]), Header::Truncated);
    assert_eq!(check_header(&vec![2, 0, 0, 0, 0, 0, 0, 0, b'{', b'}', 9]), Header::Complete(2));
    assert_eq!(check_header(&vec![255; 16]), Header::Truncated);
}

#[test]
fn batch_items_share_the_input() {
    assert_eq!(item_spans(10, 3), vec![(0, 3), (3, 6), (6, 9)]);
    assert_eq!(item_spans(10, 0), vec![]);
}

#[test]
fn tensor_shapes_are_read_from_headers() {
    let header = "{\"__metadata__\": {\"shape\": [1, 1]}, \"w\": {\"dtype\": \"F32\", \"shape\": [64, 3, 128]}}";
    assert_eq!(parse_first_tensor_shape(header), Some((64, 128)));
    assert_eq!(parse_first_tensor_shape("{\"b\": {\"shape\": [100]}}"), Some((10, 10)));
    assert_eq!(parse_first_tensor_shape("{\"b\": {\"shape\": [0]}}"), Some((1, 1)));
    assert_eq!(parse_first_tensor_shape("{}"), Some((512, 512)));
    assert_eq!(parse_first_tensor_shape("[1]"), Some((512, 512)));
    assert_eq!(parse_first_tensor_shape("not json"), Some((512, 512)));
}

#[test]
fn weights_and_inputs_are_padded_with_zeros() {
    let bytes = vec![2, 0, 0, 0, 0, 0, 0, 0, b'{', b'}', 1, 2, 3];
    assert_eq!(weight_data(&bytes, 2, 1, 1), vec![1, 2, 3, 0]);
    assert_eq!(weight_data(&vec![0; 20], 2, 1, 2), vec![0; 8]);
    let v = input_vector(&vec![f32_of(1.0), f32_of(2.0)], 3);
    assert_eq!(v, vec![f32_of(1.0), f32_of(2.0), f32_of(0.0)]);
    assert_eq!(threads_per_group(1024, 5000), 256);
    assert_eq!(threads_per_group(64, 5000), 64);
    assert_eq!(threads_per_group(1024, 3), 3);
}

// The harness

fn error(text: &str) -> Option<ErrorText> {
    Some(ErrorText { debug: text.to_string(), display: text.to_string() })
}

fn config(warmup: u32, iterations: u32) -> HarnessConfig {
    HarnessConfig { warmup, iterations, ..HarnessConfig::default() }
}

/// Answers whatever the run asks for, with every inference succeeding.
fn play(mut run: BenchRun) -> BenchRun {
    let mut steps = 0;
    loop {
        steps += 1;
        assert!(steps < 10_000, "the run does not end");
        let event = match run.action() {
            Action::Finish => return run,
            Action::ReadMemory => {
                Event::Memory { reading: MemorySnapshot::take(Some(0), Some(1_000)) }
            }
            Action::Load => Event::Loaded { error: None, elapsed_ms: 30 },
            Action::FirstInfer => Event::FirstInferred { error: None, collected: None },
            Action::TimeOne => Event::Timed { elapsed_ns: 1_000_000 },
            Action::Infer => Event::Inferred { error: None, elapsed_us: 1_000 },
            Action::MeasureThroughput => Event::Throughput { rps: f64_of(700.0) },
            Action::ComputeSpread => Event::Spread { spread: no_spread() },
            Action::Unload | Action::UnloadAndCoolDown => Event::Done,
        };
        run = run.advance(event);
    }
}

#[test]
fn runs_measure_every_batch_with_an_input() {
    let run = BenchRun::new("candle".to_string(), config(6, 12), vec![1, 4, 9], vec![1, 4]);
    let run = play(run);
    assert_eq!(run.results.len(), 2);
    assert!(run.skipped.is_empty());
    assert_eq!(run.results[0].batch_size, 1);
    assert_eq!(run.results[1].batch_size, 4);
    assert_eq!(run.results[0].stats.sample_count, 12);
    assert_eq!(run.results[0].stats.throughput_rps, f64_of(700.0));
    assert_eq!(run.results[0].load_time_ms, 30);
    assert!(!run.results[0].oom);
}

#[test]
fn each_batch_has_one_entry_in_order() {
    let mut run =
        BenchRun::new("candle".to_string(), config(1, 1), vec![1, 2, 3, 4, 5], vec![1, 2, 4, 5]);
    while run.batch_size() == Some(1) {
        // The first batch size is measured.
        let event = match run.action() {
            Action::ReadMemory => Event::Memory { reading: MemorySnapshot::take(None, None) },
            Action::Load => Event::Loaded { error: None, elapsed_ms: 1 },
            Action::FirstInfer => Event::FirstInferred { error: None, collected: None },
            Action::TimeOne => Event::Timed { elapsed_ns: 5 },
            Action::Infer => Event::Inferred { error: None, elapsed_us: 5 },
            Action::MeasureThroughput => Event::Throughput { rps: f64_of(1.0) },
            Action::ComputeSpread => Event::Spread { spread: no_spread() },
            _ => Event::Done,
        };
        run = run.advance(event);
    }
    // The second does not load, the third has no input, the fourth runs out of memory.
    run = run.advance(Event::Memory { reading: MemorySnapshot::take(None, None) });
    run = run.advance(Event::Loaded { error: error("bad file"), elapsed_ms: 1 });
    assert_eq!(run.batch_size(), Some(4));
    run = run.advance(Event::Memory { reading: MemorySnapshot::take(None, None) });
    run = run.advance(Event::Loaded { error: error("out of memory"), elapsed_ms: 1 });
    let run = play(run);
    let sizes: Vec<u32> = run.results.iter().map(|r| r.batch_size).collect();
    assert_eq!(sizes, vec![1, 4, 5]);
    assert!(run.results[1].oom && !run.results[2].oom);
    let names: Vec<&str> = run.skipped.iter().map(|s| s.name.as_str()).collect();
    assert_eq!(names, vec!["candle (batch=2)"]);
}

#[test]
fn load_failures_are_skipped() {
    let mut run = BenchRun::new("onnx".to_string(), config(1, 1), vec![1], vec![1]);
    run = run.advance(Event::Memory { reading: MemorySnapshot::take(None, None) });
    assert_eq!(run.action(), Action::Load);
    run = run.advance(Event::Loaded { error: error("bad file"), elapsed_ms: 1 });
    assert_eq!(run.action(), Action::Finish);
    assert!(run.results.is_empty());
    assert_eq!(run.skipped[0].name, "onnx (batch=1)");
    assert_eq!(run.skipped[0].reason, "load failed: bad file");
}

#[test]
fn load_out_of_memory_is_a_result() {
    let mut run = BenchRun::new("onnx".to_string(), config(1, 1), vec![1], vec![1]);
    run = run.advance(Event::Memory { reading: MemorySnapshot::take(None, None) });
    run = run.advance(Event::Loaded { error: error("CUDA out of memory"), elapsed_ms: 4 });
    assert_eq!(run.action(), Action::Unload);
    run = run.advance(Event::Done);
    assert_eq!(run.action(), Action::Finish);
    assert!(run.results[0].oom);
    assert_eq!(run.results[0].load_time_ms, 4);
}

#[test]
fn collected_samples_replace_the_measurement() {
    let mut run = BenchRun::new("llamacpp".to_string(), config(5, 50), vec![1], vec![1]);
    run = run.advance(Event::Memory { reading: MemorySnapshot::take(None, Some(10)) });
    run = run.advance(Event::Loaded { error: None, elapsed_ms: 1 });
    let collected = Collected {
        samples_us: vec![100, 200],
        throughput_rps: f64_of(8.0),
        load_ms: 77,
    };
    run = run.advance(Event::FirstInferred { error: None, collected: Some(collected) });
    let run = play(run);
    assert_eq!(run.results.len(), 1);
    assert_eq!(run.results[0].stats.sample_count, 2);
    assert_eq!(run.results[0].stats.throughput_rps, f64_of(8.0));
    assert_eq!(run.results[0].load_time_ms, 77);
}

#[test]
fn high_variation_is_flagged() {
    let mut run = BenchRun::new("candle".to_string(), config(1, 2), vec![1], vec![1]);
    while run.action() != Action::ComputeSpread {
        let event = match run.action() {
            Action::ReadMemory => Event::Memory { reading: MemorySnapshot::take(None, None) },
            Action::Load => Event::Loaded { error: None, elapsed_ms: 0 },
            Action::FirstInfer => Event::FirstInferred { error: None, collected: None },
            Action::TimeOne => Event::Timed { elapsed_ns: 5 },
            Action::Infer => Event::Inferred { error: None, elapsed_us: 5 },
            Action::MeasureThroughput => Event::Throughput { rps: f64_of(1.0) },
            other => panic!("unexpected action: {other:?}"),
        };
        run = run.advance(event);
    }
    assert_eq!(run.samples().map(|s| s.len()), Some(2));
    let spread = Spread { stddev_ms: f64_of(2.0), cv: f64_of(0.25) };
    let run = play(run.advance(Event::Spread { spread }));
    assert!(run.results[0].flagged_unreliable);
    assert_eq!(run.results[0].stats.cv, f64_of(0.25));
}
