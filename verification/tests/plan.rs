use calibrate::cli::{Availability, FinetuneMethod, OptimizerLib, QuantLevel};
use calibrate::commands::plan::{
    budget_note, build_recommendation, estimated, exceeds_budget, plan_report, rank, sort_key,
    viable_listings, BudgetCells,
};
use calibrate::float::F64;
use calibrate::gpu_specs::fallback::FallbackRepository;
use calibrate::gpu_specs::GpuSpec;
use calibrate::plan::duration::estimator::{
    effective_mfu, training_work, TrainingWork, HIGH_PERCENT, LOW_PERCENT,
};
use calibrate::plan::model::resolver::{
    hub_url, infer_spec_from_params, local_config, resolve, HfConfig, HubReply, LocalConfig,
};
use calibrate::plan::model::ModelSpec;
use calibrate::plan::providers::lambda::{instance, GpuInfo, InstanceEntry};
use calibrate::plan::providers::runpod::{listings, GpuType};
use calibrate::plan::providers::vastai::{market_floor, VastOffer};
use calibrate::plan::providers::{all_failed, gather, wanted, GpuListing};
use calibrate::plan::vram::estimator::{estimate, fitting_tiers};
use calibrate::plan::{
    AvailabilityStatus, CostCells, CostRange, DurationCells, DurationRange, ListingCells,
    ListingFlag, PlanRecommendation, RankedListing, SkippedProvider, VramBreakdown, WorkloadSummary,
};

fn f64_of(x: f64) -> F64 {
    F64::of(x.to_bits())
}

fn double(x: F64) -> f64 {
    f64::from_bits(x.bits)
}

fn llama_7b() -> ModelSpec {
    ModelSpec {
        model_id: "meta-llama/Llama-2-7b".to_string(),
        params: 7_000_000_000,
        num_layers: 32,
        hidden_size: 4096,
        num_heads: 32,
        num_kv_heads: 32,
    }
}

fn gib(units: u128, b: &VramBreakdown) -> f64 {
    units as f64 / b.units_per_byte as f64 / 1_073_741_824.0
}

fn vram(method: FinetuneMethod, lib: OptimizerLib, quant: QuantLevel) -> VramBreakdown {
    estimate(&llama_7b(), method, lib, quant, 1).unwrap()
}

// VRAM

#[test]
fn full_precision_7b_weights_approx_13gib() {
    // 7 × 10^9 × 2 bytes / 2^30 ≈ 13.04 GiB
    let bd = vram(FinetuneMethod::Full, OptimizerLib::Plain, QuantLevel::Unquantized);
    let w = gib(bd.weights, &bd);
    assert!((w - 13.04).abs() < 0.1, "expected ~13.0 GiB, got {w:.2}");
}

#[test]
fn fourbit_weights_half_of_eightbit() {
    let bd8 = vram(FinetuneMethod::Lora, OptimizerLib::Plain, QuantLevel::EightBit);
    let bd4 = vram(FinetuneMethod::Lora, OptimizerLib::Plain, QuantLevel::FourBit);
    assert_eq!(bd8.weights, 2 * bd4.weights, "4-bit weights should be exactly half of 8-bit");
}

#[test]
fn lora_gradients_are_about_1pct_of_full() {
    let bd_full = vram(FinetuneMethod::Full, OptimizerLib::Plain, QuantLevel::Unquantized);
    let bd_lora = vram(FinetuneMethod::Lora, OptimizerLib::Plain, QuantLevel::Unquantized);
    let ratio = bd_lora.gradients as f64 / bd_full.gradients as f64;
    assert!((ratio - 0.01).abs() < 0.001, "LoRA gradient ratio should be 1%, got {ratio:.4}");
}

#[test]
fn unsloth_reduces_total_by_40_to_60_pct() {
    let bd_none = vram(FinetuneMethod::Lora, OptimizerLib::Plain, QuantLevel::FourBit);
    let bd_unsloth = vram(FinetuneMethod::Lora, OptimizerLib::Unsloth, QuantLevel::FourBit);
    let reduction = 1.0 - bd_unsloth.total as f64 / bd_none.total as f64;
    assert!(
        (0.40..=0.60).contains(&reduction),
        "Unsloth should reduce by 40–60%, got {:.1}%",
        reduction * 100.0
    );
}

#[test]
fn library_savings_is_negative() {
    let bd = vram(FinetuneMethod::Lora, OptimizerLib::Unsloth, QuantLevel::FourBit);
    assert!(bd.library_savings < 0, "savings should be expressed as a negative delta");
}

#[test]
fn total_equals_sum_of_components() {
    for lib in [OptimizerLib::Plain, OptimizerLib::Unsloth, OptimizerLib::DeepSpeed] {
        let bd = vram(FinetuneMethod::Full, lib, QuantLevel::Unquantized);
        let computed = bd.weights as i128
            + bd.gradients as i128
            + bd.optimizer as i128
            + bd.activations as i128
            + bd.kv_cache as i128
            + bd.library_savings;
        assert_eq!(computed, bd.total as i128, "sum mismatch");
    }
}

#[test]
fn components_have_their_sizes() {
    let bd = vram(FinetuneMethod::Full, OptimizerLib::Plain, QuantLevel::Unquantized);
    let bytes = |units: u128| units / bd.units_per_byte as u128;
    assert_eq!(bytes(bd.weights), 14_000_000_000);
    assert_eq!(bytes(bd.gradients), 14_000_000_000);
    assert_eq!(bytes(bd.optimizer), 56_000_000_000);
    // 2048 × 4096 × 32 × 2 bytes, a quarter of them.
    assert_eq!(bytes(bd.activations), 2048 * 4096 * 32 * 2 / 4);
    // 2 × 32 layers × 32 heads × 128 × 2048 × 2 bytes.
    assert_eq!(bytes(bd.kv_cache), 2 * 32 * 32 * 128 * 2048 * 2);
}

#[test]
fn estimates_that_do_not_fit_are_refused() {
    let mut spec = llama_7b();
    spec.params = u128::MAX;
    let r = estimate(&spec, FinetuneMethod::Full, OptimizerLib::Plain, QuantLevel::FourBit, 1);
    assert!(r.is_none());
    spec.params = 0;
    spec.num_heads = 0;
    let r = estimate(&spec, FinetuneMethod::Full, OptimizerLib::Plain, QuantLevel::FourBit, 0);
    assert_eq!(r.unwrap().total, 0);
}

const GIB: u128 = 1 << 30;

#[test]
fn fitting_tiers_excludes_insufficient_tiers() {
    let tiers = fitting_tiers(11 * GIB, 1); // 11 × 1.05 = 11.55: needs ≥ 12 GB
    assert!(tiers.contains(&"12GB".to_string()));
    assert!(!tiers.contains(&"10GB".to_string()));
    assert!(!tiers.contains(&"8GB".to_string()));
}

#[test]
fn fitting_tiers_all_for_tiny_requirement() {
    let tiers = fitting_tiers(GIB, 1);
    assert_eq!(tiers.len(), 9, "all tiers fit a 1 GiB requirement");
    assert_eq!(tiers[8], "80GB");
}

#[test]
fn fitting_tiers_margin_is_five_percent() {
    // 20 GiB hold 400/21 GiB and 5% more, but nothing above.
    let most = 400 * GIB / 21;
    assert!(fitting_tiers(most, 1).contains(&"20GB".to_string()));
    assert!(!fitting_tiers(most + 1, 1).contains(&"20GB".to_string()));
    assert!(fitting_tiers(u128::MAX, u64::MAX).is_empty());
}

// Duration

fn catalog() -> FallbackRepository {
    FallbackRepository {
        specs: vec![
            GpuSpec {
                name: "RTX 3090".to_string(),
                bf16_tflops: f64_of(35.6),
                fp32_tflops: f64_of(35.6),
                vram_gib: 24,
                boost_clock_mhz: 1695,
            },
            GpuSpec {
                name: "Broken".to_string(),
                bf16_tflops: f64_of(0.0),
                fp32_tflops: f64_of(0.0),
                vram_gib: 1,
                boost_clock_mhz: 1,
            },
        ],
    }
}

fn work(gpu: &str, rows: Option<u64>, batch: u32, epochs: u32, mfu: Option<f64>) -> Option<TrainingWork> {
    training_work(&catalog(), &llama_7b(), gpu, rows, batch, epochs, mfu.map(f64_of))
}

/// The range that follows from the work.
fn range(w: &TrainingWork) -> (f64, f64) {
    let point = w.flops as f64 / (double(w.peak_tflops) * 1e12 * double(w.mfu));
    (point * (LOW_PERCENT as f64 / 100.0), point * (HIGH_PERCENT as f64 / 100.0))
}

#[test]
fn none_without_dataset_rows() {
    assert!(work("RTX 3090", None, 1, 1, None).is_none());
}

#[test]
fn unknown_gpu_returns_none() {
    assert!(work("NonExistentGPU9999", Some(10_000), 8, 1, None).is_none());
}

#[test]
fn known_gpu_produces_finite_positive_range() {
    let w = work("RTX 3090", Some(10_000), 8, 1, None).expect("RTX 3090 is in the catalog");
    let (low, high) = range(&w);
    assert!(low > 0.0);
    assert!(high > low);
    assert_eq!(w.flops, 6 * 7_000_000_000 * 8 * 1250);
    assert_eq!(w.mfu, f64_of(0.30));
}

#[test]
fn high_to_low_ratio_is_correct() {
    let (low, high) = range(&work("RTX 3090", Some(10_000), 8, 1, None).unwrap());
    // high = 1.5 × point, low = 0.8 × point  →  ratio = 1.5 / 0.8 = 1.875
    let ratio = high / low;
    assert!((ratio - 1.875).abs() < 0.001, "expected ratio 1.875, got {ratio}");
    assert_eq!((LOW_PERCENT, HIGH_PERCENT), (80, 150));
}

#[test]
fn higher_mfu_gives_shorter_duration() {
    let low = work("RTX 3090", Some(10_000), 8, 1, Some(0.20)).unwrap();
    let high = work("RTX 3090", Some(10_000), 8, 1, Some(0.60)).unwrap();
    assert!(range(&high).0 < range(&low).0, "Higher MFU must produce shorter duration");
}

#[test]
fn more_epochs_scales_duration_linearly() {
    let one = work("RTX 3090", Some(10_000), 8, 1, None).unwrap();
    let three = work("RTX 3090", Some(10_000), 8, 3, None).unwrap();
    assert_eq!(three.flops, 3 * one.flops, "3 epochs should take 3× as long");
}

#[test]
fn partial_batches_take_a_step() {
    let even = work("RTX 3090", Some(16), 8, 1, None).unwrap();
    let odd = work("RTX 3090", Some(17), 8, 1, None).unwrap();
    assert_eq!(odd.flops * 2, even.flops * 3);
    assert_eq!(work("RTX 3090", Some(0), 8, 1, None).unwrap().flops, 0);
}

#[test]
fn unmeasured_mfu_counts_as_thirty_percent() {
    let unmeasured = work("RTX 3090", Some(10_000), 8, 1, None).unwrap();
    assert_eq!(work("RTX 3090", Some(10_000), 8, 1, Some(0.30)).unwrap(), unmeasured);
    assert_ne!(work("RTX 3090", Some(10_000), 8, 1, Some(0.31)).unwrap(), unmeasured);
}

#[test]
fn useless_gpus_have_no_duration() {
    assert!(work("Broken", Some(10), 1, 1, None).is_none());
}

#[test]
fn mfu_is_brought_into_range() {
    assert_eq!(effective_mfu(None), f64_of(0.30));
    assert_eq!(effective_mfu(Some(f64_of(7.0))), f64_of(1.0));
    assert_eq!(effective_mfu(Some(f64_of(0.0))), f64_of(0.01));
    assert_eq!(effective_mfu(Some(f64_of(0.42))), f64_of(0.42));
}

fn duration_cells(low_secs: f64, high_secs: f64) -> DurationCells {
    DurationCells {
        low_minutes: format!("{:.0}", low_secs / 60.0),
        high_minutes: format!("{:.0}", high_secs / 60.0),
        low_hours: format!("{:.1}", low_secs / 3600.0),
        high_hours: format!("{:.1}", high_secs / 3600.0),
    }
}

fn cost_cells(low: f64, high: f64) -> CostCells {
    CostCells { low: format!("{low:.2}"), high: format!("{high:.2}") }
}

#[test]
fn duration_range_formats_minutes_below_one_hour() {
    let dr = DurationRange { low_secs: f64_of(1200.0), high_secs: f64_of(2400.0) };
    let s = dr.display(&duration_cells(1200.0, 2400.0));
    assert!(s.contains('m'), "expected minutes format, got: {s}");
    assert_eq!(s, "20–40m");
}

#[test]
fn duration_range_formats_hours_above_one_hour() {
    let dr = DurationRange { low_secs: f64_of(5400.0), high_secs: f64_of(9000.0) };
    let s = dr.display(&duration_cells(5400.0, 9000.0));
    assert!(s.contains('h'), "expected hours format, got: {s}");
    assert_eq!(s, "1.5–2.5h");
}

#[test]
fn an_hour_is_shown_in_hours() {
    let dr = DurationRange { low_secs: f64_of(1800.0), high_secs: f64_of(3600.0) };
    assert_eq!(dr.display(&duration_cells(1800.0, 3600.0)), "0.5–1.0h");
}

#[test]
fn cost_range_display_includes_dollar_sign() {
    let cr = CostRange { low_usd: f64_of(0.46), high_usd: f64_of(0.70) };
    let s = cr.display(&cost_cells(0.46, 0.70));
    assert!(s.starts_with('$'), "got: {s}");
    assert!(s.contains("0.46"), "got: {s}");
    assert!(s.contains("0.70"), "got: {s}");
}

// Models

fn empty_config() -> HfConfig {
    HfConfig {
        num_parameters: None,
        num_hidden_layers: None,
        n_layer: None,
        n_layers: None,
        hidden_size: None,
        n_embd: None,
        d_model: None,
        num_attention_heads: None,
        n_head: None,
        num_key_value_heads: None,
    }
}

#[test]
fn infer_spec_7b_gives_expected_arch() {
    let spec = infer_spec_from_params("test/7b", 7_000_000_000);
    assert_eq!(spec.num_layers, 32);
    assert_eq!(spec.hidden_size, 4096);
}

#[test]
fn infer_spec_70b_gives_wide_arch() {
    let spec = infer_spec_from_params("test/70b", 70_000_000_000);
    assert!(spec.num_layers >= 60, "expected deep model, got {}", spec.num_layers);
    assert!(spec.hidden_size >= 8192);
}

#[test]
fn hf_config_param_count_from_explicit_field() {
    let cfg = HfConfig {
        num_parameters: Some(7_000_000_000),
        num_hidden_layers: Some(32),
        hidden_size: Some(4096),
        num_attention_heads: Some(32),
        ..empty_config()
    };
    let b = cfg.param_count() as f64 / 1e9;
    assert!((b - 7.0).abs() < 0.01, "expected 7.0B, got {b}");
}

#[test]
fn hf_config_kv_heads_defaults_to_attention_heads() {
    let cfg = HfConfig {
        num_hidden_layers: Some(32),
        hidden_size: Some(4096),
        num_attention_heads: Some(32),
        ..empty_config()
    };
    assert_eq!(cfg.num_kv_heads(), 32);
}

#[test]
fn hf_config_knows_the_names_of_other_families() {
    let cfg = HfConfig { n_layer: Some(12), n_embd: Some(768), n_head: Some(12), ..empty_config() };
    assert_eq!((cfg.num_layers(), cfg.hidden_size(), cfg.num_heads()), (12, 768, 12));
    assert_eq!(cfg.param_count(), 12 * 12 * 768 * 768);
    let cfg = HfConfig { n_layers: Some(6), d_model: Some(512), ..empty_config() };
    assert_eq!((cfg.num_layers(), cfg.hidden_size(), cfg.num_heads()), (6, 512, 32));
}

#[test]
fn models_resolve_by_what_the_hub_replies() {
    let cfg = HfConfig { num_parameters: Some(5), ..empty_config() };
    assert_eq!(resolve("m", HubReply::Config(cfg), None).unwrap().params, 5);
    assert_eq!(resolve("m", HubReply::Config(cfg), Some(8)).unwrap().params, 8);
    let refused = || HubReply::Refused("404 Not Found".to_string());
    let e = resolve("x/y", refused(), None).unwrap_err();
    assert!(e.contains("x/y") && e.contains("404") && e.contains("--params-b"), "got: {e}");
    assert_eq!(resolve("x/y", refused(), Some(13_000_000_000)).unwrap().num_layers, 40);
    let e = resolve("x/y", HubReply::Unreachable("timeout".to_string()), None).unwrap_err();
    assert!(e.contains("Could not reach") && e.contains("timeout"), "got: {e}");
}

#[test]
fn configurations_are_looked_for_locally_first() {
    assert_eq!(local_config(false, false, false), LocalConfig::Absent);
    assert_eq!(local_config(true, true, false), LocalConfig::Absent);
    assert_eq!(local_config(true, true, true), LocalConfig::InDirectory);
    assert_eq!(local_config(true, false, false), LocalConfig::File);
    assert_eq!(hub_url("a/b"), "https://huggingface.co/a/b/resolve/main/config.json");
}

// Providers

fn offer(name: &str, price: f64, reliability: f64) -> VastOffer {
    VastOffer {
        gpu_name: Some(name.to_string()),
        gpu_ram: Some(f64_of(24576.0)),
        dph_total: Some(f64_of(price)),
        reliability2: Some(f64_of(reliability)),
        rentable: Some(true),
        num_gpus: Some(1),
    }
}

#[test]
fn vast_offers_are_reduced_to_the_cheapest() {
    let offers = vec![
        offer("RTX 3090", 0.40, 0.99),
        offer("A100", 1.50, 0.93),
        offer("RTX 3090", 0.25, 0.97),
        offer("RTX 3090", 0.25, 0.92),
    ];
    let floor = market_floor(&offers);
    assert_eq!(floor.len(), 2);
    assert_eq!((floor[0].gpu_name.as_str(), floor[0].hourly_usd), ("RTX 3090", f64_of(0.25)));
    assert!(!floor[0].low_reliability);
    assert!(floor[1].low_reliability);
    let l = market_floor(&offers).remove(1).into_listing(f64_of(80.0));
    assert_eq!(l.provider, "Vast.ai");
    assert_eq!(l.flags, vec![ListingFlag::PriceVolatile, ListingFlag::LowReliability]);
}

#[test]
fn unusable_vast_offers_are_dropped() {
    let bad = vec![
        offer("", 1.0, 0.99),
        offer("X", 0.0, 0.99),
        offer("X", 1.0, 0.89),
        VastOffer { gpu_name: None, ..offer("X", 1.0, 0.99) },
        VastOffer { rentable: None, ..offer("X", 1.0, 0.99) },
        VastOffer { rentable: Some(false), ..offer("X", 1.0, 0.99) },
        VastOffer { reliability2: None, ..offer("X", 1.0, 0.99) },
        VastOffer { gpu_ram: Some(f64_of(0.0)), ..offer("X", 1.0, 0.99) },
    ];
    assert!(market_floor(&bad).is_empty());
    let none = VastOffer { num_gpus: Some(0), ..offer("X", 1.0, 0.90) };
    assert_eq!(market_floor(&vec![none])[0].num_gpus, 1);
}

#[test]
fn runpod_types_give_up_to_two_listings() {
    let t = |name: Option<&str>, mem: f64, secure: Option<f64>, community: Option<f64>| GpuType {
        display_name: name.map(|n| n.to_string()),
        id: "id".to_string(),
        memory_in_gb: Some(f64_of(mem)),
        secure_price: secure.map(f64_of),
        community_price: community.map(f64_of),
    };
    let all = listings(&vec![
        t(Some("RTX 4090"), 24.0, Some(0.44), Some(0.30)),
        t(Some(""), 48.0, Some(1.0), Some(0.0)),
        t(Some("ghost"), 0.0, Some(1.0), Some(1.0)),
    ]);
    assert_eq!(all.len(), 3);
    assert_eq!((all[0].gpu_model.as_str(), all[0].flags.len()), ("RTX 4090", 0));
    assert_eq!(all[1].gpu_model, "RTX 4090 (spot)");
    assert_eq!(all[1].flags, vec![ListingFlag::Spot]);
    assert_eq!(all[2].gpu_model, "id");
}

#[test]
fn lambda_instances_add_up_their_gpus() {
    let entry = |name: Option<&str>, price: Option<u64>, memory: Option<u32>, count: Option<u32>, regions: usize| {
        InstanceEntry {
            description: Some("8x A100".to_string()),
            price_cents_per_hour: price,
            gpus: vec![GpuInfo { name: name.map(|n| n.to_string()), memory_gib: memory }],
            gpu_count: count,
            regions_with_capacity: regions,
        }
    };
    let i = instance(&entry(Some("A100"), Some(129), Some(40), Some(8), 0)).unwrap();
    assert_eq!((i.gpu_model.as_str(), i.vram_gib, i.price_cents), ("A100", 320, 129));
    let l = i.into_listing(f64_of(320.0), f64_of(1.29));
    assert_eq!(l.availability, AvailabilityStatus::Unavailable);
    assert_eq!(l.flags, vec![ListingFlag::CurrentlyUnavailable]);
    let i = instance(&entry(Some(""), Some(129), Some(40), Some(0), 2)).unwrap();
    assert_eq!((i.gpu_model.as_str(), i.vram_gib, i.has_capacity), ("8x A100", 40, true));
    assert!(instance(&entry(None, None, Some(40), None, 1)).is_none());
    assert!(instance(&entry(None, Some(1), None, None, 1)).is_none());
    let mut none = entry(None, Some(1), Some(1), None, 1);
    none.gpus.clear();
    assert!(instance(&none).is_none());
    let mut unnamed = entry(None, Some(1), Some(1), None, 1);
    unnamed.description = None;
    assert_eq!(instance(&unnamed).unwrap().gpu_model, "Unknown");
}

fn listing(provider: &str, vram_gib: f64, availability: AvailabilityStatus) -> GpuListing {
    GpuListing {
        provider: provider.to_string(),
        gpu_model: "A10".to_string(),
        vram_gib: f64_of(vram_gib),
        hourly_usd: f64_of(0.5),
        availability,
        flags: vec![],
    }
}

#[test]
fn one_provider_down_keeps_the_others() {
    let one = || Ok(vec![listing("x", 24.0, AvailabilityStatus::Available)]);
    let (all, skipped) = gather(one(), Err("503".to_string()), one());
    assert_eq!(all.len(), 2);
    assert_eq!(skipped.len(), 1);
    assert_eq!((skipped[0].name.as_str(), skipped[0].reason.as_str()), ("Lambda", "503"));
    assert!(!all_failed(&all, &skipped));
    let (none, skipped) = gather(Err("a".to_string()), Err("b".to_string()), Err("c".to_string()));
    assert!(all_failed(&none, &skipped));
    assert_eq!(skipped[2].name, "Vast.ai");
}

#[test]
fn providers_are_filtered_by_name() {
    let w = wanted(&None);
    assert!(w.runpod && w.lambda && w.vastai);
    let w = wanted(&Some(vec!["RunPod".to_string(), "VAST".to_string()]));
    assert!(w.runpod && !w.lambda && w.vastai);
}

// Selection and ranking

#[test]
fn viable_listings_meet_the_requirement() {
    let all = || {
        vec![
            listing("small", 16.0, AvailabilityStatus::Available),
            listing("fits", 24.0, AvailabilityStatus::Available),
            listing("gone", 48.0, AvailabilityStatus::Unavailable),
            listing("queue", 48.0, AvailabilityStatus::Queue { estimated_wait_minutes: 15 }),
        ]
    };
    let names = |v: Vec<GpuListing>| v.into_iter().map(|l| l.provider).collect::<Vec<_>>();
    assert_eq!(names(viable_listings(all(), Availability::Now, f64_of(24.0))), vec!["fits"]);
    assert_eq!(
        names(viable_listings(all(), Availability::Flexible, f64_of(24.0))),
        vec!["fits", "gone", "queue"]
    );
}

fn make_listing(provider: &str, gpu: &str, vram: f64, hourly: f64, cost_low: f64, volatile: bool) -> RankedListing {
    RankedListing {
        provider: provider.to_string(),
        gpu_model: gpu.to_string(),
        vram_gib: f64_of(vram),
        hourly_usd: f64_of(hourly),
        daily_usd: f64_of(hourly * 24.0),
        duration_range: Some(DurationRange {
            low_secs: f64_of(cost_low / hourly * 3600.0),
            high_secs: f64_of(cost_low / hourly * 3600.0 * 1.5),
        }),
        cost_range: Some(CostRange { low_usd: f64_of(cost_low), high_usd: f64_of(cost_low * 1.5) }),
        availability: AvailabilityStatus::Available,
        flags: if volatile { vec![ListingFlag::PriceVolatile] } else { vec![] },
    }
}

fn listing_cells(l: &RankedListing) -> ListingCells {
    let ends = l.duration_range.map_or((0.0, 0.0), |d| (double(d.low_secs), double(d.high_secs)));
    let cost = l.cost_range.map_or((0.0, 0.0), |c| (double(c.low_usd), double(c.high_usd)));
    ListingCells {
        vram: format!("{:.0}", double(l.vram_gib)),
        hourly: format!("{:.2}", double(l.hourly_usd)),
        duration: duration_cells(ends.0, ends.1),
        cost: cost_cells(cost.0, cost.1),
    }
}

fn recommend(ranked: &Vec<RankedListing>, budget: Option<f64>) -> Option<PlanRecommendation> {
    let limits = ranked.iter().map(|l| f64_of(double(sort_key(l)) * 1.5)).collect();
    let cells = ranked.iter().map(listing_cells).collect();
    build_recommendation(ranked, budget.map(f64_of), &limits, &cells)
}

#[test]
fn recommendation_picks_cheapest_available() {
    let ranked = vec![
        make_listing("Vast.ai", "RTX 3090", 24.0, 0.22, 0.46, true),
        make_listing("RunPod", "RTX 4090", 24.0, 0.44, 0.48, false),
        make_listing("Lambda", "A10", 24.0, 0.60, 0.90, false),
    ];
    let rec = recommend(&ranked, None).unwrap();
    assert_eq!(rec.listing.gpu_model, "RTX 3090");
}

#[test]
fn safe_alternative_provided_when_top_is_volatile() {
    let ranked = vec![
        make_listing("Vast.ai", "RTX 3090", 24.0, 0.22, 0.46, true),
        make_listing("RunPod", "RTX 4090", 24.0, 0.44, 0.48, false),
    ];
    let rec = recommend(&ranked, None).unwrap();
    assert!(rec.safe_alternative.is_some(), "should offer a stable alternative");
    assert_eq!(rec.safe_alternative.unwrap().provider, "RunPod");
}

#[test]
fn safe_alternative_must_be_close_in_cost() {
    let ranked = vec![
        make_listing("Vast.ai", "RTX 3090", 24.0, 0.22, 0.46, true),
        make_listing("RunPod", "RTX 4090", 24.0, 0.44, 0.70, false),
    ];
    assert!(recommend(&ranked, None).unwrap().safe_alternative.is_none());
}

#[test]
fn no_safe_alternative_when_top_is_stable() {
    let ranked = vec![
        make_listing("RunPod", "RTX 4090", 24.0, 0.44, 0.48, false),
        make_listing("Lambda", "A10", 24.0, 0.60, 0.90, false),
    ];
    assert!(recommend(&ranked, None).unwrap().safe_alternative.is_none());
}

#[test]
fn empty_ranked_returns_none() {
    assert!(recommend(&vec![], None).is_none());
}

#[test]
fn unavailable_listing_excluded_from_recommendation() {
    let mut unavail = make_listing("Lambda", "A100", 80.0, 0.50, 0.20, false);
    unavail.availability = AvailabilityStatus::Unavailable;
    unavail.flags.push(ListingFlag::CurrentlyUnavailable);
    let ranked = vec![unavail, make_listing("RunPod", "RTX 4090", 24.0, 0.44, 0.48, false)];
    let rec = recommend(&ranked, None).unwrap();
    assert_eq!(rec.listing.provider, "RunPod", "unavailable listing should not be recommended");
}

#[test]
fn rationale_tells_the_cost() {
    let ranked = vec![make_listing("RunPod", "RTX 4090", 24.0, 0.44, 0.48, false)];
    assert_eq!(
        recommend(&ranked, Some(0.50)).unwrap().rationale,
        "RunPod RTX 4090 (24 GiB VRAM) offers an estimated total cost of $0.48–$0.72 for this workload."
    );
    let mut hourly = make_listing("RunPod", "RTX 4090", 24.0, 0.44, 0.48, false);
    hourly.cost_range = None;
    assert_eq!(
        recommend(&vec![hourly], Some(0.01)).unwrap().rationale,
        "RunPod RTX 4090 (24 GiB VRAM) offers $0.44/hr for this workload."
    );
}

#[test]
fn listings_over_budget_are_not_recommended() {
    let dear = vec![make_listing("Lambda", "A10", 24.0, 0.75, 0.90, false)];
    assert!(recommend(&dear, Some(0.50)).is_none());
    assert_eq!(recommend(&dear, Some(0.90)).unwrap().listing.provider, "Lambda");
    assert_eq!(recommend(&dear, None).unwrap().listing.provider, "Lambda");

    let mut unestimated = make_listing("RunPod", "RTX 4090", 24.0, 0.44, 9.0, false);
    unestimated.cost_range = None;
    let ranked = vec![make_listing("Lambda", "A10", 24.0, 0.75, 0.90, false), unestimated];
    assert_eq!(recommend(&ranked, Some(0.50)).unwrap().listing.provider, "RunPod");

    let volatile = vec![
        make_listing("Vast.ai", "RTX 4090", 24.0, 0.40, 0.40, true),
        make_listing("RunPod", "RTX 4090", 24.0, 0.44, 0.55, false),
    ];
    let within = recommend(&volatile, Some(0.60)).unwrap();
    assert_eq!(within.safe_alternative.unwrap().provider, "RunPod");
    assert!(recommend(&volatile, Some(0.50)).unwrap().safe_alternative.is_none());
}

#[test]
fn ranking_is_stable_and_ascending() {
    let mut unestimated = make_listing("d", "g", 24.0, 0.02, 9.0, false);
    unestimated.cost_range = None; // 0.48 a day
    let ranked = rank(vec![
        make_listing("a", "g", 24.0, 1.0, 0.50, false),
        make_listing("b", "g", 24.0, 1.0, 0.40, false),
        make_listing("c", "g", 24.0, 1.0, 0.50, false),
        unestimated,
    ]);
    let order: Vec<&str> = ranked.iter().map(|l| l.provider.as_str()).collect();
    assert_eq!(order, vec!["b", "d", "a", "c"]);
}

fn budget_cells() -> BudgetCells {
    BudgetCells { budget: "0.10".to_string(), over_by: "0.38".to_string() }
}

#[test]
fn budgets_that_nothing_fits_are_noted() {
    let ranked = vec![make_listing("RunPod", "RTX 4090", 24.0, 0.44, 0.48, false)];
    let note = budget_note(&ranked, Some(f64_of(0.10)), &budget_cells()).unwrap();
    assert_eq!(note.name, "budget-filter");
    assert_eq!(
        note.reason,
        "No option fits within your $0.10 budget. Cheapest option (RunPod RTX 4090) is ~$0.38 over budget."
    );
    assert!(budget_note(&ranked, Some(f64_of(0.48)), &budget_cells()).is_none());
    assert!(budget_note(&ranked, None, &budget_cells()).is_none());
    assert!(budget_note(&vec![], Some(f64_of(0.10)), &budget_cells()).is_none());
    assert!(exceeds_budget(&ranked[0], Some(f64_of(0.47))));
    assert!(!exceeds_budget(&ranked[0], Some(f64_of(0.48))));
}

#[test]
fn reports_hold_the_note_and_the_recommendation() {
    let workload = WorkloadSummary {
        model_id: "m".to_string(),
        params: 1,
        vram_breakdown: vram(FinetuneMethod::Lora, OptimizerLib::Plain, QuantLevel::FourBit),
        required_vram_gib: f64_of(1.0),
        fitting_tiers: vec![],
    };
    let l = listing("RunPod", 24.0, AvailabilityStatus::Available);
    let estimate = (
        DurationRange { low_secs: f64_of(1.0), high_secs: f64_of(2.0) },
        CostRange { low_usd: f64_of(0.48), high_usd: f64_of(0.72) },
    );
    let ranked = vec![estimated(l, f64_of(12.0), Some(estimate))];
    let limits = vec![f64_of(0.72)];
    let cells = ranked.iter().map(listing_cells).collect();
    let skipped = vec![SkippedProvider { name: "Lambda".to_string(), reason: "down".to_string() }];
    let report =
        plan_report(workload, ranked, skipped, Some(f64_of(0.1)), &budget_cells(), &limits, &cells);
    assert!(report.recommendation.is_none());
    assert_eq!(report.listings.len(), 1);
    assert_eq!(report.skipped_providers.len(), 2);
    assert_eq!(report.skipped_providers[1].name, "budget-filter");
}
