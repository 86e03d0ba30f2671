use calibrate::float::F64;
use calibrate::gpu_specs::client::{
    cache_is_fresh, decide_on_cache, settle_fetch, CacheDecision, CacheFile, HttpSpecsClient,
};
use calibrate::gpu_specs::fallback::FallbackRepository;
use calibrate::gpu_specs::{
    find_best_match, is_memory_size_token, match_score, normalize_for_match, resolve, GpuSpec,
    SpecsRepository,
};

fn spec(name: &str, tflops: f64, vram_gib: u32) -> GpuSpec {
    GpuSpec {
        name: name.to_string(),
        bf16_tflops: F64::of(tflops.to_bits()),
        fp32_tflops: F64::of(tflops.to_bits()),
        vram_gib,
        boost_clock_mhz: 1700,
    }
}

fn catalog() -> FallbackRepository {
    FallbackRepository {
        specs: vec![
            spec("RTX 3090", 35.6, 24),
            spec("RTX 4090", 82.6, 24),
            spec("T4", 65.0, 16),
            spec("A100 SXM", 312.0, 80),
            spec("A100 PCIe", 312.0, 80),
            spec("A10G", 70.0, 24),
            spec("A10", 125.0, 24),
            spec("V100 SXM", 125.0, 32),
            spec("M3 Max", 28.4, 64),
        ],
    }
}

fn tflops(s: &GpuSpec) -> f64 {
    f64::from_bits(s.bf16_tflops.bits)
}

#[test]
fn normalize_geforce_prefix() {
    assert_eq!(normalize_for_match("NVIDIA GeForce RTX 3090"), "rtx 3090");
}

#[test]
fn normalize_tesla_prefix() {
    assert_eq!(normalize_for_match("Tesla T4"), "t4");
    assert_eq!(normalize_for_match("NVIDIA Tesla T4"), "t4");
}

#[test]
fn normalize_hyphenated_with_memory() {
    assert_eq!(normalize_for_match("NVIDIA A100-SXM4-80GB"), "a100 sxm4");
    assert_eq!(normalize_for_match("NVIDIA A100-PCIE-40GB"), "a100 pcie");
    assert_eq!(normalize_for_match("NVIDIA Tesla V100-SXM2-32GB"), "v100 sxm2");
}

#[test]
fn normalize_h100_sxm() {
    assert_eq!(normalize_for_match("NVIDIA H100 SXM5 80GB"), "h100 sxm5");
    // "80GB" is a memory-size token and gets filtered out.
    assert_eq!(normalize_for_match("NVIDIA H100 PCIe 80GB"), "h100 pcie");
    assert_eq!(normalize_for_match("NVIDIA H100 PCIe"), "h100 pcie");
}

#[test]
fn normalize_apple_names() {
    assert_eq!(normalize_for_match("Apple M3 Max GPU"), "m3 max");
    // The Kelvin sign has an ASCII letter as its lower-case form.
    assert_eq!(normalize_for_match("NVIDIA \u{212a}80-É 12GB GPU"), "k80 é");
}

#[test]
fn memory_sizes_are_recognised() {
    assert!(is_memory_size_token("80gb"));
    assert!(!is_memory_size_token("gb"));
    assert!(!is_memory_size_token("80g"));
    assert!(!is_memory_size_token("x80gb"));
}

#[test]
fn match_score_exact() {
    assert!(match_score("RTX 3090", "rtx 3090") > 0);
    assert_eq!(match_score("RTX 3090", "rtx 3090"), 7);
}

#[test]
fn match_score_prefix_sxm() {
    // "sxm" token in spec should prefix-match "sxm4" in query.
    assert!(match_score("A100 SXM", "a100 sxm4") > 0);
}

#[test]
fn match_score_no_match_wrong_variant() {
    // A100 PCIe tokens should not match an SXM query.
    assert_eq!(match_score("A100 PCIe", "a100 sxm4"), 0);
}

#[test]
fn match_score_a10g_beats_a10_for_a10g_query() {
    let score_a10g = match_score("A10G", "a10g");
    let score_a10 = match_score("A10", "a10g");
    assert!(
        score_a10g > score_a10,
        "A10G ({score_a10g}) should score higher than A10 ({score_a10}) for 'A10G' query"
    );
}

#[test]
fn match_score_a10_matches_a10_not_a10g() {
    // "a10g".starts_with("a10g") only; "a10".starts_with("a10g") is false.
    assert!(match_score("A10", "a10") > 0);
    assert_eq!(match_score("A10G", "a10"), 0, "A10G should not match plain 'a10' query");
}

#[test]
fn resolves_rtx_3090_exact_name() {
    let spec = catalog().get_by_name("RTX 3090").unwrap();
    assert!((tflops(&spec) - 35.6).abs() < 0.1);
    assert_eq!(spec.vram_gib, 24);
}

#[test]
fn network_unavailable_falls_back_cleanly() {
    let result = catalog().get_by_name("NVIDIA GeForce RTX 4090");
    assert!(result.is_some(), "should resolve RTX 4090 from baked-in table");
}

#[test]
fn v100_sxm2_matches_hyphenated_nvml_name() {
    let spec = catalog().get_by_name("NVIDIA Tesla V100-SXM2-32GB").unwrap();
    assert!(spec.name.contains("V100"), "expected V100, got {}", spec.name);
    assert!(spec.name.contains("SXM"), "expected SXM variant, got {}", spec.name);
}

#[test]
fn fallback_resolves_geforce_rtx_3090() {
    let spec = catalog().get_by_name("NVIDIA GeForce RTX 3090").unwrap();
    assert!((tflops(&spec) - 35.6).abs() < 0.1, "unexpected tflops: {}", tflops(&spec));
    assert_eq!(spec.vram_gib, 24);
}

#[test]
fn fallback_resolves_tesla_t4() {
    let spec = catalog().get_by_name("Tesla T4").unwrap();
    assert!((tflops(&spec) - 65.0).abs() < 0.1);
}

#[test]
fn fallback_resolves_a100_sxm_from_nvml_name() {
    let spec = catalog().get_by_name("NVIDIA A100-SXM4-80GB").unwrap();
    // Should match "A100 SXM", not PCIe.
    assert!(spec.name.contains("SXM"), "expected SXM variant, got: {}", spec.name);
}

#[test]
fn fallback_resolves_a100_pcie_from_nvml_name() {
    let spec = catalog().get_by_name("NVIDIA A100-PCIE-40GB").unwrap();
    assert!(spec.name.to_lowercase().contains("pcie"), "expected PCIe variant, got: {}", spec.name);
}

#[test]
fn fallback_a10g_disambiguated_from_a10() {
    let a10g = catalog().get_by_name("NVIDIA A10G").unwrap();
    let a10 = catalog().get_by_name("NVIDIA A10").unwrap();
    assert!(a10g.name.to_uppercase().contains("A10G"), "got: {}", a10g.name);
    assert_eq!(a10.name.to_uppercase().trim(), "A10", "got: {}", a10.name);
}

#[test]
fn fallback_unknown_gpu_returns_none() {
    assert!(catalog().get_by_name("NVIDIA RTX Unknown 9999X").is_none());
}

#[test]
fn later_specs_win_ties() {
    let specs = vec![spec("A100", 1.0, 1), spec("a100", 2.0, 2)];
    assert_eq!(find_best_match(&specs, "A100").unwrap().vram_gib, 2);
}

#[test]
fn resolution_prefers_remote_then_baked_in_then_a_default() {
    let remote = HttpSpecsClient::load(Some(vec![spec("RTX 3090", 40.0, 25)]));
    assert_eq!(resolve(&remote, &catalog(), "RTX 3090").vram_gib, 25);
    let offline = HttpSpecsClient::load(None);
    assert_eq!(resolve(&offline, &catalog(), "RTX 3090").vram_gib, 24);
    let unknown = resolve(&offline, &catalog(), "Mystery");
    assert_eq!(unknown.name, "Mystery");
    assert_eq!((unknown.vram_gib, unknown.boost_clock_mhz), (16, 1800));
    assert_eq!(tflops(&unknown), 20.0);
}

#[test]
fn caches_last_a_day() {
    let day = 24 * 60 * 60;
    assert!(cache_is_fresh(1000, 1000 + day - 1));
    assert!(!cache_is_fresh(1000, 1000 + day));
    assert!(cache_is_fresh(5000, 1000));
    let file = |at| CacheFile { fetched_at_unix: at, specs: vec![spec("T4", 65.0, 16)] };
    assert!(matches!(decide_on_cache(false, Some(file(0)), 1), CacheDecision::Nothing));
    assert!(matches!(decide_on_cache(true, Some(file(0)), 1), CacheDecision::UseCached(_)));
    assert!(matches!(decide_on_cache(true, Some(file(0)), day), CacheDecision::Fetch));
    assert!(matches!(decide_on_cache(true, None, 1), CacheDecision::Fetch));
}

#[test]
fn failed_fetches_fall_back_to_the_stale_cache() {
    let file = || CacheFile { fetched_at_unix: 3, specs: vec![spec("T4", 65.0, 16)] };
    let fresh = settle_fetch(Some(vec![spec("A10", 1.0, 1)]), Some(file()), 99);
    assert_eq!(fresh.specs.unwrap()[0].name, "A10");
    assert_eq!(fresh.write.unwrap().fetched_at_unix, 99);
    let stale = settle_fetch(None, Some(file()), 99);
    assert_eq!(stale.specs.unwrap()[0].name, "T4");
    assert!(stale.write.is_none());
    assert!(settle_fetch(None, None, 99).specs.is_none());
}
