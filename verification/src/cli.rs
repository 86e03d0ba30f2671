//! What a user can ask for.
use vstd::prelude::*;

use crate::float::F64;

verus! {

/// Arguments of the raw-sample probe.
#[derive(Clone, Copy, Debug, PartialEq, Eq, Structural)]
pub struct ProbeArgs {
    /// Process ID of the running GPU job to probe.
    pub pid: u32,
    /// Number of samples to collect before exiting.
    pub count: u32,
    /// Sampling interval in seconds.
    pub interval: F64,
}

/// Arguments of the monitoring session.
#[derive(Clone, Copy, Debug, PartialEq, Eq, Structural)]
pub struct WatchArgs {
    /// Process ID of the running training job.
    pub pid: u32,
    /// Hourly GPU cost in USD (e.g. 0.34). Used to show dollar-denominated waste.
    pub cost_per_hour: Option<F64>,
    /// Sampling interval in seconds.
    pub interval: F64,
    /// Output format.
    pub output: OutputFormat,
}

/// Available output renderers.
#[derive(Clone, Copy, Debug, PartialEq, Eq, Structural)]
pub enum OutputFormat {
    /// Live TUI dashboard (default).
    Terminal,
    /// Newline-delimited JSON, suitable for piping into other tools.
    Json,
}

/// Arguments of a benchmark.
#[derive(Debug)]
pub struct BenchArgs {
    /// Path to the model file (.onnx, .gguf, .pt, .safetensors).
    pub model: String,
    /// The runtimes to test. If omitted, all installed runtimes compatible with the
    /// model format are tested.
    pub runtimes: Option<Vec<String>>,
    /// Batch sizes to benchmark.
    pub batch_sizes: Vec<u32>,
    /// Primary metric to optimize for when selecting the recommended configuration.
    pub optimize_for: OptimizeFor,
    /// Number of timed measurement iterations per (runtime, batch) pair.
    pub iterations: u32,
    /// Number of warm-up iterations (discarded before timing starts).
    pub warmup: u32,
    /// Output format.
    pub output: BenchOutputFormat,
    /// Compare results against a previously saved JSON baseline.
    pub compare: Option<String>,
    /// Save the full benchmark report to a JSON file for future comparison.
    pub save: Option<String>,
}

/// Which metric a benchmark should optimise when making its recommendation.
#[derive(Clone, Copy, Debug, PartialEq, Eq, Structural)]
pub enum OptimizeFor {
    /// Minimise p99 latency: best for interactive / real-time serving.
    Latency,
    /// Maximise sustained requests per second: best for batch inference pipelines.
    Throughput,
    /// Minimise peak memory consumption: best for memory-constrained hardware.
    Memory,
}

/// Output format for benchmark results.
#[derive(Clone, Copy, Debug, PartialEq, Eq, Structural)]
pub enum BenchOutputFormat {
    /// Formatted table printed to stdout (default).
    Terminal,
    /// Full JSON report including per-iteration timing arrays.
    Json,
    /// Markdown report suitable for committing to a repository.
    Markdown,
}

/// Arguments of a cost plan.
#[derive(Debug)]
pub struct PlanArgs {
    /// Hugging Face model ID (e.g. `meta-llama/Llama-3-8B`) or local path to a
    /// model directory containing config.json.
    pub model: String,
    /// Override of the parameter count, in billions.
    pub params_b: Option<F64>,
    /// Fine-tuning method.
    pub method: FinetuneMethod,
    /// Memory-efficiency library applied during training.
    pub optimizer: OptimizerLib,
    /// Weight quantization level.
    pub quantization: QuantLevel,
    /// Number of training examples in the dataset. Required for cost estimation.
    pub dataset_rows: Option<u64>,
    /// Effective batch size (including gradient accumulation steps).
    pub batch_size: u32,
    /// Number of training epochs.
    pub epochs: u32,
    /// Total spend limit in USD. Providers whose estimated cost exceeds this
    /// value are excluded from the recommendation (but still shown).
    pub budget: Option<F64>,
    /// GPU availability requirement.
    pub availability: Availability,
    /// Restrict results to specific providers: runpod, lambda, vastai.
    pub providers: Option<Vec<String>>,
    /// Actual MFU observed in a monitoring session.
    /// Replaces the conservative 0.30 default for duration estimation.
    pub mfu: Option<F64>,
    /// Output format.
    pub output: PlanOutputFormat,
}

/// Fine-tuning method, which determines which model parameters require
/// gradients and optimizer states.
#[derive(Clone, Copy, Debug, PartialEq, Eq, Structural)]
pub enum FinetuneMethod {
    /// Update all model parameters: highest VRAM, best accuracy ceiling.
    Full,
    /// Low-Rank Adaptation: only small adapter matrices are trained.
    Lora,
    /// Quantized LoRA: base model in 4-bit, adapters in full precision.
    Qlora,
}

/// Memory-efficiency library applied on top of the base framework.
#[derive(Clone, Copy, Debug, PartialEq, Eq, Structural)]
pub enum OptimizerLib {
    /// No additional memory optimizations beyond the base framework.
    Plain,
    /// Unsloth: memory-efficient attention kernels and optimized quantization.
    /// Reduces total VRAM by approximately 40-60 % compared to standard HF training.
    Unsloth,
    /// DeepSpeed ZeRO: shards optimizer states and gradients across GPUs.
    DeepSpeed,
}

/// Weight quantization level applied to the model.
#[derive(Clone, Copy, Debug, PartialEq, Eq, Structural)]
pub enum QuantLevel {
    /// Full precision (bfloat16 / float16).
    Unquantized,
    /// 8-bit quantization via bitsandbytes.
    EightBit,
    /// 4-bit NormalFloat quantization via bitsandbytes or GGUF.
    FourBit,
}

/// GPU availability requirement for the plan query.
#[derive(Clone, Copy, Debug, PartialEq, Eq, Structural)]
pub enum Availability {
    /// Only show GPU instances that are available to launch immediately.
    Now,
    /// Show all options, including those with a queue or currently unavailable.
    Flexible,
}

/// Output format for plan results.
#[derive(Clone, Copy, Debug, PartialEq, Eq, Structural)]
pub enum PlanOutputFormat {
    /// Workload analysis and ranked pricing table printed to stdout (default).
    Terminal,
    /// Full JSON report including the complete VRAM breakdown and provider listings.
    Json,
}

} // verus!
