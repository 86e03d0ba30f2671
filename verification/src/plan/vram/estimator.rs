//! The VRAM breakdown of a training run.
use vstd::arithmetic::overflow::CheckedU128;
use vstd::prelude::*;

use crate::cli::{FinetuneMethod, OptimizerLib, QuantLevel};
use crate::plan::model::ModelSpec;
use crate::plan::VramBreakdown;
use crate::text;

verus! {

broadcast use vstd::string::group_string_axioms;

/// Default training sequence length used for activation and KV-cache estimates.
pub const DEFAULT_SEQ_LEN: u128 = 2048;

/// The share of parameters that a LoRA adapter trains: one in so many.
pub const LORA_ADAPTER_FRACTION: u128 = 100;

/// Factor by which gradient checkpointing reduces activation memory.
pub const GRAD_CKPT_FACTOR: u128 = 4;

/// Half bytes required to store one model parameter.
pub open spec fn half_bytes(quant: QuantLevel) -> nat {
    match quant {
        QuantLevel::Unquantized => 4,
        QuantLevel::EightBit => 2,
        QuantLevel::FourBit => 1,
    }
}

/// Hundredths of the parameters that are trained.
pub open spec fn trained_hundredths(method: FinetuneMethod) -> nat {
    match method {
        FinetuneMethod::Full => 100,
        FinetuneMethod::Lora | FinetuneMethod::Qlora => 1,
    }
}

/// Twentieths of the memory that a library saves.
pub open spec fn saved_twentieths(lib: OptimizerLib) -> nat {
    match lib {
        OptimizerLib::Unsloth => 9,
        OptimizerLib::DeepSpeed => 4,
        OptimizerLib::Plain => 0,
    }
}

/// The heads that the hidden state is shared among, at least one.
pub open spec fn head_count(spec: ModelSpec) -> nat {
    if spec.num_heads == 0 {
        1
    } else {
        spec.num_heads as nat
    }
}

/// The units in a byte: small enough for every component to be a whole number of
/// them.
pub open spec fn units_per_byte(spec: ModelSpec) -> nat {
    2000 * head_count(spec)
}

/// Model weights: parameters × bytes per weight.
pub open spec fn weights(spec: ModelSpec, quant: QuantLevel) -> nat {
    spec.params as nat * half_bytes(quant) * (1000 * head_count(spec))
}

/// Gradients: 2 bytes per trained parameter.
pub open spec fn gradients(spec: ModelSpec, method: FinetuneMethod) -> nat {
    spec.params as nat * trained_hundredths(method) * 2 * (20 * head_count(spec))
}

/// Adam's two moments in fp32: 8 bytes per trained parameter.
pub open spec fn optimizer(spec: ModelSpec, method: FinetuneMethod) -> nat {
    spec.params as nat * trained_hundredths(method) * 8 * (20 * head_count(spec))
}

/// Activations under gradient checkpointing: batch × sequence × hidden × layers × 2
/// bytes, a quarter of them.
pub open spec fn activations(spec: ModelSpec, batch_size: u32) -> nat {
    batch_size as nat * spec.hidden_size as nat * spec.num_layers as nat * 2048 * 2 * (500
        * head_count(spec))
}

/// Keys and values: 2 × layers × KV heads × (hidden / heads) × sequence × batch × 2
/// bytes.
pub open spec fn kv_cache(spec: ModelSpec, batch_size: u32) -> nat {
    batch_size as nat * spec.hidden_size as nat * spec.num_layers as nat * spec.num_kv_heads as nat
        * 2 * 2048 * 2 * 2000
}

/// All components together.
pub open spec fn subtotal(
    spec: ModelSpec,
    method: FinetuneMethod,
    quant: QuantLevel,
    batch_size: u32,
) -> nat {
    weights(spec, quant) + gradients(spec, method) + optimizer(spec, method) + activations(
        spec,
        batch_size,
    ) + kv_cache(spec, batch_size)
}

/// What a library saves of a subtotal, which is a multiple of 20 units.
pub open spec fn saved(lib: OptimizerLib, subtotal: nat) -> nat {
    subtotal / 20 * saved_twentieths(lib)
}

/// The breakdown of a training run.
pub open spec fn breakdown(
    spec: ModelSpec,
    method: FinetuneMethod,
    lib: OptimizerLib,
    quant: QuantLevel,
    batch_size: u32,
) -> VramBreakdown {
    let sub = subtotal(spec, method, quant, batch_size);
    VramBreakdown {
        weights: weights(spec, quant) as u128,
        gradients: gradients(spec, method) as u128,
        optimizer: optimizer(spec, method) as u128,
        activations: activations(spec, batch_size) as u128,
        kv_cache: kv_cache(spec, batch_size) as u128,
        library_savings: -saved(lib, sub) as i128,
        total: (sub - saved(lib, sub)) as u128,
        units_per_byte: units_per_byte(spec) as u64,
    }
}

proof fn lemma_subtotal_in_twentieths(
    spec: ModelSpec,
    method: FinetuneMethod,
    quant: QuantLevel,
    batch_size: u32,
)
    ensures
        subtotal(spec, method, quant, batch_size) % 20 == 0,
{
    let h = head_count(spec);
    let w = spec.params as nat * half_bytes(quant);
    let t = spec.params as nat * trained_hundredths(method);
    let a = batch_size as nat * spec.hidden_size as nat * spec.num_layers as nat;
    let k = a * spec.num_kv_heads as nat;
    assert(w * (1000 * h) == 20 * (w * (50 * h))) by (nonlinear_arith);
    assert(t * 2 * (20 * h) == 20 * (t * 2 * h)) by (nonlinear_arith);
    assert(t * 8 * (20 * h) == 20 * (t * 8 * h)) by (nonlinear_arith);
    assert(a * 2048 * 2 * (500 * h) == 20 * (a * 2048 * 2 * (25 * h))) by (nonlinear_arith);
    assert(k * 2 * 2048 * 2 * 2000 == 20 * (k * 2 * 2048 * 2 * 100)) by (nonlinear_arith);
    let sum = w * (50 * h) + t * 2 * h + t * 8 * h + a * 2048 * 2 * (25 * h) + k * 2 * 2048 * 2
        * 100;
    assert(subtotal(spec, method, quant, batch_size) == 20 * sum);
}

/// A library saves its twentieths of the subtotal exactly: Unsloth 45%, DeepSpeed
/// 20%. What is saved and the total make up the subtotal.
pub proof fn law_savings_are_exact(
    spec: ModelSpec,
    method: FinetuneMethod,
    lib: OptimizerLib,
    quant: QuantLevel,
    batch_size: u32,
)
    ensures
        20 * saved(lib, subtotal(spec, method, quant, batch_size)) == saved_twentieths(lib)
            * subtotal(spec, method, quant, batch_size),
        20 * (subtotal(spec, method, quant, batch_size) - saved(
            lib,
            subtotal(spec, method, quant, batch_size),
        )) == (20 - saved_twentieths(lib)) * subtotal(spec, method, quant, batch_size),
{
    lemma_subtotal_in_twentieths(spec, method, quant, batch_size);
    let sub = subtotal(spec, method, quant, batch_size);
    let k = saved_twentieths(lib);
    assert(sub == 20 * (sub / 20));
    assert(20 * (sub / 20 * k) == k * sub) by (nonlinear_arith)
        requires
            sub == 20 * (sub / 20),
    ;
    assert((20 - k) * sub == 20 * sub - k * sub) by (nonlinear_arith);
}

/// Weights in 4 bits take half of what they take in 8 bits, and these half of what
/// they take unquantized.
pub proof fn law_quantization_halves_weights(spec: ModelSpec)
    ensures
        weights(spec, QuantLevel::EightBit) == 2 * weights(spec, QuantLevel::FourBit),
        weights(spec, QuantLevel::Unquantized) == 2 * weights(spec, QuantLevel::EightBit),
{
    let p = spec.params as nat;
    let h = 1000 * head_count(spec);
    assert(p * 2 * h == 2 * (p * 1 * h)) by (nonlinear_arith);
    assert(p * 4 * h == 2 * (p * 2 * h)) by (nonlinear_arith);
}

/// An adapter's gradients and optimizer states take one hundredth of those of full
/// fine-tuning.
pub proof fn law_adapters_train_a_hundredth(spec: ModelSpec, method: FinetuneMethod)
    requires
        method != FinetuneMethod::Full,
    ensures
        gradients(spec, FinetuneMethod::Full) == 100 * gradients(spec, method),
        optimizer(spec, FinetuneMethod::Full) == 100 * optimizer(spec, method),
{
    let p = spec.params as nat;
    let h = 20 * head_count(spec);
    assert(p * 100 * 2 * h == 100 * (p * 1 * 2 * h)) by (nonlinear_arith);
    assert(p * 100 * 8 * h == 100 * (p * 1 * 8 * h)) by (nonlinear_arith);
}

/// Full precision full fine-tuning holds 12 bytes per parameter beside what the
/// batch takes: two for the weight, two for its gradient, eight for its moments.
pub proof fn law_full_training_takes_twelve_bytes(spec: ModelSpec)
    ensures
        weights(spec, QuantLevel::Unquantized) + gradients(spec, FinetuneMethod::Full) + optimizer(
            spec,
            FinetuneMethod::Full,
        ) == 12 * spec.params * units_per_byte(spec),
{
    let p = spec.params as nat;
    let h = head_count(spec);
    assert(p * 4 * (1000 * h) + p * 100 * 2 * (20 * h) + p * 100 * 8 * (20 * h) == 12 * p * (2000
        * h)) by (nonlinear_arith);
}

/// Half bytes required to store one model parameter.
fn bytes_per_param(quant: QuantLevel) -> (r: u128)
    ensures
        r == half_bytes(quant),
{
    match quant {
        QuantLevel::Unquantized => 4,
        QuantLevel::EightBit => 2,
        QuantLevel::FourBit => 1,
    }
}

/// Estimates the full VRAM breakdown for a training run; `None` where it does not
/// fit in 128 bits.
///
/// The caller should add a safety margin of 5% on top of the total before comparing
/// it against GPU VRAM. Gradient checkpointing is assumed, and a sequence length of
/// [`DEFAULT_SEQ_LEN`]; loss scaling for mixed precision is not counted.
pub fn estimate(
    spec: &ModelSpec,
    method: FinetuneMethod,
    optimizer_lib: OptimizerLib,
    quant: QuantLevel,
    batch_size: u32,
) -> (r: Option<VramBreakdown>)
    ensures
        match r {
            Some(b) => subtotal(*spec, method, quant, batch_size) <= u128::MAX && b == breakdown(
                *spec,
                method,
                optimizer_lib,
                quant,
                batch_size,
            ),
            None => subtotal(*spec, method, quant, batch_size) > u128::MAX,
        },
{
    let h: u128 = if spec.num_heads == 0 {
        1
    } else {
        spec.num_heads as u128
    };
    let trained: u128 = match method {
        FinetuneMethod::Full => LORA_ADAPTER_FRACTION,
        FinetuneMethod::Lora | FinetuneMethod::Qlora => 1,
    };
    let w = CheckedU128::new(spec.params).mul_value(bytes_per_param(quant)).mul_value(1000 * h);
    let t = CheckedU128::new(spec.params).mul_value(trained);
    let g = t.mul_value(2).mul_value(20 * h);
    let o = t.mul_value(8).mul_value(20 * h);
    let tokens = CheckedU128::new(batch_size as u128).mul_value(spec.hidden_size as u128).mul_value(
        spec.num_layers as u128,
    );
    let kept: u128 = 2000 / GRAD_CKPT_FACTOR;
    assert(kept == 500);
    let a = tokens.mul_value(DEFAULT_SEQ_LEN).mul_value(2).mul_value(kept * h);
    let k = tokens.mul_value(spec.num_kv_heads as u128).mul_value(2).mul_value(
        DEFAULT_SEQ_LEN,
    ).mul_value(2).mul_value(2000);
    let all = w.add_checked(&g).add_checked(&o).add_checked(&a).add_checked(&k);
    assert(w@ == weights(*spec, quant));
    assert(g@ == gradients(*spec, method));
    assert(o@ == optimizer(*spec, method));
    assert(a@ == activations(*spec, batch_size));
    assert(k@ == kv_cache(*spec, batch_size));
    if all.is_overflowed() {
        return None;
    }
    let sub: u128 = all.unwrap();
    let saved_parts: u128 = match optimizer_lib {
        OptimizerLib::Unsloth => 9,
        OptimizerLib::DeepSpeed => 4,
        OptimizerLib::Plain => 0,
    };
    assert(sub / 20 * saved_parts <= sub / 20 * 9) by (nonlinear_arith)
        requires
            saved_parts <= 9,
    ;
    let savings: u128 = sub / 20 * saved_parts;
    Some(
        VramBreakdown {
            weights: w.unwrap(),
            gradients: g.unwrap(),
            optimizer: o.unwrap(),
            activations: a.unwrap(),
            kv_cache: k.unwrap(),
            library_savings: -(savings as i128),
            total: sub - savings,
            units_per_byte: (2000 * h) as u64,
        },
    )
}

/// Standard GPU VRAM tiers in GiB.
pub open spec fn tiers() -> Seq<u128> {
    seq![8, 10, 12, 16, 20, 24, 40, 48, 80]
}

/// Bytes in a GiB.
pub const GIB: u128 = 0x4000_0000;

/// Whether `tier` GiB hold `total` units and 5% more.
pub open spec fn fits(total: nat, units_per_byte: nat, tier: nat) -> bool {
    105 * total <= 100 * (tier * GIB * units_per_byte)
}

/// The names of the tiers among `candidates` that are large enough, in order.
pub open spec fn fitting_among(candidates: Seq<u128>, total: nat, units_per_byte: nat) -> Seq<
    Seq<char>,
>
    decreases candidates.len(),
{
    if candidates.len() == 0 {
        Seq::empty()
    } else {
        let before = fitting_among(candidates.drop_last(), total, units_per_byte);
        if fits(total, units_per_byte, candidates.last() as nat) {
            before.push(text::decimal(candidates.last() as nat) + "GB"@)
        } else {
            before
        }
    }
}

/// What fits in a tier fits in every larger one.
pub proof fn law_larger_tiers_fit(total: nat, units_per_byte: nat, tier: nat, larger: nat)
    requires
        fits(total, units_per_byte, tier),
        tier <= larger,
    ensures
        fits(total, units_per_byte, larger),
{
    assert(tier * GIB * units_per_byte <= larger * GIB * units_per_byte) by (nonlinear_arith)
        requires
            tier <= larger,
    ;
}

/// All standard VRAM tiers (as "NGB" strings) that are large enough to fit `total`
/// units of memory with a 5% safety margin.
pub fn fitting_tiers(total: u128, units_per_byte: u64) -> (r: Vec<String>)
    ensures
        text::texts(r@) == fitting_among(tiers(), total as nat, units_per_byte as nat),
{
    broadcast use text::group_texts;

    let all: [u128; 9] = [8, 10, 12, 16, 20, 24, 40, 48, 80];
    let mut r: Vec<String> = Vec::new();
    let mut i: usize = 0;
    assert(all@ =~= tiers());
    while i < 9
        invariant
            i <= 9,
            all@ == tiers(),
            text::texts(r@) == fitting_among(
                tiers().take(i as int),
                total as nat,
                units_per_byte as nat,
            ),
        decreases 9 - i,
    {
        broadcast use text::group_texts;

        assert(tiers().take(i + 1).drop_last() =~= tiers().take(i as int));
        let tier: u128 = all[i];
        assert(tier == tiers()[i as int] && tier <= 80);
        assert(tier * GIB * units_per_byte <= 80 * GIB * 0xffff_ffff_ffff_ffff) by (nonlinear_arith)
            requires
                0 <= tier <= 80,
                0 <= units_per_byte <= 0xffff_ffff_ffff_ffff,
        ;
        assert(tier * GIB <= 80 * GIB);
        let room: u128 = 100 * (tier * GIB * units_per_byte as u128);
        if total <= room && 105 * total <= room {
            let mut name = text::decimal_text(tier as u64);
            name.append("GB");
            r.push(name);
        }
        i = i + 1;
    }
    assert(tiers().take(9) =~= tiers());
    r
}

/// Activations and keys and values each take as many times the memory of one row as
/// the batch has rows. A row's activations are a quarter of two bytes for each of 2048
/// tokens, hidden positions and layers; its keys and values are two times two bytes for
/// each of 2048 tokens, layers and KV heads over the width of a head.
pub proof fn law_batches_scale_the_memory(spec: ModelSpec, batch_size: u32)
    ensures
        activations(spec, batch_size) == batch_size * activations(spec, 1),
        kv_cache(spec, batch_size) == batch_size * kv_cache(spec, 1),
        4 * activations(spec, 1) == 2048 * spec.hidden_size * spec.num_layers * 2 * units_per_byte(
            spec,
        ),
        kv_cache(spec, 1) * (if spec.num_heads == 0 {
            1
        } else {
            spec.num_heads as int
        }) == 2 * spec.num_layers * spec.num_kv_heads * spec.hidden_size * 2048 * 2
            * units_per_byte(spec),
{
    let b = batch_size as int;
    let w = spec.hidden_size as int;
    let l = spec.num_layers as int;
    let k = spec.num_kv_heads as int;
    let h = head_count(spec) as int;
    assert(b * w * l * 2048 * 2 * (500 * h) == b * (1 * w * l * 2048 * 2 * (500 * h)))
        by (nonlinear_arith);
    assert(b * w * l * k * 2 * 2048 * 2 * 2000 == b * (1 * w * l * k * 2 * 2048 * 2 * 2000))
        by (nonlinear_arith);
    assert(4 * (1 * w * l * 2048 * 2 * (500 * h)) == 2048 * w * l * 2 * (2000 * h))
        by (nonlinear_arith);
    assert((1 * w * l * k * 2 * 2048 * 2 * 2000) * h == 2 * l * k * w * 2048 * 2 * (2000 * h))
        by (nonlinear_arith);
}

/// Weights take two bytes per parameter, one, or half of one, by their quantization.
pub proof fn law_weights_by_quantization(spec: ModelSpec)
    ensures
        units_per_byte(spec) > 0,
        weights(spec, QuantLevel::Unquantized) == 2 * spec.params * units_per_byte(spec),
        weights(spec, QuantLevel::EightBit) == spec.params * units_per_byte(spec),
        2 * weights(spec, QuantLevel::FourBit) == spec.params * units_per_byte(spec),
{
    let p = spec.params as int;
    let h = head_count(spec) as int;
    assert(p * 4 * (1000 * h) == 2 * p * (2000 * h)) by (nonlinear_arith);
    assert(p * 2 * (1000 * h) == p * (2000 * h)) by (nonlinear_arith);
    assert(2 * (p * 1 * (1000 * h)) == p * (2000 * h)) by (nonlinear_arith);
}

/// A trained parameter has two bytes of gradient and eight of optimizer state. Full
/// fine-tuning trains all parameters, adapters a hundredth of them.
pub proof fn law_training_state_by_method(spec: ModelSpec, method: FinetuneMethod)
    ensures
        gradients(spec, FinetuneMethod::Full) == 2 * spec.params * units_per_byte(spec),
        optimizer(spec, method) == 4 * gradients(spec, method),
        method != FinetuneMethod::Full ==> 100 * gradients(spec, method) == gradients(
            spec,
            FinetuneMethod::Full,
        ),
{
    let p = spec.params as int;
    let h = head_count(spec) as int;
    let t = trained_hundredths(method) as int;
    assert(p * 100 * 2 * (20 * h) == 2 * p * (2000 * h)) by (nonlinear_arith);
    assert(p * t * 8 * (20 * h) == 4 * (p * t * 2 * (20 * h))) by (nonlinear_arith);
    assert(100 * (p * 1 * 2 * (20 * h)) == p * 100 * 2 * (20 * h)) by (nonlinear_arith);
}

/// The parts of a breakdown that fits are those of the run. The total is their sum less
/// what the library saves: 45% with Unsloth, 20% with DeepSpeed, nothing without one.
pub proof fn law_breakdowns_add_up(
    spec: ModelSpec,
    method: FinetuneMethod,
    lib: OptimizerLib,
    quant: QuantLevel,
    batch_size: u32,
)
    requires
        subtotal(spec, method, quant, batch_size) <= u128::MAX,
    ensures
        ({
            let b = breakdown(spec, method, lib, quant, batch_size);
            let sum = b.weights + b.gradients + b.optimizer + b.activations + b.kv_cache;
            &&& b.weights == weights(spec, quant)
            &&& b.gradients == gradients(spec, method)
            &&& b.optimizer == optimizer(spec, method)
            &&& b.activations == activations(spec, batch_size)
            &&& b.kv_cache == kv_cache(spec, batch_size)
            &&& b.units_per_byte == units_per_byte(spec)
            &&& b.total == sum + b.library_savings
            &&& lib == OptimizerLib::Plain ==> b.library_savings == 0
            &&& lib == OptimizerLib::Unsloth ==> 100 * b.library_savings == -45 * sum
            &&& lib == OptimizerLib::DeepSpeed ==> 100 * b.library_savings == -20 * sum
        }),
{
    law_savings_are_exact(spec, method, lib, quant, batch_size);
    let sub = subtotal(spec, method, quant, batch_size);
    let s = saved(lib, sub);
    let k = saved_twentieths(lib);
    assert(0 <= sub / 20 * k <= sub / 20 * 9) by (nonlinear_arith)
        requires
            0 <= k <= 9,
    ;
    assert(s <= 0x7fff_ffff_ffff_ffff_ffff_ffff_ffff_ffff);
    assert(head_count(spec) <= u32::MAX);
}

/// What fits in a tier leaves a margin of 5%: 21 parts of memory to every 20 needed.
pub proof fn law_fitting_leaves_a_margin(total: nat, units_per_byte: nat, tier: nat)
    ensures
        fits(total, units_per_byte, tier) <==> 21 * total <= 20 * (tier * 0x4000_0000
            * units_per_byte),
{
}

proof fn lemma_fitting_is_a_tail(total: nat, units_per_byte: nat, k: int, n: int)
    requires
        0 <= k <= 9,
        0 <= n <= 9,
        forall|i: int| 0 <= i < k ==> !fits(total, units_per_byte, #[trigger] tiers()[i] as nat),
        forall|i: int| k <= i < 9 ==> fits(total, units_per_byte, #[trigger] tiers()[i] as nat),
    ensures
        fitting_among(tiers().take(n), total, units_per_byte) == Seq::new(
            (if n <= k {
                0
            } else {
                n - k
            }) as nat,
            |j: int| text::decimal(tiers()[k + j] as nat) + "GB"@,
        ),
    decreases n,
{
    if n > 0 {
        let c = tiers().take(n);
        lemma_fitting_is_a_tail(total, units_per_byte, k, n - 1);
        assert(c.drop_last() =~= tiers().take(n - 1));
        assert(c.last() == tiers()[n - 1]);
        assert(fitting_among(c, total, units_per_byte) =~= Seq::new(
            (if n <= k {
                0
            } else {
                n - k
            }) as nat,
            |j: int| text::decimal(tiers()[k + j] as nat) + "GB"@,
        ));
    } else {
        assert(tiers().take(0) =~= Seq::empty());
        assert(fitting_among(tiers().take(0), total, units_per_byte) =~= Seq::new(
            0,
            |j: int| text::decimal(tiers()[k + j] as nat) + "GB"@,
        ));
    }
}

/// Of the tiers of 8, 10, 12, 16, 20, 24, 40, 48 and 80 GiB, those from the smallest
/// sufficient one on are named, in order.
pub proof fn law_fitting_tiers_are_the_larger_ones(total: nat, units_per_byte: nat, k: int)
    requires
        0 <= k <= 9,
        k > 0 ==> 21 * total > 20 * (seq![8int, 10, 12, 16, 20, 24, 40, 48, 80][k - 1] * 0x4000_0000
            * units_per_byte),
        k < 9 ==> 21 * total <= 20 * (seq![8int, 10, 12, 16, 20, 24, 40, 48, 80][k] * 0x4000_0000
            * units_per_byte),
    ensures
        fitting_among(tiers(), total, units_per_byte) == Seq::new(
            (9 - k) as nat,
            |j: int|
                text::decimal(seq![8int, 10, 12, 16, 20, 24, 40, 48, 80][k + j] as nat) + "GB"@,
        ),
{
    let list = seq![8int, 10, 12, 16, 20, 24, 40, 48, 80];
    assert forall|i: int| 0 <= i < 9 implies tiers()[i] == list[i] by {}
    assert forall|i: int| 0 <= i < k implies !fits(
        total,
        units_per_byte,
        #[trigger] tiers()[i] as nat,
    ) by {
        assert(tiers()[i] <= tiers()[k - 1]);
        if fits(total, units_per_byte, tiers()[i] as nat) {
            law_larger_tiers_fit(total, units_per_byte, tiers()[i] as nat, tiers()[k - 1] as nat);
        }
    }
    assert forall|i: int| k <= i < 9 implies fits(
        total,
        units_per_byte,
        #[trigger] tiers()[i] as nat,
    ) by {
        assert(tiers()[k] <= tiers()[i]);
        law_larger_tiers_fit(total, units_per_byte, tiers()[k] as nat, tiers()[i] as nat);
    }
    lemma_fitting_is_a_tail(total, units_per_byte, k, 9);
    assert(tiers().take(9) =~= tiers());
    assert(fitting_among(tiers(), total, units_per_byte) =~= Seq::new(
        (9 - k) as nat,
        |j: int| text::decimal(list[k + j] as nat) + "GB"@,
    ));
}

} // verus!
