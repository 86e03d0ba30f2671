//! One actionable recommendation per bottleneck.
use vstd::prelude::*;

use crate::analysis::bottleneck::{Bottleneck, EIGHT};
use crate::float::F32;
use crate::metrics::breakdown::{FIFTEEN, TEN, THIRTY};

verus! {

/// A single, actionable recommendation derived from the detected bottleneck.
#[derive(Clone, Copy, Debug)]
pub struct Recommendation {
    /// Short headline (shown prominently in the TUI).
    pub title: &'static str,
    /// The specific code change or configuration the user should make.
    pub action: &'static str,
    /// Estimated MFU improvement if the recommendation is followed (percentage points).
    pub expected_mfu_gain_ppt: F32,
}

/// The bits of 5 in single precision.
pub const FIVE: u32 = 0x40a0_0000;

/// The bits of 6 in single precision.
pub const SIX: u32 = 0x40c0_0000;

/// The headline for a bottleneck.
pub open spec fn title_for(bottleneck: Bottleneck) -> Seq<char> {
    match bottleneck {
        Bottleneck::DataLoader => "Data loader is the primary bottleneck"@,
        Bottleneck::CudaSync => "Excessive CUDA synchronization detected"@,
        Bottleneck::MemoryFragmentation => "Memory allocation overhead is high"@,
        Bottleneck::ThermalThrottle => "GPU is thermal throttling"@,
        Bottleneck::ClockUnderspeed => "GPU clock running below boost"@,
        Bottleneck::BelowTargetMfu => "MFU below 45% — general optimization opportunity"@,
        Bottleneck::NoBottleneck => "Training is well-optimized"@,
    }
}

/// What to do about a bottleneck.
pub open spec fn action_for(bottleneck: Bottleneck) -> Seq<char> {
    match bottleneck {
        Bottleneck::DataLoader =>
            "Add `num_workers=4, pin_memory=True` to your DataLoader. If the dataset fits in RAM, use an in-memory dataset to eliminate disk I/O."@,
        Bottleneck::CudaSync =>
            "Audit your training loop for `.item()` calls, scalar logging inside the loop, and `loss.item()` every step. Move metric collection outside the hot path or accumulate in tensors."@,
        Bottleneck::MemoryFragmentation =>
            "Pre-allocate output tensors outside the training loop. Ensure `torch.no_grad()` wraps validation. Avoid creating new tensors inside the loop for buffers that can be reused."@,
        Bottleneck::ThermalThrottle =>
            "Check GPU cooling. On a cloud instance the physical machine may be under thermal stress — consider migrating to a different node. Temporarily reducing batch size reduces thermal load."@,
        Bottleneck::ClockUnderspeed =>
            "Check the power limit on this instance: `nvidia-smi -q -d POWER`. Some cloud providers cap GPU clocks on shared hardware. Setting `sudo nvidia-smi -pm 1` enables persistent mode."@,
        Bottleneck::BelowTargetMfu =>
            "Try: (1) increase batch size if VRAM allows, (2) enable mixed precision with `torch.autocast`, (3) verify gradient accumulation steps match your effective batch target."@,
        Bottleneck::NoBottleneck =>
            "MFU is above 45%. No significant bottleneck detected. Consider profiling at the model-architecture level for further gains."@,
    }
}

/// The gain to expect from removing a bottleneck, in percentage points. For the
/// data loader it is a share of the time lost to it, between 5 and 30.
pub open spec fn gain_for(bottleneck: Bottleneck, data_loader_share: F32) -> F32 {
    match bottleneck {
        Bottleneck::DataLoader => data_loader_share.within(F32::of(FIVE), F32::of(THIRTY)),
        Bottleneck::CudaSync => F32::of(EIGHT),
        Bottleneck::MemoryFragmentation => F32::of(SIX),
        Bottleneck::ThermalThrottle => F32::of(TEN),
        Bottleneck::ClockUnderspeed => F32::of(FIVE),
        Bottleneck::BelowTargetMfu => F32::of(FIFTEEN),
        Bottleneck::NoBottleneck => F32::of(0),
    }
}

/// Produces exactly one recommendation from the detected bottleneck.
pub struct RecommendationEngine;

impl RecommendationEngine {
    /// The recommendation for a bottleneck; `data_loader_share` is six tenths of
    /// the data loader's percentage.
    pub fn recommend(bottleneck: &Bottleneck, data_loader_share: F32) -> (r: Recommendation)
        ensures
            r.title@ == title_for(*bottleneck),
            r.action@ == action_for(*bottleneck),
            r.expected_mfu_gain_ppt == gain_for(*bottleneck, data_loader_share),
    {
        match bottleneck {
            Bottleneck::DataLoader => Recommendation {
                title: "Data loader is the primary bottleneck",
                action:
                    "Add `num_workers=4, pin_memory=True` to your DataLoader. If the dataset fits in RAM, use an in-memory dataset to eliminate disk I/O.",
                expected_mfu_gain_ppt: estimate_dl_gain(data_loader_share),
            },
            Bottleneck::CudaSync => Recommendation {
                title: "Excessive CUDA synchronization detected",
                action:
                    "Audit your training loop for `.item()` calls, scalar logging inside the loop, and `loss.item()` every step. Move metric collection outside the hot path or accumulate in tensors.",
                expected_mfu_gain_ppt: F32::of(EIGHT),
            },
            Bottleneck::MemoryFragmentation => Recommendation {
                title: "Memory allocation overhead is high",
                action:
                    "Pre-allocate output tensors outside the training loop. Ensure `torch.no_grad()` wraps validation. Avoid creating new tensors inside the loop for buffers that can be reused.",
                expected_mfu_gain_ppt: F32::of(SIX),
            },
            Bottleneck::ThermalThrottle => Recommendation {
                title: "GPU is thermal throttling",
                action:
                    "Check GPU cooling. On a cloud instance the physical machine may be under thermal stress — consider migrating to a different node. Temporarily reducing batch size reduces thermal load.",
                expected_mfu_gain_ppt: F32::of(TEN),
            },
            Bottleneck::ClockUnderspeed => Recommendation {
                title: "GPU clock running below boost",
                action:
                    "Check the power limit on this instance: `nvidia-smi -q -d POWER`. Some cloud providers cap GPU clocks on shared hardware. Setting `sudo nvidia-smi -pm 1` enables persistent mode.",
                expected_mfu_gain_ppt: F32::of(FIVE),
            },
            Bottleneck::BelowTargetMfu => Recommendation {
                title: "MFU below 45% — general optimization opportunity",
                action:
                    "Try: (1) increase batch size if VRAM allows, (2) enable mixed precision with `torch.autocast`, (3) verify gradient accumulation steps match your effective batch target.",
                expected_mfu_gain_ppt: F32::of(FIFTEEN),
            },
            Bottleneck::NoBottleneck => Recommendation {
                title: "Training is well-optimized",
                action:
                    "MFU is above 45%. No significant bottleneck detected. Consider profiling at the model-architecture level for further gains.",
                expected_mfu_gain_ppt: F32::of(0),
            },
        }
    }
}

/// Rough estimate of MFU gain from fixing a data loader bottleneck.
/// The more time is wasted on data loading, the larger the relative gain.
fn estimate_dl_gain(data_loader_share: F32) -> (r: F32)
    ensures
        r == data_loader_share.within(F32::of(FIVE), F32::of(THIRTY)),
{
    data_loader_share.clamp(F32::of(FIVE), F32::of(THIRTY))
}

/// The gain is zero exactly where there is no bottleneck. The data loader's lies between
/// 5 and 30 and is its share where that does; the others promise 8, 6, 10, 5 and 15.
pub proof fn law_gains(bottleneck: Bottleneck, share: F32)
    requires
        !share.not_a_number(),
    ensures
        gain_for(bottleneck, share) == F32::of(0) <==> bottleneck == Bottleneck::NoBottleneck,
        F32::of(0x40a0_0000).at_most(gain_for(Bottleneck::DataLoader, share)),
        gain_for(Bottleneck::DataLoader, share).at_most(F32::of(0x41f0_0000)),
        F32::of(0x40a0_0000).at_most(share) && share.at_most(F32::of(0x41f0_0000)) ==> gain_for(
            Bottleneck::DataLoader,
            share,
        ) == share,
        gain_for(Bottleneck::CudaSync, share) == F32::of(0x4100_0000),
        gain_for(Bottleneck::MemoryFragmentation, share) == F32::of(0x40c0_0000),
        gain_for(Bottleneck::ThermalThrottle, share) == F32::of(0x4120_0000),
        gain_for(Bottleneck::ClockUnderspeed, share) == F32::of(0x40a0_0000),
        gain_for(Bottleneck::BelowTargetMfu, share) == F32::of(0x4170_0000),
{
}

/// The more time is lost to the data loader, the larger is the gain that is promised.
pub proof fn law_gain_grows_with_the_loss(less: F32, more: F32)
    requires
        less.at_most(more),
    ensures
        gain_for(Bottleneck::DataLoader, less).at_most(gain_for(Bottleneck::DataLoader, more)),
{
}

/// A headline names its bottleneck.
pub proof fn law_titles_name_the_bottleneck()
    ensures
        "Data loader"@.is_prefix_of(title_for(Bottleneck::DataLoader)),
        "Excessive CUDA sync"@.is_prefix_of(title_for(Bottleneck::CudaSync)),
        "Memory allocation"@.is_prefix_of(title_for(Bottleneck::MemoryFragmentation)),
        "GPU is thermal"@.is_prefix_of(title_for(Bottleneck::ThermalThrottle)),
        "GPU clock"@.is_prefix_of(title_for(Bottleneck::ClockUnderspeed)),
        "MFU below 45%"@.is_prefix_of(title_for(Bottleneck::BelowTargetMfu)),
        "Training is well"@.is_prefix_of(title_for(Bottleneck::NoBottleneck)),
{
    reveal_strlit("Data loader");
    reveal_strlit("Data loader is the primary bottleneck");
    reveal_strlit("Excessive CUDA sync");
    reveal_strlit("Excessive CUDA synchronization detected");
    reveal_strlit("Memory allocation");
    reveal_strlit("Memory allocation overhead is high");
    reveal_strlit("GPU is thermal");
    reveal_strlit("GPU is thermal throttling");
    reveal_strlit("GPU clock");
    reveal_strlit("GPU clock running below boost");
    reveal_strlit("MFU below 45%");
    reveal_strlit("MFU below 45% — general optimization opportunity");
    reveal_strlit("Training is well");
    reveal_strlit("Training is well-optimized");
    assert("Data loader"@ =~= title_for(Bottleneck::DataLoader).take("Data loader"@.len() as int));
    assert("Excessive CUDA sync"@ =~= title_for(Bottleneck::CudaSync).take(
        "Excessive CUDA sync"@.len() as int,
    ));
    assert("Memory allocation"@ =~= title_for(Bottleneck::MemoryFragmentation).take(
        "Memory allocation"@.len() as int,
    ));
    assert("GPU is thermal"@ =~= title_for(Bottleneck::ThermalThrottle).take(
        "GPU is thermal"@.len() as int,
    ));
    assert("GPU clock"@ =~= title_for(Bottleneck::ClockUnderspeed).take("GPU clock"@.len() as int));
    assert("MFU below 45%"@ =~= title_for(Bottleneck::BelowTargetMfu).take(
        "MFU below 45%"@.len() as int,
    ));
    assert("Training is well"@ =~= title_for(Bottleneck::NoBottleneck).take(
        "Training is well"@.len() as int,
    ));
}

/// What to do about a bottleneck begins with its remedy.
pub proof fn law_actions_name_the_remedy()
    ensures
        "Add `num_workers=4, pin_memory=True` to your DataLoader."@.is_prefix_of(action_for(Bottleneck::DataLoader)),
        "Audit your training loop for `.item()` calls"@.is_prefix_of(action_for(Bottleneck::CudaSync)),
        "Pre-allocate output tensors"@.is_prefix_of(action_for(Bottleneck::MemoryFragmentation)),
        "Check GPU cooling."@.is_prefix_of(action_for(Bottleneck::ThermalThrottle)),
        "Check the power limit"@.is_prefix_of(action_for(Bottleneck::ClockUnderspeed)),
        "Try: (1) increase batch size"@.is_prefix_of(action_for(Bottleneck::BelowTargetMfu)),
        "MFU is above 45%. No significant bottleneck"@.is_prefix_of(action_for(Bottleneck::NoBottleneck)),
{
    reveal_strlit("Add `num_workers=4, pin_memory=True` to your DataLoader.");
    reveal_strlit("Add `num_workers=4, pin_memory=True` to your DataLoader. If the dataset fits in RAM, use an in-memory dataset to eliminate disk I/O.");
    assert("Add `num_workers=4, pin_memory=True` to your DataLoader."@ =~= action_for(Bottleneck::DataLoader).take("Add `num_workers=4, pin_memory=True` to your DataLoader."@.len() as int));
    reveal_strlit("Audit your training loop for `.item()` calls");
    reveal_strlit("Audit your training loop for `.item()` calls, scalar logging inside the loop, and `loss.item()` every step. Move metric collection outside the hot path or accumulate in tensors.");
    assert("Audit your training loop for `.item()` calls"@ =~= action_for(Bottleneck::CudaSync).take("Audit your training loop for `.item()` calls"@.len() as int));
    reveal_strlit("Pre-allocate output tensors");
    reveal_strlit("Pre-allocate output tensors outside the training loop. Ensure `torch.no_grad()` wraps validation. Avoid creating new tensors inside the loop for buffers that can be reused.");
    assert("Pre-allocate output tensors"@ =~= action_for(Bottleneck::MemoryFragmentation).take("Pre-allocate output tensors"@.len() as int));
    reveal_strlit("Check GPU cooling.");
    reveal_strlit("Check GPU cooling. On a cloud instance the physical machine may be under thermal stress — consider migrating to a different node. Temporarily reducing batch size reduces thermal load.");
    assert("Check GPU cooling."@ =~= action_for(Bottleneck::ThermalThrottle).take("Check GPU cooling."@.len() as int));
    reveal_strlit("Check the power limit");
    reveal_strlit("Check the power limit on this instance: `nvidia-smi -q -d POWER`. Some cloud providers cap GPU clocks on shared hardware. Setting `sudo nvidia-smi -pm 1` enables persistent mode.");
    assert("Check the power limit"@ =~= action_for(Bottleneck::ClockUnderspeed).take("Check the power limit"@.len() as int));
    reveal_strlit("Try: (1) increase batch size");
    reveal_strlit("Try: (1) increase batch size if VRAM allows, (2) enable mixed precision with `torch.autocast`, (3) verify gradient accumulation steps match your effective batch target.");
    assert("Try: (1) increase batch size"@ =~= action_for(Bottleneck::BelowTargetMfu).take("Try: (1) increase batch size"@.len() as int));
    reveal_strlit("MFU is above 45%. No significant bottleneck");
    reveal_strlit("MFU is above 45%. No significant bottleneck detected. Consider profiling at the model-architecture level for further gains.");
    assert("MFU is above 45%. No significant bottleneck"@ =~= action_for(Bottleneck::NoBottleneck).take("MFU is above 45%. No significant bottleneck"@.len() as int));
}

} // verus!
