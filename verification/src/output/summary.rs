//! The summary of a session.
use vstd::prelude::*;

use crate::analysis::bottleneck::Bottleneck;
use crate::float::F32;
use crate::metrics::units;
use crate::output;
use crate::output::{GpuCells, SnapshotCells};
use crate::session::state::{GpuSnapshot, SessionSnapshot};
use crate::text;

verus! {

broadcast use vstd::string::group_string_axioms;

/// The final session summary that is shown after a run ends.
#[derive(Clone, Copy, Debug, PartialEq, Eq, Structural)]
pub struct SummaryReport;

/// The name of a bottleneck.
pub open spec fn bottleneck_name(b: Bottleneck) -> Seq<char> {
    match b {
        Bottleneck::DataLoader => "DataLoader"@,
        Bottleneck::CudaSync => "CudaSync"@,
        Bottleneck::MemoryFragmentation => "MemoryFragmentation"@,
        Bottleneck::ThermalThrottle => "ThermalThrottle"@,
        Bottleneck::ClockUnderspeed => "ClockUnderspeed"@,
        Bottleneck::BelowTargetMfu => "BelowTargetMfu"@,
        Bottleneck::NoBottleneck => "None"@,
    }
}

/// The name of a bottleneck.
pub fn name_of(b: Bottleneck) -> (r: &'static str)
    ensures
        r@ == bottleneck_name(b),
{
    match b {
        Bottleneck::DataLoader => "DataLoader",
        Bottleneck::CudaSync => "CudaSync",
        Bottleneck::MemoryFragmentation => "MemoryFragmentation",
        Bottleneck::ThermalThrottle => "ThermalThrottle",
        Bottleneck::ClockUnderspeed => "ClockUnderspeed",
        Bottleneck::BelowTargetMfu => "BelowTargetMfu",
        Bottleneck::NoBottleneck => "None",
    }
}

/// The line that frames the summary.
pub open spec fn frame() -> Seq<char> {
    "═══════════════════════════════════════════════════"@
}

/// The lines at the top.
pub open spec fn head_text(s: SessionSnapshot) -> Seq<Seq<char>> {
    seq![""@, frame(), "  calibrate watch — Session Summary"@, frame()] + (if !s.nvml_available {
        seq![
            "  ⚠  NVML unavailable — GPU metrics were not collected."@,
            "     CPU utilisation is shown; MFU is not available."@,
            ""@,
        ]
    } else {
        Seq::empty()
    }) + seq![
        "  GPU              : "@ + s.gpu_name@,
        "  Duration         : "@ + output::clock(s.elapsed_ms as nat / 1000),
        "  Steps observed   : "@ + text::decimal(s.steps_observed as nat),
        ""@,
    ]
}

/// The lines on utilization and memory.
pub open spec fn usage_text(s: SessionSnapshot, cells: SnapshotCells) -> Seq<Seq<char>> {
    (if s.nvml_available {
        seq![
            "  MFU              : "@ + cells.mfu@ + "%  (target: >45%)"@,
            "  Peak MFU         : "@ + cells.peak_mfu@ + "%"@,
        ] + (match s.mfu_percentiles {
            Some(p) => seq![
                "  MFU p50/p75/p95  : "@ + output::tenths(p.p50_tenths as nat) + "% / "@
                    + output::tenths(p.p75_tenths as nat) + "% / "@ + output::tenths(
                    p.p95_tenths as nat,
                ) + "%"@,
            ],
            None => Seq::empty(),
        }) + seq![
            "  Peak VRAM        : "@ + units::mib_text(s.peak_vram_mib.0 as nat) + " / "@
                + units::mib_text(s.vram_total_mib.0 as nat),
        ]
    } else {
        Seq::empty()
    }) + seq!["  Temperature      : "@ + cells.temperature@ + "°C"@, ""@]
}

/// The warnings.
pub open spec fn warnings_text(s: SessionSnapshot, cells: SnapshotCells) -> Seq<Seq<char>> {
    (if s.elapsed_ms / 1000 < 30 {
        seq!["  ⚠  Run was under 30 seconds — MFU estimate is approximate."@, ""@]
    } else {
        Seq::empty()
    }) + (if s.mfu_divergent {
        seq![
            "  ⚠  GPU MFU divergence: "@ + cells.divergence@ + " ppt spread across devices."@,
            "     Check NCCL/DDP configuration and per-card thermal limits."@,
            ""@,
        ]
    } else {
        Seq::empty()
    }) + (if s.vram_growing {
        seq![
            "  ⚠  VRAM was growing every tick — possible memory leak in training loop."@,
            "     Check for tensors accumulating outside torch.no_grad() or in lists."@,
            ""@,
        ]
    } else {
        Seq::empty()
    })
}

/// The lines on step times.
pub open spec fn steps_text(s: SessionSnapshot, cells: SnapshotCells) -> Seq<Seq<char>> {
    if F32::of(0).below(s.step_time_ms_mean) {
        seq![
            "  Step time (mean)   : "@ + cells.step_time@ + " ms"@ + (if s.step_time_erratic {
                "  ← ERRATIC (CV > 0.3 — check data loader or memory allocation)"@
            } else {
                ""@
            }),
            ""@,
        ]
    } else {
        Seq::empty()
    }
}

/// The line on a GPU.
pub open spec fn gpu_row(g: GpuSnapshot, cells: GpuCells) -> Seq<char> {
    "    GPU"@ + text::decimal(g.gpu_index as nat) + ": SM "@ + cells.sm_utilization@ + "%  VRAM "@
        + units::mib_text(g.vram_used_mib.0 as nat) + "  Temp "@ + cells.temperature@ + "°C"@
}

/// The lines on the first `n` GPUs.
pub open spec fn gpu_rows(gpus: Seq<GpuSnapshot>, cells: Seq<GpuCells>, n: nat) -> Seq<Seq<char>> {
    Seq::new(n, |i: int| gpu_row(gpus[i], cells[i]))
}

/// The lines on the GPUs, where there are several.
pub open spec fn gpus_text(gpus: Seq<GpuSnapshot>, cells: Seq<GpuCells>) -> Seq<Seq<char>> {
    if gpus.len() > 1 {
        seq!["  Per-GPU breakdown:"@] + gpu_rows(gpus, cells, gpus.len()) + seq![""@]
    } else {
        Seq::empty()
    }
}

/// The lines at the bottom.
pub open spec fn verdict_text(s: SessionSnapshot, cells: SnapshotCells) -> Seq<Seq<char>> {
    seq![
        "  Primary bottleneck : "@ + bottleneck_name(s.bottleneck),
        "  Recommendation     : "@ + s.recommendation.action@,
        ""@,
    ] + (if s.cost_impact is Some {
        seq![
            "  Waste per hour   : $"@ + cells.waste_per_hour@ + "  (at $"@ + cells.cost_per_hour@
                + "/hr)"@,
            ""@,
        ]
    } else {
        Seq::empty()
    }) + seq![frame()]
}

/// The lines at the top.
fn head(s: &SessionSnapshot) -> (r: Vec<String>)
    ensures
        text::texts(r@) == head_text(*s),
{
    broadcast use text::group_texts;

    let mut gpu = "  GPU              : ".to_owned();
    gpu.append(s.gpu_name.as_str());
    let mut duration = "  Duration         : ".to_owned();
    duration.append(output::clock_text(s.elapsed_ms / 1000).as_str());
    let mut steps = "  Steps observed   : ".to_owned();
    steps.append(text::decimal_text(s.steps_observed).as_str());
    let mut r: Vec<String> = Vec::new();
    r.push("".to_owned());
    r.push("═══════════════════════════════════════════════════".to_owned());
    r.push("  calibrate watch — Session Summary".to_owned());
    r.push("═══════════════════════════════════════════════════".to_owned());
    if !s.nvml_available {
        r.push("  ⚠  NVML unavailable — GPU metrics were not collected.".to_owned());
        r.push("     CPU utilisation is shown; MFU is not available.".to_owned());
        r.push("".to_owned());
    }
    r.push(gpu);
    r.push(duration);
    r.push(steps);
    r.push("".to_owned());
    assert(text::texts(r@) =~= head_text(*s));
    r
}

/// The lines on utilization and memory.
fn usage(s: &SessionSnapshot, cells: &SnapshotCells) -> (r: Vec<String>)
    ensures
        text::texts(r@) == usage_text(*s, *cells),
{
    broadcast use text::group_texts;

    let mut r: Vec<String> = Vec::new();
    if s.nvml_available {
        let mut mfu = "  MFU              : ".to_owned();
        mfu.append(cells.mfu.as_str());
        mfu.append("%  (target: >45%)");
        r.push(mfu);
        let mut peak = "  Peak MFU         : ".to_owned();
        peak.append(cells.peak_mfu.as_str());
        peak.append("%");
        r.push(peak);
        if let Some(p) = s.mfu_percentiles {
            let mut line = "  MFU p50/p75/p95  : ".to_owned();
            line.append(output::tenths_text(p.p50_tenths).as_str());
            line.append("% / ");
            line.append(output::tenths_text(p.p75_tenths).as_str());
            line.append("% / ");
            line.append(output::tenths_text(p.p95_tenths).as_str());
            line.append("%");
            r.push(line);
        }
        let mut vram = "  Peak VRAM        : ".to_owned();
        vram.append(s.peak_vram_mib.text().as_str());
        vram.append(" / ");
        vram.append(s.vram_total_mib.text().as_str());
        r.push(vram);
    }
    let mut temperature = "  Temperature      : ".to_owned();
    temperature.append(cells.temperature.as_str());
    temperature.append("°C");
    r.push(temperature);
    r.push("".to_owned());
    assert(text::texts(r@) =~= usage_text(*s, *cells));
    r
}

/// The warnings and the lines on step times.
fn warnings(s: &SessionSnapshot, cells: &SnapshotCells) -> (r: Vec<String>)
    ensures
        text::texts(r@) == warnings_text(*s, *cells) + steps_text(*s, *cells),
{
    broadcast use text::group_texts;

    let mut r: Vec<String> = Vec::new();
    if s.elapsed_ms / 1000 < 30 {
        r.push("  ⚠  Run was under 30 seconds — MFU estimate is approximate.".to_owned());
        r.push("".to_owned());
    }
    if s.mfu_divergent {
        let mut line = "  ⚠  GPU MFU divergence: ".to_owned();
        line.append(cells.divergence.as_str());
        line.append(" ppt spread across devices.");
        r.push(line);
        r.push("     Check NCCL/DDP configuration and per-card thermal limits.".to_owned());
        r.push("".to_owned());
    }
    if s.vram_growing {
        r.push(
            "  ⚠  VRAM was growing every tick — possible memory leak in training loop.".to_owned(),
        );
        r.push(
            "     Check for tensors accumulating outside torch.no_grad() or in lists.".to_owned(),
        );
        r.push("".to_owned());
    }
    assert(text::texts(r@) =~= warnings_text(*s, *cells));
    if s.step_time_ms_mean.gt(F32::of(0)) {
        let mut line = "  Step time (mean)   : ".to_owned();
        line.append(cells.step_time.as_str());
        line.append(" ms");
        line.append(
            if s.step_time_erratic {
                "  ← ERRATIC (CV > 0.3 — check data loader or memory allocation)"
            } else {
                ""
            },
        );
        r.push(line);
        r.push("".to_owned());
    }
    assert(text::texts(r@) =~= warnings_text(*s, *cells) + steps_text(*s, *cells));
    r
}

/// The lines on the GPUs, where there are several.
fn gpus(list: &Vec<GpuSnapshot>, cells: &Vec<GpuCells>) -> (r: Vec<String>)
    requires
        cells@.len() == list@.len(),
    ensures
        text::texts(r@) == gpus_text(list@, cells@),
{
    broadcast use text::group_texts;

    let mut r: Vec<String> = Vec::new();
    if list.len() <= 1 {
        assert(text::texts(r@) =~= gpus_text(list@, cells@));
        return r;
    }
    r.push("  Per-GPU breakdown:".to_owned());
    let ghost head = seq!["  Per-GPU breakdown:"@];
    let mut i: usize = 0;
    assert(text::texts(r@) =~= head + gpu_rows(list@, cells@, 0));
    while i < list.len()
        invariant
            i <= list@.len(),
            cells@.len() == list@.len(),
            text::texts(r@) == head + gpu_rows(list@, cells@, i as nat),
        decreases list.len() - i,
    {
        broadcast use text::group_texts;

        let g = &list[i];
        let mut line = "    GPU".to_owned();
        line.append(text::decimal_text(g.gpu_index as u64).as_str());
        line.append(": SM ");
        line.append(cells[i].sm_utilization.as_str());
        line.append("%  VRAM ");
        line.append(g.vram_used_mib.text().as_str());
        line.append("  Temp ");
        line.append(cells[i].temperature.as_str());
        line.append("°C");
        r.push(line);
        assert(text::texts(r@) =~= head + gpu_rows(list@, cells@, (i + 1) as nat));
        i = i + 1;
    }
    r.push("".to_owned());
    assert(text::texts(r@) =~= gpus_text(list@, cells@));
    r
}

/// The lines at the bottom.
fn verdict(s: &SessionSnapshot, cells: &SnapshotCells) -> (r: Vec<String>)
    ensures
        text::texts(r@) == verdict_text(*s, *cells),
{
    broadcast use text::group_texts;

    let mut bottleneck = "  Primary bottleneck : ".to_owned();
    bottleneck.append(name_of(s.bottleneck));
    let mut action = "  Recommendation     : ".to_owned();
    action.append(s.recommendation.action);
    let mut r: Vec<String> = Vec::new();
    r.push(bottleneck);
    r.push(action);
    r.push("".to_owned());
    if s.cost_impact.is_some() {
        let mut waste = "  Waste per hour   : $".to_owned();
        waste.append(cells.waste_per_hour.as_str());
        waste.append("  (at $");
        waste.append(cells.cost_per_hour.as_str());
        waste.append("/hr)");
        r.push(waste);
        r.push("".to_owned());
    }
    r.push("═══════════════════════════════════════════════════".to_owned());
    assert(text::texts(r@) =~= verdict_text(*s, *cells));
    r
}

/// The summary.
pub open spec fn summary_text(s: SessionSnapshot, cells: SnapshotCells) -> Seq<Seq<char>> {
    head_text(s) + usage_text(s, cells) + (warnings_text(s, cells) + steps_text(s, cells))
        + gpus_text(s.per_gpu@, cells.per_gpu@) + verdict_text(s, cells)
}

impl SummaryReport {
    /// The summary, line by line.
    pub fn print(snapshot: &SessionSnapshot, cells: &SnapshotCells) -> (r: Vec<String>)
        requires
            cells.per_gpu@.len() == snapshot.per_gpu@.len(),
        ensures
            text::texts(r@) == summary_text(*snapshot, *cells),
    {
        let mut r = head(snapshot);
        text::extend(&mut r, usage(snapshot, cells));
        text::extend(&mut r, warnings(snapshot, cells));
        text::extend(&mut r, gpus(&snapshot.per_gpu, &cells.per_gpu));
        text::extend(&mut r, verdict(snapshot, cells));
        r
    }
}

/// Bottlenecks go by different names.
pub proof fn law_bottlenecks_have_names(a: Bottleneck, b: Bottleneck)
    ensures
        bottleneck_name(Bottleneck::DataLoader) == "DataLoader"@,
        bottleneck_name(Bottleneck::CudaSync) == "CudaSync"@,
        bottleneck_name(Bottleneck::MemoryFragmentation) == "MemoryFragmentation"@,
        bottleneck_name(Bottleneck::ThermalThrottle) == "ThermalThrottle"@,
        bottleneck_name(Bottleneck::ClockUnderspeed) == "ClockUnderspeed"@,
        bottleneck_name(Bottleneck::BelowTargetMfu) == "BelowTargetMfu"@,
        bottleneck_name(Bottleneck::NoBottleneck) == "None"@,
        bottleneck_name(a) == bottleneck_name(b) <==> a == b,
{
    reveal_strlit("DataLoader");
    reveal_strlit("CudaSync");
    reveal_strlit("MemoryFragmentation");
    reveal_strlit("ThermalThrottle");
    reveal_strlit("ClockUnderspeed");
    reveal_strlit("BelowTargetMfu");
    reveal_strlit("None");
    assert(bottleneck_name(a)[0] == bottleneck_name(b)[0] && bottleneck_name(a)[1]
        == bottleneck_name(b)[1] ==> a == b);
}

/// The head tells the GPU, the duration and the steps, after a warning where there was no
/// NVML.
pub proof fn law_heads_tell_the_session(s: SessionSnapshot)
    ensures
        s.nvml_available ==> head_text(s).len() == 8,
        !s.nvml_available ==> head_text(s).len() == 11 && head_text(s)[4]
            == "  ⚠  NVML unavailable — GPU metrics were not collected."@,
        head_text(s)[head_text(s).len() - 4] == "  GPU              : "@ + s.gpu_name@,
        head_text(s)[head_text(s).len() - 3] == "  Duration         : "@ + output::clock(
            (s.elapsed_ms / 1000) as nat,
        ),
        head_text(s)[head_text(s).len() - 2] == "  Steps observed   : "@ + text::decimal(
            s.steps_observed as nat,
        ),
{
}

/// The MFU, its peak, its percentiles and the memory are told exactly where NVML was there;
/// the temperature always is.
pub proof fn law_usage_is_told(s: SessionSnapshot, cells: SnapshotCells)
    ensures
        ({
            let t = usage_text(s, cells);
            &&& t[t.len() - 2] == "  Temperature      : "@ + cells.temperature@ + "°C"@
            &&& !s.nvml_available ==> t.len() == 2
            &&& s.nvml_available ==> t[0] == "  MFU              : "@ + cells.mfu@
                + "%  (target: >45%)"@
            &&& s.nvml_available ==> t[1] == "  Peak MFU         : "@ + cells.peak_mfu@ + "%"@
            &&& s.nvml_available && s.mfu_percentiles is None ==> t.len() == 5
            &&& s.nvml_available && s.mfu_percentiles is Some ==> t.len() == 6 && t[2]
                == "  MFU p50/p75/p95  : "@ + output::tenths(
                s.mfu_percentiles->0.p50_tenths as nat,
            ) + "% / "@ + output::tenths(s.mfu_percentiles->0.p75_tenths as nat) + "% / "@
                + output::tenths(s.mfu_percentiles->0.p95_tenths as nat) + "%"@
            &&& s.nvml_available ==> t[t.len() - 3] == "  Peak VRAM        : "@
                + units::mib_text(s.peak_vram_mib.0 as nat) + " / "@ + units::mib_text(
                s.vram_total_mib.0 as nat,
            )
        }),
{
}

/// A run of under thirty seconds, diverging GPUs and growing memory are warned of, each
/// where it holds and nowhere else.
pub proof fn law_warnings_are_given(s: SessionSnapshot, cells: SnapshotCells)
    ensures
        warnings_text(s, cells).len() == (if s.elapsed_ms < 30_000 {
            2int
        } else {
            0
        }) + (if s.mfu_divergent {
            3int
        } else {
            0
        }) + (if s.vram_growing {
            3int
        } else {
            0
        }),
        s.elapsed_ms < 30_000 ==> warnings_text(s, cells)[0]
            == "  ⚠  Run was under 30 seconds — MFU estimate is approximate."@,
        s.mfu_divergent ==> warnings_text(s, cells).contains(
            "  ⚠  GPU MFU divergence: "@ + cells.divergence@ + " ppt spread across devices."@,
        ),
        s.vram_growing ==> warnings_text(s, cells).contains(
            "  ⚠  VRAM was growing every tick — possible memory leak in training loop."@,
        ),
{
    let t = warnings_text(s, cells);
    let a: int = if s.elapsed_ms < 30_000 {
        2
    } else {
        0
    };
    if s.mfu_divergent {
        assert(t[a] == "  ⚠  GPU MFU divergence: "@ + cells.divergence@
            + " ppt spread across devices."@);
    }
    let b: int = if s.mfu_divergent {
        a + 3
    } else {
        a
    };
    if s.vram_growing {
        assert(t[b]
            == "  ⚠  VRAM was growing every tick — possible memory leak in training loop."@);
    }
}

/// Step times are told exactly where a mean is known, and that they are erratic where they
/// are.
pub proof fn law_step_times_are_told(s: SessionSnapshot, cells: SnapshotCells)
    ensures
        !F32::of(0).below(s.step_time_ms_mean) ==> steps_text(s, cells).len() == 0,
        F32::of(0).below(s.step_time_ms_mean) && !s.step_time_erratic ==> steps_text(s, cells)[0]
            == "  Step time (mean)   : "@ + cells.step_time@ + " ms"@,
        F32::of(0).below(s.step_time_ms_mean) && s.step_time_erratic ==> steps_text(s, cells)[0]
            == "  Step time (mean)   : "@ + cells.step_time@ + " ms"@
            + "  ← ERRATIC (CV > 0.3 — check data loader or memory allocation)"@,
{
    reveal_strlit("");
    let t = "  Step time (mean)   : "@ + cells.step_time@ + " ms"@;
    assert(t + ""@ =~= t);
}

/// Two GPUs or more are told one by one.
pub proof fn law_several_gpus_are_told(gpus: Seq<GpuSnapshot>, cells: Seq<GpuCells>, i: int)
    ensures
        gpus.len() <= 1 ==> gpus_text(gpus, cells).len() == 0,
        gpus.len() > 1 ==> gpus_text(gpus, cells).len() == gpus.len() + 2,
        gpus.len() > 1 && 0 <= i < gpus.len() ==> gpus_text(gpus, cells)[1 + i] == "    GPU"@
            + text::decimal(gpus[i].gpu_index as nat) + ": SM "@ + cells[i].sm_utilization@
            + "%  VRAM "@ + units::mib_text(gpus[i].vram_used_mib.0 as nat) + "  Temp "@
            + cells[i].temperature@ + "°C"@,
{
}

/// The end tells the bottleneck and what to do, and what is wasted where a price is known.
pub proof fn law_ends_tell_the_bottleneck(s: SessionSnapshot, cells: SnapshotCells)
    ensures
        verdict_text(s, cells)[0] == "  Primary bottleneck : "@ + bottleneck_name(s.bottleneck),
        verdict_text(s, cells)[1] == "  Recommendation     : "@ + s.recommendation.action@,
        s.cost_impact is None ==> verdict_text(s, cells).len() == 4,
        s.cost_impact is Some ==> verdict_text(s, cells).len() == 6 && verdict_text(s, cells)[3]
            == "  Waste per hour   : $"@ + cells.waste_per_hour@ + "  (at $"@ + cells.cost_per_hour@
            + "/hr)"@,
{
}

/// The summary tells the session, its usage, the warnings, the GPUs and the bottleneck, in
/// this order.
pub proof fn law_summaries_are_in_order(s: SessionSnapshot, cells: SnapshotCells)
    ensures
        ({
            let t = summary_text(s, cells);
            let a = head_text(s).len() as int;
            let b = a + usage_text(s, cells).len();
            let c = b + warnings_text(s, cells).len();
            let d = c + steps_text(s, cells).len();
            let e = d + gpus_text(s.per_gpu@, cells.per_gpu@).len();
            &&& t.take(a) == head_text(s)
            &&& t.subrange(a, b) == usage_text(s, cells)
            &&& t.subrange(b, c) == warnings_text(s, cells)
            &&& t.subrange(c, d) == steps_text(s, cells)
            &&& t.subrange(d, e) == gpus_text(s.per_gpu@, cells.per_gpu@)
            &&& t.skip(e) == verdict_text(s, cells)
        }),
{
    lemma_in_order(
        head_text(s),
        usage_text(s, cells),
        warnings_text(s, cells),
        steps_text(s, cells),
        gpus_text(s.per_gpu@, cells.per_gpu@),
        verdict_text(s, cells),
    );
}

proof fn lemma_in_order(
    h: Seq<Seq<char>>,
    u: Seq<Seq<char>>,
    w: Seq<Seq<char>>,
    p: Seq<Seq<char>>,
    g: Seq<Seq<char>>,
    v: Seq<Seq<char>>,
)
    ensures
        ({
            let t = h + u + (w + p) + g + v;
            let a = h.len() as int;
            let b = a + u.len();
            let c = b + w.len();
            let d = c + p.len();
            let e = d + g.len();
            &&& t.take(a) == h
            &&& t.subrange(a, b) == u
            &&& t.subrange(b, c) == w
            &&& t.subrange(c, d) == p
            &&& t.subrange(d, e) == g
            &&& t.skip(e) == v
        }),
{
    let t = h + u + (w + p) + g + v;
    let a = h.len() as int;
    let b = a + u.len();
    let c = b + w.len();
    let d = c + p.len();
    let e = d + g.len();
    assert(t.take(a) =~= h);
    assert(t.subrange(a, b) =~= u);
    assert(t.subrange(b, c) =~= w);
    assert(t.subrange(c, d) =~= p);
    assert(t.subrange(d, e) =~= g);
    assert(t.skip(e) =~= v);
}

} // verus!
