//! The texts of the live dashboard.
use vstd::prelude::*;

use crate::analysis::bottleneck::FORTY_FIVE;
use crate::float::F32;
use crate::metrics::mfu::{Confidence, MfuEstimate};
use crate::metrics::units;
use crate::output;
use crate::output::{BreakdownCells, GpuCells, ShareCells, SnapshotCells};
use crate::session::state::{GpuSnapshot, SessionSnapshot};
use crate::text;

verus! {

broadcast use vstd::string::group_string_axioms;

/// A colour of the dashboard.
#[derive(Clone, Copy, Debug, PartialEq, Eq, Structural)]
pub enum Color {
    Green,
    Yellow,
    Red,
    Blue,
    Magenta,
    Gray,
    DarkGray,
}

/// A line in a colour.
#[derive(Debug)]
pub struct Styled {
    pub text: String,
    pub color: Color,
    pub bold: bool,
}

/// What a [`Styled`] line says.
pub ghost struct StyledView {
    pub text: Seq<char>,
    pub color: Color,
    pub bold: bool,
}

impl View for Styled {
    type V = StyledView;

    open spec fn view(&self) -> StyledView {
        StyledView { text: self.text@, color: self.color, bold: self.bold }
    }
}

/// What styled lines say.
pub open spec fn styled_view(v: Seq<Styled>) -> Seq<StyledView> {
    v.map_values(|s: Styled| s@)
}

/// The seconds for which a session is warming up.
pub const WARMUP_SECS: u64 = 30;

/// Whether a session is still warming up.
pub open spec fn warming_up(s: SessionSnapshot) -> bool {
    s.elapsed_ms / 1000 < WARMUP_SECS
}

/// The rows that status badges take: one where there is any.
pub fn status_rows(s: &SessionSnapshot) -> (r: u16)
    ensures
        r == if status_text(*s, Seq::empty()).len() > 0 {
            1u16
        } else {
            0u16
        },
{
    if !s.nvml_available || s.mfu_divergent || s.vram_growing || s.elapsed_ms / 1000 < WARMUP_SECS {
        1
    } else {
        0
    }
}

/// The rows that a table of so many GPUs takes.
pub open spec fn gpu_table_rows(gpus: nat) -> nat {
    if gpus > 1 {
        gpus + 2
    } else {
        0
    }
}

/// The rows that the per-GPU table takes: a frame and one for each GPU, where there
/// are several.
pub fn multi_gpu_rows(s: &SessionSnapshot) -> (r: u16)
    requires
        s.per_gpu@.len() + 2 <= u16::MAX,
    ensures
        r == gpu_table_rows(s.per_gpu@.len()),
{
    if s.per_gpu.len() > 1 {
        s.per_gpu.len() as u16 + 2
    } else {
        0
    }
}

/// The header.
pub open spec fn header(s: SessionSnapshot, cells: SnapshotCells) -> Seq<char> {
    "GPU: "@ + s.gpu_name@ + (if s.cost_impact is Some {
        "  •  $"@ + cells.cost_per_hour@ + "/hr"@
    } else {
        Seq::empty()
    }) + "  •  Elapsed: "@ + output::clock(s.elapsed_ms as nat / 1000) + (if warming_up(s) {
        "  (warming up)"@
    } else {
        ""@
    })
}

/// The header: the GPU, its price and the elapsed time.
pub fn header_text(s: &SessionSnapshot, cells: &SnapshotCells) -> (r: String)
    ensures
        r@ == header(*s, *cells),
{
    let mut cost = String::new();
    if s.cost_impact.is_some() {
        let mut c = "  •  $".to_owned();
        c.append(cells.cost_per_hour.as_str());
        c.append("/hr");
        cost = c;
    }
    let mut r = "GPU: ".to_owned();
    r.append(s.gpu_name.as_str());
    r.append(cost.as_str());
    r.append("  •  Elapsed: ");
    r.append(output::clock_text(s.elapsed_ms / 1000).as_str());
    r.append(
        if s.elapsed_ms / 1000 < WARMUP_SECS {
            "  (warming up)"
        } else {
            ""
        },
    );
    r
}

/// The status badges.
pub open spec fn status_text(s: SessionSnapshot, divergence: Seq<char>) -> Seq<StyledView> {
    (if !s.nvml_available {
        seq![
            StyledView {
                text:
                    "  ⚠  NVML unavailable — GPU metrics disabled (non-NVIDIA GPU or missing driver)"@,
                color: Color::Yellow,
                bold: true,
            },
        ]
    } else {
        Seq::empty()
    }) + (if s.mfu_divergent {
        seq![
            StyledView {
                text: "  ⚠  GPU MFU divergence detected: "@ + divergence
                    + " ppt spread across devices"@,
                color: Color::Red,
                bold: true,
            },
        ]
    } else {
        Seq::empty()
    }) + (if s.vram_growing {
        seq![
            StyledView {
                text: "  ⚠  VRAM growing every tick — possible memory leak in training loop"@,
                color: Color::Red,
                bold: true,
            },
        ]
    } else {
        Seq::empty()
    }) + (if warming_up(s) {
        seq![
            StyledView {
                text:
                    "  ℹ  Warming up — MFU estimate is approximate until 30 s of data are collected"@,
                color: Color::DarkGray,
                bold: false,
            },
        ]
    } else {
        Seq::empty()
    })
}

/// The status badges: what limits or disturbs the measurement.
pub fn status_lines(s: &SessionSnapshot, cells: &SnapshotCells) -> (r: Vec<Styled>)
    ensures
        styled_view(r@) == status_text(*s, cells.divergence@),
{
    let mut r: Vec<Styled> = Vec::new();
    if !s.nvml_available {
        r.push(
            Styled {
                text:
                    "  ⚠  NVML unavailable — GPU metrics disabled (non-NVIDIA GPU or missing driver)".to_owned(),
                color: Color::Yellow,
                bold: true,
            },
        );
    }
    if s.mfu_divergent {
        let mut text = "  ⚠  GPU MFU divergence detected: ".to_owned();
        text.append(cells.divergence.as_str());
        text.append(" ppt spread across devices");
        r.push(Styled { text, color: Color::Red, bold: true });
    }
    if s.vram_growing {
        r.push(
            Styled {
                text: "  ⚠  VRAM growing every tick — possible memory leak in training loop".to_owned(),
                color: Color::Red,
                bold: true,
            },
        );
    }
    if s.elapsed_ms / 1000 < WARMUP_SECS {
        r.push(
            Styled {
                text:
                    "  ℹ  Warming up — MFU estimate is approximate until 30 s of data are collected".to_owned(),
                color: Color::DarkGray,
                bold: false,
            },
        );
    }
    assert(styled_view(r@) =~= status_text(*s, cells.divergence@));
    r
}

/// The bits of 25 in single precision.
pub const TWENTY_FIVE: u32 = 0x41c8_0000;

/// The colour for an MFU: green from 45% on, yellow from 25% on.
pub open spec fn color_for(mfu: F32) -> Color {
    if !mfu.not_a_number() && !mfu.below(F32::of(FORTY_FIVE)) {
        Color::Green
    } else if !mfu.not_a_number() && !mfu.below(F32::of(TWENTY_FIVE)) {
        Color::Yellow
    } else {
        Color::Red
    }
}

/// The colour of the gauge.
pub fn gauge_color(mfu: F32) -> (r: Color)
    ensures
        r == color_for(mfu),
{
    let low = F32::of(TWENTY_FIVE);
    let high = F32::of(FORTY_FIVE);
    let number = mfu.lt(high) || mfu.gt(low);
    if number && !mfu.lt(high) {
        Color::Green
    } else if number && !mfu.lt(low) {
        Color::Yellow
    } else {
        Color::Red
    }
}

/// The label of the gauge.
pub open spec fn gauge(mfu: MfuEstimate, cells: SnapshotCells) -> Seq<char> {
    "MFU: "@ + cells.mfu@ + "%"@ + (if mfu.confidence == Confidence::Low {
        " (approx)"@
    } else {
        ""@
    }) + "  •  "@ + cells.actual_tflops@ + " / "@ + cells.peak_tflops@ + " TFLOPS  (target >45%)"@
}

/// The label of the gauge.
pub fn gauge_label(mfu: &MfuEstimate, cells: &SnapshotCells) -> (r: String)
    ensures
        r@ == gauge(*mfu, *cells),
{
    let mut r = "MFU: ".to_owned();
    r.append(cells.mfu.as_str());
    r.append("%");
    r.append(
        match mfu.confidence {
            Confidence::Low => " (approx)",
            Confidence::High => "",
        },
    );
    r.append("  •  ");
    r.append(cells.actual_tflops.as_str());
    r.append(" / ");
    r.append(cells.peak_tflops.as_str());
    r.append(" TFLOPS  (target >45%)");
    r
}

/// The row of percentiles.
pub open spec fn percentiles(s: SessionSnapshot, cells: SnapshotCells) -> Seq<char> {
    match s.mfu_percentiles {
        Some(p) => "  p50: "@ + output::tenths(p.p50_tenths as nat) + "%   p75: "@ + output::tenths(
            p.p75_tenths as nat,
        ) + "%   p95: "@ + output::tenths(p.p95_tenths as nat) + "%   peak: "@ + cells.peak_mfu@
            + "%"@,
        None => "  MFU percentiles: collecting samples…"@,
    }
}

/// The row of percentiles, shown once enough samples have been collected.
pub fn percentile_text(s: &SessionSnapshot, cells: &SnapshotCells) -> (r: String)
    ensures
        r@ == percentiles(*s, *cells),
{
    match s.mfu_percentiles {
        Some(p) => {
            let mut r = "  p50: ".to_owned();
            r.append(output::tenths_text(p.p50_tenths).as_str());
            r.append("%   p75: ");
            r.append(output::tenths_text(p.p75_tenths).as_str());
            r.append("%   p95: ");
            r.append(output::tenths_text(p.p95_tenths).as_str());
            r.append("%   peak: ");
            r.append(cells.peak_mfu.as_str());
            r.append("%");
            r
        },
        None => "  MFU percentiles: collecting samples…".to_owned(),
    }
}

/// The parts of a bar.
pub const BAR_WIDTH: usize = 30;

/// A share of the step time as a bar.
pub open spec fn bar(label: Seq<char>, cells: ShareCells) -> Seq<char> {
    "  "@ + label + "  "@ + text::repeated('█', cells.filled as nat) + text::repeated(
        '░',
        (BAR_WIDTH - cells.filled) as nat,
    ) + "  "@ + text::right(cells.percent@, 5) + "%"@
}

/// A share of the step time as a bar.
pub fn breakdown_line(label: &str, cells: &ShareCells, color: Color) -> (r: Styled)
    requires
        cells.filled <= BAR_WIDTH,
    ensures
        r@ == (StyledView { text: bar(label@, *cells), color, bold: true }),
{
    let mut text = "  ".to_owned();
    text.append(label);
    text.append("  ");
    text.append(text::repeat_char('█', cells.filled).as_str());
    text.append(text::repeat_char('░', BAR_WIDTH - cells.filled).as_str());
    text.append("  ");
    text.append(text::pad_left(cells.percent.as_str(), 5).as_str());
    text.append("%");
    Styled { text, color, bold: true }
}

/// Whether every bar has room for its share.
pub open spec fn bars_fit(cells: BreakdownCells) -> bool {
    &&& cells.forward_backward.filled <= BAR_WIDTH
    &&& cells.data_loader.filled <= BAR_WIDTH
    &&& cells.cuda_sync.filled <= BAR_WIDTH
    &&& cells.optimizer.filled <= BAR_WIDTH
    &&& cells.memory_alloc.filled <= BAR_WIDTH
}

/// The breakdown of the step time.
pub open spec fn bars(cells: BreakdownCells) -> Seq<StyledView> {
    seq![
        StyledView {
            text: bar("Forward/backward"@, cells.forward_backward),
            color: Color::Green,
            bold: true,
        },
        StyledView {
            text: bar("Data loader wait"@, cells.data_loader),
            color: Color::Yellow,
            bold: true,
        },
        StyledView {
            text: bar("CUDA sync        "@, cells.cuda_sync),
            color: Color::Red,
            bold: true,
        },
        StyledView {
            text: bar("Optimizer step   "@, cells.optimizer),
            color: Color::Blue,
            bold: true,
        },
        StyledView {
            text: bar("Memory alloc     "@, cells.memory_alloc),
            color: Color::Magenta,
            bold: true,
        },
    ]
}

/// The breakdown of the step time.
pub fn breakdown_lines(cells: &BreakdownCells) -> (r: Vec<Styled>)
    requires
        bars_fit(*cells),
    ensures
        styled_view(r@) == bars(*cells),
{
    let mut r: Vec<Styled> = Vec::new();
    r.push(breakdown_line("Forward/backward", &cells.forward_backward, Color::Green));
    r.push(breakdown_line("Data loader wait", &cells.data_loader, Color::Yellow));
    r.push(breakdown_line("CUDA sync        ", &cells.cuda_sync, Color::Red));
    r.push(breakdown_line("Optimizer step   ", &cells.optimizer, Color::Blue));
    r.push(breakdown_line("Memory alloc     ", &cells.memory_alloc, Color::Magenta));
    r
}

/// Every bar is as wide as every other.
pub proof fn law_bars_are_equally_wide(filled: usize)
    requires
        filled <= BAR_WIDTH,
    ensures
        (text::repeated('█', filled as nat) + text::repeated(
            '░',
            (BAR_WIDTH - filled) as nat,
        )).len() == BAR_WIDTH,
{
}

/// The state of the hardware.
pub open spec fn hardware(s: SessionSnapshot, cells: SnapshotCells) -> StyledView {
    StyledView {
        text: "  Temp: "@ + cells.temperature@ + "°C  •  Power: "@ + cells.power_draw@ + "W / "@
            + cells.power_limit@ + "W  •  Throttle: "@ + (if s.throttle_thermal {
            "⚠ THERMAL THROTTLE"@
        } else {
            "OK"@
        }) + "  •  VRAM: "@ + units::mib_text(s.vram_used_mib.0 as nat) + " / "@ + units::mib_text(
            s.vram_total_mib.0 as nat,
        ) + (if F32::of(0).below(s.step_time_ms_mean) {
            "  •  Step: "@ + cells.step_time@ + " ms avg"@ + (if s.step_time_erratic {
                "  •  Steps: ERRATIC"@
            } else {
                ""@
            })
        } else {
            Seq::empty()
        }),
        color: if s.throttle_thermal {
            Color::Red
        } else {
            Color::Gray
        },
        bold: s.throttle_thermal,
    }
}

/// The state of the hardware: temperature, power, throttling, memory and step times.
pub fn hardware_line(s: &SessionSnapshot, cells: &SnapshotCells) -> (r: Styled)
    ensures
        r@ == hardware(*s, *cells),
{
    let mut steps = String::new();
    if s.step_time_ms_mean.gt(F32::of(0)) {
        let mut t = "  •  Step: ".to_owned();
        t.append(cells.step_time.as_str());
        t.append(" ms avg");
        t.append(
            if s.step_time_erratic {
                "  •  Steps: ERRATIC"
            } else {
                ""
            },
        );
        steps = t;
    }
    let mut text = "  Temp: ".to_owned();
    text.append(cells.temperature.as_str());
    text.append("°C  •  Power: ");
    text.append(cells.power_draw.as_str());
    text.append("W / ");
    text.append(cells.power_limit.as_str());
    text.append("W  •  Throttle: ");
    text.append(
        if s.throttle_thermal {
            "⚠ THERMAL THROTTLE"
        } else {
            "OK"
        },
    );
    text.append("  •  VRAM: ");
    text.append(s.vram_used_mib.text().as_str());
    text.append(" / ");
    text.append(s.vram_total_mib.text().as_str());
    text.append(steps.as_str());
    let color = if s.throttle_thermal {
        Color::Red
    } else {
        Color::Gray
    };
    Styled { text, color, bold: s.throttle_thermal }
}

/// The row of a GPU.
pub open spec fn gpu_row(g: GpuSnapshot, cells: GpuCells, divergent: bool) -> Seq<char> {
    "  GPU"@ + text::left(text::decimal(g.gpu_index as nat), 3) + " "@ + text::right(
        cells.sm_utilization@,
        6,
    ) + "%"@ + (if divergent {
        " ⚠"@
    } else {
        ""@
    }) + "   "@ + units::mib_text(g.vram_used_mib.0 as nat) + "   "@ + cells.temperature@ + "°C"@
}

/// The rows of the first `n` GPUs.
pub open spec fn gpu_rows(s: SessionSnapshot, cells: Seq<GpuCells>, n: nat) -> Seq<Seq<char>> {
    Seq::new(n, |i: int| gpu_row(s.per_gpu@[i], cells[i], s.mfu_divergent))
}

/// The per-GPU table: its head and a row for each GPU.
pub fn per_gpu_lines(s: &SessionSnapshot, cells: &Vec<GpuCells>) -> (r: Vec<String>)
    requires
        cells@.len() == s.per_gpu@.len(),
    ensures
        text::texts(r@) == seq!["  GPU   SM util   VRAM used   Temp"@] + gpu_rows(
            *s,
            cells@,
            s.per_gpu@.len(),
        ),
{
    broadcast use text::group_texts;

    let mut r: Vec<String> = Vec::new();
    r.push("  GPU   SM util   VRAM used   Temp".to_owned());
    let ghost head = seq!["  GPU   SM util   VRAM used   Temp"@];
    let mut i: usize = 0;
    assert(text::texts(r@) =~= head + gpu_rows(*s, cells@, 0));
    while i < s.per_gpu.len()
        invariant
            i <= s.per_gpu@.len(),
            cells@.len() == s.per_gpu@.len(),
            text::texts(r@) == head + gpu_rows(*s, cells@, i as nat),
        decreases s.per_gpu.len() - i,
    {
        broadcast use text::group_texts;

        let g = &s.per_gpu[i];
        let index = text::decimal_text(g.gpu_index as u64);
        let mut line = "  GPU".to_owned();
        line.append(text::pad_right(index.as_str(), 3).as_str());
        line.append(" ");
        line.append(text::pad_left(cells[i].sm_utilization.as_str(), 6).as_str());
        line.append("%");
        line.append(
            if s.mfu_divergent {
                " ⚠"
            } else {
                ""
            },
        );
        line.append("   ");
        line.append(g.vram_used_mib.text().as_str());
        line.append("   ");
        line.append(cells[i].temperature.as_str());
        line.append("°C");
        r.push(line);
        assert(text::texts(r@) =~= head + gpu_rows(*s, cells@, (i + 1) as nat));
        i = i + 1;
    }
    r
}

/// The recommendation, with the gain to expect where there is one.
pub open spec fn advice(s: SessionSnapshot, cells: SnapshotCells) -> Seq<char> {
    if F32::of(0).below(s.recommendation.expected_mfu_gain_ppt) {
        "  [+"@ + cells.expected_gain@ + " ppt MFU expected]\n\n  "@ + s.recommendation.action@
    } else {
        "  "@ + s.recommendation.action@
    }
}

/// The recommendation, with the gain to expect where there is one.
pub fn recommendation_text(s: &SessionSnapshot, cells: &SnapshotCells) -> (r: String)
    ensures
        r@ == advice(*s, *cells),
{
    if s.recommendation.expected_mfu_gain_ppt.gt(F32::of(0)) {
        let mut r = "  [+".to_owned();
        r.append(cells.expected_gain.as_str());
        r.append(" ppt MFU expected]\n\n  ");
        r.append(s.recommendation.action);
        r
    } else {
        let mut r = "  ".to_owned();
        r.append(s.recommendation.action);
        r
    }
}

/// The title of the recommendation.
pub fn recommendation_title(s: &SessionSnapshot) -> (r: String)
    ensures
        r@ == " Recommendation: "@ + s.recommendation.title@ + " "@,
{
    let mut r = " Recommendation: ".to_owned();
    r.append(s.recommendation.title);
    r.append(" ");
    r
}

/// A session warms up for its first thirty seconds.
pub proof fn law_sessions_warm_up_for_thirty_seconds(s: SessionSnapshot)
    ensures
        warming_up(s) <==> s.elapsed_ms < 30_000,
{
}

/// The gauge is green from 45 percent on, yellow from 25 percent on, and else red.
pub proof fn law_gauges_are_green_from_the_target_on(mfu: F32)
    ensures
        color_for(mfu) == Color::Green <==> F32::of(0x4234_0000).at_most(mfu),
        color_for(mfu) == Color::Yellow <==> F32::of(0x41c8_0000).at_most(mfu) && mfu.below(
            F32::of(0x4234_0000),
        ),
        color_for(mfu) == Color::Red <==> mfu.below(F32::of(0x41c8_0000)) || mfu.not_a_number(),
{
}

/// There is a badge for each thing that limits or disturbs the measurement, and for nothing
/// else; the two on the training loop are red.
pub proof fn law_badges_tell_what_disturbs(s: SessionSnapshot, divergence: Seq<char>)
    ensures
        status_text(s, divergence).len() == (if s.nvml_available {
            0int
        } else {
            1
        }) + (if s.mfu_divergent {
            1int
        } else {
            0
        }) + (if s.vram_growing {
            1int
        } else {
            0
        }) + (if s.elapsed_ms < 30_000 {
            1int
        } else {
            0
        }),
        !s.nvml_available ==> status_text(s, divergence)[0].color == Color::Yellow,
        s.mfu_divergent ==> status_text(s, divergence).contains(
            StyledView {
                text: "  ⚠  GPU MFU divergence detected: "@ + divergence
                    + " ppt spread across devices"@,
                color: Color::Red,
                bold: true,
            },
        ),
        s.vram_growing ==> status_text(s, divergence).contains(
            StyledView {
                text: "  ⚠  VRAM growing every tick — possible memory leak in training loop"@,
                color: Color::Red,
                bold: true,
            },
        ),
        s.elapsed_ms < 30_000 ==> status_text(s, divergence).last().color == Color::DarkGray
            && !status_text(s, divergence).last().bold && status_text(s, divergence).last().text
            == "  ℹ  Warming up — MFU estimate is approximate until 30 s of data are collected"@,
{
    let all = status_text(s, divergence);
    let n: int = if s.nvml_available {
        0
    } else {
        1
    };
    if s.mfu_divergent {
        assert(all[n].text == "  ⚠  GPU MFU divergence detected: "@ + divergence
            + " ppt spread across devices"@);
    }
    let m: int = if s.mfu_divergent {
        n + 1
    } else {
        n
    };
    if s.vram_growing {
        assert(all[m].text
            == "  ⚠  VRAM growing every tick — possible memory leak in training loop"@);
    }
}

/// The header names the GPU first and gives the elapsed time; a price is shown exactly
/// where one is known, and that the session warms up while it does.
pub proof fn law_headers(s: SessionSnapshot, cells: SnapshotCells)
    ensures
        s.cost_impact is None && s.elapsed_ms >= 30_000 ==> header(s, cells) == "GPU: "@
            + s.gpu_name@ + "  •  Elapsed: "@ + output::clock((s.elapsed_ms / 1000) as nat),
        s.cost_impact is None && s.elapsed_ms < 30_000 ==> header(s, cells) == "GPU: "@
            + s.gpu_name@ + "  •  Elapsed: "@ + output::clock((s.elapsed_ms / 1000) as nat)
            + "  (warming up)"@,
        s.cost_impact is Some && s.elapsed_ms >= 30_000 ==> header(s, cells) == "GPU: "@
            + s.gpu_name@ + "  •  $"@ + cells.cost_per_hour@ + "/hr  •  Elapsed: "@ + output::clock(
            (s.elapsed_ms / 1000) as nat,
        ),
{
    reveal_strlit("");
    reveal_strlit("/hr");
    reveal_strlit("  •  Elapsed: ");
    reveal_strlit("/hr  •  Elapsed: ");
    let head = "GPU: "@ + s.gpu_name@;
    let time = output::clock((s.elapsed_ms / 1000) as nat);
    assert(head + Seq::<char>::empty() =~= head);
    assert(head + "  •  Elapsed: "@ + time + ""@ =~= head + "  •  Elapsed: "@ + time);
    let price = "  •  $"@ + cells.cost_per_hour@ + "/hr"@;
    assert("/hr"@ + "  •  Elapsed: "@ =~= "/hr  •  Elapsed: "@);
    assert(head + price + "  •  Elapsed: "@ + time + ""@ =~= head + "  •  $"@ + cells.cost_per_hour@
        + ("/hr"@ + "  •  Elapsed: "@) + time);
}

/// The gauge tells the MFU and the throughput against its peak; a low confidence is told.
pub proof fn law_gauges_tell_the_confidence(mfu: MfuEstimate, cells: SnapshotCells)
    ensures
        mfu.confidence is High ==> gauge(mfu, cells) == "MFU: "@ + cells.mfu@ + "%  •  "@
            + cells.actual_tflops@ + " / "@ + cells.peak_tflops@ + " TFLOPS  (target >45%)"@,
        mfu.confidence is Low ==> gauge(mfu, cells) == "MFU: "@ + cells.mfu@ + "% (approx)  •  "@
            + cells.actual_tflops@ + " / "@ + cells.peak_tflops@ + " TFLOPS  (target >45%)"@,
{
    reveal_strlit("");
    reveal_strlit("%");
    reveal_strlit("  •  ");
    reveal_strlit("%  •  ");
    reveal_strlit(" (approx)");
    reveal_strlit("% (approx)  •  ");
    let head = "MFU: "@ + cells.mfu@;
    assert("%"@ + ""@ + "  •  "@ =~= "%  •  "@);
    assert("%"@ + " (approx)"@ + "  •  "@ =~= "% (approx)  •  "@);
    assert(head + "%"@ + ""@ + "  •  "@ =~= head + ("%"@ + ""@ + "  •  "@));
    assert(head + "%"@ + " (approx)"@ + "  •  "@ =~= head + ("%"@ + " (approx)"@ + "  •  "@));
}

/// Percentiles are shown with one decimal, the median first and the peak last.
pub proof fn law_percentiles_are_shown_in_order(s: SessionSnapshot, cells: SnapshotCells)
    ensures
        s.mfu_percentiles is None ==> percentiles(s, cells)
            == "  MFU percentiles: collecting samples…"@,
        s.mfu_percentiles matches Some(p) ==> percentiles(s, cells) == "  p50: "@ + text::decimal(
            p.p50_tenths as nat / 10,
        ) + "."@ + text::decimal(p.p50_tenths as nat % 10) + "%   p75: "@ + text::decimal(
            p.p75_tenths as nat / 10,
        ) + "."@ + text::decimal(p.p75_tenths as nat % 10) + "%   p95: "@ + text::decimal(
            p.p95_tenths as nat / 10,
        ) + "."@ + text::decimal(p.p95_tenths as nat % 10) + "%   peak: "@ + cells.peak_mfu@
            + "%"@,
{
    if let Some(p) = s.mfu_percentiles {
        let a = text::decimal(p.p50_tenths as nat / 10);
        let b = text::decimal(p.p50_tenths as nat % 10);
        let c = text::decimal(p.p75_tenths as nat / 10);
        let d = text::decimal(p.p75_tenths as nat % 10);
        let e = text::decimal(p.p95_tenths as nat / 10);
        let f = text::decimal(p.p95_tenths as nat % 10);
        assert("  p50: "@ + (a + "."@ + b) + "%   p75: "@ + (c + "."@ + d) + "%   p95: "@ + (e + "."@
            + f) + "%   peak: "@ + cells.peak_mfu@ + "%"@ =~= "  p50: "@ + a + "."@ + b
            + "%   p75: "@ + c + "."@ + d + "%   p95: "@ + e + "."@ + f + "%   peak: "@
            + cells.peak_mfu@ + "%"@);
    }
}

/// A bar has thirty parts behind its label, as many of them full as its share fills, and
/// ends with the percentage.
pub proof fn law_bars_fill_from_the_left(label: Seq<char>, cells: ShareCells, i: int)
    requires
        cells.filled <= 30,
        0 <= i < 30,
    ensures
        bar(label, cells).len() == label.len() + 37 + (if cells.percent@.len() < 5 {
            5
        } else {
            cells.percent@.len()
        }),
        label == bar(label, cells).subrange(2, 2int + label.len()),
        bar(label, cells)[4 + label.len() + i] == (if i < cells.filled {
            '█'
        } else {
            '░'
        }),
        (cells.percent@ + "%"@).is_suffix_of(bar(label, cells)),
{
    reveal_strlit("  ");
    reveal_strlit("%");
    let b = bar(label, cells);
    text::law_fields_have_their_width(cells.percent@, 5);
    let r = text::right(cells.percent@, 5);
    assert(label =~= b.subrange(2, 2int + label.len()));
    let tail = cells.percent@ + "%"@;
    let n = b.len() - tail.len();
    assert forall|k: int| 0 <= k < tail.len() implies tail[k] == b[n + k] by {
        if k < cells.percent@.len() {
            let at = r.len() - cells.percent@.len() + k;
            assert(r.subrange(r.len() - cells.percent@.len(), r.len() as int)[k] == r[at]);
            assert(b[n + k] == r[at]);
        }
    }
    assert(tail =~= b.subrange(n, b.len() as int));
}

/// Thermal throttling is shouted, in bold red; step times are told where they are known.
pub proof fn law_throttling_is_shown(s: SessionSnapshot, cells: SnapshotCells)
    ensures
        s.throttle_thermal ==> hardware(s, cells).color == Color::Red && hardware(s, cells).bold,
        !s.throttle_thermal ==> hardware(s, cells).color == Color::Gray && !hardware(
            s,
            cells,
        ).bold,
        !s.throttle_thermal && !F32::of(0).below(s.step_time_ms_mean) ==> hardware(s, cells).text
            == "  Temp: "@ + cells.temperature@ + "°C  •  Power: "@ + cells.power_draw@ + "W / "@
            + cells.power_limit@ + "W  •  Throttle: OK  •  VRAM: "@ + units::mib_text(
            s.vram_used_mib.0 as nat,
        ) + " / "@ + units::mib_text(s.vram_total_mib.0 as nat),
        s.throttle_thermal && !F32::of(0).below(s.step_time_ms_mean) ==> hardware(s, cells).text
            == "  Temp: "@ + cells.temperature@ + "°C  •  Power: "@ + cells.power_draw@ + "W / "@
            + cells.power_limit@ + "W  •  Throttle: ⚠ THERMAL THROTTLE  •  VRAM: "@
            + units::mib_text(s.vram_used_mib.0 as nat) + " / "@ + units::mib_text(
            s.vram_total_mib.0 as nat,
        ),
        F32::of(0).below(s.step_time_ms_mean) && !s.step_time_erratic ==> ("  •  Step: "@
            + cells.step_time@ + " ms avg"@).is_suffix_of(hardware(s, cells).text),
        F32::of(0).below(s.step_time_ms_mean) && s.step_time_erratic ==> ("  •  Step: "@
            + cells.step_time@ + " ms avg  •  Steps: ERRATIC"@).is_suffix_of(
            hardware(s, cells).text,
        ),
{
    reveal_strlit("");
    reveal_strlit("OK");
    reveal_strlit("⚠ THERMAL THROTTLE");
    reveal_strlit("W  •  Throttle: ");
    reveal_strlit("  •  VRAM: ");
    reveal_strlit("W  •  Throttle: OK  •  VRAM: ");
    reveal_strlit("W  •  Throttle: ⚠ THERMAL THROTTLE  •  VRAM: ");
    reveal_strlit(" ms avg");
    reveal_strlit("  •  Steps: ERRATIC");
    reveal_strlit(" ms avg  •  Steps: ERRATIC");
    let head = "  Temp: "@ + cells.temperature@ + "°C  •  Power: "@ + cells.power_draw@ + "W / "@
        + cells.power_limit@;
    let used = units::mib_text(s.vram_used_mib.0 as nat);
    let total = units::mib_text(s.vram_total_mib.0 as nat);
    let state = if s.throttle_thermal {
        "⚠ THERMAL THROTTLE"@
    } else {
        "OK"@
    };
    let memory = head + "W  •  Throttle: "@ + state + "  •  VRAM: "@ + used + " / "@ + total;
    assert("W  •  Throttle: "@ + "OK"@ + "  •  VRAM: "@ =~= "W  •  Throttle: OK  •  VRAM: "@);
    assert("W  •  Throttle: "@ + "⚠ THERMAL THROTTLE"@ + "  •  VRAM: "@
        =~= "W  •  Throttle: ⚠ THERMAL THROTTLE  •  VRAM: "@);
    assert(memory =~= head + ("W  •  Throttle: "@ + state + "  •  VRAM: "@) + used + " / "@ + total);
    assert(memory + Seq::<char>::empty() =~= memory);
    let step = "  •  Step: "@ + cells.step_time@ + " ms avg"@;
    assert(step + ""@ =~= step);
    assert(" ms avg"@ + "  •  Steps: ERRATIC"@ =~= " ms avg  •  Steps: ERRATIC"@);
    assert(step + "  •  Steps: ERRATIC"@ =~= "  •  Step: "@ + cells.step_time@ + (" ms avg"@
        + "  •  Steps: ERRATIC"@));
    let end = if s.step_time_erratic {
        step + "  •  Steps: ERRATIC"@
    } else {
        step
    };
    let all = memory + end;
    assert(end =~= all.subrange(all.len() - end.len(), all.len() as int));
}

/// The row of a GPU begins with its index and ends with its memory and temperature; where
/// the GPUs diverge it is marked.
pub proof fn law_gpu_rows(s: SessionSnapshot, cells: Seq<GpuCells>, n: nat, i: int)
    requires
        0 <= i < n,
    ensures
        gpu_rows(s, cells, n).len() == n,
        !s.mfu_divergent ==> gpu_rows(s, cells, n)[i] == "  GPU"@ + text::left(
            text::decimal(s.per_gpu@[i].gpu_index as nat),
            3,
        ) + " "@ + text::right(cells[i].sm_utilization@, 6) + "%   "@ + units::mib_text(
            s.per_gpu@[i].vram_used_mib.0 as nat,
        ) + "   "@ + cells[i].temperature@ + "°C"@,
        s.mfu_divergent ==> gpu_rows(s, cells, n)[i] == "  GPU"@ + text::left(
            text::decimal(s.per_gpu@[i].gpu_index as nat),
            3,
        ) + " "@ + text::right(cells[i].sm_utilization@, 6) + "% ⚠   "@ + units::mib_text(
            s.per_gpu@[i].vram_used_mib.0 as nat,
        ) + "   "@ + cells[i].temperature@ + "°C"@,
{
    reveal_strlit("");
    reveal_strlit("%");
    reveal_strlit(" ⚠");
    reveal_strlit("   ");
    reveal_strlit("%   ");
    reveal_strlit("% ⚠   ");
    let head = "  GPU"@ + text::left(text::decimal(s.per_gpu@[i].gpu_index as nat), 3) + " "@
        + text::right(cells[i].sm_utilization@, 6);
    assert("%"@ + ""@ + "   "@ =~= "%   "@);
    assert("%"@ + " ⚠"@ + "   "@ =~= "% ⚠   "@);
    assert(head + "%"@ + ""@ + "   "@ =~= head + ("%"@ + ""@ + "   "@));
    assert(head + "%"@ + " ⚠"@ + "   "@ =~= head + ("%"@ + " ⚠"@ + "   "@));
}

/// The advice ends with the action; a gain is promised exactly where one is expected.
pub proof fn law_gains_are_promised(s: SessionSnapshot, cells: SnapshotCells)
    ensures
        s.recommendation.action@.is_suffix_of(advice(s, cells)),
        F32::of(0).below(s.recommendation.expected_mfu_gain_ppt) ==> ("  [+"@
            + cells.expected_gain@ + " ppt MFU expected]"@).is_prefix_of(advice(s, cells)),
        !F32::of(0).below(s.recommendation.expected_mfu_gain_ppt) ==> advice(s, cells) == "  "@
            + s.recommendation.action@,
{
    let a = advice(s, cells);
    let action = s.recommendation.action@;
    assert(action =~= a.subrange(a.len() - action.len(), a.len() as int));
    reveal_strlit(" ppt MFU expected]\n\n  ");
    reveal_strlit(" ppt MFU expected]");
    reveal_strlit("\n\n  ");
    assert(" ppt MFU expected]\n\n  "@ =~= " ppt MFU expected]"@ + "\n\n  "@);
    if F32::of(0).below(s.recommendation.expected_mfu_gain_ppt) {
        let p = "  [+"@ + cells.expected_gain@ + " ppt MFU expected]"@;
        assert(a =~= p + "\n\n  "@ + action);
        assert(p =~= a.take(p.len() as int));
    }
}

/// The five shares of the step time are shown each as its own bar, in its own colour: what
/// computes first, in green, and then what waits.
pub proof fn law_shares_have_their_bars(cells: BreakdownCells, i: int, j: int)
    requires
        0 <= i < 5,
        0 <= j < 5,
    ensures
        bars(cells).len() == 5,
        bars(cells)[0].text == bar("Forward/backward"@, cells.forward_backward),
        bars(cells)[1].text == bar("Data loader wait"@, cells.data_loader),
        bars(cells)[2].text == bar("CUDA sync        "@, cells.cuda_sync),
        bars(cells)[3].text == bar("Optimizer step   "@, cells.optimizer),
        bars(cells)[4].text == bar("Memory alloc     "@, cells.memory_alloc),
        bars(cells)[0].color == Color::Green,
        bars(cells)[1].color == Color::Yellow,
        bars(cells)[2].color == Color::Red,
        bars(cells)[i].bold,
        i != j ==> bars(cells)[i].color != bars(cells)[j].color,
{
}

/// A table of GPUs is shown for two or more, a row for each in a frame of two.
pub proof fn law_one_gpu_needs_no_table(gpus: nat)
    ensures
        gpus < 2 ==> gpu_table_rows(gpus) == 0,
        gpus >= 2 ==> gpu_table_rows(gpus) - gpus == 2,
{
}

} // verus!
