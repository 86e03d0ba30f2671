//! The plan report as terminal text.
use vstd::prelude::*;

use crate::commands::plan as rules;
use crate::float::F64;
use crate::plan;
use crate::plan::{
    AvailabilityStatus, ListingCells, ListingFlag, PlanRecommendation, PlanReport, RankedListing,
    SkippedProvider, VramBreakdown, WorkloadSummary,
};
use crate::text;

verus! {

broadcast use vstd::string::group_string_axioms;

/// The figures of a workload as text.
#[derive(Debug)]
pub struct WorkloadCells {
    /// Billions of parameters to two decimals.
    pub params_b: String,
    /// The total in GiB to one decimal.
    pub needed: String,
    /// The total with its margin in GiB to one decimal.
    pub required: String,
    /// GiB to two decimals, as the following.
    pub weights: String,
    pub gradients: String,
    pub optimizer: String,
    pub activations: String,
    pub kv_cache: String,
    pub library_savings: String,
    pub total: String,
}

/// The figures of a report as text.
#[derive(Debug)]
pub struct PlanCells {
    pub workload: WorkloadCells,
    /// Of each listing.
    pub listings: Vec<ListingCells>,
    /// Of the recommended listing, if any.
    pub recommended: ListingCells,
    /// Of its safe alternative, if any.
    pub alternative: ListingCells,
}

/// A row of the VRAM table.
pub open spec fn vram_row(label: Seq<char>, gib: Seq<char>, note: Seq<char>) -> Seq<char> {
    "  "@ + text::left(label, 25) + "  "@ + text::right(gib, 7) + note
}

/// A row of the VRAM table.
fn vram_line(label: &str, gib: &str, note: &str) -> (r: String)
    ensures
        r@ == vram_row(label@, gib@, note@),
{
    let mut r = "  ".to_owned();
    r.append(text::pad_right(label, 25).as_str());
    r.append("  ");
    r.append(text::pad_left(gib, 7).as_str());
    r.append(note);
    r
}

/// The rule of the VRAM table.
pub open spec fn vram_rule() -> Seq<char> {
    "  "@ + text::repeated('-', 25) + "  "@ + text::repeated('-', 7)
}

/// The rule of the VRAM table.
fn vram_rule_line() -> (r: String)
    ensures
        r@ == vram_rule(),
{
    let mut r = "  ".to_owned();
    r.append(text::repeat_char('-', 25).as_str());
    r.append("  ");
    r.append(text::repeat_char('-', 7).as_str());
    r
}

/// What is said of gradients: those of an adapter take under a twentieth of the
/// weights.
pub open spec fn gradient_note(b: VramBreakdown) -> Seq<char> {
    if 20 * b.gradients < b.weights {
        "  (adapter only)"@
    } else {
        "  (full fine-tune)"@
    }
}

/// The lines on the workload.
pub open spec fn workload_text(w: WorkloadSummary, cells: WorkloadCells) -> Seq<Seq<char>> {
    let tiers = text::texts(w.fitting_tiers@);
    seq![
        ""@,
        "  Model:     "@ + w.model_id@ + "  ("@ + cells.params_b@ + "B parameters)"@,
        "  Required:  "@ + cells.needed@ + " GiB VRAM"@,
        if tiers.len() > 0 {
            "             fits "@ + text::joined(tiers, ", "@) + "  tiers"@
        } else {
            "             Warning: no standard GPU tier is large enough."@
        },
        ""@,
        vram_row("Component"@, "GiB"@, ""@),
        vram_rule(),
        vram_row("Weights"@, cells.weights@, ""@),
        vram_row("Gradients"@, cells.gradients@, gradient_note(w.vram_breakdown)),
        vram_row("Optimizer states"@, cells.optimizer@, ""@),
        vram_row("Activations"@, cells.activations@, "  (gradient checkpointing)"@),
        vram_row("KV cache"@, cells.kv_cache@, ""@),
    ] + (if w.vram_breakdown.library_savings < 0 {
        seq![vram_row("Efficiency reduction"@, cells.library_savings@, "  (library savings)"@)]
    } else {
        Seq::empty()
    }) + seq![vram_rule(), vram_row("Total"@, cells.total@, ""@)]
}

/// The lines on the workload.
fn workload_lines(w: &WorkloadSummary, cells: &WorkloadCells) -> (r: Vec<String>)
    ensures
        text::texts(r@) == workload_text(*w, *cells),
{
    broadcast use text::group_texts;

    let mut model = "  Model:     ".to_owned();
    model.append(w.model_id.as_str());
    model.append("  (");
    model.append(cells.params_b.as_str());
    model.append("B parameters)");
    let mut needed = "  Required:  ".to_owned();
    needed.append(cells.needed.as_str());
    needed.append(" GiB VRAM");
    assert(text::texts(w.fitting_tiers@).len() == w.fitting_tiers@.len());
    let tiers = if w.fitting_tiers.len() > 0 {
        let mut s = "             fits ".to_owned();
        s.append(text::join_texts(&w.fitting_tiers, ", ").as_str());
        s.append("  tiers");
        s
    } else {
        "             Warning: no standard GPU tier is large enough.".to_owned()
    };
    let b = w.vram_breakdown;
    let note = if b.gradients <= u128::MAX / 20 && 20 * b.gradients < b.weights {
        "  (adapter only)"
    } else {
        "  (full fine-tune)"
    };
    let mut r: Vec<String> = Vec::new();
    r.push("".to_owned());
    r.push(model);
    r.push(needed);
    r.push(tiers);
    r.push("".to_owned());
    r.push(vram_line("Component", "GiB", ""));
    r.push(vram_rule_line());
    r.push(vram_line("Weights", cells.weights.as_str(), ""));
    r.push(vram_line("Gradients", cells.gradients.as_str(), note));
    r.push(vram_line("Optimizer states", cells.optimizer.as_str(), ""));
    r.push(vram_line("Activations", cells.activations.as_str(), "  (gradient checkpointing)"));
    r.push(vram_line("KV cache", cells.kv_cache.as_str(), ""));
    if b.library_savings < 0 {
        r.push(
            vram_line(
                "Efficiency reduction",
                cells.library_savings.as_str(),
                "  (library savings)",
            ),
        );
    }
    r.push(vram_rule_line());
    r.push(vram_line("Total", cells.total.as_str(), ""));
    assert(text::texts(r@) =~= workload_text(*w, *cells));
    r
}

/// The marks of a listing, in order.
pub open spec fn flag_marks(flags: Seq<ListingFlag>, availability: AvailabilityStatus) -> Seq<
    Seq<char>,
> {
    (if flags.contains(ListingFlag::Spot) {
        seq!["*"@]
    } else {
        Seq::empty()
    }) + (if flags.contains(ListingFlag::PriceVolatile) {
        seq!["~"@]
    } else {
        Seq::empty()
    }) + (if flags.contains(ListingFlag::LowReliability) {
        seq!["low-rel"@]
    } else {
        Seq::empty()
    }) + (if availability == AvailabilityStatus::Unavailable {
        seq!["unavail"@]
    } else {
        Seq::empty()
    })
}

/// What the flags of a listing are shown as.
pub open spec fn flags_text(flags: Seq<ListingFlag>, availability: AvailabilityStatus) -> Seq<
    char,
> {
    text::joined(flag_marks(flags, availability), " "@)
}

/// What the flags of a listing are shown as.
pub fn format_flags(flags: &Vec<ListingFlag>, availability: &AvailabilityStatus) -> (r: String)
    ensures
        r@ == flags_text(flags@, *availability),
{
    broadcast use text::group_texts;

    let mut parts: Vec<String> = Vec::new();
    if plan::has_flag(flags, ListingFlag::Spot) {
        parts.push("*".to_owned());
    }
    if plan::has_flag(flags, ListingFlag::PriceVolatile) {
        parts.push("~".to_owned());
    }
    if plan::has_flag(flags, ListingFlag::LowReliability) {
        parts.push("low-rel".to_owned());
    }
    if *availability == AvailabilityStatus::Unavailable {
        parts.push("unavail".to_owned());
    }
    assert(text::texts(parts@) =~= flag_marks(flags@, *availability));
    text::join_texts(&parts, " ")
}

/// Whether a listing is the recommended one, by provider and GPU.
pub open spec fn is_recommended(l: plan::RankedView, rec: Option<PlanRecommendation>) -> bool {
    match rec {
        Some(r) => r.listing.provider@ == l.provider && r.listing.gpu_model@ == l.gpu_model,
        None => false,
    }
}

/// The row of a listing.
pub open spec fn listing_row(
    l: plan::RankedView,
    rec: Option<PlanRecommendation>,
    budget: Option<F64>,
    cells: ListingCells,
) -> Seq<char> {
    (if is_recommended(l, rec) {
        ">"@
    } else {
        " "@
    }) + " "@ + text::left(l.provider, 9) + "  "@ + text::left(l.gpu_model, 22) + "  "@
        + text::right(cells.vram@ + "G"@, 5) + "  "@ + text::right(cells.hourly@, 6) + "  "@
        + text::right(
        match l.duration_range {
            Some(d) => d.shown(cells.duration),
            None => "n/a"@,
        },
        11,
    ) + "  "@ + text::right(
        match l.cost_range {
            Some(_) => plan::cost_text(cells.cost),
            None => "n/a"@,
        },
        14,
    ) + "  "@ + flags_text(l.flags, l.availability) + (if rules::over_budget(l, budget) {
        " !"@
    } else {
        ""@
    })
}

/// The row of a listing.
fn listing_line(
    l: &RankedListing,
    rec: &Option<PlanRecommendation>,
    budget: Option<F64>,
    cells: &ListingCells,
) -> (r: String)
    ensures
        r@ == listing_row(l@, *rec, budget, *cells),
{
    let picked = match rec {
        Some(p) => p.listing.provider == l.provider && p.listing.gpu_model == l.gpu_model,
        None => false,
    };
    let mut vram = cells.vram.clone();
    vram.append("G");
    let duration = match &l.duration_range {
        Some(d) => d.display(&cells.duration),
        None => "n/a".to_owned(),
    };
    let cost = match &l.cost_range {
        Some(c) => c.display(&cells.cost),
        None => "n/a".to_owned(),
    };
    let mut r = if picked {
        ">".to_owned()
    } else {
        " ".to_owned()
    };
    r.append(" ");
    r.append(text::pad_right(l.provider.as_str(), 9).as_str());
    r.append("  ");
    r.append(text::pad_right(l.gpu_model.as_str(), 22).as_str());
    r.append("  ");
    r.append(text::pad_left(vram.as_str(), 5).as_str());
    r.append("  ");
    r.append(text::pad_left(cells.hourly.as_str(), 6).as_str());
    r.append("  ");
    r.append(text::pad_left(duration.as_str(), 11).as_str());
    r.append("  ");
    r.append(text::pad_left(cost.as_str(), 14).as_str());
    r.append("  ");
    r.append(format_flags(&l.flags, &l.availability).as_str());
    r.append(
        if rules::exceeds_budget(l, budget) {
            " !"
        } else {
            ""
        },
    );
    r
}

/// The rows of the first `n` listings.
pub open spec fn listing_rows(report: PlanReport, budget: Option<F64>, cells: PlanCells, n: nat) -> Seq<
    Seq<char>,
> {
    Seq::new(
        n,
        |i: int|
            listing_row(
                report.listings@[i]@,
                report.recommendation,
                budget,
                cells.listings@[i],
            ),
    )
}

/// Whether some listing carries a flag.
pub open spec fn any_flagged(listings: Seq<RankedListing>, flag: ListingFlag) -> bool {
    exists|i: int| 0 <= i < listings.len() && (#[trigger] listings[i]).flags@.contains(flag)
}

/// Whether some listing has no capacity.
pub open spec fn any_unavailable(listings: Seq<RankedListing>) -> bool {
    exists|i: int|
        0 <= i < listings.len() && (#[trigger] listings[i]).availability
            == AvailabilityStatus::Unavailable
}

/// The legend below the listings.
pub open spec fn legend(report: PlanReport, budget: Option<F64>) -> Seq<Seq<char>> {
    seq![""@] + (if any_flagged(report.listings@, ListingFlag::Spot) {
        seq!["  * Spot/preemptible — may be interrupted mid-job."@]
    } else {
        Seq::empty()
    }) + (if any_flagged(report.listings@, ListingFlag::PriceVolatile) {
        seq!["  ~ Price volatile   — Vast.ai market price; may change before launch."@]
    } else {
        Seq::empty()
    }) + (if any_unavailable(report.listings@) {
        seq!["  ! Unavailable      — listed but no capacity right now."@]
    } else {
        Seq::empty()
    }) + (if budget is Some {
        seq!["  ! Over budget      — exceeds --budget limit."@]
    } else {
        Seq::empty()
    })
}

/// The head of the listings.
pub open spec fn listing_head() -> Seq<Seq<char>> {
    seq![
        ""@,
        "  "@ + text::left("Provider"@, 9) + "  "@ + text::left("GPU"@, 22) + "  "@ + text::right(
            "VRAM"@,
            5,
        ) + "  "@ + text::right("$/hr"@, 6) + "  "@ + text::right("Duration"@, 11) + "  "@
            + text::right("Est. Cost"@, 14) + "  Flags"@,
        "  "@ + text::repeated('-', 9) + "  "@ + text::repeated('-', 22) + "  "@ + text::repeated(
            '-',
            5,
        ) + "  "@ + text::repeated('-', 6) + "  "@ + text::repeated('-', 11) + "  "@
            + text::repeated('-', 14) + "  -----"@,
    ]
}

/// The lines on the listings.
pub open spec fn listings_text(report: PlanReport, budget: Option<F64>, cells: PlanCells) -> Seq<
    Seq<char>,
> {
    if report.listings@.len() == 0 {
        seq![
            ""@,
            "  No GPU listings found with ≥ "@ + cells.workload.required@ + " GiB VRAM."@,
        ]
    } else {
        listing_head() + listing_rows(report, budget, cells, report.listings@.len()) + legend(
            report,
            budget,
        )
    }
}

/// The head of the listings.
fn listing_head_lines() -> (r: Vec<String>)
    ensures
        text::texts(r@) == listing_head(),
{
    broadcast use text::group_texts;

    let mut h = "  ".to_owned();
    h.append(text::pad_right("Provider", 9).as_str());
    h.append("  ");
    h.append(text::pad_right("GPU", 22).as_str());
    h.append("  ");
    h.append(text::pad_left("VRAM", 5).as_str());
    h.append("  ");
    h.append(text::pad_left("$/hr", 6).as_str());
    h.append("  ");
    h.append(text::pad_left("Duration", 11).as_str());
    h.append("  ");
    h.append(text::pad_left("Est. Cost", 14).as_str());
    h.append("  Flags");
    let mut d = "  ".to_owned();
    d.append(text::repeat_char('-', 9).as_str());
    d.append("  ");
    d.append(text::repeat_char('-', 22).as_str());
    d.append("  ");
    d.append(text::repeat_char('-', 5).as_str());
    d.append("  ");
    d.append(text::repeat_char('-', 6).as_str());
    d.append("  ");
    d.append(text::repeat_char('-', 11).as_str());
    d.append("  ");
    d.append(text::repeat_char('-', 14).as_str());
    d.append("  -----");
    let mut r: Vec<String> = Vec::new();
    r.push("".to_owned());
    r.push(h);
    r.push(d);
    assert(text::texts(r@) =~= listing_head());
    r
}

/// The lines on the listings.
fn listings_lines(report: &PlanReport, budget: Option<F64>, cells: &PlanCells) -> (r: Vec<String>)
    requires
        cells.listings@.len() == report.listings@.len(),
    ensures
        text::texts(r@) == listings_text(*report, budget, *cells),
{
    broadcast use text::group_texts;

    if report.listings.len() == 0 {
        let mut s = "  No GPU listings found with ≥ ".to_owned();
        s.append(cells.workload.required.as_str());
        s.append(" GiB VRAM.");
        let mut r: Vec<String> = Vec::new();
        r.push("".to_owned());
        r.push(s);
        assert(text::texts(r@) =~= listings_text(*report, budget, *cells));
        return r;
    }
    let mut r = listing_head_lines();
    let mut spot = false;
    let mut volatile = false;
    let mut unavailable = false;
    let mut i: usize = 0;
    assert(text::texts(r@) =~= listing_head() + listing_rows(*report, budget, *cells, 0));
    while i < report.listings.len()
        invariant
            i <= report.listings@.len(),
            cells.listings@.len() == report.listings@.len(),
            text::texts(r@) == listing_head() + listing_rows(*report, budget, *cells, i as nat),
            spot == exists|j: int|
                0 <= j < i && (#[trigger] report.listings@[j]).flags@.contains(ListingFlag::Spot),
            volatile == exists|j: int|
                0 <= j < i && (#[trigger] report.listings@[j]).flags@.contains(
                    ListingFlag::PriceVolatile,
                ),
            unavailable == exists|j: int|
                0 <= j < i && (#[trigger] report.listings@[j]).availability
                    == AvailabilityStatus::Unavailable,
        decreases report.listings.len() - i,
    {
        broadcast use text::group_texts;

        let l = &report.listings[i];
        let ghost before = text::texts(r@);
        r.push(listing_line(l, &report.recommendation, budget, &cells.listings[i]));
        assert(text::texts(r@) =~= listing_head() + listing_rows(
            *report,
            budget,
            *cells,
            (i + 1) as nat,
        ));
        assert(report.listings@[i as int] == *l);
        spot = spot || plan::has_flag(&l.flags, ListingFlag::Spot);
        volatile = volatile || plan::has_flag(&l.flags, ListingFlag::PriceVolatile);
        unavailable = unavailable || l.availability == AvailabilityStatus::Unavailable;
        i = i + 1;
    }
    let ghost rows = text::texts(r@);
    r.push("".to_owned());
    if spot {
        r.push("  * Spot/preemptible — may be interrupted mid-job.".to_owned());
    }
    if volatile {
        r.push(
            "  ~ Price volatile   — Vast.ai market price; may change before launch.".to_owned(),
        );
    }
    if unavailable {
        r.push("  ! Unavailable      — listed but no capacity right now.".to_owned());
    }
    if budget.is_some() {
        r.push("  ! Over budget      — exceeds --budget limit.".to_owned());
    }
    assert(spot == any_flagged(report.listings@, ListingFlag::Spot));
    assert(volatile == any_flagged(report.listings@, ListingFlag::PriceVolatile));
    assert(unavailable == any_unavailable(report.listings@));
    assert(text::texts(r@) =~= rows + legend(*report, budget));
    r
}

/// A listing with its hourly price.
pub open spec fn offer_text(l: RankedListing, hourly: Seq<char>) -> Seq<char> {
    l.provider@ + " "@ + l.gpu_model@ + " at $"@ + hourly + "/hr"@
}

/// A listing with its hourly price, after some words.
fn offer_line(words: &str, l: &RankedListing, hourly: &String) -> (r: String)
    ensures
        r@ == words@ + offer_text(*l, hourly@),
{
    let mut s = l.provider.clone();
    s.append(" ");
    s.append(l.gpu_model.as_str());
    s.append(" at $");
    s.append(hourly.as_str());
    s.append("/hr");
    let mut r = words.to_owned();
    r.append(s.as_str());
    r
}

/// The lines on the recommendation.
pub open spec fn recommendation_text(rec: Option<PlanRecommendation>, cells: PlanCells) -> Seq<
    Seq<char>,
> {
    match rec {
        Some(p) => seq![
            ""@,
            "  Recommendation: "@ + offer_text(p.listing, cells.recommended.hourly@),
            "    "@ + p.rationale@,
        ] + match p.safe_alternative {
            Some(a) => seq![
                ""@,
                "  Safe alternative (stable price): "@ + offer_text(a, cells.alternative.hourly@),
            ] + (if a.cost_range is Some {
                seq!["    Estimated cost: "@ + plan::cost_text(cells.alternative.cost)]
            } else {
                Seq::empty()
            }),
            None => Seq::empty(),
        },
        None => seq![
            ""@,
            "  No recommendation could be made (no available listings meet the requirements)."@,
        ],
    }
}

/// The lines on the recommendation.
fn recommendation_lines(rec: &Option<PlanRecommendation>, cells: &PlanCells) -> (r: Vec<String>)
    ensures
        text::texts(r@) == recommendation_text(*rec, *cells),
{
    broadcast use text::group_texts;

    let mut r: Vec<String> = Vec::new();
    r.push("".to_owned());
    match rec {
        Some(p) => {
            r.push(offer_line("  Recommendation: ", &p.listing, &cells.recommended.hourly));
            let mut why = "    ".to_owned();
            why.append(p.rationale.as_str());
            r.push(why);
            if let Some(a) = &p.safe_alternative {
                r.push("".to_owned());
                r.push(
                    offer_line(
                        "  Safe alternative (stable price): ",
                        a,
                        &cells.alternative.hourly,
                    ),
                );
                if let Some(c) = &a.cost_range {
                    let mut s = "    Estimated cost: ".to_owned();
                    s.append(c.display(&cells.alternative.cost).as_str());
                    r.push(s);
                }
            }
        },
        None => {
            r.push(
                "  No recommendation could be made (no available listings meet the requirements).".to_owned(),
            );
        },
    }
    assert(text::texts(r@) =~= recommendation_text(*rec, *cells));
    r
}

/// The lines on skipped providers.
pub open spec fn skipped_text(skipped: Seq<SkippedProvider>) -> Seq<Seq<char>> {
    if skipped.len() == 0 {
        Seq::empty()
    } else {
        seq![""@, "  Skipped:"@] + skipped_rows(skipped, skipped.len())
    }
}

/// The rows of the first `n` skipped providers.
pub open spec fn skipped_rows(skipped: Seq<SkippedProvider>, n: nat) -> Seq<Seq<char>> {
    Seq::new(n, |i: int| "    "@ + skipped[i].name@ + ": "@ + skipped[i].reason@)
}

/// The lines on skipped providers.
fn skipped_lines(skipped: &Vec<SkippedProvider>) -> (r: Vec<String>)
    ensures
        text::texts(r@) == skipped_text(skipped@),
{
    broadcast use text::group_texts;

    let mut r: Vec<String> = Vec::new();
    if skipped.len() == 0 {
        assert(text::texts(r@) =~= skipped_text(skipped@));
        return r;
    }
    r.push("".to_owned());
    r.push("  Skipped:".to_owned());
    let ghost head = seq![""@, "  Skipped:"@];
    let mut i: usize = 0;
    assert(text::texts(r@) =~= head + skipped_rows(skipped@, 0));
    while i < skipped.len()
        invariant
            i <= skipped@.len(),
            text::texts(r@) == head + skipped_rows(skipped@, i as nat),
        decreases skipped.len() - i,
    {
        broadcast use text::group_texts;

        let mut s = "    ".to_owned();
        s.append(skipped[i].name.as_str());
        s.append(": ");
        s.append(skipped[i].reason.as_str());
        r.push(s);
        assert(text::texts(r@) =~= head + skipped_rows(skipped@, (i + 1) as nat));
        i = i + 1;
    }
    r
}

/// The plan report.
pub open spec fn report_text(report: PlanReport, budget: Option<F64>, cells: PlanCells) -> Seq<
    Seq<char>,
> {
    workload_text(report.workload, cells.workload) + listings_text(report, budget, cells)
        + recommendation_text(report.recommendation, cells) + skipped_text(
        report.skipped_providers@,
    ) + seq![""@]
}

/// The plan report, line by line: the workload, the listings, the recommendation
/// and the skipped providers.
pub fn render(report: &PlanReport, budget: Option<F64>, cells: &PlanCells) -> (r: Vec<String>)
    requires
        cells.listings@.len() == report.listings@.len(),
    ensures
        text::texts(r@) == report_text(*report, budget, *cells),
{
    broadcast use text::group_texts;

    let mut r = workload_lines(&report.workload, &cells.workload);
    text::extend(&mut r, listings_lines(report, budget, cells));
    text::extend(&mut r, recommendation_lines(&report.recommendation, cells));
    text::extend(&mut r, skipped_lines(&report.skipped_providers));
    let ghost before = text::texts(r@);
    r.push("".to_owned());
    assert(text::texts(r@) =~= before + seq![""@]);
    r
}

/// The marks of a listing stand for its flags, one for each that it has.
pub proof fn law_flags_have_marks(flags: Seq<ListingFlag>, availability: AvailabilityStatus)
    ensures
        flag_marks(flags, availability).contains("*"@) <==> flags.contains(ListingFlag::Spot),
        flag_marks(flags, availability).contains("~"@) <==> flags.contains(
            ListingFlag::PriceVolatile,
        ),
        flag_marks(flags, availability).contains("low-rel"@) <==> flags.contains(
            ListingFlag::LowReliability,
        ),
        flag_marks(flags, availability).contains("unavail"@) <==> availability
            == AvailabilityStatus::Unavailable,
        flag_marks(flags, availability).len() <= 4,
{
    reveal_strlit("*");
    reveal_strlit("~");
    reveal_strlit("low-rel");
    reveal_strlit("unavail");
    let m = flag_marks(flags, availability);
    assert("*"@[0] == '*' && "~"@[0] == '~' && "low-rel"@[0] == 'l' && "unavail"@[0] == 'u');
    let a: int = if flags.contains(ListingFlag::Spot) {
        1
    } else {
        0
    };
    let b: int = if flags.contains(ListingFlag::PriceVolatile) {
        a + 1
    } else {
        a
    };
    let c: int = if flags.contains(ListingFlag::LowReliability) {
        b + 1
    } else {
        b
    };
    if flags.contains(ListingFlag::Spot) {
        assert(m[0] == "*"@);
    }
    if flags.contains(ListingFlag::PriceVolatile) {
        assert(m[a] == "~"@);
    }
    if flags.contains(ListingFlag::LowReliability) {
        assert(m[b] == "low-rel"@);
    }
    if availability == AvailabilityStatus::Unavailable {
        assert(m[c] == "unavail"@);
    }
}

/// A listing without flags that can be had shows no marks; a volatile price alone shows a
/// tilde.
pub proof fn law_unflagged_listings_show_nothing(flags: Seq<ListingFlag>)
    requires
        !flags.contains(ListingFlag::Spot),
        !flags.contains(ListingFlag::LowReliability),
    ensures
        !flags.contains(ListingFlag::PriceVolatile) ==> flags_text(
            flags,
            AvailabilityStatus::Available,
        ).len() == 0,
        flags.contains(ListingFlag::PriceVolatile) ==> flags_text(
            flags,
            AvailabilityStatus::Available,
        ) == "~"@,
        flags.contains(ListingFlag::PriceVolatile) ==> flags_text(
            flags,
            AvailabilityStatus::Unavailable,
        ) == "~ unavail"@,
{
    let v = flags.contains(ListingFlag::PriceVolatile);
    let m = flag_marks(flags, AvailabilityStatus::Available);
    let u = flag_marks(flags, AvailabilityStatus::Unavailable);
    if v {
        assert(m =~= seq!["~"@]);
        assert(u =~= seq!["~"@, "unavail"@]);
        assert(u.drop_last() =~= seq!["~"@]);
        assert(text::joined(u.drop_last(), " "@) == "~"@);
        reveal_strlit("~");
        reveal_strlit(" ");
        reveal_strlit("unavail");
        reveal_strlit("~ unavail");
        assert("~"@ + " "@ + "unavail"@ =~= "~ unavail"@);
    } else {
        assert(m =~= Seq::empty());
    }
}

/// A row begins with an arrow exactly where its provider and GPU are those of the
/// recommendation, and ends with an exclamation mark where it exceeds the budget.
pub proof fn law_listings_are_marked(
    l: plan::RankedView,
    rec: Option<PlanRecommendation>,
    budget: Option<F64>,
    cells: ListingCells,
)
    ensures
        listing_row(l, rec, budget, cells)[0] == (if rec is Some && rec->0.listing.provider@
            == l.provider && rec->0.listing.gpu_model@ == l.gpu_model {
            '>'
        } else {
            ' '
        }),
        rules::over_budget(l, budget) ==> (flags_text(l.flags, l.availability)
            + " !"@).is_suffix_of(listing_row(l, rec, budget, cells)),
        !rules::over_budget(l, budget) ==> flags_text(l.flags, l.availability).is_suffix_of(
            listing_row(l, rec, budget, cells),
        ),
{
    let mark = if is_recommended(l, rec) {
        ">"@
    } else {
        " "@
    };
    let mid = " "@ + text::left(l.provider, 9) + "  "@ + text::left(l.gpu_model, 22) + "  "@
        + text::right(cells.vram@ + "G"@, 5) + "  "@ + text::right(cells.hourly@, 6) + "  "@
        + text::right(duration_field(l, cells), 11) + "  "@ + text::right(cost_field(l, cells), 14)
        + "  "@;
    let end = flags_text(l.flags, l.availability);
    let over = if rules::over_budget(l, budget) {
        " !"@
    } else {
        ""@
    };
    law_listings_hold_the_figures(l, rec, budget, cells);
    let row = listing_row(l, rec, budget, cells);
    reveal_strlit(">");
    reveal_strlit(" ");
    reveal_strlit("");
    lemma_framed(row, mark, mid, end, over);
    assert(end + ""@ =~= end);
}

proof fn lemma_framed(row: Seq<char>, a: Seq<char>, mid: Seq<char>, end: Seq<char>, over: Seq<char>)
    requires
        a.len() == 1,
        row == a + (mid + end + over),
    ensures
        row[0] == a[0],
        (end + over).is_suffix_of(row),
{
    let t = end + over;
    assert(t =~= row.subrange(row.len() - t.len(), row.len() as int));
}

/// What a row shows for the duration.
pub open spec fn duration_field(l: plan::RankedView, cells: ListingCells) -> Seq<char> {
    match l.duration_range {
        Some(d) => d.shown(cells.duration),
        None => "n/a"@,
    }
}

/// What a row shows for the cost.
pub open spec fn cost_field(l: plan::RankedView, cells: ListingCells) -> Seq<char> {
    match l.cost_range {
        Some(_) => plan::cost_text(cells.cost),
        None => "n/a"@,
    }
}

/// Behind its mark a row holds the provider, the GPU, the memory, the hourly price, the
/// duration and the cost in their columns, and then the flags.
pub proof fn law_listings_hold_the_figures(
    l: plan::RankedView,
    rec: Option<PlanRecommendation>,
    budget: Option<F64>,
    cells: ListingCells,
)
    ensures
        listing_row(l, rec, budget, cells) == (if is_recommended(l, rec) {
            ">"@
        } else {
            " "@
        }) + (" "@ + text::left(l.provider, 9) + "  "@ + text::left(l.gpu_model, 22) + "  "@
            + text::right(cells.vram@ + "G"@, 5) + "  "@ + text::right(cells.hourly@, 6) + "  "@
            + text::right(duration_field(l, cells), 11) + "  "@ + text::right(
            cost_field(l, cells),
            14,
        ) + "  "@ + flags_text(l.flags, l.availability) + (if rules::over_budget(l, budget) {
            " !"@
        } else {
            ""@
        })),
        l.duration_range is None ==> duration_field(l, cells) == "n/a"@,
        l.cost_range is None ==> cost_field(l, cells) == "n/a"@,
{
    let mark = if is_recommended(l, rec) {
        ">"@
    } else {
        " "@
    };
    let p = text::left(l.provider, 9);
    let g = text::left(l.gpu_model, 22);
    let v = text::right(cells.vram@ + "G"@, 5);
    let h = text::right(cells.hourly@, 6);
    let d = text::right(duration_field(l, cells), 11);
    let c = text::right(cost_field(l, cells), 14);
    let f = flags_text(l.flags, l.availability);
    let o = if rules::over_budget(l, budget) {
        " !"@
    } else {
        ""@
    };
    let s = "  "@;
    let one = " "@;
    assert(listing_row(l, rec, budget, cells) == mark + one + p + s + g + s + v + s + h + s + d + s
        + c + s + f + o);
    lemma_regrouped(mark, one, p, s, g);
    lemma_regrouped(mark, one + p + s + g, s, v, s);
    lemma_regrouped(mark, one + p + s + g + s + v + s, h, s, d);
    lemma_regrouped(mark, one + p + s + g + s + v + s + h + s + d, s, c, s);
    lemma_regrouped(mark, one + p + s + g + s + v + s + h + s + d + s + c + s, f, o, Seq::empty());
    assert(mark + (one + p + s + g + s + v + s + h + s + d + s + c + s) + f + o + Seq::<char>::empty()
        =~= mark + (one + p + s + g + s + v + s + h + s + d + s + c + s) + f + o);
    assert(one + p + s + g + s + v + s + h + s + d + s + c + s + f + o + Seq::<char>::empty()
        =~= one + p + s + g + s + v + s + h + s + d + s + c + s + f + o);
}

proof fn lemma_regrouped(a: Seq<char>, b: Seq<char>, c: Seq<char>, d: Seq<char>, e: Seq<char>)
    ensures
        a + b + c + d + e == a + (b + c + d + e),
{
    assert(a + b + c + d + e =~= a + (b + c + d + e));
}

/// The listings are told in order below their head of three lines, each in a row; without
/// any, the memory that they would need is.
pub proof fn law_every_listing_has_a_row(
    report: PlanReport,
    budget: Option<F64>,
    cells: PlanCells,
    i: int,
)
    ensures
        report.listings@.len() == 0 ==> listings_text(report, budget, cells)
            == seq![
            ""@,
            "  No GPU listings found with ≥ "@ + cells.workload.required@ + " GiB VRAM."@,
        ],
        0 <= i < report.listings@.len() ==> listings_text(report, budget, cells)[3 + i]
            == listing_row(
            report.listings@[i]@,
            report.recommendation,
            budget,
            cells.listings@[i],
        ),
        listing_head().len() == 3,
{
}

/// The legend explains the marks that occur, and the budget where there is one.
pub proof fn law_legends_explain_the_marks(report: PlanReport, budget: Option<F64>, i: int)
    requires
        0 <= i < report.listings@.len(),
    ensures
        report.listings@[i].flags@.contains(ListingFlag::Spot) ==> legend(report, budget).contains(
            "  * Spot/preemptible — may be interrupted mid-job."@,
        ),
        report.listings@[i].flags@.contains(ListingFlag::PriceVolatile) ==> legend(
            report,
            budget,
        ).contains("  ~ Price volatile   — Vast.ai market price; may change before launch."@),
        report.listings@[i].availability is Unavailable ==> legend(report, budget).contains(
            "  ! Unavailable      — listed but no capacity right now."@,
        ),
        budget is Some ==> legend(report, budget).last()
            == "  ! Over budget      — exceeds --budget limit."@,
        budget is None && (forall|k: int|
            0 <= k < report.listings@.len() ==> (#[trigger] report.listings@[k]).flags@.len() == 0
                && !(report.listings@[k].availability is Unavailable)) ==> legend(report, budget)
            == seq![""@],
{
    let all = legend(report, budget);
    let a: int = if any_flagged(report.listings@, ListingFlag::Spot) {
        2
    } else {
        1
    };
    let b: int = if any_flagged(report.listings@, ListingFlag::PriceVolatile) {
        a + 1
    } else {
        a
    };
    if any_flagged(report.listings@, ListingFlag::Spot) {
        assert(all[1] == "  * Spot/preemptible — may be interrupted mid-job."@);
    }
    if any_flagged(report.listings@, ListingFlag::PriceVolatile) {
        assert(all[a] == "  ~ Price volatile   — Vast.ai market price; may change before launch."@);
    }
    if any_unavailable(report.listings@) {
        assert(all[b] == "  ! Unavailable      — listed but no capacity right now."@);
    }
    if budget is None && (forall|k: int|
        0 <= k < report.listings@.len() ==> (#[trigger] report.listings@[k]).flags@.len() == 0
            && !(report.listings@[k].availability is Unavailable)) {
        assert(all =~= seq![""@]);
    }
}

/// Gradients under a twentieth of the weights are those of an adapter.
pub proof fn law_small_gradients_are_those_of_an_adapter(b: VramBreakdown)
    ensures
        b.gradients * 20 < b.weights <==> gradient_note(b) == "  (adapter only)"@,
        b.gradients * 20 >= b.weights <==> gradient_note(b) == "  (full fine-tune)"@,
{
    reveal_strlit("  (adapter only)");
    reveal_strlit("  (full fine-tune)");
    assert("  (adapter only)"@[3] == 'a' && "  (full fine-tune)"@[3] == 'f');
}

/// The workload is told with its model, its memory and the tiers that fit, and then a row
/// for each part of the memory; savings have a row where there are any.
pub proof fn law_workloads_are_told(w: WorkloadSummary, cells: WorkloadCells)
    ensures
        ({
            let t = workload_text(w, cells);
            &&& t[1] == "  Model:     "@ + w.model_id@ + "  ("@ + cells.params_b@
                + "B parameters)"@
            &&& t[2] == "  Required:  "@ + cells.needed@ + " GiB VRAM"@
            &&& w.fitting_tiers@.len() == 0 ==> t[3]
                == "             Warning: no standard GPU tier is large enough."@
            &&& w.fitting_tiers@.len() > 0 ==> t[3] == "             fits "@ + text::joined(
                text::texts(w.fitting_tiers@),
                ", "@,
            ) + "  tiers"@
            &&& t[7] == vram_row("Weights"@, cells.weights@, ""@)
            &&& (vram_row("Gradients"@, cells.gradients@, ""@)).is_prefix_of(t[8])
            &&& t[9] == vram_row("Optimizer states"@, cells.optimizer@, ""@)
            &&& t[10] == vram_row(
                "Activations"@,
                cells.activations@,
                "  (gradient checkpointing)"@,
            )
            &&& t[11] == vram_row("KV cache"@, cells.kv_cache@, ""@)
            &&& w.vram_breakdown.library_savings < 0 ==> t.len() == 15 && t[12] == vram_row(
                "Efficiency reduction"@,
                cells.library_savings@,
                "  (library savings)"@,
            )
            &&& w.vram_breakdown.library_savings >= 0 ==> t.len() == 14
            &&& t.last() == vram_row("Total"@, cells.total@, ""@)
        }),
{
    reveal_strlit("");
    let g = vram_row("Gradients"@, cells.gradients@, ""@);
    let n = gradient_note(w.vram_breakdown);
    let full = vram_row("Gradients"@, cells.gradients@, n);
    assert(g =~= full.take(g.len() as int));
}

/// A row of the table of memory has the label in 25 characters, two spaces, and the figure
/// against the right edge of seven.
pub proof fn law_memory_rows_are_aligned(label: Seq<char>, gib: Seq<char>, note: Seq<char>)
    requires
        label.len() <= 25,
        gib.len() <= 7,
    ensures
        vram_row(label, gib, note).len() == 36 + note.len(),
        label == vram_row(label, gib, note).subrange(2, 2int + label.len()),
        gib == vram_row(label, gib, note).subrange(36 - gib.len(), 36),
        note == vram_row(label, gib, note).skip(36),
{
    reveal_strlit("  ");
    let row = vram_row(label, gib, note);
    assert(label =~= row.subrange(2, 2int + label.len()));
    assert(gib =~= row.subrange(36 - gib.len(), 36));
    assert(note =~= row.skip(36));
}

/// The recommendation is told with its price and its reason, and a safe alternative with
/// its price and, where it is known, its cost.
pub proof fn law_recommendations_are_told(rec: Option<PlanRecommendation>, cells: PlanCells)
    ensures
        rec is None ==> recommendation_text(rec, cells).len() == 2,
        rec matches Some(p) ==> recommendation_text(rec, cells)[1] == "  Recommendation: "@
            + p.listing.provider@ + " "@ + p.listing.gpu_model@ + " at $"@
            + cells.recommended.hourly@ + "/hr"@ && recommendation_text(rec, cells)[2] == "    "@
            + p.rationale@,
        rec matches Some(p) ==> (p.safe_alternative is None ==> recommendation_text(
            rec,
            cells,
        ).len() == 3),
        rec matches Some(p) ==> (p.safe_alternative matches Some(a) ==> recommendation_text(
            rec,
            cells,
        )[4] == "  Safe alternative (stable price): "@ + a.provider@ + " "@ + a.gpu_model@
            + " at $"@ + cells.alternative.hourly@ + "/hr"@),
        rec matches Some(p) ==> (p.safe_alternative matches Some(a) ==> (a.cost_range is Some
            ==> recommendation_text(rec, cells).len() == 6 && recommendation_text(rec, cells)[5]
            == "    Estimated cost: "@ + plan::cost_text(cells.alternative.cost))),
        rec matches Some(p) ==> (p.safe_alternative matches Some(a) ==> (a.cost_range is None
            ==> recommendation_text(rec, cells).len() == 5)),
{
    if let Some(p) = rec {
        let w = "  Recommendation: "@;
        let h = cells.recommended.hourly@;
        assert(w + (p.listing.provider@ + " "@ + p.listing.gpu_model@ + " at $"@ + h + "/hr"@)
            =~= w + p.listing.provider@ + " "@ + p.listing.gpu_model@ + " at $"@ + h + "/hr"@);
        if let Some(a) = p.safe_alternative {
            let v = "  Safe alternative (stable price): "@;
            let k = cells.alternative.hourly@;
            assert(v + (a.provider@ + " "@ + a.gpu_model@ + " at $"@ + k + "/hr"@) =~= v
                + a.provider@ + " "@ + a.gpu_model@ + " at $"@ + k + "/hr"@);
        }
    }
}

/// Every skipped provider is told with its reason, in order.
pub proof fn law_skips_are_told(skipped: Seq<SkippedProvider>, i: int)
    ensures
        skipped.len() == 0 ==> skipped_text(skipped).len() == 0,
        skipped.len() > 0 ==> skipped_text(skipped).len() == skipped.len() + 2,
        0 <= i < skipped.len() ==> skipped_text(skipped)[2 + i] == "    "@ + skipped[i].name@
            + ": "@ + skipped[i].reason@,
{
}

/// The report tells the workload, the listings, the recommendation and the skipped
/// providers, in this order.
pub proof fn law_reports_are_in_order(report: PlanReport, budget: Option<F64>, cells: PlanCells)
    ensures
        ({
            let t = report_text(report, budget, cells);
            let a = workload_text(report.workload, cells.workload).len() as int;
            let b = a + listings_text(report, budget, cells).len();
            let c = b + recommendation_text(report.recommendation, cells).len();
            &&& t.take(a) == workload_text(report.workload, cells.workload)
            &&& t.subrange(a, b) == listings_text(report, budget, cells)
            &&& t.subrange(b, c) == recommendation_text(report.recommendation, cells)
            &&& t.skip(c) == skipped_text(report.skipped_providers@) + seq![""@]
        }),
{
    let t = report_text(report, budget, cells);
    let w = workload_text(report.workload, cells.workload);
    let l = listings_text(report, budget, cells);
    let r = recommendation_text(report.recommendation, cells);
    let s = skipped_text(report.skipped_providers@) + seq![""@];
    let a = w.len() as int;
    let b = a + l.len();
    let c = b + r.len();
    assert(t.take(a) =~= w);
    assert(t.subrange(a, b) =~= l);
    assert(t.subrange(b, c) =~= r);
    assert(t.skip(c) =~= s);
}

} // verus!
