//! Cost plans for training runs on rented GPUs.
use vstd::prelude::*;

use crate::float::F64;

pub mod duration;
pub mod model;
pub mod providers;
pub mod vram;

verus! {

broadcast use vstd::string::group_string_axioms;

/// Per-component breakdown of estimated VRAM usage for a training run.
///
/// All values are in units of which `units_per_byte` make a byte. The components
/// and the (negative) savings add up to the total.
#[derive(Clone, Copy, Debug, PartialEq, Eq, Structural)]
pub struct VramBreakdown {
    /// Model weight tensors (parameter count × bytes per weight).
    pub weights: u128,
    /// Gradient tensors; of the adapter only for LoRA and QLoRA.
    pub gradients: u128,
    /// Adam first and second moment optimizer states.
    pub optimizer: u128,
    /// Intermediate activations stored for the backward pass, with gradient
    /// checkpointing enabled.
    pub activations: u128,
    /// Key-value attention cache proportional to sequence length and layers.
    pub kv_cache: u128,
    /// Reduction applied by the optimizer library. Negative value represents the
    /// memory saved; zero when no library is used.
    pub library_savings: i128,
    /// Total VRAM estimate (sum of components and savings).
    pub total: u128,
    pub units_per_byte: u64,
}

/// Resolved model properties and the VRAM estimate derived from them.
#[derive(Debug)]
pub struct WorkloadSummary {
    /// The model identifier or path as supplied by the user.
    pub model_id: String,
    /// Resolved parameter count.
    pub params: u128,
    /// Full VRAM breakdown showing each component's contribution.
    pub vram_breakdown: VramBreakdown,
    /// Minimum VRAM (GiB) that a GPU must have to run this workload: the total of
    /// the breakdown with a safety margin of 5%.
    pub required_vram_gib: F64,
    /// GPU memory tiers that can satisfy the requirement, such as "16GB".
    pub fitting_tiers: Vec<String>,
}

/// Availability of a GPU instance at query time.
#[derive(Clone, Copy, Debug, PartialEq, Eq, Structural)]
pub enum AvailabilityStatus {
    /// Instance can be launched immediately.
    Available,
    /// Instance is listed but currently has no capacity.
    Unavailable,
    /// Instance is available but requires waiting in a queue.
    Queue { estimated_wait_minutes: u32 },
}

/// Flags that must be surfaced to the user alongside a listing.
#[derive(Clone, Copy, Debug, PartialEq, Eq, Structural)]
pub enum ListingFlag {
    /// Spot / preemptible instance: may be interrupted mid-job.
    Spot,
    /// Vast.ai or other auction-market listing: price may change before launch.
    PriceVolatile,
    /// Machine reliability score is below the 0.95 threshold.
    LowReliability,
    /// Instance is listed but currently unavailable to rent.
    CurrentlyUnavailable,
}

/// Whether a flag is among others.
pub fn has_flag(flags: &Vec<ListingFlag>, flag: ListingFlag) -> (r: bool)
    ensures
        r == flags@.contains(flag),
{
    let mut i: usize = 0;
    while i < flags.len()
        invariant
            i <= flags@.len(),
            forall|j: int| 0 <= j < i ==> flags@[j] != flag,
        decreases flags.len() - i,
    {
        if flags[i] == flag {
            return true;
        }
        i = i + 1;
    }
    false
}

/// A copy of flags.
fn copy_flags(flags: &Vec<ListingFlag>) -> (r: Vec<ListingFlag>)
    ensures
        r@ == flags@,
{
    let mut r: Vec<ListingFlag> = Vec::new();
    let mut i: usize = 0;
    while i < flags.len()
        invariant
            i <= flags@.len(),
            r@ == flags@.take(i as int),
        decreases flags.len() - i,
    {
        r.push(flags[i]);
        i = i + 1;
        assert(r@ =~= flags@.take(i as int));
    }
    assert(flags@.take(i as int) =~= flags@);
    r
}

/// A single GPU offering from one provider, enriched with duration + cost estimates.
#[derive(Debug)]
pub struct RankedListing {
    /// Provider name (e.g. "RunPod", "Lambda", "Vast.ai").
    pub provider: String,
    /// GPU model name (e.g. "RTX 3090", "A100 SXM4 80GB").
    pub gpu_model: String,
    /// GPU VRAM in GiB.
    pub vram_gib: F64,
    /// Current hourly price in USD.
    pub hourly_usd: F64,
    /// The price of a day in USD: 24 times the hourly one.
    pub daily_usd: F64,
    /// Estimated training duration range; `None` when the number of dataset rows
    /// was not provided.
    pub duration_range: Option<DurationRange>,
    /// Estimated total cost range; `None` when the number of dataset rows was not
    /// provided.
    pub cost_range: Option<CostRange>,
    /// Availability at query time.
    pub availability: AvailabilityStatus,
    /// Flags that should be shown to the user.
    pub flags: Vec<ListingFlag>,
}

/// What a [`RankedListing`] says.
pub ghost struct RankedView {
    pub provider: Seq<char>,
    pub gpu_model: Seq<char>,
    pub vram_gib: F64,
    pub hourly_usd: F64,
    pub daily_usd: F64,
    pub duration_range: Option<DurationRange>,
    pub cost_range: Option<CostRange>,
    pub availability: AvailabilityStatus,
    pub flags: Seq<ListingFlag>,
}

impl View for RankedListing {
    type V = RankedView;

    open spec fn view(&self) -> RankedView {
        RankedView {
            provider: self.provider@,
            gpu_model: self.gpu_model@,
            vram_gib: self.vram_gib,
            hourly_usd: self.hourly_usd,
            daily_usd: self.daily_usd,
            duration_range: self.duration_range,
            cost_range: self.cost_range,
            availability: self.availability,
            flags: self.flags@,
        }
    }
}

impl RankedListing {
    /// Another listing that says the same.
    pub fn copy(&self) -> (r: RankedListing)
        ensures
            r@ == self@,
    {
        RankedListing {
            provider: self.provider.clone(),
            gpu_model: self.gpu_model.clone(),
            vram_gib: self.vram_gib,
            hourly_usd: self.hourly_usd,
            daily_usd: self.daily_usd,
            duration_range: self.duration_range,
            cost_range: self.cost_range,
            availability: self.availability,
            flags: copy_flags(&self.flags),
        }
    }
}

/// What a list of listings says.
pub open spec fn listings_view(v: Seq<RankedListing>) -> Seq<RankedView> {
    v.map_values(|l: RankedListing| l@)
}

/// Training duration range in seconds (low estimate to high estimate).
///
/// The range reflects MFU variability and real-world scheduling overhead rather
/// than false point-estimate precision.
#[derive(Clone, Copy, Debug, PartialEq, Eq, Structural)]
pub struct DurationRange {
    pub low_secs: F64,
    pub high_secs: F64,
}

/// The bits of 3600 in double precision.
pub const HOUR_SECS: u64 = 0x40ac_2000_0000_0000;

/// The ends of a duration range as text.
#[derive(Debug)]
pub struct DurationCells {
    /// Minutes without decimals.
    pub low_minutes: String,
    /// Minutes without decimals.
    pub high_minutes: String,
    /// Hours to one decimal.
    pub low_hours: String,
    /// Hours to one decimal.
    pub high_hours: String,
}

impl DurationRange {
    /// What a range is shown as: in minutes where it ends within an hour.
    pub open spec fn shown(self, cells: DurationCells) -> Seq<char> {
        if self.high_secs.below(F64::of(HOUR_SECS)) {
            cells.low_minutes@ + "–"@ + cells.high_minutes@ + "m"@
        } else {
            cells.low_hours@ + "–"@ + cells.high_hours@ + "h"@
        }
    }

    /// Formats the range as a human-readable string (e.g. "1.5–2.5h").
    pub fn display(&self, cells: &DurationCells) -> (r: String)
        ensures
            r@ == self.shown(*cells),
    {
        if self.high_secs.lt(F64::of(HOUR_SECS)) {
            let mut r = cells.low_minutes.clone();
            r.append("–");
            r.append(cells.high_minutes.as_str());
            r.append("m");
            r
        } else {
            let mut r = cells.low_hours.clone();
            r.append("–");
            r.append(cells.high_hours.as_str());
            r.append("h");
            r
        }
    }
}

/// Estimated total cost range in USD.
#[derive(Clone, Copy, Debug, PartialEq, Eq, Structural)]
pub struct CostRange {
    pub low_usd: F64,
    pub high_usd: F64,
}

/// The ends of a cost range as text.
#[derive(Debug)]
pub struct CostCells {
    /// Dollars to two decimals.
    pub low: String,
    /// Dollars to two decimals.
    pub high: String,
}

/// What a cost range is shown as.
pub open spec fn cost_text(cells: CostCells) -> Seq<char> {
    "$"@ + cells.low@ + "–$"@ + cells.high@
}

impl CostRange {
    /// Formats as a human-readable string (e.g. "$0.46–$0.70").
    pub fn display(&self, cells: &CostCells) -> (r: String)
        ensures
            r@ == cost_text(*cells),
    {
        let mut r = "$".to_owned();
        r.append(cells.low.as_str());
        r.append("–$");
        r.append(cells.high.as_str());
        r
    }
}

/// The figures of a listing as text.
#[derive(Debug)]
pub struct ListingCells {
    /// GiB without decimals.
    pub vram: String,
    /// Dollars to two decimals.
    pub hourly: String,
    pub duration: DurationCells,
    pub cost: CostCells,
}

/// The top pick, plus an optional conservative alternative.
#[derive(Debug)]
pub struct PlanRecommendation {
    /// The recommended listing (lowest estimated cost among available GPUs).
    pub listing: RankedListing,
    /// One-sentence explanation of why this listing was chosen.
    pub rationale: String,
    /// A stable-price alternative when the top recommendation is volatile. `None`
    /// when the top pick is already stable.
    pub safe_alternative: Option<RankedListing>,
}

/// A provider whose listings could not be fetched, with the reason.
#[derive(Debug)]
pub struct SkippedProvider {
    pub name: String,
    pub reason: String,
}

/// Complete output of a plan.
#[derive(Debug)]
pub struct PlanReport {
    /// Resolved model and VRAM analysis.
    pub workload: WorkloadSummary,
    /// All GPU listings that meet the VRAM requirement, sorted by estimated total
    /// cost (ascending). Listings that exceed the budget are included but flagged in
    /// the output.
    pub listings: Vec<RankedListing>,
    /// The recommended configuration, if at least one viable listing was found.
    pub recommendation: Option<PlanRecommendation>,
    /// Providers skipped due to API errors or timeouts.
    pub skipped_providers: Vec<SkippedProvider>,
}

/// A duration is shown in minutes exactly where it ends within an hour.
pub proof fn law_durations_are_shown_by_their_end(d: DurationRange, cells: DurationCells)
    ensures
        d.high_secs.below(F64::of(0x40ac_2000_0000_0000)) ==> d.shown(cells)
            == cells.low_minutes@ + "–"@ + cells.high_minutes@ + "m"@,
        !d.high_secs.below(F64::of(0x40ac_2000_0000_0000)) ==> d.shown(cells) == cells.low_hours@
            + "–"@ + cells.high_hours@ + "h"@,
        ("$"@ + cells.low_hours@).is_prefix_of(
            cost_text(CostCells { low: cells.low_hours, high: cells.high_hours }),
        ),
{
    let t = cost_text(CostCells { low: cells.low_hours, high: cells.high_hours });
    let head = "$"@ + cells.low_hours@;
    assert(head =~= t.take(head.len() as int));
}

/// What a listing says is what it holds.
pub proof fn law_listings_say_what_they_hold(l: RankedListing)
    ensures
        l@.provider == l.provider@,
        l@.gpu_model == l.gpu_model@,
        l@.vram_gib == l.vram_gib,
        l@.hourly_usd == l.hourly_usd,
        l@.daily_usd == l.daily_usd,
        l@.duration_range == l.duration_range,
        l@.cost_range == l.cost_range,
        l@.availability == l.availability,
        l@.flags == l.flags@,
{
}

} // verus!
