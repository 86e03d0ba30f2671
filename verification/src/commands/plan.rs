//! Selection, ranking and recommendation of GPU listings.
use vstd::prelude::*;

use crate::cli::Availability;
use crate::float::F64;
use crate::plan;
use crate::plan::providers;
use crate::plan::providers::GpuListing;
use crate::plan::{
    AvailabilityStatus, CostRange, DurationRange, ListingCells, ListingFlag, PlanRecommendation,
    PlanReport, RankedListing, SkippedProvider, WorkloadSummary,
};

verus! {

broadcast use vstd::string::group_string_axioms;

/// Whether a listing can be launched immediately.
pub open spec fn launchable(availability: AvailabilityStatus, flags: Seq<ListingFlag>) -> bool {
    availability == AvailabilityStatus::Available && !flags.contains(
        ListingFlag::CurrentlyUnavailable,
    )
}

/// Whether a listing can be launched immediately.
fn can_launch(availability: AvailabilityStatus, flags: &Vec<ListingFlag>) -> (r: bool)
    ensures
        r == launchable(availability, flags@),
{
    availability == AvailabilityStatus::Available && !plan::has_flag(
        flags,
        ListingFlag::CurrentlyUnavailable,
    )
}

/// Whether a listing meets the availability preference and the VRAM requirement.
pub open spec fn is_viable(
    l: providers::ListingView,
    availability: Availability,
    required_vram_gib: F64,
) -> bool {
    (availability == Availability::Now ==> launchable(l.availability, l.flags))
        && required_vram_gib.at_most(l.vram_gib)
}

/// Drops the listings that do not meet the availability preference or the VRAM
/// requirement.
pub fn viable_listings(
    listings: Vec<GpuListing>,
    availability: Availability,
    required_vram_gib: F64,
) -> (r: Vec<GpuListing>)
    ensures
        r@ == listings@.filter(|l: GpuListing| is_viable(l@, availability, required_vram_gib)),
{
    let ghost all = listings@;
    let ghost keep = |l: GpuListing| is_viable(l@, availability, required_vram_gib);
    let mut rest = listings;
    let mut r: Vec<GpuListing> = Vec::new();
    let mut i: usize = 0;
    let n: usize = rest.len();
    proof {
        reveal(Seq::filter);
    }
    assert(all.skip(0) =~= all);
    while i < n
        invariant
            i <= n,
            n == all.len(),
            rest@ == all.skip(i as int),
            keep == |l: GpuListing| is_viable(l@, availability, required_vram_gib),
            r@ == all.take(i as int).filter(keep),
        decreases n - i,
    {
        let l = rest.remove(0);
        assert(l == all[i as int]);
        assert(rest@ =~= all.skip(i + 1));
        proof {
            reveal(Seq::filter);
            assert(all.take(i + 1).drop_last() =~= all.take(i as int));
        }
        let launch = match availability {
            Availability::Now => can_launch(l.availability, &l.flags),
            Availability::Flexible => true,
        };
        assert(keep(l) == (launch && required_vram_gib.at_most(l.vram_gib)));
        if launch && l.vram_gib.ge(required_vram_gib) {
            r.push(l);
        }
        i = i + 1;
    }
    assert(all.take(n as int) =~= all);
    r
}

/// What a listing says with what is estimated of its duration and cost.
pub open spec fn enriched(
    listing: providers::ListingView,
    daily_usd: F64,
    estimate: Option<(DurationRange, CostRange)>,
) -> plan::RankedView {
    plan::RankedView {
        provider: listing.provider,
        gpu_model: listing.gpu_model,
        vram_gib: listing.vram_gib,
        hourly_usd: listing.hourly_usd,
        daily_usd,
        duration_range: match estimate {
            Some(e) => Some(e.0),
            None => None,
        },
        cost_range: match estimate {
            Some(e) => Some(e.1),
            None => None,
        },
        availability: listing.availability,
        flags: listing.flags,
    }
}

/// Enriches a listing with what is estimated of its duration and cost.
pub fn estimated(
    listing: GpuListing,
    daily_usd: F64,
    estimate: Option<(DurationRange, CostRange)>,
) -> (r: RankedListing)
    ensures
        r@ == enriched(listing@, daily_usd, estimate),
{
    let mut r = listing.into_ranked(daily_usd);
    if let Some((duration, cost)) = estimate {
        r.duration_range = Some(duration);
        r.cost_range = Some(cost);
    }
    r
}

/// What a listing is ranked by: the estimated low cost, otherwise the price of a day
/// as a rough proxy.
pub open spec fn rank_key(l: plan::RankedView) -> F64 {
    match l.cost_range {
        Some(c) => c.low_usd,
        None => l.daily_usd,
    }
}

/// What a listing is ranked by.
pub fn sort_key(l: &RankedListing) -> (r: F64)
    ensures
        r == rank_key(l@),
{
    match l.cost_range {
        Some(c) => c.low_usd,
        None => l.daily_usd,
    }
}

/// The index of the first listing that is dearer than `key`; the length where there
/// is none.
pub open spec fn place(listings: Seq<plan::RankedView>, key: F64) -> int
    decreases listings.len(),
{
    if listings.len() == 0 || key.below(rank_key(listings[0])) {
        0
    } else {
        1 + place(listings.drop_first(), key)
    }
}

/// The listings in ascending order, equal ones in the order in which they came: each
/// stands before the first dearer one.
pub open spec fn ranking(listings: Seq<plan::RankedView>) -> Seq<plan::RankedView>
    decreases listings.len(),
{
    if listings.len() == 0 {
        Seq::empty()
    } else {
        let before = ranking(listings.drop_last());
        before.insert(place(before, rank_key(listings.last())), listings.last())
    }
}

proof fn lemma_place(listings: Seq<plan::RankedView>, key: F64)
    ensures
        0 <= place(listings, key) <= listings.len(),
        place(listings, key) < listings.len() ==> key.below(
            rank_key(listings[place(listings, key)]),
        ),
        forall|j: int|
            0 <= j < place(listings, key) ==> !key.below(rank_key(#[trigger] listings[j])),
    decreases listings.len(),
{
    if listings.len() > 0 && !key.below(rank_key(listings[0])) {
        let rest = listings.drop_first();
        lemma_place(rest, key);
        assert forall|j: int| 0 <= j < place(listings, key) implies !key.below(
            rank_key(#[trigger] listings[j]),
        ) by {
            if j > 0 {
                assert(listings[j] == rest[j - 1]);
            }
        }
        if place(listings, key) < listings.len() {
            assert(listings[place(listings, key)] == rest[place(rest, key)]);
        }
    }
}

/// Ranking neither adds nor loses a listing.
pub proof fn law_ranking_keeps_the_listings(listings: Seq<plan::RankedView>)
    ensures
        ranking(listings).to_multiset() == listings.to_multiset(),
        ranking(listings).len() == listings.len(),
    decreases listings.len(),
{
    broadcast use vstd::seq_lib::group_to_multiset_ensures;

    if listings.len() > 0 {
        let before = ranking(listings.drop_last());
        law_ranking_keeps_the_listings(listings.drop_last());
        lemma_place(before, rank_key(listings.last()));
        assert(listings =~= listings.drop_last().push(listings.last()));
        let i = place(before, rank_key(listings.last()));
        vstd::seq_lib::to_multiset_insert(before, i, listings.last());
    } else {
        assert(ranking(listings) =~= listings);
    }
}

/// Whether every listing is ranked by a number.
pub open spec fn all_keyed(listings: Seq<plan::RankedView>) -> bool {
    forall|i: int| 0 <= i < listings.len() ==> !rank_key(#[trigger] listings[i]).not_a_number()
}

/// Whether no listing is dearer than a later one.
pub open spec fn ascends(listings: Seq<plan::RankedView>) -> bool {
    forall|i: int, j: int|
        0 <= i <= j < listings.len() ==> rank_key(#[trigger] listings[i]).at_most(
            rank_key(#[trigger] listings[j]),
        )
}

/// Ranked listings ascend.
pub proof fn law_ranking_ascends(listings: Seq<plan::RankedView>)
    requires
        all_keyed(listings),
    ensures
        ascends(ranking(listings)),
        all_keyed(ranking(listings)),
    decreases listings.len(),
{
    if listings.len() > 0 {
        let before = ranking(listings.drop_last());
        let x = listings.last();
        assert(all_keyed(listings.drop_last()));
        law_ranking_ascends(listings.drop_last());
        lemma_place(before, rank_key(x));
        let p = place(before, rank_key(x));
        let after = ranking(listings);
        assert(!rank_key(listings[listings.len() - 1]).not_a_number());
        assert forall|i: int| 0 <= i < after.len() implies after[i] == (if i < p {
            before[i]
        } else if i == p {
            x
        } else {
            before[i - 1]
        }) by {}
        assert forall|i: int, j: int| 0 <= i <= j < after.len() implies rank_key(
            #[trigger] after[i],
        ).at_most(rank_key(#[trigger] after[j])) by {
            if i < p {
                assert(rank_key(before[i]).at_most(rank_key(before[i])));
                assert(!rank_key(x).below(rank_key(before[i])));
            }
            if p < j {
                assert(rank_key(before[p]).at_most(rank_key(before[j - 1])));
            }
        }
        assert forall|i: int| 0 <= i < after.len() implies !rank_key(
            #[trigger] after[i],
        ).not_a_number() by {
            if i != p {
                let k = if i < p {
                    i
                } else {
                    i - 1
                };
                assert(after[i] == before[k]);
            }
        }
    }
}

/// The listings that are ranked by a given key, in order.
pub open spec fn ranked_by(listings: Seq<plan::RankedView>, code: int) -> Seq<plan::RankedView> {
    listings.filter(|l: plan::RankedView| rank_key(l).code() == code)
}

proof fn lemma_ranked_by_parts(
    a: Seq<plan::RankedView>,
    b: Seq<plan::RankedView>,
    code: int,
)
    ensures
        ranked_by(a + b, code) == ranked_by(a, code) + ranked_by(b, code),
{
    Seq::filter_distributes_over_add(a, b, |l: plan::RankedView| rank_key(l).code() == code);
}

proof fn lemma_none_ranked_by(listings: Seq<plan::RankedView>, code: int)
    requires
        forall|i: int| 0 <= i < listings.len() ==> rank_key(#[trigger] listings[i]).code() != code,
    ensures
        ranked_by(listings, code) == Seq::<plan::RankedView>::empty(),
    decreases listings.len(),
{
    reveal(Seq::filter);
    if listings.len() > 0 {
        lemma_none_ranked_by(listings.drop_last(), code);
    }
}

/// Listings of the same key stay in the order in which they came.
pub proof fn law_ranking_is_stable(listings: Seq<plan::RankedView>, code: int)
    requires
        all_keyed(listings),
    ensures
        ranked_by(ranking(listings), code) == ranked_by(listings, code),
    decreases listings.len(),
{
    if listings.len() > 0 {
        let rest = listings.drop_last();
        let before = ranking(rest);
        let x = listings.last();
        assert(all_keyed(rest));
        law_ranking_is_stable(rest, code);
        law_ranking_ascends(rest);
        lemma_place(before, rank_key(x));
        let p = place(before, rank_key(x));
        let low = before.take(p);
        let high = before.skip(p);
        let one = seq![x];
        assert(before =~= low + high);
        assert(ranking(listings) =~= low + one + high);
        assert(listings =~= rest + one);
        lemma_ranked_by_parts(low, high, code);
        lemma_ranked_by_parts(low + one, high, code);
        lemma_ranked_by_parts(low, one, code);
        lemma_ranked_by_parts(rest, one, code);
        if rank_key(x).code() == code {
            assert(!rank_key(listings[listings.len() - 1]).not_a_number());
            assert forall|i: int| 0 <= i < high.len() implies rank_key(#[trigger] high[i]).code()
                != code by {
                assert(high[i] == before[p + i]);
                assert(rank_key(before[p]).at_most(rank_key(before[p + i])));
            }
            lemma_none_ranked_by(high, code);
            assert(ranked_by(low, code) + ranked_by(one, code) + Seq::empty() =~= ranked_by(
                low,
                code,
            ) + Seq::empty() + ranked_by(one, code));
        } else {
            lemma_none_ranked_by(one, code);
            assert(ranked_by(low, code) + Seq::empty() + ranked_by(high, code) =~= ranked_by(
                low,
                code,
            ) + ranked_by(high, code) + Seq::empty());
        }
    } else {
        assert(ranking(listings) =~= listings);
    }
}

/// The index of the first listing that is dearer than `key`.
fn place_of(listings: &Vec<RankedListing>, key: F64) -> (r: usize)
    ensures
        r == place(plan::listings_view(listings@), key),
        r <= listings@.len(),
{
    let ghost all = plan::listings_view(listings@);
    let mut i: usize = 0;
    assert(all.skip(0) =~= all);
    while i < listings.len()
        invariant
            i <= listings@.len(),
            all == plan::listings_view(listings@),
            place(all, key) == i + place(all.skip(i as int), key),
        decreases listings.len() - i,
    {
        assert(all.skip(i as int)[0] == listings@[i as int]@);
        assert(all.skip(i as int).drop_first() =~= all.skip(i + 1));
        if key.lt(sort_key(&listings[i])) {
            return i;
        }
        i = i + 1;
    }
    i
}

/// Sorts listings primarily by estimated low cost; those without an estimate go by
/// the price of a day.
pub fn rank(listings: Vec<RankedListing>) -> (r: Vec<RankedListing>)
    ensures
        plan::listings_view(r@) == ranking(plan::listings_view(listings@)),
{
    let ghost all = plan::listings_view(listings@);
    let mut rest = listings;
    let mut r: Vec<RankedListing> = Vec::new();
    let mut i: usize = 0;
    let n: usize = rest.len();
    assert(plan::listings_view(r@) =~= ranking(all.take(0)));
    assert(all.skip(0) =~= all);
    while i < n
        invariant
            i <= n,
            n == all.len(),
            plan::listings_view(rest@) == all.skip(i as int),
            plan::listings_view(r@) == ranking(all.take(i as int)),
        decreases n - i,
    {
        let ghost before = plan::listings_view(r@);
        let ghost left = rest@;
        assert(plan::listings_view(left).len() == n - i);
        let l = rest.remove(0);
        assert(l@ == plan::listings_view(left)[0]);
        assert(l@ == all[i as int]);
        assert(plan::listings_view(rest@) =~= plan::listings_view(left).drop_first());
        assert(all.skip(i as int).drop_first() =~= all.skip(i + 1));
        assert(all.take(i + 1).drop_last() =~= all.take(i as int));
        let ghost new = l@;
        let p: usize = place_of(&r, sort_key(&l));
        r.insert(p, l);
        assert(plan::listings_view(r@) =~= before.insert(p as int, new));
        i = i + 1;
    }
    assert(all.take(n as int) =~= all);
    r
}

/// Whether a listing's estimate is above the budget.
pub open spec fn over_budget(l: plan::RankedView, budget: Option<F64>) -> bool {
    match (budget, l.cost_range) {
        (Some(b), Some(c)) => b.below(c.low_usd),
        _ => false,
    }
}

/// Whether a listing's estimate is above the budget; never so without either.
pub fn exceeds_budget(l: &RankedListing, budget: Option<F64>) -> (r: bool)
    ensures
        r == over_budget(l@, budget),
{
    match budget {
        Some(b) => match l.cost_range {
            Some(c) => c.low_usd.gt(b),
            None => false,
        },
        None => false,
    }
}

/// Whether a listing has no estimate, or one within the budget.
pub open spec fn affordable(l: plan::RankedView, budget: F64) -> bool {
    match l.cost_range {
        Some(c) => c.low_usd.at_most(budget),
        None => true,
    }
}

/// Whether no listing is affordable.
pub open spec fn none_affordable(listings: Seq<plan::RankedView>, budget: F64) -> bool {
    forall|i: int| 0 <= i < listings.len() ==> !affordable(#[trigger] listings[i], budget)
}

/// The note that nothing fits the budget.
pub open spec fn budget_reason(
    cheapest: plan::RankedView,
    budget: Seq<char>,
    over_by: Seq<char>,
) -> Seq<char> {
    "No option fits within your $"@ + budget + " budget. Cheapest option ("@ + cheapest.provider
        + " "@ + cheapest.gpu_model + ") is ~$"@ + over_by + " over budget."@
}

/// The figures of a budget as text.
#[derive(Debug)]
pub struct BudgetCells {
    /// Dollars to two decimals.
    pub budget: String,
    /// What the cheapest listing costs above it, in dollars to two decimals.
    pub over_by: String,
}

/// The note that nothing fits the budget, if that is so.
pub open spec fn note_view(
    listings: Seq<plan::RankedView>,
    budget: Option<F64>,
    cells: BudgetCells,
) -> Seq<(Seq<char>, Seq<char>)> {
    match budget {
        Some(b) => if listings.len() > 0 && none_affordable(listings, b) {
            seq![
                (
                    "budget-filter"@,
                    budget_reason(listings[0], cells.budget@, cells.over_by@),
                ),
            ]
        } else {
            Seq::empty()
        },
        None => Seq::empty(),
    }
}

/// The note that nothing fits the budget, where there are listings and none is
/// affordable.
pub fn budget_note(
    listings: &Vec<RankedListing>,
    budget: Option<F64>,
    cells: &BudgetCells,
) -> (r: Option<SkippedProvider>)
    ensures
        match r {
            Some(s) => note_view(plan::listings_view(listings@), budget, *cells)
                == seq![providers::skip_view(s)],
            None => note_view(plan::listings_view(listings@), budget, *cells).len() == 0,
        },
{
    let ghost all = plan::listings_view(listings@);
    let limit = match budget {
        Some(b) => b,
        None => {
            return None;
        },
    };
    let mut i: usize = 0;
    while i < listings.len()
        invariant
            i <= listings@.len(),
            all == plan::listings_view(listings@),
            budget == Some(limit),
            forall|j: int| 0 <= j < i ==> !affordable(#[trigger] all[j], limit),
        decreases listings.len() - i,
    {
        assert(all[i as int] == listings@[i as int]@);
        let fine = match listings[i].cost_range {
            Some(c) => c.low_usd.le(limit),
            None => true,
        };
        if fine {
            assert(affordable(all[i as int], limit));
            return None;
        }
        i = i + 1;
    }
    if listings.len() == 0 {
        return None;
    }
    assert(all[0] == listings@[0]@);
    let mut reason = "No option fits within your $".to_owned();
    reason.append(cells.budget.as_str());
    reason.append(" budget. Cheapest option (");
    reason.append(listings[0].provider.as_str());
    reason.append(" ");
    reason.append(listings[0].gpu_model.as_str());
    reason.append(") is ~$");
    reason.append(cells.over_by.as_str());
    reason.append(" over budget.");
    Some(SkippedProvider { name: "budget-filter".to_owned(), reason })
}

/// Whether a listing may be recommended: it can be launched, and its estimate is not
/// above the budget.
pub open spec fn is_candidate(l: plan::RankedView, budget: Option<F64>) -> bool {
    launchable(l.availability, l.flags) && !over_budget(l, budget)
}

/// Whether a listing may be recommended.
fn may_recommend(l: &RankedListing, budget: Option<F64>) -> (r: bool)
    ensures
        r == is_candidate(l@, budget),
{
    can_launch(l.availability, &l.flags) && !exceeds_budget(l, budget)
}

/// Whether a candidate's price is stable and it is ranked no higher than `limit`.
pub open spec fn is_safe(l: plan::RankedView, budget: Option<F64>, limit: F64) -> bool {
    is_candidate(l, budget) && !l.flags.contains(ListingFlag::PriceVolatile)
        && rank_key(l).at_most(limit)
}

/// The index of the first candidate; the length where there is none.
pub open spec fn top_index(listings: Seq<plan::RankedView>, budget: Option<F64>) -> int
    decreases listings.len(),
{
    if listings.len() == 0 || is_candidate(listings[0], budget) {
        0
    } else {
        1 + top_index(listings.drop_first(), budget)
    }
}

/// The index of the first safe listing; the length where there is none.
pub open spec fn safe_index(
    listings: Seq<plan::RankedView>,
    budget: Option<F64>,
    limit: F64,
) -> int
    decreases listings.len(),
{
    if listings.len() == 0 || is_safe(listings[0], budget, limit) {
        0
    } else {
        1 + safe_index(listings.drop_first(), budget, limit)
    }
}

/// Why a listing is recommended.
pub open spec fn rationale(l: plan::RankedView, cells: ListingCells) -> Seq<char> {
    let cost = match l.cost_range {
        Some(_) => "an estimated total cost of "@ + plan::cost_text(cells.cost),
        None => "$"@ + cells.hourly@ + "/hr"@,
    };
    l.provider + " "@ + l.gpu_model + " ("@ + cells.vram@ + " GiB VRAM) offers "@ + cost
        + " for this workload."@
}

/// Why a listing is recommended.
pub fn build_rationale(listing: &RankedListing, cells: &ListingCells) -> (r: String)
    ensures
        r@ == rationale(listing@, *cells),
{
    let cost = match &listing.cost_range {
        Some(c) => {
            let mut s = "an estimated total cost of ".to_owned();
            s.append(c.display(&cells.cost).as_str());
            s
        },
        None => {
            let mut s = "$".to_owned();
            s.append(cells.hourly.as_str());
            s.append("/hr");
            s
        },
    };
    let mut r = listing.provider.clone();
    r.append(" ");
    r.append(listing.gpu_model.as_str());
    r.append(" (");
    r.append(cells.vram.as_str());
    r.append(" GiB VRAM) offers ");
    r.append(cost.as_str());
    r.append(" for this workload.");
    r
}

/// Whether `r` is what is recommended among ranked listings.
pub open spec fn is_recommendation(
    listings: Seq<plan::RankedView>,
    budget: Option<F64>,
    limits: Seq<F64>,
    cells: Seq<ListingCells>,
    r: Option<PlanRecommendation>,
) -> bool {
    let i = top_index(listings, budget);
    match r {
        None => i == listings.len(),
        Some(rec) => {
            let volatile = listings[i].flags.contains(ListingFlag::PriceVolatile);
            let j = safe_index(listings, budget, limits[i]);
            &&& i < listings.len()
            &&& rec.listing@ == listings[i]
            &&& rec.rationale@ == rationale(listings[i], cells[i])
            &&& match rec.safe_alternative {
                Some(alternative) => volatile && j < listings.len() && alternative@ == listings[j],
                None => !volatile || j == listings.len(),
            }
        },
    }
}

proof fn lemma_top_index(listings: Seq<plan::RankedView>, budget: Option<F64>)
    ensures
        0 <= top_index(listings, budget) <= listings.len(),
        top_index(listings, budget) < listings.len() ==> is_candidate(
            listings[top_index(listings, budget)],
            budget,
        ),
        forall|j: int|
            0 <= j < top_index(listings, budget) ==> !is_candidate(#[trigger] listings[j], budget),
    decreases listings.len(),
{
    if listings.len() > 0 && !is_candidate(listings[0], budget) {
        let rest = listings.drop_first();
        lemma_top_index(rest, budget);
        assert forall|j: int| 0 <= j < top_index(listings, budget) implies !is_candidate(
            #[trigger] listings[j],
            budget,
        ) by {
            if j > 0 {
                assert(listings[j] == rest[j - 1]);
            }
        }
        if top_index(listings, budget) < listings.len() {
            assert(listings[top_index(listings, budget)] == rest[top_index(rest, budget)]);
        }
    }
}

proof fn lemma_safe_index(listings: Seq<plan::RankedView>, budget: Option<F64>, limit: F64)
    ensures
        0 <= safe_index(listings, budget, limit) <= listings.len(),
        safe_index(listings, budget, limit) < listings.len() ==> is_safe(
            listings[safe_index(listings, budget, limit)],
            budget,
            limit,
        ),
    decreases listings.len(),
{
    if listings.len() > 0 && !is_safe(listings[0], budget, limit) {
        let rest = listings.drop_first();
        lemma_safe_index(rest, budget, limit);
        if safe_index(listings, budget, limit) < listings.len() {
            assert(listings[safe_index(listings, budget, limit)] == rest[safe_index(
                rest,
                budget,
                limit,
            )]);
        }
    }
}

/// What is recommended can be launched and is not over the budget, and no listing of
/// which that holds is cheaper.
pub proof fn law_recommendation_is_cheapest(
    listings: Seq<plan::RankedView>,
    budget: Option<F64>,
    limits: Seq<F64>,
    cells: Seq<ListingCells>,
    r: Option<PlanRecommendation>,
    k: int,
)
    requires
        ascends(listings),
        is_recommendation(listings, budget, limits, cells, r),
        0 <= k < listings.len(),
        is_candidate(listings[k], budget),
    ensures
        r matches Some(rec) && is_candidate(rec.listing@, budget) && rank_key(rec.listing@).at_most(
            rank_key(listings[k]),
        ),
{
    lemma_top_index(listings, budget);
    let i = top_index(listings, budget);
    assert(i <= k);
    assert(rank_key(listings[i]).at_most(rank_key(listings[k])));
}

/// Neither what is recommended nor its alternative is over the budget. Nothing is
/// recommended exactly where every listing is over the budget or cannot be launched.
pub proof fn law_recommendation_keeps_the_budget(
    listings: Seq<plan::RankedView>,
    budget: Option<F64>,
    limits: Seq<F64>,
    cells: Seq<ListingCells>,
    r: Option<PlanRecommendation>,
)
    requires
        is_recommendation(listings, budget, limits, cells, r),
    ensures
        match r {
            Some(rec) => !over_budget(rec.listing@, budget) && (rec.safe_alternative matches Some(a)
                ==> !over_budget(a@, budget)),
            None => true,
        },
        r is None <==> forall|i: int|
            0 <= i < listings.len() ==> over_budget(#[trigger] listings[i], budget) || !launchable(
                listings[i].availability,
                listings[i].flags,
            ),
{
    let i = top_index(listings, budget);
    lemma_top_index(listings, budget);
    lemma_safe_index(listings, budget, limits[i]);
}

/// A safe alternative can be launched, its price is stable, and it is within the
/// limit of a volatile top pick.
pub proof fn law_alternative_is_safe(
    listings: Seq<plan::RankedView>,
    budget: Option<F64>,
    limits: Seq<F64>,
    cells: Seq<ListingCells>,
    rec: PlanRecommendation,
)
    requires
        is_recommendation(listings, budget, limits, cells, Some(rec)),
    ensures
        rec.safe_alternative matches Some(a) ==> is_safe(
            a@,
            budget,
            limits[top_index(listings, budget)],
        ) && rec.listing.flags@.contains(ListingFlag::PriceVolatile),
{
    lemma_safe_index(listings, budget, limits[top_index(listings, budget)]);
}

/// The index of the first candidate.
fn find_top(listings: &Vec<RankedListing>, budget: Option<F64>) -> (r: usize)
    ensures
        r == top_index(plan::listings_view(listings@), budget),
        r <= listings@.len(),
{
    let ghost all = plan::listings_view(listings@);
    let mut i: usize = 0;
    assert(all.skip(0) =~= all);
    while i < listings.len()
        invariant
            i <= listings@.len(),
            all == plan::listings_view(listings@),
            top_index(all, budget) == i + top_index(all.skip(i as int), budget),
        decreases listings.len() - i,
    {
        assert(all.skip(i as int)[0] == listings@[i as int]@);
        assert(all.skip(i as int).drop_first() =~= all.skip(i + 1));
        if may_recommend(&listings[i], budget) {
            return i;
        }
        i = i + 1;
    }
    i
}

/// The index of the first safe listing.
fn find_safe(listings: &Vec<RankedListing>, budget: Option<F64>, limit: F64) -> (r: usize)
    ensures
        r == safe_index(plan::listings_view(listings@), budget, limit),
        r <= listings@.len(),
{
    let ghost all = plan::listings_view(listings@);
    let mut i: usize = 0;
    assert(all.skip(0) =~= all);
    while i < listings.len()
        invariant
            i <= listings@.len(),
            all == plan::listings_view(listings@),
            safe_index(all, budget, limit) == i + safe_index(all.skip(i as int), budget, limit),
        decreases listings.len() - i,
    {
        assert(all.skip(i as int)[0] == listings@[i as int]@);
        assert(all.skip(i as int).drop_first() =~= all.skip(i + 1));
        let l = &listings[i];
        if may_recommend(l, budget) && !plan::has_flag(&l.flags, ListingFlag::PriceVolatile)
            && sort_key(l).le(limit) {
            return i;
        }
        i = i + 1;
    }
    i
}

/// The recommendation among ranked listings: the first that can be launched and is not
/// over the budget. Where its price is volatile, the first stable such listing within
/// half its cost more is offered beside it.
///
/// `limits` holds one and a half times the key of each listing.
pub fn build_recommendation(
    ranked: &Vec<RankedListing>,
    budget: Option<F64>,
    limits: &Vec<F64>,
    cells: &Vec<ListingCells>,
) -> (r: Option<PlanRecommendation>)
    requires
        limits@.len() == ranked@.len(),
        cells@.len() == ranked@.len(),
    ensures
        is_recommendation(plan::listings_view(ranked@), budget, limits@, cells@, r),
{
    let ghost all = plan::listings_view(ranked@);
    let i: usize = find_top(ranked, budget);
    if i == ranked.len() {
        return None;
    }
    let best = &ranked[i];
    assert(all[i as int] == best@);
    let safe_alternative = if plan::has_flag(&best.flags, ListingFlag::PriceVolatile) {
        let j: usize = find_safe(ranked, budget, limits[i]);
        if j < ranked.len() {
            assert(all[j as int] == ranked@[j as int]@);
            Some(ranked[j].copy())
        } else {
            None
        }
    } else {
        None
    };
    Some(
        PlanRecommendation {
            listing: best.copy(),
            rationale: build_rationale(best, &cells[i]),
            safe_alternative,
        },
    )
}

/// The report of a plan: the ranked listings, what is recommended among them, and
/// the skipped providers with a note where nothing fits the budget.
pub fn plan_report(
    workload: WorkloadSummary,
    ranked: Vec<RankedListing>,
    skipped: Vec<SkippedProvider>,
    budget: Option<F64>,
    budget_cells: &BudgetCells,
    limits: &Vec<F64>,
    cells: &Vec<ListingCells>,
) -> (r: PlanReport)
    requires
        limits@.len() == ranked@.len(),
        cells@.len() == ranked@.len(),
    ensures
        r.workload == workload,
        r.listings == ranked,
        is_recommendation(
            plan::listings_view(ranked@),
            budget,
            limits@,
            cells@,
            r.recommendation,
        ),
        providers::skipped_view(r.skipped_providers@) == providers::skipped_view(skipped@)
            + note_view(plan::listings_view(ranked@), budget, *budget_cells),
{
    let mut skipped = skipped;
    let ghost before = skipped@;
    match budget_note(&ranked, budget, budget_cells) {
        Some(note) => {
            let ghost said = providers::skip_view(note);
            skipped.push(note);
            assert(providers::skipped_view(skipped@) =~= providers::skipped_view(before)
                + seq![said]);
        },
        None => {
            assert(providers::skipped_view(before) =~= providers::skipped_view(before) + note_view(
                plan::listings_view(ranked@),
                budget,
                *budget_cells,
            ));
        },
    }
    let recommendation = build_recommendation(&ranked, budget, limits, cells);
    PlanReport { workload, listings: ranked, recommendation, skipped_providers: skipped }
}

/// A listing is kept exactly where its VRAM is enough and, if it has to be available at
/// once, it is available and not flagged as unavailable.
pub proof fn law_viable_listings_have_the_memory(l: providers::ListingView, required: F64)
    ensures
        is_viable(l, Availability::Flexible, required) <==> required.at_most(l.vram_gib),
        is_viable(l, Availability::Now, required) <==> required.at_most(l.vram_gib)
            && l.availability == AvailabilityStatus::Available && !l.flags.contains(
            ListingFlag::CurrentlyUnavailable,
        ),
{
}

/// Ranked listings ascend by the low end of their estimated cost; one without an estimate
/// counts by the price of a day.
pub proof fn law_cheaper_listings_come_first(listings: Seq<plan::RankedView>, i: int, j: int)
    requires
        forall|k: int|
            0 <= k < listings.len() ==> !(match (#[trigger] listings[k]).cost_range {
                Some(c) => c.low_usd,
                None => listings[k].daily_usd,
            }).not_a_number(),
        0 <= i < j < ranking(listings).len(),
    ensures
        ({
            let a = ranking(listings)[i];
            let b = ranking(listings)[j];
            match (a.cost_range, b.cost_range) {
                (Some(c), Some(d)) => c.low_usd.at_most(d.low_usd),
                (Some(c), None) => c.low_usd.at_most(b.daily_usd),
                (None, Some(d)) => a.daily_usd.at_most(d.low_usd),
                (None, None) => a.daily_usd.at_most(b.daily_usd),
            }
        }),
{
    assert forall|k: int| 0 <= k < listings.len() implies !rank_key(
        #[trigger] listings[k],
    ).not_a_number() by {
        assert(!(match listings[k].cost_range {
            Some(c) => c.low_usd,
            None => listings[k].daily_usd,
        }).not_a_number());
    }
    law_ranking_ascends(listings);
    assert(rank_key(ranking(listings)[i]).at_most(rank_key(ranking(listings)[j])));
}

/// What is recommended can be launched and costs no more, at the low end, than any
/// listing that can be launched and whose estimate is within the budget.
pub proof fn law_recommendation_has_the_lowest_estimate(
    listings: Seq<plan::RankedView>,
    budget: F64,
    limits: Seq<F64>,
    cells: Seq<ListingCells>,
    rec: PlanRecommendation,
    k: int,
)
    requires
        ascends(listings),
        is_recommendation(listings, Some(budget), limits, cells, Some(rec)),
        0 <= k < listings.len(),
        listings[k].availability == AvailabilityStatus::Available,
        !listings[k].flags.contains(ListingFlag::CurrentlyUnavailable),
        listings[k].cost_range matches Some(c) && c.low_usd.at_most(budget),
    ensures
        rec.listing.availability == AvailabilityStatus::Available,
        !rec.listing.flags@.contains(ListingFlag::CurrentlyUnavailable),
        rec.listing.cost_range matches Some(c) ==> !budget.below(c.low_usd) && c.low_usd.at_most(
            listings[k].cost_range->0.low_usd,
        ),
{
    law_recommendation_is_cheapest(listings, Some(budget), limits, cells, Some(rec), k);
}

/// A listing that can be launched is recommended where there is one and no budget was
/// set, and the first such listing is.
pub proof fn law_first_available_listing_is_recommended(
    listings: Seq<plan::RankedView>,
    limits: Seq<F64>,
    cells: Seq<ListingCells>,
    r: Option<PlanRecommendation>,
    k: int,
)
    requires
        is_recommendation(listings, None, limits, cells, r),
        0 <= k < listings.len(),
        listings[k].availability == AvailabilityStatus::Available,
        !listings[k].flags.contains(ListingFlag::CurrentlyUnavailable),
        forall|j: int|
            0 <= j < k ==> (#[trigger] listings[j]).availability != AvailabilityStatus::Available
                || listings[j].flags.contains(ListingFlag::CurrentlyUnavailable),
    ensures
        r matches Some(rec) && rec.listing@ == listings[k] && (listings[k].provider).is_prefix_of(
            rec.rationale@,
        ),
{
    lemma_top_index(listings, None);
    let i = top_index(listings, None);
    assert(is_candidate(listings[k], None));
    if i < k {
        assert(is_candidate(listings[i], None));
    }
    assert(i == k);
    let text = rationale(listings[k], cells[k]);
    let p = listings[k].provider;
    assert(p =~= text.take(p.len() as int));
}

/// A volatile pick has an alternative exactly where a listing that can be launched has a
/// stable price, is within the budget and is ranked no higher than the pick's limit; a
/// stable pick has none.
pub proof fn law_volatile_picks_have_an_alternative(
    listings: Seq<plan::RankedView>,
    budget: Option<F64>,
    limits: Seq<F64>,
    cells: Seq<ListingCells>,
    rec: PlanRecommendation,
    i: int,
    k: int,
)
    requires
        is_recommendation(listings, budget, limits, cells, Some(rec)),
        i == top_index(listings, budget),
        0 <= k < listings.len(),
    ensures
        !listings[i].flags.contains(ListingFlag::PriceVolatile) ==> rec.safe_alternative is None,
        listings[i].flags.contains(ListingFlag::PriceVolatile) && listings[k].availability
            == AvailabilityStatus::Available && !listings[k].flags.contains(
            ListingFlag::CurrentlyUnavailable,
        ) && !listings[k].flags.contains(ListingFlag::PriceVolatile) && (match (
            budget,
            listings[k].cost_range,
        ) {
            (Some(b), Some(c)) => c.low_usd.at_most(b),
            _ => true,
        }) && (match listings[k].cost_range {
            Some(c) => c.low_usd.at_most(limits[i]),
            None => listings[k].daily_usd.at_most(limits[i]),
        }) ==> rec.safe_alternative is Some,
        rec.safe_alternative matches Some(a) ==> a.availability == AvailabilityStatus::Available
            && !a.flags@.contains(ListingFlag::CurrentlyUnavailable) && !a.flags@.contains(
            ListingFlag::PriceVolatile,
        ) && (match a.cost_range {
            Some(c) => c.low_usd.at_most(limits[i]),
            None => a.daily_usd.at_most(limits[i]),
        }),
{
    let limit = limits[i];
    lemma_safe_index(listings, budget, limit);
    lemma_safe_is_first(listings, budget, limit, k);
}

proof fn lemma_safe_is_first(
    listings: Seq<plan::RankedView>,
    budget: Option<F64>,
    limit: F64,
    k: int,
)
    requires
        0 <= k < listings.len(),
    ensures
        is_safe(listings[k], budget, limit) ==> safe_index(listings, budget, limit) <= k,
    decreases listings.len(),
{
    if k > 0 && !is_safe(listings[0], budget, limit) {
        assert(listings.drop_first()[k - 1] == listings[k]);
        lemma_safe_is_first(listings.drop_first(), budget, limit, k - 1);
    }
}

/// An estimate is over a budget exactly where its low end is above it; without either
/// there is nothing to exceed.
pub proof fn law_budgets_bound_the_low_end(l: plan::RankedView, budget: F64)
    ensures
        !over_budget(l, None),
        over_budget(l, Some(budget)) <==> (l.cost_range matches Some(c) && budget.below(c.low_usd)),
{
}

/// It is noted that nothing fits exactly where there are listings and each has an
/// estimate that is not within the budget; the note names the first listing.
pub proof fn law_unaffordable_plans_are_noted(
    listings: Seq<plan::RankedView>,
    budget: Option<F64>,
    cells: BudgetCells,
)
    ensures
        note_view(listings, budget, cells).len() > 0 <==> (budget matches Some(b) && listings.len()
            > 0 && forall|i: int|
            0 <= i < listings.len() ==> ((#[trigger] listings[i]).cost_range matches Some(c)
                && !c.low_usd.at_most(b))),
        note_view(listings, budget, cells).len() <= 1,
{
    if budget is Some {
        let b = budget->0;
        if listings.len() > 0 && none_affordable(listings, b) {
            assert forall|i: int| 0 <= i < listings.len() implies (
            #[trigger] listings[i]).cost_range matches Some(c) && !c.low_usd.at_most(b) by {
                assert(!affordable(listings[i], b));
            }
        } else if listings.len() > 0 {
            let i = choose|i: int| 0 <= i < listings.len() && affordable(#[trigger] listings[i], b);
            assert(0 <= i < listings.len() && affordable(listings[i], b));
        }
    }
}

/// Enriching a listing leaves what the provider says as it is, and adds duration and cost
/// where both are estimated.
pub proof fn law_estimates_are_added(
    listing: providers::ListingView,
    daily_usd: F64,
    estimate: Option<(DurationRange, CostRange)>,
)
    ensures
        ({
            let r = enriched(listing, daily_usd, estimate);
            &&& r.provider == listing.provider
            &&& r.gpu_model == listing.gpu_model
            &&& r.vram_gib == listing.vram_gib
            &&& r.hourly_usd == listing.hourly_usd
            &&& r.availability == listing.availability
            &&& r.flags == listing.flags
            &&& r.daily_usd == daily_usd
            &&& estimate matches Some((d, c)) ==> r.duration_range == Some(d) && r.cost_range
                == Some(c)
            &&& estimate is None ==> r.duration_range is None && r.cost_range is None
        }),
{
}

} // verus!
