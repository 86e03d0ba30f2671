//! Offers of GPU providers.
use vstd::prelude::*;

use crate::float::F64;
use crate::plan;
use crate::plan::{AvailabilityStatus, ListingFlag, RankedListing, SkippedProvider};
use crate::text;

pub mod lambda;
pub mod runpod;
pub mod vastai;

verus! {

broadcast use vstd::string::group_string_axioms;

/// Raw GPU listing of a provider before duration/cost enrichment.
#[derive(Debug)]
pub struct GpuListing {
    pub provider: String,
    pub gpu_model: String,
    pub vram_gib: F64,
    pub hourly_usd: F64,
    pub availability: AvailabilityStatus,
    pub flags: Vec<ListingFlag>,
}

/// What a [`GpuListing`] says.
pub ghost struct ListingView {
    pub provider: Seq<char>,
    pub gpu_model: Seq<char>,
    pub vram_gib: F64,
    pub hourly_usd: F64,
    pub availability: AvailabilityStatus,
    pub flags: Seq<ListingFlag>,
}

impl View for GpuListing {
    type V = ListingView;

    open spec fn view(&self) -> ListingView {
        ListingView {
            provider: self.provider@,
            gpu_model: self.gpu_model@,
            vram_gib: self.vram_gib,
            hourly_usd: self.hourly_usd,
            availability: self.availability,
            flags: self.flags@,
        }
    }
}

/// What a list of listings says.
pub open spec fn offers_view(v: Seq<GpuListing>) -> Seq<ListingView> {
    v.map_values(|l: GpuListing| l@)
}

/// Pushing a listing pushes what it says.
pub broadcast proof fn lemma_offers_push(v: Seq<GpuListing>, l: GpuListing)
    ensures
        #[trigger] offers_view(v.push(l)) == offers_view(v).push(l@),
{
    assert(offers_view(v.push(l)) =~= offers_view(v).push(l@));
}

/// A listing for which nothing is estimated yet.
pub open spec fn unestimated(l: GpuListing, daily_usd: F64) -> plan::RankedView {
    plan::RankedView {
        provider: l.provider@,
        gpu_model: l.gpu_model@,
        vram_gib: l.vram_gib,
        hourly_usd: l.hourly_usd,
        daily_usd,
        duration_range: None,
        cost_range: None,
        availability: l.availability,
        flags: l.flags@,
    }
}

impl GpuListing {
    /// Promotes to a ranked listing; `daily_usd` is 24 times the hourly price. No
    /// duration and cost are known yet.
    pub fn into_ranked(self, daily_usd: F64) -> (r: RankedListing)
        ensures
            r@ == unestimated(self, daily_usd),
    {
        RankedListing {
            provider: self.provider,
            gpu_model: self.gpu_model,
            vram_gib: self.vram_gib,
            hourly_usd: self.hourly_usd,
            daily_usd,
            duration_range: None,
            cost_range: None,
            availability: self.availability,
            flags: self.flags,
        }
    }
}

/// Whether a filter lets a name through: there is none, or it holds the name in
/// some casing.
pub open spec fn lets_through(filter: Option<Vec<String>>, name: Seq<char>) -> bool {
    match filter {
        None => true,
        Some(names) => exists|i: int|
            0 <= i < names@.len() && text::same_but_case(#[trigger] names@[i]@, name),
    }
}

/// Whether a filter lets a name through.
pub fn wants(filter: &Option<Vec<String>>, name: &str) -> (r: bool)
    ensures
        r == lets_through(*filter, name@),
{
    match filter {
        None => true,
        Some(names) => {
            let mut i: usize = 0;
            while i < names.len()
                invariant
                    i <= names@.len(),
                    *filter == Some(*names),
                    forall|j: int|
                        0 <= j < i ==> !text::same_but_case(#[trigger] names@[j]@, name@),
                decreases names.len() - i,
            {
                if text::same_ignoring_case(names[i].as_str(), name) {
                    assert(text::same_but_case(filter->0@[i as int]@, name@));
                    return true;
                }
                i = i + 1;
            }
            false
        },
    }
}

/// The providers to ask.
#[derive(Clone, Copy, Debug, PartialEq, Eq, Structural)]
pub struct Wanted {
    pub runpod: bool,
    pub lambda: bool,
    pub vastai: bool,
}

/// The providers that a filter names: each by its name, Vast.ai also without the
/// dot or its last part.
pub fn wanted(filter: &Option<Vec<String>>) -> (r: Wanted)
    ensures
        r.runpod == lets_through(*filter, "runpod"@),
        r.lambda == lets_through(*filter, "lambda"@),
        r.vastai == (lets_through(*filter, "vastai"@) || lets_through(*filter, "vast.ai"@)
            || lets_through(*filter, "vast"@)),
        filter is None ==> r.runpod && r.lambda && r.vastai,
{
    Wanted {
        runpod: wants(filter, "runpod"),
        lambda: wants(filter, "lambda"),
        vastai: wants(filter, "vastai") || wants(filter, "vast.ai") || wants(filter, "vast"),
    }
}

/// What came of asking a provider: its listings, or why there are none.
pub type Fetched = Result<Vec<GpuListing>, String>;

/// What a provider contributes to the listings.
pub open spec fn listings_of(f: Fetched) -> Seq<ListingView> {
    match f {
        Ok(v) => offers_view(v@),
        Err(_) => Seq::empty(),
    }
}

/// What a skipped provider says: its name and the reason.
pub open spec fn skip_view(s: SkippedProvider) -> (Seq<char>, Seq<char>) {
    (s.name@, s.reason@)
}

/// What a list of skipped providers says.
pub open spec fn skipped_view(v: Seq<SkippedProvider>) -> Seq<(Seq<char>, Seq<char>)> {
    v.map_values(|s: SkippedProvider| skip_view(s))
}

/// What a provider contributes to the skipped ones.
pub open spec fn skips_of(name: Seq<char>, f: Fetched) -> Seq<(Seq<char>, Seq<char>)> {
    match f {
        Ok(_) => Seq::empty(),
        Err(e) => seq![(name, e@)],
    }
}

/// Adds what came of asking one provider.
fn absorb(
    listings: &mut Vec<GpuListing>,
    skipped: &mut Vec<SkippedProvider>,
    name: &str,
    fetched: Fetched,
)
    ensures
        offers_view(final(listings)@) == offers_view(old(listings)@) + listings_of(fetched),
        skipped_view(final(skipped)@) == skipped_view(old(skipped)@) + skips_of(name@, fetched),
{
    match fetched {
        Ok(v) => {
            let mut v = v;
            let ghost before = listings@;
            let ghost more = v@;
            listings.append(&mut v);
            assert(offers_view(listings@) =~= offers_view(before) + offers_view(more));
            assert(skipped_view(skipped@) =~= skipped_view(old(skipped)@) + Seq::<
                (Seq<char>, Seq<char>),
            >::empty());
        },
        Err(e) => {
            let ghost before = skipped@;
            let ghost reason = e@;
            skipped.push(SkippedProvider { name: name.to_owned(), reason: e });
            assert(skipped_view(skipped@) =~= skipped_view(before) + seq![(name@, reason)]);
            assert(offers_view(listings@) =~= offers_view(old(listings)@) + Seq::<
                ListingView,
            >::empty());
        },
    }
}

/// Gathers what came of asking the providers.
///
/// A failure is kept as a skipped provider; one provider being down does not keep
/// the listings of the others from being returned.
pub fn gather(runpod: Fetched, lambda: Fetched, vastai: Fetched) -> (r: (
    Vec<GpuListing>,
    Vec<SkippedProvider>,
))
    ensures
        offers_view(r.0@) == listings_of(runpod) + listings_of(lambda) + listings_of(vastai),
        skipped_view(r.1@) == skips_of("RunPod"@, runpod) + skips_of("Lambda"@, lambda) + skips_of(
            "Vast.ai"@,
            vastai,
        ),
{
    let mut listings: Vec<GpuListing> = Vec::new();
    let mut skipped: Vec<SkippedProvider> = Vec::new();
    assert(offers_view(listings@) =~= Seq::empty());
    assert(skipped_view(skipped@) =~= Seq::empty());
    absorb(&mut listings, &mut skipped, "RunPod", runpod);
    assert(offers_view(listings@) =~= listings_of(runpod));
    assert(skipped_view(skipped@) =~= skips_of("RunPod"@, runpod));
    absorb(&mut listings, &mut skipped, "Lambda", lambda);
    absorb(&mut listings, &mut skipped, "Vast.ai", vastai);
    (listings, skipped)
}

/// Whether so many listings and skipped providers mean that no provider responded.
pub open spec fn none_responded(listings: nat, skipped: nat) -> bool {
    listings == 0 && skipped > 0
}

/// Whether no provider responded.
pub fn all_failed(listings: &Vec<GpuListing>, skipped: &Vec<SkippedProvider>) -> (r: bool)
    ensures
        r == none_responded(listings@.len(), skipped@.len()),
{
    listings.len() == 0 && skipped.len() > 0
}

/// Without a filter every provider is let through; with one, exactly those that it holds
/// in some casing.
pub proof fn law_filters_hold_names(filter: Option<Vec<String>>, name: Seq<char>, i: int)
    requires
        filter matches Some(names) ==> 0 <= i < names@.len(),
    ensures
        filter is None ==> lets_through(filter, name),
        filter matches Some(names) ==> (names@[i]@ == name ==> lets_through(filter, name)),
        filter matches Some(names) ==> (lets_through(filter, name) ==> exists|k: int|
            0 <= k < names@.len() && text::same_but_case(#[trigger] names@[k]@, name)),
{
    if filter is Some && filter->0@[i]@ == name {
        assert(text::same_but_case(filter->0@[i]@, name));
    }
}

/// A provider that answered contributes its listings, in order, and no entry of failure;
/// one that failed contributes its name and reason, and no listing.
pub proof fn law_answers_and_failures(name: Seq<char>, f: Fetched)
    ensures
        f matches Ok(v) ==> listings_of(f).len() == v@.len() && skips_of(name, f).len() == 0
            && forall|i: int| 0 <= i < v@.len() ==> (#[trigger] listings_of(f)[i]) == v@[i]@,
        f matches Err(e) ==> listings_of(f).len() == 0 && skips_of(name, f).len() == 1 && skips_of(
            name,
            f,
        )[0].0 == name && skips_of(name, f)[0].1 == e@,
{
}

/// What a listing says is what it holds.
pub proof fn law_offers_say_what_they_hold(l: GpuListing)
    ensures
        l@.provider == l.provider@,
        l@.gpu_model == l.gpu_model@,
        l@.vram_gib == l.vram_gib,
        l@.hourly_usd == l.hourly_usd,
        l@.availability == l.availability,
        l@.flags == l.flags@,
{
}

/// Ranking keeps everything that a listing says, and adds no estimate.
pub proof fn law_listings_are_kept(l: GpuListing, daily_usd: F64)
    ensures
        unestimated(l, daily_usd).provider == l.provider@,
        unestimated(l, daily_usd).gpu_model == l.gpu_model@,
        unestimated(l, daily_usd).vram_gib == l.vram_gib,
        unestimated(l, daily_usd).hourly_usd == l.hourly_usd,
        unestimated(l, daily_usd).daily_usd == daily_usd,
        unestimated(l, daily_usd).availability == l.availability,
        unestimated(l, daily_usd).flags == l.flags@,
        unestimated(l, daily_usd).duration_range is None,
        unestimated(l, daily_usd).cost_range is None,
{
}

/// No provider responded where some were skipped and nothing was listed; with a listing one
/// did, and with nothing skipped none was asked in vain.
pub proof fn law_silence_is_told(listings: nat, skipped: nat)
    ensures
        listings >= 1 ==> !none_responded(listings, skipped),
        !none_responded(listings, 0),
        skipped >= 1 ==> none_responded(0, skipped),
{
}

} // verus!
