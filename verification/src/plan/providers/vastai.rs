//! Vast.ai's offers.
use vstd::prelude::*;

use crate::float::F64;
use crate::plan::providers;
use crate::plan::providers::runpod;
use crate::plan::providers::GpuListing;
use crate::plan::{AvailabilityStatus, ListingFlag};

verus! {

broadcast use vstd::string::group_string_axioms;

/// The bits of 0.90, the reliability score below which a machine is too unreliable
/// for training runs.
pub const MIN_RELIABILITY: u64 = 0x3fec_cccc_cccc_cccd;

/// The bits of 0.95, the reliability score below which a machine is flagged.
pub const GOOD_RELIABILITY: u64 = 0x3fee_6666_6666_6666;

/// An offer as Vast.ai describes it.
#[derive(Debug)]
pub struct VastOffer {
    pub gpu_name: Option<String>,
    /// RAM per GPU in MB.
    pub gpu_ram: Option<F64>,
    /// Dollars per hour for the entire listing.
    pub dph_total: Option<F64>,
    /// Machine reliability score, 0.0–1.0.
    pub reliability2: Option<F64>,
    pub rentable: Option<bool>,
    pub num_gpus: Option<u32>,
}

/// The cheapest offer of a GPU model.
#[derive(Debug)]
pub struct MarketEntry {
    pub gpu_name: String,
    /// RAM per GPU in MB.
    pub per_gpu_mb: F64,
    /// At least one.
    pub num_gpus: u32,
    pub hourly_usd: F64,
    pub low_reliability: bool,
}

/// What a [`MarketEntry`] says.
pub ghost struct EntryView {
    pub gpu_name: Seq<char>,
    pub per_gpu_mb: F64,
    pub num_gpus: u32,
    pub hourly_usd: F64,
    pub low_reliability: bool,
}

impl View for MarketEntry {
    type V = EntryView;

    open spec fn view(&self) -> EntryView {
        EntryView {
            gpu_name: self.gpu_name@,
            per_gpu_mb: self.per_gpu_mb,
            num_gpus: self.num_gpus,
            hourly_usd: self.hourly_usd,
            low_reliability: self.low_reliability,
        }
    }
}

/// What a list of entries says.
pub open spec fn entries_view(v: Seq<MarketEntry>) -> Seq<EntryView> {
    v.map_values(|e: MarketEntry| e@)
}

/// The score of an offer; zero where it has none.
pub open spec fn reliability(offer: VastOffer) -> F64 {
    match offer.reliability2 {
        Some(r) => r,
        None => F64::of(0),
    }
}

/// What an offer comes to: `None` where its name, price or RAM is missing, or it
/// cannot be rented, or the machine is too unreliable.
pub open spec fn entry_of(offer: VastOffer) -> Option<EntryView> {
    match (offer.gpu_name, runpod::positive(offer.dph_total), runpod::positive(offer.gpu_ram)) {
        (Some(name), Some(hourly_usd), Some(per_gpu_mb)) => if name@.len() > 0 && offer.rentable
            == Some(true) && !reliability(offer).below(F64::of(MIN_RELIABILITY)) {
            Some(
                EntryView {
                    gpu_name: name@,
                    per_gpu_mb,
                    num_gpus: match offer.num_gpus {
                        Some(n) if n > 0 => n,
                        _ => 1,
                    },
                    hourly_usd,
                    low_reliability: reliability(offer).below(F64::of(GOOD_RELIABILITY)),
                },
            )
        } else {
            None
        },
        _ => None,
    }
}

/// What an offer comes to.
fn entry(offer: &VastOffer) -> (r: Option<MarketEntry>)
    ensures
        match r {
            Some(e) => entry_of(*offer) == Some(e@),
            None => entry_of(*offer) is None,
        },
{
    let gpu_name = match &offer.gpu_name {
        Some(n) => n,
        None => {
            return None;
        },
    };
    let hourly_usd = match runpod::only_positive(offer.dph_total) {
        Some(p) => p,
        None => {
            return None;
        },
    };
    let per_gpu_mb = match runpod::only_positive(offer.gpu_ram) {
        Some(m) => m,
        None => {
            return None;
        },
    };
    let rentable = match offer.rentable {
        Some(b) => b,
        None => false,
    };
    let score = match offer.reliability2 {
        Some(s) => s,
        None => F64::of(0),
    };
    if gpu_name.as_str().is_empty() || !rentable || score.lt(F64::of(MIN_RELIABILITY)) {
        return None;
    }
    let num_gpus: u32 = match offer.num_gpus {
        Some(n) => if n > 0 {
            n
        } else {
            1
        },
        None => 1,
    };
    Some(
        MarketEntry {
            gpu_name: gpu_name.clone(),
            per_gpu_mb,
            num_gpus,
            hourly_usd,
            low_reliability: score.lt(F64::of(GOOD_RELIABILITY)),
        },
    )
}

/// The index of the first entry of a GPU model; the length where there is none.
pub open spec fn index_of(entries: Seq<EntryView>, name: Seq<char>) -> int
    decreases entries.len(),
{
    if entries.len() == 0 || entries[0].gpu_name == name {
        0
    } else {
        1 + index_of(entries.drop_first(), name)
    }
}

/// The entries with another one taken into account: it is new, or replaces a dearer
/// one of the same GPU model.
pub open spec fn taken_in(entries: Seq<EntryView>, e: EntryView) -> Seq<EntryView> {
    let i = index_of(entries, e.gpu_name);
    if i == entries.len() {
        entries.push(e)
    } else if e.hourly_usd.below(entries[i].hourly_usd) {
        entries.update(i, e)
    } else {
        entries
    }
}

/// The cheapest usable offer of each GPU model, in the order in which the models
/// first occur.
pub open spec fn market(offers: Seq<VastOffer>) -> Seq<EntryView>
    decreases offers.len(),
{
    if offers.len() == 0 {
        Seq::empty()
    } else {
        let before = market(offers.drop_last());
        match entry_of(offers.last()) {
            Some(e) => taken_in(before, e),
            None => before,
        }
    }
}

proof fn lemma_index_of(entries: Seq<EntryView>, name: Seq<char>)
    ensures
        0 <= index_of(entries, name) <= entries.len(),
        index_of(entries, name) < entries.len() ==> entries[index_of(entries, name)].gpu_name
            == name,
        forall|j: int|
            0 <= j < index_of(entries, name) ==> (#[trigger] entries[j]).gpu_name != name,
    decreases entries.len(),
{
    if entries.len() > 0 && entries[0].gpu_name != name {
        let rest = entries.drop_first();
        lemma_index_of(rest, name);
        assert forall|j: int| 0 <= j < index_of(entries, name) implies (
        #[trigger] entries[j]).gpu_name != name by {
            if j > 0 {
                assert(entries[j] == rest[j - 1]);
            }
        }
        if index_of(entries, name) < entries.len() {
            assert(entries[index_of(entries, name)] == rest[index_of(rest, name)]);
        }
    }
}

/// No GPU model is listed twice.
pub proof fn law_models_are_distinct(offers: Seq<VastOffer>)
    ensures
        forall|i: int, j: int|
            0 <= i < j < market(offers).len() ==> (#[trigger] market(offers)[i]).gpu_name != (
            #[trigger] market(offers)[j]).gpu_name,
    decreases offers.len(),
{
    if offers.len() > 0 {
        let before = market(offers.drop_last());
        law_models_are_distinct(offers.drop_last());
        if let Some(e) = entry_of(offers.last()) {
            lemma_index_of(before, e.gpu_name);
        }
    }
}

/// Whether some entry of the model of `e` is not dearer than `e`.
pub open spec fn undercut(entries: Seq<EntryView>, e: EntryView) -> bool {
    exists|j: int|
        0 <= j < entries.len() && (#[trigger] entries[j]).gpu_name == e.gpu_name
            && !e.hourly_usd.below(entries[j].hourly_usd)
}

/// Every usable offer is listed or undercut: for its model, an offer that is not
/// dearer is listed.
pub proof fn law_market_is_the_floor(offers: Seq<VastOffer>, k: int)
    requires
        0 <= k < offers.len(),
        entry_of(offers[k]) is Some,
    ensures
        undercut(market(offers), entry_of(offers[k])->0),
    decreases offers.len(),
{
    let wanted = entry_of(offers[k])->0;
    let before = market(offers.drop_last());
    let after = market(offers);
    if k < offers.len() - 1 {
        law_market_is_the_floor(offers.drop_last(), k);
        assert(offers.drop_last()[k] == offers[k]);
        let j = choose|j: int|
            0 <= j < before.len() && (#[trigger] before[j]).gpu_name == wanted.gpu_name
                && !wanted.hourly_usd.below(before[j].hourly_usd);
        if let Some(e) = entry_of(offers.last()) {
            lemma_index_of(before, e.gpu_name);
            assert(after[j].gpu_name == wanted.gpu_name);
            assert(!wanted.hourly_usd.below(after[j].hourly_usd));
        } else {
            assert(after[j] == before[j]);
        }
    } else {
        lemma_index_of(before, wanted.gpu_name);
        let i = index_of(before, wanted.gpu_name);
        assert(after[i].gpu_name == wanted.gpu_name);
    }
}

/// Every listed entry is what some offer comes to.
pub proof fn law_market_invents_nothing(offers: Seq<VastOffer>, i: int)
    requires
        0 <= i < market(offers).len(),
    ensures
        exists|k: int|
            0 <= k < offers.len() && entry_of(#[trigger] offers[k]) == Some(market(offers)[i]),
    decreases offers.len(),
{
    let before = market(offers.drop_last());
    let after = market(offers);
    let last = offers.len() - 1;
    if let Some(e) = entry_of(offers.last()) {
        lemma_index_of(before, e.gpu_name);
    }
    if entry_of(offers[last]) == Some(after[i]) {
    } else {
        assert(i < before.len() && after[i] == before[i]);
        law_market_invents_nothing(offers.drop_last(), i);
        let k = choose|k: int|
            0 <= k < offers.drop_last().len() && entry_of(#[trigger] offers.drop_last()[k]) == Some(
                before[i],
            );
        assert(offers[k] == offers.drop_last()[k]);
    }
}

/// The index of the first entry of a GPU model.
fn find(entries: &Vec<MarketEntry>, name: &String) -> (r: usize)
    ensures
        r == index_of(entries_view(entries@), name@),
        r <= entries@.len(),
{
    let ghost all = entries_view(entries@);
    let mut i: usize = 0;
    assert(all.skip(0) =~= all);
    while i < entries.len()
        invariant
            i <= entries@.len(),
            all == entries_view(entries@),
            index_of(all, name@) == i + index_of(all.skip(i as int), name@),
        decreases entries.len() - i,
    {
        assert(all.skip(i as int)[0] == entries@[i as int]@);
        assert(all.skip(i as int).drop_first() =~= all.skip(i + 1));
        if entries[i].gpu_name == *name {
            return i;
        }
        i = i + 1;
    }
    i
}

/// Groups offers by GPU name, keeping only the cheapest usable one per GPU model:
/// the current market floor for each GPU type.
pub fn market_floor(offers: &Vec<VastOffer>) -> (r: Vec<MarketEntry>)
    ensures
        entries_view(r@) == market(offers@),
{
    let mut r: Vec<MarketEntry> = Vec::new();
    let mut i: usize = 0;
    assert(entries_view(r@) =~= market(offers@.take(0)));
    while i < offers.len()
        invariant
            i <= offers@.len(),
            entries_view(r@) == market(offers@.take(i as int)),
        decreases offers.len() - i,
    {
        assert(offers@.take(i + 1).drop_last() =~= offers@.take(i as int));
        let ghost before = entries_view(r@);
        if let Some(e) = entry(&offers[i]) {
            let ghost new = e@;
            let k: usize = find(&r, &e.gpu_name);
            if k == r.len() {
                r.push(e);
                assert(entries_view(r@) =~= before.push(new));
            } else {
                assert(before[k as int] == r@[k as int]@);
                if e.hourly_usd.lt(r[k].hourly_usd) {
                    r.set(k, e);
                    assert(entries_view(r@) =~= before.update(k as int, new));
                }
            }
        }
        i = i + 1;
    }
    assert(offers@.take(i as int) =~= offers@);
    r
}

impl MarketEntry {
    /// The flags of an entry.
    pub open spec fn flags(self) -> Seq<ListingFlag> {
        if self.low_reliability {
            seq![ListingFlag::PriceVolatile, ListingFlag::LowReliability]
        } else {
            seq![ListingFlag::PriceVolatile]
        }
    }

    /// What the listing of an entry says.
    pub open spec fn listed(self, vram_gib: F64) -> providers::ListingView {
        providers::ListingView {
            provider: "Vast.ai"@,
            gpu_model: self.gpu_name@,
            vram_gib,
            hourly_usd: self.hourly_usd,
            availability: AvailabilityStatus::Available,
            flags: self.flags(),
        }
    }

    /// The listing of an entry, given the GiB of all its GPUs.
    pub fn into_listing(self, vram_gib: F64) -> (r: GpuListing)
        ensures
            r@ == self.listed(vram_gib),
    {
        let mut flags: Vec<ListingFlag> = Vec::new();
        flags.push(ListingFlag::PriceVolatile);
        if self.low_reliability {
            flags.push(ListingFlag::LowReliability);
        }
        assert(flags@ =~= self.flags());
        GpuListing {
            provider: "Vast.ai".to_owned(),
            gpu_model: self.gpu_name,
            vram_gib,
            hourly_usd: self.hourly_usd,
            availability: AvailabilityStatus::Available,
            flags,
        }
    }
}

/// An offer counts exactly where it has a name, a price and memory above zero, can be
/// rented, and has a score of at least 0.90; where it has none the score is zero.
pub proof fn law_offers_that_count(o: VastOffer)
    ensures
        entry_of(o) is Some <==> (o.gpu_name matches Some(n) && n@.len() > 0) && (
        o.dph_total matches Some(p) && F64::of(0).below(p)) && (o.gpu_ram matches Some(m)
            && F64::of(0).below(m)) && o.rentable == Some(true) && (
        o.reliability2 matches Some(s) && !s.below(F64::of(0x3fec_cccc_cccc_cccd))),
{
}

/// An entry has the name, the price and the memory of its offer, the number of its GPUs,
/// at least one, and is unreliable where its score is below 0.95.
pub proof fn law_entries_are_their_offers(o: VastOffer, e: EntryView)
    requires
        entry_of(o) == Some(e),
    ensures
        o.gpu_name matches Some(n) && n@ == e.gpu_name,
        o.dph_total == Some(e.hourly_usd),
        o.gpu_ram == Some(e.per_gpu_mb),
        o.num_gpus matches Some(n) ==> (n > 0 ==> e.num_gpus == n) && (n == 0 ==> e.num_gpus == 1),
        o.num_gpus is None ==> e.num_gpus == 1,
        o.reliability2 matches Some(s) && (e.low_reliability <==> s.below(
            F64::of(0x3fee_6666_6666_6666),
        )),
{
}

/// No listed entry of a model is dearer than any offer of that model that counts.
pub proof fn law_listed_prices_are_the_lowest(offers: Seq<VastOffer>, k: int, i: int)
    requires
        0 <= k < offers.len(),
        entry_of(offers[k]) is Some,
        0 <= i < market(offers).len(),
        market(offers)[i].gpu_name == (offers[k].gpu_name->0)@,
    ensures
        !(offers[k].dph_total->0).below(market(offers)[i].hourly_usd),
{
    let e = entry_of(offers[k])->0;
    law_market_is_the_floor(offers, k);
    law_models_are_distinct(offers);
    let j = choose|j: int|
        0 <= j < market(offers).len() && (#[trigger] market(offers)[j]).gpu_name == e.gpu_name
            && !e.hourly_usd.below(market(offers)[j].hourly_usd);
    if i < j {
        assert(market(offers)[i].gpu_name != market(offers)[j].gpu_name);
    }
    if j < i {
        assert(market(offers)[j].gpu_name != market(offers)[i].gpu_name);
    }
}

/// Prices of the market may change, and unreliable machines are flagged; both can be
/// launched at the price of the entry.
pub proof fn law_market_listings_are_flagged(e: MarketEntry, vram_gib: F64)
    ensures
        e.listed(vram_gib).flags.contains(ListingFlag::PriceVolatile),
        e.listed(vram_gib).flags.contains(ListingFlag::LowReliability) <==> e.low_reliability,
        !e.listed(vram_gib).flags.contains(ListingFlag::CurrentlyUnavailable),
        e.listed(vram_gib).availability == AvailabilityStatus::Available,
        e.listed(vram_gib).hourly_usd == e.hourly_usd,
        e.listed(vram_gib).vram_gib == vram_gib,
        e.listed(vram_gib).gpu_model == e.gpu_name@,
        e.listed(vram_gib).provider == "Vast.ai"@,
        e@.gpu_name == e.gpu_name@,
        e@.hourly_usd == e.hourly_usd,
        e@.per_gpu_mb == e.per_gpu_mb,
        e@.num_gpus == e.num_gpus,
        e@.low_reliability == e.low_reliability,
{
    let f = e.flags();
    assert(f[0] == ListingFlag::PriceVolatile);
    if e.low_reliability {
        assert(f[1] == ListingFlag::LowReliability);
    }
}

/// An entry of a new model is appended; one of a known model replaces the entry there
/// exactly where it is cheaper, so that of equal prices the first stays, and leaves the
/// others as they are.
pub proof fn law_cheaper_entries_replace_dearer_ones(entries: Seq<EntryView>, e: EntryView, i: int)
    requires
        0 <= i < entries.len(),
        forall|j: int| 0 <= j < i ==> (#[trigger] entries[j]).gpu_name != e.gpu_name,
    ensures
        entries[i].gpu_name == e.gpu_name && e.hourly_usd.below(entries[i].hourly_usd)
            ==> taken_in(entries, e) == entries.update(i, e),
        entries[i].gpu_name == e.gpu_name && entries[i].hourly_usd.at_most(e.hourly_usd)
            ==> taken_in(entries, e) == entries,
        (forall|j: int| 0 <= j < entries.len() ==> (#[trigger] entries[j]).gpu_name != e.gpu_name)
            ==> taken_in(entries, e) == entries.push(e),
{
    lemma_index_of(entries, e.gpu_name);
    let k = index_of(entries, e.gpu_name);
    if entries[i].gpu_name == e.gpu_name {
        if k < i {
            assert(entries[k].gpu_name != e.gpu_name);
        }
        if i < k {
            assert(entries[i].gpu_name != e.gpu_name);
        }
        assert(k == i);
    }
    if forall|j: int| 0 <= j < entries.len() ==> (#[trigger] entries[j]).gpu_name != e.gpu_name {
        if k < entries.len() {
            assert(entries[k].gpu_name != e.gpu_name);
        }
    }
}

} // verus!
