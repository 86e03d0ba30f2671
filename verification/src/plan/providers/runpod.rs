//! RunPod's GPU types.
use vstd::prelude::*;

use crate::float::F64;
use crate::plan::providers;
use crate::plan::providers::GpuListing;
use crate::plan::{AvailabilityStatus, ListingFlag};

verus! {

broadcast use vstd::string::group_string_axioms;

/// A GPU type as RunPod describes it.
#[derive(Debug)]
pub struct GpuType {
    pub display_name: Option<String>,
    pub id: String,
    pub memory_in_gb: Option<F64>,
    /// On-demand "secure pod" price (USD/hr); none when none are available.
    pub secure_price: Option<F64>,
    /// Community cloud (spot / interruptible) price; none when unavailable.
    pub community_price: Option<F64>,
}

/// The number where it is positive.
pub open spec fn positive(x: Option<F64>) -> Option<F64> {
    match x {
        Some(v) if F64::of(0).below(v) => Some(v),
        _ => None,
    }
}

/// The number where it is positive.
pub fn only_positive(x: Option<F64>) -> (r: Option<F64>)
    ensures
        r == positive(x),
{
    match x {
        Some(v) => if v.gt(F64::of(0)) {
            Some(v)
        } else {
            None
        },
        None => None,
    }
}

/// The name of a GPU type: the display name unless empty, else the identifier.
pub open spec fn shown_name(g: GpuType) -> Seq<char> {
    match g.display_name {
        Some(n) if n@.len() > 0 => n@,
        _ => g.id@,
    }
}

/// The on-demand listing of a GPU type.
pub open spec fn secure_listing(g: GpuType) -> Seq<providers::ListingView> {
    match (positive(g.memory_in_gb), positive(g.secure_price)) {
        (Some(vram_gib), Some(hourly_usd)) => seq![
            providers::ListingView {
                provider: "RunPod"@,
                gpu_model: shown_name(g),
                vram_gib,
                hourly_usd,
                availability: AvailabilityStatus::Available,
                flags: Seq::empty(),
            },
        ],
        _ => Seq::empty(),
    }
}

/// The spot listing of a GPU type.
pub open spec fn community_listing(g: GpuType) -> Seq<providers::ListingView> {
    match (positive(g.memory_in_gb), positive(g.community_price)) {
        (Some(vram_gib), Some(hourly_usd)) => seq![
            providers::ListingView {
                provider: "RunPod"@,
                gpu_model: shown_name(g) + " (spot)"@,
                vram_gib,
                hourly_usd,
                availability: AvailabilityStatus::Available,
                flags: seq![ListingFlag::Spot],
            },
        ],
        _ => Seq::empty(),
    }
}

/// The listings of GPU types, in order.
pub open spec fn type_listings(types: Seq<GpuType>) -> Seq<providers::ListingView>
    decreases types.len(),
{
    if types.len() == 0 {
        Seq::empty()
    } else {
        type_listings(types.drop_last()) + secure_listing(types.last()) + community_listing(
            types.last(),
        )
    }
}

/// Adds the listings of a GPU type.
fn add_listings(listings: &mut Vec<GpuListing>, g: &GpuType)
    ensures
        providers::offers_view(final(listings)@) == providers::offers_view(old(listings)@)
            + secure_listing(*g) + community_listing(*g),
{
    broadcast use providers::lemma_offers_push;

    let ghost before = providers::offers_view(listings@);
    let vram_gib = match only_positive(g.memory_in_gb) {
        Some(v) => v,
        None => {
            assert(before =~= before + secure_listing(*g) + community_listing(*g));
            return ;
        },
    };
    let named = match &g.display_name {
        Some(n) => !n.as_str().is_empty(),
        None => false,
    };
    let name = if named {
        match &g.display_name {
            Some(n) => n.clone(),
            None => String::new(),
        }
    } else {
        g.id.clone()
    };
    assert(name@ == shown_name(*g));
    if let Some(price) = only_positive(g.secure_price) {
        let flags: Vec<ListingFlag> = Vec::new();
        assert(flags@ =~= Seq::empty());
        listings.push(
            GpuListing {
                provider: "RunPod".to_owned(),
                gpu_model: name.clone(),
                vram_gib,
                hourly_usd: price,
                availability: AvailabilityStatus::Available,
                flags,
            },
        );
    }
    assert(providers::offers_view(listings@) =~= before + secure_listing(*g));
    if let Some(price) = only_positive(g.community_price) {
        let mut flags: Vec<ListingFlag> = Vec::new();
        flags.push(ListingFlag::Spot);
        assert(flags@ =~= seq![ListingFlag::Spot]);
        let mut gpu_model = name;
        gpu_model.append(" (spot)");
        listings.push(
            GpuListing {
                provider: "RunPod".to_owned(),
                gpu_model,
                vram_gib,
                hourly_usd: price,
                availability: AvailabilityStatus::Available,
                flags,
            },
        );
    }
    assert(providers::offers_view(listings@) =~= before + secure_listing(*g) + community_listing(
        *g,
    ));
}

/// The listings of GPU types: an on-demand one and a spot one of each, as far as
/// their prices and the memory are positive.
pub fn listings(types: &Vec<GpuType>) -> (r: Vec<GpuListing>)
    ensures
        providers::offers_view(r@) == type_listings(types@),
{
    let mut r: Vec<GpuListing> = Vec::new();
    let mut i: usize = 0;
    assert(providers::offers_view(r@) =~= type_listings(types@.take(0)));
    while i < types.len()
        invariant
            i <= types@.len(),
            providers::offers_view(r@) == type_listings(types@.take(i as int)),
        decreases types.len() - i,
    {
        assert(types@.take(i + 1).drop_last() =~= types@.take(i as int));
        add_listings(&mut r, &types[i]);
        i = i + 1;
    }
    assert(types@.take(i as int) =~= types@);
    r
}

/// A GPU type with memory is listed on demand at its secure price and as a spot instance
/// at its community price, each exactly where that price is above zero.
pub proof fn law_types_are_listed_at_their_prices(g: GpuType)
    ensures
        secure_listing(g).len() == if (g.memory_in_gb matches Some(m) && F64::of(0).below(m)) && (
        g.secure_price matches Some(p) && F64::of(0).below(p)) {
            1nat
        } else {
            0
        },
        community_listing(g).len() == if (g.memory_in_gb matches Some(m) && F64::of(0).below(m)) && (
        g.community_price matches Some(p) && F64::of(0).below(p)) {
            1nat
        } else {
            0
        },
        secure_listing(g).len() == 1 ==> Some(secure_listing(g)[0].hourly_usd) == g.secure_price
            && Some(secure_listing(g)[0].vram_gib) == g.memory_in_gb
            && secure_listing(g)[0].provider == "RunPod"@ && !secure_listing(g)[0].flags.contains(
            ListingFlag::Spot,
        ) && secure_listing(g)[0].availability == AvailabilityStatus::Available,
        community_listing(g).len() == 1 ==> Some(community_listing(g)[0].hourly_usd)
            == g.community_price && Some(community_listing(g)[0].vram_gib) == g.memory_in_gb
            && community_listing(g)[0].provider == "RunPod"@
            && community_listing(g)[0].flags.contains(ListingFlag::Spot)
            && " (spot)"@.is_suffix_of(community_listing(g)[0].gpu_model)
            && community_listing(g)[0].availability == AvailabilityStatus::Available,
{
    if community_listing(g).len() == 1 {
        let l = community_listing(g)[0];
        assert(l.flags[0] == ListingFlag::Spot);
        let n = " (spot)"@;
        assert(n =~= l.gpu_model.subrange(l.gpu_model.len() - n.len(), l.gpu_model.len() as int));
    }
}

/// A type is named by its display name where it has one that is not empty, else by its
/// identifier.
pub proof fn law_types_are_named(g: GpuType)
    ensures
        g.display_name matches Some(n) ==> (n@.len() > 0 ==> shown_name(g) == n@) && (n@.len() == 0
            ==> shown_name(g) == g.id@),
        g.display_name is None ==> shown_name(g) == g.id@,
        secure_listing(g).len() == 1 ==> secure_listing(g)[0].gpu_model == shown_name(g),
{
}

/// A further type adds its listings behind those of the others.
pub proof fn law_types_are_listed_in_order(types: Seq<GpuType>, g: GpuType)
    ensures
        type_listings(types.push(g)) == type_listings(types) + (secure_listing(g)
            + community_listing(g)),
        type_listings(Seq::empty()).len() == 0,
{
    assert(types.push(g).drop_last() =~= types);
    assert(type_listings(types.push(g)) =~= type_listings(types) + (secure_listing(g)
        + community_listing(g)));
}

} // verus!
