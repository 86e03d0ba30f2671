//! Lambda's instance types.
use vstd::prelude::*;

use crate::float::F64;
use crate::plan::providers;
use crate::plan::providers::GpuListing;
use crate::plan::{AvailabilityStatus, ListingFlag};

verus! {

broadcast use vstd::string::group_string_axioms;

/// A GPU of an instance type.
#[derive(Debug)]
pub struct GpuInfo {
    pub name: Option<String>,
    pub memory_gib: Option<u32>,
}

/// An instance type as Lambda describes it.
#[derive(Debug)]
pub struct InstanceEntry {
    pub description: Option<String>,
    pub price_cents_per_hour: Option<u64>,
    pub gpus: Vec<GpuInfo>,
    pub gpu_count: Option<u32>,
    /// The number of regions that have capacity.
    pub regions_with_capacity: usize,
}

/// An instance type that can be listed.
#[derive(Debug)]
pub struct Instance {
    pub gpu_model: String,
    /// The memory of all its GPUs.
    pub vram_gib: u64,
    pub price_cents: u64,
    pub has_capacity: bool,
}

/// The name of an instance: that of its first GPU unless empty, else its
/// description.
pub open spec fn gpu_name(gpu: GpuInfo, description: Option<String>) -> Seq<char> {
    match gpu.name {
        Some(n) if n@.len() > 0 => n@,
        _ => match description {
            Some(d) => d@,
            None => "Unknown"@,
        },
    }
}

/// The GPUs of an instance, at least one.
pub open spec fn gpus(entry: InstanceEntry) -> nat {
    match entry.gpu_count {
        Some(n) if n > 0 => n as nat,
        _ => 1,
    }
}

/// Whether an entry can be listed: it has a price, and a GPU whose memory is known.
pub open spec fn is_listable(entry: InstanceEntry) -> bool {
    entry.price_cents_per_hour is Some && entry.gpus@.len() > 0 && entry.gpus@[0].memory_gib is Some
}

/// Whether an instance is that of an entry.
pub open spec fn is_instance_of(i: Instance, entry: InstanceEntry) -> bool {
    &&& i.gpu_model@ == gpu_name(entry.gpus@[0], entry.description)
    &&& i.vram_gib == entry.gpus@[0].memory_gib->0 * gpus(entry)
    &&& i.price_cents == entry.price_cents_per_hour->0
    &&& i.has_capacity == (entry.regions_with_capacity > 0)
}

/// The instance of an entry; `None` where its price, its first GPU or the memory of
/// that is unknown.
pub fn instance(entry: &InstanceEntry) -> (r: Option<Instance>)
    ensures
        r is Some <==> is_listable(*entry),
        r matches Some(i) ==> is_instance_of(i, *entry),
{
    let price_cents: u64 = match entry.price_cents_per_hour {
        Some(p) => p,
        None => {
            return None;
        },
    };
    let count: u64 = match entry.gpu_count {
        Some(n) => if n > 0 {
            n as u64
        } else {
            1
        },
        None => 1,
    };
    if entry.gpus.len() == 0 {
        return None;
    }
    let first = &entry.gpus[0];
    let memory: u64 = match first.memory_gib {
        Some(m) => m as u64,
        None => {
            return None;
        },
    };
    let named = match &first.name {
        Some(n) => !n.as_str().is_empty(),
        None => false,
    };
    let gpu_model = if named {
        match &first.name {
            Some(n) => n.clone(),
            None => String::new(),
        }
    } else {
        match &entry.description {
            Some(d) => d.clone(),
            None => "Unknown".to_owned(),
        }
    };
    assert(memory * count <= 0xffff_ffff * 0xffff_ffff) by (nonlinear_arith)
        requires
            memory <= 0xffff_ffff,
            count <= 0xffff_ffff,
    ;
    Some(
        Instance {
            gpu_model,
            vram_gib: memory * count,
            price_cents,
            has_capacity: entry.regions_with_capacity > 0,
        },
    )
}

impl Instance {
    /// What the listing of an instance says.
    pub open spec fn listed(self, vram_gib: F64, hourly_usd: F64) -> providers::ListingView {
        providers::ListingView {
            provider: "Lambda"@,
            gpu_model: self.gpu_model@,
            vram_gib,
            hourly_usd,
            availability: if self.has_capacity {
                AvailabilityStatus::Available
            } else {
                AvailabilityStatus::Unavailable
            },
            flags: if self.has_capacity {
                Seq::empty()
            } else {
                seq![ListingFlag::CurrentlyUnavailable]
            },
        }
    }

    /// The listing of an instance, given its memory in GiB and its price in dollars.
    pub fn into_listing(self, vram_gib: F64, hourly_usd: F64) -> (r: GpuListing)
        ensures
            r@ == self.listed(vram_gib, hourly_usd),
    {
        let availability = if self.has_capacity {
            AvailabilityStatus::Available
        } else {
            AvailabilityStatus::Unavailable
        };
        let mut flags: Vec<ListingFlag> = Vec::new();
        if !self.has_capacity {
            flags.push(ListingFlag::CurrentlyUnavailable);
            assert(flags@ =~= seq![ListingFlag::CurrentlyUnavailable]);
        }
        GpuListing {
            provider: "Lambda".to_owned(),
            gpu_model: self.gpu_model,
            vram_gib,
            hourly_usd,
            availability,
            flags,
        }
    }
}

/// An instance has the price of its entry, the memory of its first GPU as many times as
/// it has GPUs, and capacity where some region has it.
pub proof fn law_instances_are_those_of_their_entry(i: Instance, entry: InstanceEntry)
    requires
        is_listable(entry),
        is_instance_of(i, entry),
    ensures
        entry.price_cents_per_hour == Some(i.price_cents),
        entry.gpus@[0].memory_gib matches Some(m) && (match entry.gpu_count {
            Some(n) => if n == 0 {
                i.vram_gib == m
            } else {
                i.vram_gib == m * n
            },
            None => i.vram_gib == m,
        }),
        i.has_capacity <==> entry.regions_with_capacity != 0,
        entry.gpus@[0].name matches Some(n) ==> (n@.len() > 0 ==> i.gpu_model@ == n@),
        entry.gpus@[0].name is None ==> (match entry.description {
            Some(d) => i.gpu_model@ == d@,
            None => i.gpu_model@ == "Unknown"@,
        }),
{
}

/// An entry is listed exactly where it has a price and a first GPU of known memory.
pub proof fn law_listable_entries(entry: InstanceEntry)
    ensures
        is_listable(entry) <==> (entry.price_cents_per_hour is Some && entry.gpus@.len() >= 1 && (
        entry.gpus@[0].memory_gib is Some)),
{
}

/// An instance is available exactly where it has capacity, and is flagged exactly where
/// it has none.
pub proof fn law_capacity_makes_available(i: Instance, vram_gib: F64, hourly_usd: F64)
    ensures
        i.listed(vram_gib, hourly_usd).availability == AvailabilityStatus::Available
            <==> i.has_capacity,
        i.listed(vram_gib, hourly_usd).flags.contains(ListingFlag::CurrentlyUnavailable)
            <==> !i.has_capacity,
        i.listed(vram_gib, hourly_usd).vram_gib == vram_gib,
        i.listed(vram_gib, hourly_usd).hourly_usd == hourly_usd,
        i.listed(vram_gib, hourly_usd).provider == "Lambda"@,
        i.listed(vram_gib, hourly_usd).gpu_model == i.gpu_model@,
{
    if !i.has_capacity {
        assert(i.listed(vram_gib, hourly_usd).flags[0] == ListingFlag::CurrentlyUnavailable);
    }
}

} // verus!
