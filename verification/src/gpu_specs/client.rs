//! GPU specs from a remote list, kept in a local cache.
use vstd::prelude::*;

use crate::gpu_specs::{GpuSpec, SpecsRepository};

verus! {

/// Cache TTL: re-fetch at most once per 24 hours.
pub const CACHE_TTL_SECS: u64 = 86_400;

/// What the cache holds.
#[derive(Debug)]
pub struct CacheFile {
    pub fetched_at_unix: u64,
    pub specs: Vec<GpuSpec>,
}

/// GPU specs from the local cache when fresh, from the remote list when stale.
pub struct HttpSpecsClient {
    pub specs: Vec<GpuSpec>,
}

impl SpecsRepository for HttpSpecsClient {
    open spec fn known(&self) -> Seq<GpuSpec> {
        self.specs@
    }

    fn get_by_name(&self, name: &str) -> (r: Option<GpuSpec>) {
        match crate::gpu_specs::find_best_match(&self.specs, name) {
            Some(spec) => Some(spec.clone()),
            None => None,
        }
    }
}

impl HttpSpecsClient {
    /// A client over what was loaded; it knows nothing where nothing was.
    pub fn load(loaded: Option<Vec<GpuSpec>>) -> (r: Self)
        ensures
            r.specs@ == (match loaded {
                Some(specs) => specs@,
                None => Seq::<GpuSpec>::empty(),
            }),
    {
        match loaded {
            Some(specs) => HttpSpecsClient { specs },
            None => HttpSpecsClient { specs: Vec::new() },
        }
    }
}

/// Whether a cache written at one time is fresh at another. A cache from the
/// future is fresh.
pub open spec fn is_fresh(fetched_at_unix: int, now_unix: int) -> bool {
    now_unix - fetched_at_unix < CACHE_TTL_SECS
}

/// Whether a cache is still fresh.
pub fn cache_is_fresh(fetched_at_unix: u64, now_unix: u64) -> (r: bool)
    ensures
        r == is_fresh(fetched_at_unix as int, now_unix as int),
{
    now_unix.saturating_sub(fetched_at_unix) < CACHE_TTL_SECS
}

/// What to do on finding, or not finding, a readable cache.
#[derive(Debug)]
pub enum CacheDecision {
    /// There is no place for a cache: nothing is loaded.
    Nothing,
    /// The cached specs are fresh.
    UseCached(Vec<GpuSpec>),
    /// The remote list is to be fetched.
    Fetch,
}

/// Whether `r` is what to do on finding a cache or none.
pub open spec fn is_decision(
    has_path: bool,
    cache: Option<CacheFile>,
    now_unix: u64,
    r: CacheDecision,
) -> bool {
    match r {
        CacheDecision::Nothing => !has_path,
        CacheDecision::UseCached(specs) => has_path && match cache {
            Some(c) => is_fresh(c.fetched_at_unix as int, now_unix as int) && specs == c.specs,
            None => false,
        },
        CacheDecision::Fetch => has_path && match cache {
            Some(c) => !is_fresh(c.fetched_at_unix as int, now_unix as int),
            None => true,
        },
    }
}

/// Decides between the cache and the remote list.
pub fn decide_on_cache(has_path: bool, cache: Option<CacheFile>, now_unix: u64) -> (r:
    CacheDecision)
    ensures
        is_decision(has_path, cache, now_unix, r),
{
    if !has_path {
        return CacheDecision::Nothing;
    }
    match cache {
        Some(c) => {
            if cache_is_fresh(c.fetched_at_unix, now_unix) {
                CacheDecision::UseCached(c.specs)
            } else {
                CacheDecision::Fetch
            }
        },
        None => CacheDecision::Fetch,
    }
}

/// What a fetch leads to: the specs to use, and the cache to write.
#[derive(Debug)]
pub struct Loaded {
    pub specs: Option<Vec<GpuSpec>>,
    pub write: Option<CacheFile>,
}

/// Whether `r` is what a fetch leads to.
pub open spec fn is_settled(
    fetched: Option<Vec<GpuSpec>>,
    stale: Option<CacheFile>,
    now_unix: u64,
    r: Loaded,
) -> bool {
    match fetched {
        Some(specs) => r.specs == Some(specs) && (r.write matches Some(w) && w.fetched_at_unix
            == now_unix && w.specs@ == specs@),
        None => r.write is None && match stale {
            Some(c) => r.specs == Some(c.specs),
            None => r.specs is None,
        },
    }
}

/// A copy of a list of specs.
fn copy_specs(specs: &Vec<GpuSpec>) -> (r: Vec<GpuSpec>)
    ensures
        r@ == specs@,
{
    let mut r: Vec<GpuSpec> = Vec::new();
    let mut i: usize = 0;
    while i < specs.len()
        invariant
            i <= specs@.len(),
            r@ == specs@.take(i as int),
        decreases specs.len() - i,
    {
        r.push(specs[i].clone());
        i = i + 1;
    }
    r
}

/// Settles a fetch: fetched specs are used and cached under the given time; after
/// a failure a stale cache is better than nothing.
pub fn settle_fetch(
    fetched: Option<Vec<GpuSpec>>,
    stale: Option<CacheFile>,
    now_unix: u64,
) -> (r: Loaded)
    ensures
        is_settled(fetched, stale, now_unix, r),
{
    match fetched {
        Some(specs) => {
            let kept = copy_specs(&specs);
            Loaded {
                specs: Some(specs),
                write: Some(CacheFile { fetched_at_unix: now_unix, specs: kept }),
            }
        },
        None => match stale {
            Some(c) => Loaded { specs: Some(c.specs), write: None },
            None => Loaded { specs: None, write: None },
        },
    }
}

/// A cache written after a fetch is used, unread again, for a day.
pub proof fn law_cache_lasts_a_day(fetched_at_unix: u64, now_unix: u64)
    ensures
        is_fresh(fetched_at_unix as int, now_unix as int) <==> now_unix < fetched_at_unix
            + 24 * 60 * 60,
{
}

/// A cache is used exactly where it was written less than a day ago, and then as it is;
/// without a place for it nothing is loaded, and otherwise the list is fetched.
pub proof fn law_fresh_caches_are_used(
    has_path: bool,
    cache: Option<CacheFile>,
    now_unix: u64,
    r: CacheDecision,
)
    requires
        is_decision(has_path, cache, now_unix, r),
    ensures
        !has_path ==> r is Nothing,
        has_path && cache is None ==> r is Fetch,
        has_path && cache is Some && now_unix >= cache->0.fetched_at_unix + 86_400 ==> r is Fetch,
        has_path && cache is Some && now_unix < cache->0.fetched_at_unix + 86_400 ==> r
            == CacheDecision::UseCached(cache->0.specs),
{
}

/// Fetched specs are used, and written to the cache under the time of the fetch; without
/// them the stale ones are used and nothing is written.
pub proof fn law_stale_caches_are_a_last_resort(
    fetched: Option<Vec<GpuSpec>>,
    stale: Option<CacheFile>,
    now_unix: u64,
    r: Loaded,
)
    requires
        is_settled(fetched, stale, now_unix, r),
    ensures
        fetched is Some ==> r.specs == fetched,
        fetched is Some ==> r.write is Some && r.write->0.fetched_at_unix == now_unix
            && r.write->0.specs@ == fetched->0@,
        fetched is None ==> r.write is None,
        fetched is None && stale is Some ==> r.specs == Some(stale->0.specs),
        fetched is None && stale is None ==> r.specs is None,
{
}

/// What was written after a fetch is what the next day's runs use.
pub proof fn law_written_caches_are_read_back(
    fetched: Vec<GpuSpec>,
    stale: Option<CacheFile>,
    now_unix: u64,
    r: Loaded,
    later_unix: u64,
    d: CacheDecision,
)
    requires
        is_settled(Some(fetched), stale, now_unix, r),
        is_decision(true, r.write, later_unix, d),
        now_unix <= later_unix < now_unix + 86_400,
    ensures
        d matches CacheDecision::UseCached(specs) && specs@ == fetched@,
{
}

} // verus!
