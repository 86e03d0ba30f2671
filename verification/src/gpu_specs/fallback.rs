//! The baked-in GPU spec table.
use vstd::prelude::*;

use crate::gpu_specs::{GpuSpec, SpecsRepository};

verus! {

/// Last-resort specs, for when the network is unavailable and the local cache is
/// missing or corrupt.
pub struct FallbackRepository {
    pub specs: Vec<GpuSpec>,
}

impl SpecsRepository for FallbackRepository {
    open spec fn known(&self) -> Seq<GpuSpec> {
        self.specs@
    }

    fn get_by_name(&self, name: &str) -> (r: Option<GpuSpec>) {
        match crate::gpu_specs::find_best_match(&self.specs, name) {
            Some(spec) => Some(spec.clone()),
            None => None,
        }
    }
}

} // verus!
