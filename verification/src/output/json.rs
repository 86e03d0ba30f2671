//! What is written at the end of a session for other tools.
use vstd::prelude::*;

use crate::analysis::bottleneck::Bottleneck;
use crate::float::F32;
use crate::session::state::SessionSnapshot;

verus! {

/// Renders each snapshot as a newline-delimited object, suitable for piping into
/// other tools.
#[derive(Clone, Copy, Debug, PartialEq, Eq, Structural)]
pub struct JsonRenderer;

/// The object that ends a session; its `event` is "session_end".
#[derive(Clone, Copy, Debug, PartialEq, Eq, Structural)]
pub struct SessionEnd {
    pub final_mfu_pct: F32,
    pub elapsed_secs: u64,
    pub steps_observed: u64,
    pub primary_bottleneck: Bottleneck,
}

/// What is written when a session ends.
pub open spec fn end_of(snapshot: Option<&SessionSnapshot>) -> Option<SessionEnd> {
    match snapshot {
        Some(s) => Some(
            SessionEnd {
                final_mfu_pct: s.mfu.mfu_pct.0,
                elapsed_secs: s.elapsed_ms / 1000,
                steps_observed: s.steps_observed,
                primary_bottleneck: s.bottleneck,
            },
        ),
        None => None,
    }
}

impl JsonRenderer {
    /// What is written when the session ends; nothing without a snapshot.
    pub fn finish(&self, snapshot: Option<&SessionSnapshot>) -> (r: Option<SessionEnd>)
        ensures
            r == end_of(snapshot),
    {
        match snapshot {
            Some(s) => Some(
                SessionEnd {
                    final_mfu_pct: s.mfu.mfu_pct.0,
                    elapsed_secs: s.elapsed_ms / 1000,
                    steps_observed: s.steps_observed,
                    primary_bottleneck: s.bottleneck,
                },
            ),
            None => None,
        }
    }
}

/// The end of a session tells its last MFU, its whole seconds, its steps and its
/// bottleneck; without a snapshot nothing is told.
pub proof fn law_ends_tell_the_last_snapshot(snapshot: Option<&SessionSnapshot>)
    ensures
        end_of(snapshot) is Some <==> snapshot is Some,
        snapshot matches Some(s) ==> end_of(snapshot)->0.final_mfu_pct == s.mfu.mfu_pct.0
            && end_of(snapshot)->0.steps_observed == s.steps_observed
            && end_of(snapshot)->0.primary_bottleneck == s.bottleneck
            && end_of(snapshot)->0.elapsed_secs * 1000 <= s.elapsed_ms < (
        end_of(snapshot)->0.elapsed_secs + 1) * 1000,
{
}

} // verus!
