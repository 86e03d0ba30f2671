//! The state of the GPU around a benchmark.
use vstd::prelude::*;

use crate::text;

verus! {

broadcast use vstd::string::group_string_axioms;

/// How long a GPU may take to become idle.
pub const IDLE_TIMEOUT_MS: u64 = 30_000;

/// The SM utilization, in percent, up to which a GPU counts as idle.
pub const IDLE_UTILIZATION: u32 = 5;

/// The time from which on loading a model is worth a note.
pub const SLOW_LOAD_MS: u64 = 60_000;

/// Whether a model took long enough to load for a note.
pub open spec fn is_slow_load(load_ms: int) -> bool {
    load_ms > SLOW_LOAD_MS
}

/// Whether a model took long enough to load for a note.
pub fn slow_to_load(load_ms: u64) -> (r: bool)
    ensures
        r == is_slow_load(load_ms as int),
{
    load_ms > SLOW_LOAD_MS
}

/// How many processes are not this one.
pub open spec fn others(pids: Seq<u32>, own: u32) -> nat
    decreases pids.len(),
{
    if pids.len() == 0 {
        0
    } else {
        others(pids.drop_last(), own) + if pids.last() != own {
            1nat
        } else {
            0
        }
    }
}

/// A warning if processes other than the current one are using the GPU.
pub fn concurrent_warning(pids: &Vec<u32>, own: u32) -> (r: Option<String>)
    ensures
        match r {
            Some(w) => others(pids@, own) > 0 && w@ == "Warning: "@ + text::decimal(
                others(pids@, own),
            )
                + " other GPU compute process(es) detected. Concurrent GPU usage will contaminate benchmark measurements. Stop other GPU processes and re-run for reliable results."@,
            None => others(pids@, own) == 0,
        },
{
    let mut n: usize = 0;
    let mut i: usize = 0;
    while i < pids.len()
        invariant
            i <= pids@.len(),
            n <= i,
            n == others(pids@.take(i as int), own),
        decreases pids.len() - i,
    {
        assert(pids@.take(i + 1).drop_last() =~= pids@.take(i as int));
        if pids[i] != own {
            n = n + 1;
        }
        i = i + 1;
    }
    assert(pids@.take(i as int) =~= pids@);
    if n == 0 {
        return None;
    }
    let mut w = "Warning: ".to_owned();
    w.append(text::decimal_text(n as u64).as_str());
    w.append(
        " other GPU compute process(es) detected. Concurrent GPU usage will contaminate benchmark measurements. Stop other GPU processes and re-run for reliable results.",
    );
    Some(w)
}

/// What to do while waiting for a GPU to become idle.
#[derive(Clone, Copy, Debug, PartialEq, Eq, Structural)]
pub enum IdleStep {
    /// The GPU is idle.
    Idle,
    /// The time is up; go on with a warning.
    TimedOut,
    /// Look again in half a second.
    Wait,
}

/// What to do after waiting for `elapsed_ms`: the time limit comes first, and a
/// utilization that cannot be read is no sign of idleness.
pub open spec fn idle_step_for(elapsed_ms: u64, utilization: Option<u32>) -> IdleStep {
    if elapsed_ms >= IDLE_TIMEOUT_MS {
        IdleStep::TimedOut
    } else if utilization is Some && utilization->0 <= IDLE_UTILIZATION {
        IdleStep::Idle
    } else {
        IdleStep::Wait
    }
}

/// Waits until GPU SM utilisation drops to 5% or the time is up.
pub fn idle_step(elapsed_ms: u64, utilization: Option<u32>) -> (r: IdleStep)
    ensures
        r == idle_step_for(elapsed_ms, utilization),
{
    if elapsed_ms >= IDLE_TIMEOUT_MS {
        return IdleStep::TimedOut;
    }
    match utilization {
        Some(u) => if u <= IDLE_UTILIZATION {
            IdleStep::Idle
        } else {
            IdleStep::Wait
        },
        None => IdleStep::Wait,
    }
}

/// Waiting ends after thirty seconds, whatever the GPU does; before that it ends at a
/// utilization of 5 or less, and at no other.
pub proof fn law_waiting_ends_idle_or_late(elapsed_ms: u64, utilization: Option<u32>)
    ensures
        idle_step_for(elapsed_ms, utilization) == IdleStep::TimedOut <==> elapsed_ms >= 30_000,
        idle_step_for(elapsed_ms, utilization) == IdleStep::Idle <==> elapsed_ms < 30_000 && (
        utilization matches Some(u) && u <= 5),
        SLOW_LOAD_MS == 60_000,
{
}

/// The other processes are those whose PID is not this one's.
pub proof fn law_others_are_counted(pids: Seq<u32>, own: u32)
    ensures
        others(pids, own) == pids.filter(|p: u32| p != own).len(),
    decreases pids.len(),
{
    reveal(Seq::filter);
    if pids.len() > 0 {
        law_others_are_counted(pids.drop_last(), own);
    }
}

/// Loading is slow that takes more than a minute.
pub proof fn law_slow_loads_take_over_a_minute(secs: int, ms: int)
    requires
        0 <= ms < 1000,
    ensures
        is_slow_load(1000 * secs + ms) <==> secs > 60 || (secs == 60 && ms > 0),
{
}

} // verus!
