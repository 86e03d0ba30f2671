//! CPU utilization of a process, from its kernel statistics.
use vstd::prelude::*;

use crate::bench::input;
use crate::error::CalibrateError;
use crate::float::F32;
use crate::metrics::units::Percent;
use crate::text;

verus! {

broadcast use vstd::string::group_string_axioms;

/// Diffs successive readings of `/proc/{pid}/stat` to compute the CPU utilization
/// of a specific process between them.
///
/// The difference between consecutive readings is divided by elapsed wall-clock
/// time to yield a percentage (may exceed 100 on multi-core systems).
#[derive(Clone, Copy, Debug, PartialEq, Eq, Structural)]
pub struct ProcCollector {
    pub pid: u32,
    pub prev_cpu_ticks: Option<u64>,
    /// Kernel clock ticks per second.
    pub ticks_per_sec: u64,
}

/// The CPU time that passed between two readings.
#[derive(Clone, Copy, Debug, PartialEq, Eq, Structural)]
pub struct TickDelta {
    pub ticks: u64,
    /// Not zero.
    pub ticks_per_sec: u64,
}

/// What follows the process name, which ends at the last closing parenthesis.
pub open spec fn after_name(stat: Seq<char>) -> Option<Seq<char>> {
    let i = input::last_index(stat, ')');
    if i < 0 {
        None
    } else {
        Some(stat.skip(i + 1))
    }
}

/// The number in a field, where there is one that fits 64 bits.
pub open spec fn field_number(fields: Seq<Seq<char>>, i: int) -> Option<nat> {
    if i < fields.len() {
        text::parsed_within(fields[i], u64::MAX as nat)
    } else {
        None
    }
}

/// User and system time, the twelfth and thirteenth field after the process name,
/// in clock ticks, where both are numbers and their sum fits 64 bits.
pub open spec fn cpu_ticks(stat: Seq<char>) -> Option<nat> {
    match after_name(stat) {
        Some(rest) => match (
            field_number(text::words(rest), 11),
            field_number(text::words(rest), 12),
        ) {
            (Some(u), Some(s)) => if u + s <= u64::MAX {
                Some(u + s)
            } else {
                None
            },
            _ => None,
        },
        None => None,
    }
}

/// What follows the process name.
fn rest_after_name(stat: &str) -> (r: Option<String>)
    ensures
        match r {
            Some(s) => after_name(stat@) == Some(s@),
            None => after_name(stat@) is None,
        },
{
    let cs = text::chars_of(stat);
    let mut i: usize = cs.len();
    assert(stat@.take(i as int) =~= stat@);
    while i > 0
        invariant
            cs@ == stat@,
            i <= cs@.len(),
            input::last_index(stat@, ')') == input::last_index(stat@.take(i as int), ')'),
        decreases i,
    {
        assert(stat@.take(i as int).last() == cs@[i - 1]);
        assert(stat@.take(i as int).drop_last() =~= stat@.take(i - 1));
        if cs[i - 1] == ')' {
            let s = text::text_between(&cs, i, cs.len());
            assert(s@ =~= stat@.skip(i as int));
            return Some(s);
        }
        i = i - 1;
    }
    None
}

/// The number in a field.
fn number_at(fields: &Vec<String>, i: usize) -> (r: Option<u64>)
    ensures
        match r {
            Some(n) => field_number(text::texts(fields@), i as int) == Some(n as nat),
            None => field_number(text::texts(fields@), i as int) is None,
        },
{
    assert(text::texts(fields@).len() == fields@.len());
    if i < fields.len() {
        assert(text::texts(fields@)[i as int] == fields@[i as int]@);
        text::parse_within(fields[i].as_str(), u64::MAX)
    } else {
        None
    }
}

/// Reads user and system time from `/proc/{pid}/stat`.
///
/// The process name stands in parentheses and may contain spaces, so the fields
/// are counted from the last closing parenthesis.
pub fn parse_cpu_ticks(raw: &str, pid: u32) -> (r: Result<u64, CalibrateError>)
    ensures
        match cpu_ticks(raw@) {
            Some(n) => r matches Ok(v) && v == n,
            None => r == Err::<u64, CalibrateError>(CalibrateError::ProcFormat { pid }),
        },
{
    let rest = match rest_after_name(raw) {
        Some(s) => s,
        None => {
            return Err(CalibrateError::ProcFormat { pid });
        },
    };
    let fields = text::words_of(rest.as_str());
    match number_at(&fields, 11) {
        Some(utime) => match number_at(&fields, 12) {
            Some(stime) => match utime.checked_add(stime) {
                Some(n) => Ok(n),
                None => Err(CalibrateError::ProcFormat { pid }),
            },
            None => Err(CalibrateError::ProcFormat { pid }),
        },
        None => Err(CalibrateError::ProcFormat { pid }),
    }
}

/// The ticks per second of a clock, by what it reports.
pub open spec fn clock_rate(clock_ticks: u64) -> u64 {
    if clock_ticks == 0 {
        100
    } else {
        clock_ticks
    }
}

/// The CPU time between two readings, none of which lies before the first.
pub open spec fn elapsed_ticks(before: Option<u64>, now: nat, ticks_per_sec: u64) -> Option<
    TickDelta,
> {
    match before {
        Some(p) => Some(
            TickDelta {
                ticks: if now > p {
                    (now - p) as u64
                } else {
                    0
                },
                ticks_per_sec,
            },
        ),
        None => None,
    }
}

/// Whether a collector in state `before` comes to state `after` and result `r` by a
/// reading.
pub open spec fn is_reading(
    before: ProcCollector,
    raw: Result<String, String>,
    after: ProcCollector,
    r: Result<Option<TickDelta>, CalibrateError>,
) -> bool {
    match raw {
        Err(e) => r == Err::<Option<TickDelta>, CalibrateError>(
            CalibrateError::ProcRead { pid: before.pid, source: e },
        ) && after == before,
        Ok(stat) => match cpu_ticks(stat@) {
            None => r == Err::<Option<TickDelta>, CalibrateError>(
                CalibrateError::ProcFormat { pid: before.pid },
            ) && after == before,
            Some(n) => after == (ProcCollector { prev_cpu_ticks: Some(n as u64), ..before }) && r
                == Ok::<Option<TickDelta>, CalibrateError>(
                elapsed_ticks(before.prev_cpu_ticks, n, before.ticks_per_sec),
            ),
        },
    }
}

impl ProcCollector {
    /// A collector for a process, where it exists. A clock that reports no ticks is
    /// taken to tick a hundred times a second.
    pub fn new(pid: u32, exists: bool, clock_ticks: u64) -> (r: Result<Self, CalibrateError>)
        ensures
            exists ==> (r matches Ok(c) && c == (ProcCollector {
                pid,
                prev_cpu_ticks: None,
                ticks_per_sec: clock_rate(clock_ticks),
            })),
            !exists ==> r == Err::<Self, CalibrateError>(CalibrateError::ProcessNotFound { pid }),
    {
        if !exists {
            return Err(CalibrateError::ProcessNotFound { pid });
        }
        Ok(
            ProcCollector {
                pid,
                prev_cpu_ticks: None,
                ticks_per_sec: if clock_ticks == 0 {
                    100
                } else {
                    clock_ticks
                },
            },
        )
    }

    /// Where the statistics of the process stand.
    pub fn stat_path(&self) -> (r: String)
        ensures
            r@ == "/proc/"@ + text::decimal(self.pid as nat) + "/stat"@,
    {
        let mut p = "/proc/".to_owned();
        p.append(text::decimal_text(self.pid as u64).as_str());
        p.append("/stat");
        p
    }

    /// Takes in a reading of the statistics; hands out the CPU time since the last
    /// one. There is none on the first.
    pub fn sample(&mut self, raw: Result<String, String>) -> (r: Result<
        Option<TickDelta>,
        CalibrateError,
    >)
        ensures
            final(self).pid == old(self).pid,
            final(self).ticks_per_sec == old(self).ticks_per_sec,
            is_reading(*old(self), raw, *final(self), r),
    {
        let stat = match raw {
            Ok(s) => s,
            Err(e) => {
                return Err(CalibrateError::ProcRead { pid: self.pid, source: e });
            },
        };
        let ticks: u64 = match parse_cpu_ticks(stat.as_str(), self.pid) {
            Ok(n) => n,
            Err(e) => {
                return Err(e);
            },
        };
        let delta = match self.prev_cpu_ticks {
            Some(p) => Some(
                TickDelta { ticks: ticks.saturating_sub(p), ticks_per_sec: self.ticks_per_sec },
            ),
            None => None,
        };
        self.prev_cpu_ticks = Some(ticks);
        Ok(delta)
    }

    /// The utilization that a CPU time comes to, which may exceed 100 percent on
    /// several cores; zero without one.
    pub fn utilization(pct: Option<F32>) -> (r: Percent)
        ensures
            r.0 == (match pct {
                Some(p) => p,
                None => F32::of(0),
            }),
    {
        match pct {
            Some(p) => Percent(p),
            None => Percent(F32::of(0)),
        }
    }

    /// Whether the process is still alive: its statistics exist.
    pub fn is_alive(&self, stat_exists: bool) -> (r: bool)
        ensures
            r == stat_exists,
    {
        stat_exists
    }
}

/// The CPU time is the sum of the twelfth and the thirteenth word behind the last closing
/// parenthesis, whatever the name before it holds.
pub proof fn law_ticks_are_user_and_system_time(name: Seq<char>, rest: Seq<char>, u: nat, s: nat)
    requires
        !rest.contains(')'),
        text::words(rest).len() > 12,
        text::words(rest)[11] == text::decimal(u),
        text::words(rest)[12] == text::decimal(s),
    ensures
        u + s <= u64::MAX ==> cpu_ticks(name + seq![')'] + rest) == Some(u + s),
        u + s > u64::MAX ==> cpu_ticks(name + seq![')'] + rest) is None,
{
    let stat = name + seq![')'] + rest;
    input::law_last_index(stat, ')');
    let i = input::last_index(stat, ')');
    assert(stat[name.len() as int] == ')');
    if i > name.len() {
        assert(stat[i] == rest[i - name.len() - 1]);
    }
    assert(stat.skip(i + 1) =~= rest);
    text::law_numbers_are_read(u, u64::MAX as nat, Seq::empty());
    text::law_numbers_are_read(s, u64::MAX as nat, Seq::empty());
}

/// Without a closing parenthesis, or with fewer than thirteen words behind the last, there
/// is no CPU time.
pub proof fn law_malformed_statistics(stat: Seq<char>, name: Seq<char>, rest: Seq<char>)
    requires
        !stat.contains(')'),
        !rest.contains(')'),
        text::words(rest).len() < 13,
    ensures
        cpu_ticks(stat) is None,
        cpu_ticks(name + seq![')'] + rest) is None,
{
    input::law_last_index(stat, ')');
    let all = name + seq![')'] + rest;
    input::law_last_index(all, ')');
    let i = input::last_index(all, ')');
    assert(all[name.len() as int] == ')');
    if i > name.len() {
        assert(all[i] == rest[i - name.len() - 1]);
    }
    assert(all.skip(i + 1) =~= rest);
}

/// A reading gives the CPU time since the last one that succeeded: nothing on the first,
/// none where the counter went back, and else the difference. A failure leaves the
/// collector as it was.
pub proof fn law_readings_give_differences(
    before: ProcCollector,
    raw: Result<String, String>,
    after: ProcCollector,
    r: Result<Option<TickDelta>, CalibrateError>,
)
    requires
        is_reading(before, raw, after, r),
    ensures
        after.pid == before.pid && after.ticks_per_sec == before.ticks_per_sec,
        r is Ok <==> raw is Ok && cpu_ticks(raw->Ok_0@) is Some,
        r is Err ==> after == before,
        raw is Err ==> r == Err::<Option<TickDelta>, CalibrateError>(
            CalibrateError::ProcRead { pid: before.pid, source: raw->Err_0 },
        ),
        raw is Ok && cpu_ticks(raw->Ok_0@) is None ==> r == Err::<Option<TickDelta>, CalibrateError>(
            CalibrateError::ProcFormat { pid: before.pid },
        ),
        r is Ok ==> after.prev_cpu_ticks is Some && after.prev_cpu_ticks->0 == cpu_ticks(
            raw->Ok_0@,
        )->0,
        r is Ok ==> (r->Ok_0 is None <==> before.prev_cpu_ticks is None),
        r is Ok && r->Ok_0 is Some ==> r->Ok_0->0.ticks_per_sec == before.ticks_per_sec,
        r is Ok && r->Ok_0 is Some && after.prev_cpu_ticks->0 >= before.prev_cpu_ticks->0
            ==> r->Ok_0->0.ticks + before.prev_cpu_ticks->0 == after.prev_cpu_ticks->0,
        r is Ok && r->Ok_0 is Some && after.prev_cpu_ticks->0 < before.prev_cpu_ticks->0
            ==> r->Ok_0->0.ticks == 0,
{
}

/// A clock ticks as it reports; one that reports nothing is taken to tick a hundred times a
/// second, so that no rate is zero.
pub proof fn law_clocks_tick(clock_ticks: u64)
    ensures
        clock_rate(0) == 100,
        clock_ticks > 0 ==> clock_rate(clock_ticks) == clock_ticks,
        clock_rate(clock_ticks) > 0,
{
}

} // verus!
