//! Memory readings taken around a benchmark.
use vstd::prelude::*;

verus! {

/// A point-in-time memory snapshot, in bytes.
#[derive(Clone, Copy, Debug, PartialEq, Eq, Structural)]
pub struct MemorySnapshot {
    /// GPU VRAM used. Zero where it cannot be read.
    pub vram_used_bytes: u64,
    /// Process resident set size.
    pub rss_bytes: u64,
}

/// Difference in memory usage between two snapshots, in bytes.
#[derive(Clone, Copy, Debug, PartialEq, Eq, Structural)]
pub struct MemoryDelta {
    pub vram_delta_bytes: u64,
    pub rss_delta_bytes: u64,
}

/// How far `now` is above `before`; zero where it is not.
pub open spec fn growth(now: u64, before: u64) -> u64 {
    if now > before {
        (now - before) as u64
    } else {
        0
    }
}

/// The larger of two readings.
pub open spec fn larger(a: u64, b: u64) -> u64 {
    if b > a {
        b
    } else {
        a
    }
}

/// The snapshot that readings make.
pub open spec fn snapshot_of(vram: Option<u64>, rss: Option<u64>) -> MemorySnapshot {
    MemorySnapshot {
        vram_used_bytes: match vram {
            Some(v) => v,
            None => 0,
        },
        rss_bytes: match rss {
            Some(v) => v,
            None => 0,
        },
    }
}

impl MemorySnapshot {
    /// A snapshot of what could be read; what could not counts as zero.
    pub fn take(vram: Option<u64>, rss: Option<u64>) -> (r: Self)
        ensures
            r == snapshot_of(vram, rss),
    {
        MemorySnapshot {
            vram_used_bytes: match vram {
                Some(v) => v,
                None => 0,
            },
            rss_bytes: match rss {
                Some(v) => v,
                None => 0,
            },
        }
    }

    /// The growth of both readings over a baseline.
    pub open spec fn above(self, baseline: MemorySnapshot) -> MemoryDelta {
        MemoryDelta {
            vram_delta_bytes: growth(self.vram_used_bytes, baseline.vram_used_bytes),
            rss_delta_bytes: growth(self.rss_bytes, baseline.rss_bytes),
        }
    }

    /// Computes how much more memory is used relative to a baseline snapshot.
    pub fn delta_from(&self, baseline: &MemorySnapshot) -> (r: MemoryDelta)
        ensures
            r == self.above(*baseline),
    {
        MemoryDelta {
            vram_delta_bytes: self.vram_used_bytes.saturating_sub(baseline.vram_used_bytes),
            rss_delta_bytes: self.rss_bytes.saturating_sub(baseline.rss_bytes),
        }
    }

    /// The higher of both readings of two snapshots.
    pub open spec fn highest(self, other: MemorySnapshot) -> MemorySnapshot {
        MemorySnapshot {
            vram_used_bytes: larger(self.vram_used_bytes, other.vram_used_bytes),
            rss_bytes: larger(self.rss_bytes, other.rss_bytes),
        }
    }
}

/// Tracks the highest memory watermark observed across multiple readings.
#[derive(Clone, Copy, Debug, PartialEq, Eq, Structural)]
pub struct PeakMemoryTracker {
    pub peak: MemorySnapshot,
}

/// No memory in use.
pub open spec fn nothing_used() -> MemorySnapshot {
    MemorySnapshot { vram_used_bytes: 0, rss_bytes: 0 }
}

/// The watermark of a run of readings.
pub open spec fn watermark(readings: Seq<MemorySnapshot>) -> MemorySnapshot
    decreases readings.len(),
{
    if readings.len() == 0 {
        nothing_used()
    } else {
        watermark(readings.drop_last()).highest(readings.last())
    }
}

/// No reading lies above the watermark.
pub proof fn law_watermark_is_highest(readings: Seq<MemorySnapshot>, i: int)
    requires
        0 <= i < readings.len(),
    ensures
        readings[i].vram_used_bytes <= watermark(readings).vram_used_bytes,
        readings[i].rss_bytes <= watermark(readings).rss_bytes,
    decreases readings.len(),
{
    if i < readings.len() - 1 {
        law_watermark_is_highest(readings.drop_last(), i);
    }
}

impl PeakMemoryTracker {
    /// A tracker that has seen no reading.
    pub fn new() -> (r: Self)
        ensures
            r.peak == nothing_used(),
    {
        PeakMemoryTracker { peak: MemorySnapshot { vram_used_bytes: 0, rss_bytes: 0 } }
    }

    /// Updates the peak if this reading is higher.
    pub fn update(&mut self, current: MemorySnapshot)
        ensures
            final(self).peak == old(self).peak.highest(current),
    {
        if current.vram_used_bytes > self.peak.vram_used_bytes {
            self.peak.vram_used_bytes = current.vram_used_bytes;
        }
        if current.rss_bytes > self.peak.rss_bytes {
            self.peak.rss_bytes = current.rss_bytes;
        }
    }

    /// The peak so far.
    pub fn peak(&self) -> (r: MemorySnapshot)
        ensures
            r == self.peak,
    {
        self.peak
    }
}

/// Growth leads from the earlier reading to the later one, and is zero where memory was
/// freed.
pub proof fn law_growth_joins_the_readings(now: MemorySnapshot, before: MemorySnapshot)
    ensures
        before.vram_used_bytes <= now.vram_used_bytes ==> before.vram_used_bytes + now.above(
            before,
        ).vram_delta_bytes == now.vram_used_bytes,
        before.vram_used_bytes >= now.vram_used_bytes ==> now.above(before).vram_delta_bytes == 0,
        before.rss_bytes <= now.rss_bytes ==> before.rss_bytes + now.above(before).rss_delta_bytes
            == now.rss_bytes,
        before.rss_bytes >= now.rss_bytes ==> now.above(before).rss_delta_bytes == 0,
{
}

/// The higher of two snapshots is not below either, and each of its readings is one of
/// theirs.
pub proof fn law_higher_of_two(a: MemorySnapshot, b: MemorySnapshot)
    ensures
        a.vram_used_bytes <= a.highest(b).vram_used_bytes,
        b.vram_used_bytes <= a.highest(b).vram_used_bytes,
        a.highest(b).vram_used_bytes == a.vram_used_bytes || a.highest(b).vram_used_bytes
            == b.vram_used_bytes,
        a.rss_bytes <= a.highest(b).rss_bytes,
        b.rss_bytes <= a.highest(b).rss_bytes,
        a.highest(b).rss_bytes == a.rss_bytes || a.highest(b).rss_bytes == b.rss_bytes,
        nothing_used().vram_used_bytes == 0,
        nothing_used().rss_bytes == 0,
{
}

/// A watermark above zero was reached by a reading.
pub proof fn law_watermark_was_reached(readings: Seq<MemorySnapshot>)
    ensures
        watermark(readings).vram_used_bytes == 0 || exists|i: int|
            0 <= i < readings.len() && (#[trigger] readings[i]).vram_used_bytes == watermark(
                readings,
            ).vram_used_bytes,
        watermark(readings).rss_bytes == 0 || exists|i: int|
            0 <= i < readings.len() && (#[trigger] readings[i]).rss_bytes == watermark(
                readings,
            ).rss_bytes,
    decreases readings.len(),
{
    if readings.len() > 0 {
        let before = readings.drop_last();
        law_watermark_was_reached(before);
        let n = readings.len() - 1;
        assert(readings[n] == readings.last());
        if watermark(readings).vram_used_bytes != readings.last().vram_used_bytes && watermark(
            readings,
        ).vram_used_bytes != 0 {
            let i = choose|i: int|
                0 <= i < before.len() && (#[trigger] before[i]).vram_used_bytes == watermark(
                    before,
                ).vram_used_bytes;
            assert(readings[i] == before[i]);
        }
        if watermark(readings).rss_bytes != readings.last().rss_bytes && watermark(
            readings,
        ).rss_bytes != 0 {
            let i = choose|i: int|
                0 <= i < before.len() && (#[trigger] before[i]).rss_bytes == watermark(
                    before,
                ).rss_bytes;
            assert(readings[i] == before[i]);
        }
    }
}

/// A snapshot holds each reading that there is, and zero for one that is missing.
pub proof fn law_missing_readings_count_as_zero(vram: u64, rss: u64)
    ensures
        snapshot_of(Some(vram), Some(rss)).vram_used_bytes == vram,
        snapshot_of(Some(vram), Some(rss)).rss_bytes == rss,
        snapshot_of(None, Some(rss)).vram_used_bytes == 0,
        snapshot_of(None, Some(rss)).rss_bytes == rss,
        snapshot_of(Some(vram), None).vram_used_bytes == vram,
        snapshot_of(Some(vram), None).rss_bytes == 0,
{
}

} // verus!
