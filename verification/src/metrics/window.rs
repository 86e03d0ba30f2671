//! A bounded window over the most recent samples.
use std::collections::VecDeque;

use vstd::prelude::*;

use crate::collectors::RawSample;

verus! {

/// Maximum number of samples retained in the window (5 minutes at 2-second
/// intervals).
pub const MAX_WINDOW_SIZE: usize = 150;

/// Minimum number of samples needed for reliable statistics.
pub const MIN_RELIABLE_SAMPLES: usize = 15;

/// A sliding-window buffer of [`RawSample`] values, oldest first.
///
/// The analytics operate over this window rather than the raw stream, which
/// smooths them and bounds the memory they need.
#[derive(Debug)]
pub struct MetricsWindow {
    samples: VecDeque<RawSample>,
    max_size: usize,
}

/// The last `n` items of a sequence; all of them where it has no more.
pub open spec fn last_of<T>(s: Seq<T>, n: int) -> Seq<T> {
    if s.len() <= n {
        s
    } else {
        s.skip(s.len() - n)
    }
}

/// What a window of the given capacity holds after a push. A window of capacity
/// zero is never full once it holds a sample.
pub open spec fn after_push(
    held: Seq<RawSample>,
    capacity: nat,
    sample: RawSample,
) -> Seq<RawSample> {
    if held.len() > 0 && held.len() == capacity {
        held.drop_first().push(sample)
    } else {
        held.push(sample)
    }
}

impl View for MetricsWindow {
    type V = Seq<RawSample>;

    closed spec fn view(&self) -> Seq<RawSample> {
        self.samples@
    }
}

impl MetricsWindow {
    /// The size from which on a push evicts.
    pub closed spec fn capacity(&self) -> nat {
        self.max_size as nat
    }

    /// Whether the window holds no more than its capacity, where it has one.
    pub open spec fn well_formed(&self) -> bool {
        self.capacity() > 0 ==> self@.len() <= self.capacity()
    }

    /// An empty window.
    pub fn new(max_size: usize) -> (r: Self)
        ensures
            r@ == Seq::<RawSample>::empty(),
            r.capacity() == max_size,
            r.well_formed(),
    {
        MetricsWindow { samples: VecDeque::new(), max_size }
    }

    /// Adds a sample, evicting the oldest if the window is full.
    pub fn push(&mut self, sample: RawSample)
        ensures
            final(self)@ == after_push(old(self)@, old(self).capacity(), sample),
            final(self).capacity() == old(self).capacity(),
            old(self).well_formed() ==> final(self).well_formed(),
    {
        if self.samples.len() == self.max_size {
            self.samples.pop_front();
        }
        self.samples.push_back(sample);
    }

    /// How many samples the window holds.
    pub fn len(&self) -> (r: usize)
        ensures
            r == self@.len(),
    {
        self.samples.len()
    }

    /// Whether the window holds no sample.
    pub fn is_empty(&self) -> (r: bool)
        ensures
            r == (self@.len() == 0),
    {
        self.samples.len() == 0
    }

    /// The sample at an index, oldest first.
    pub fn get(&self, i: usize) -> (r: RawSample)
        requires
            i < self@.len(),
        ensures
            r == self@[i as int],
    {
        self.samples[i]
    }

    /// Milliseconds spanned by the samples in the window.
    pub fn duration(&self) -> (r: u64)
        ensures
            r == span_ms(self@),
    {
        let n: usize = self.samples.len();
        if n == 0 {
            return 0;
        }
        let first: u64 = self.samples[0].timestamp_ms;
        let last: u64 = self.samples[n - 1].timestamp_ms;
        last.saturating_sub(first)
    }

    /// Whether there are enough samples for reliable statistics.
    pub open spec fn holds_enough(self) -> bool {
        self@.len() >= MIN_RELIABLE_SAMPLES
    }

    /// Whether there are enough samples for reliable statistics.
    pub fn is_reliable(&self) -> (r: bool)
        ensures
            r == self.holds_enough(),
    {
        self.samples.len() >= MIN_RELIABLE_SAMPLES
    }
}

/// Milliseconds from the first sample to the last; zero where the clock ran
/// backwards or there is no sample.
pub open spec fn span_ms(s: Seq<RawSample>) -> nat {
    if s.len() > 0 && s.last().timestamp_ms > s[0].timestamp_ms {
        (s.last().timestamp_ms - s[0].timestamp_ms) as nat
    } else {
        0
    }
}

/// A window that holds the last part of what was pushed holds the last part of
/// it after one more push, with the new sample at its end.
pub proof fn law_window_is_last_pushed(pushed: Seq<RawSample>, sample: RawSample, capacity: nat)
    requires
        capacity > 0,
    ensures
        after_push(last_of(pushed, capacity as int), capacity, sample) == last_of(
            pushed.push(sample),
            capacity as int,
        ),
        last_of(pushed.push(sample), capacity as int).len() <= capacity,
        last_of(pushed.push(sample), capacity as int).last() == sample,
{
    assert(after_push(last_of(pushed, capacity as int), capacity, sample) =~= last_of(
        pushed.push(sample),
        capacity as int,
    ));
}

/// The last items of a sequence are as many as asked for, or all of them; they end as
/// the sequence does.
pub proof fn law_last_items<T>(s: Seq<T>, n: int, i: int)
    requires
        0 <= i < n,
        i < s.len(),
    ensures
        last_of(s, n).len() == if s.len() < n {
            s.len() as int
        } else {
            n
        },
        last_of(s, n)[last_of(s, n).len() - 1 - i] == s[s.len() - 1 - i],
{
}

/// A push keeps what a window holds, but for the oldest sample of a full one, and puts
/// the new sample at the end. A session's window is full at 150 samples, and from 15 on
/// statistics are reliable.
pub proof fn law_pushing_evicts_the_oldest(
    held: Seq<RawSample>,
    capacity: nat,
    sample: RawSample,
    i: int,
)
    requires
        0 <= i < held.len() <= capacity,
    ensures
        after_push(held, capacity, sample).last() == sample,
        held.len() < capacity ==> after_push(held, capacity, sample).len() == held.len() + 1
            && after_push(held, capacity, sample)[i] == held[i],
        held.len() == capacity ==> after_push(held, capacity, sample).len() == capacity && (i > 0
            ==> after_push(held, capacity, sample)[i - 1] == held[i]),
        MAX_WINDOW_SIZE == 150,
        MIN_RELIABLE_SAMPLES == 15,
{
}

/// The span of a window leads from its first timestamp to its last, unless the clock
/// ran backwards.
pub proof fn law_span_reaches_the_last_sample(s: Seq<RawSample>)
    requires
        s.len() > 0,
    ensures
        s[0].timestamp_ms <= s[s.len() - 1].timestamp_ms ==> s[0].timestamp_ms + span_ms(s)
            == s[s.len() - 1].timestamp_ms,
        s[0].timestamp_ms > s[s.len() - 1].timestamp_ms ==> span_ms(s) == 0,
{
}

/// Statistics are reliable from fifteen samples on.
pub proof fn law_fifteen_samples_are_reliable(w: MetricsWindow)
    ensures
        w.holds_enough() <==> w@.len() >= 15,
{
}

} // verus!
