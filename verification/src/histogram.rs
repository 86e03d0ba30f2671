//! Value distributions, kept in an HDR histogram.
//!
//! The histogram crate keeps counts in buckets: values below 2048 are kept
//! exactly, larger ones to three significant decimal digits. What stands here of
//! it is what its buckets promise, over the multiset of recorded values.
use hdrhistogram::Histogram;
use vstd::multiset::Multiset;
use vstd::prelude::*;

verus! {

/// A histogram of the `hdrhistogram` crate with 64-bit counts.
#[verifier::external_body]
pub struct ValueHistogram {
    inner: Histogram<u64>,
}

/// The values that a histogram has recorded.
pub uninterp spec fn recorded(h: ValueHistogram) -> Multiset<u64>;

/// The largest value that a histogram can record.
pub uninterp spec fn limit(h: ValueHistogram) -> nat;

/// What a histogram that has recorded `values` reports as a percentile.
pub uninterp spec fn percentile(values: Multiset<u64>, percent: nat) -> u64;

/// What a histogram that has recorded `values` reports as the lowest of them.
pub uninterp spec fn lowest_shown(values: Multiset<u64>) -> u64;

/// What a histogram that has recorded `values` reports as the highest of them.
pub uninterp spec fn highest_shown(values: Multiset<u64>) -> u64;

/// The largest value that the buckets reach that are made to cover `high`: 2047,
/// doubled and one more until it covers it.
pub open spec fn reach(high: nat) -> nat
    decreases high,
{
    if high < 2048 {
        2047
    } else {
        2 * reach(high / 2) + 1
    }
}

/// Whether `shown` is a value that a histogram shows for `value`: not below it,
/// and above it by at most one part in 1024.
pub open spec fn shows_above(value: u64, shown: u64) -> bool {
    value <= shown <= value + value / 1024
}

/// Whether `shown` is a value that a histogram shows for `value`: not above it,
/// and below it by at most one part in 1024.
pub open spec fn shows_below(value: u64, shown: u64) -> bool {
    value - value / 1024 <= shown <= value
}

/// Whether a histogram of `values` may show one of them, from above, as `shown`.
pub open spec fn shows_one_above(values: Multiset<u64>, shown: u64) -> bool {
    exists|v: u64| values.count(v) > 0 && #[trigger] shows_above(v, shown)
}

/// Whether a histogram of `values` may show one of them, from below, as `shown`.
pub open spec fn shows_one_below(values: Multiset<u64>, shown: u64) -> bool {
    exists|v: u64| values.count(v) > 0 && #[trigger] shows_below(v, shown)
}

/// Whether `shown` is what a histogram of `values` shows at a percentile: the given
/// share of the values does not exceed it, and the values that it cannot stand for
/// and that are below it are fewer than that share.
pub open spec fn is_at_percentile(values: Multiset<u64>, percent: nat, shown: u64) -> bool {
    &&& values.filter(|v: u64| v <= shown).len() * 100 >= values.len() * percent
    &&& values.filter(|v: u64| v + v / 1024 < shown).len() * 100 < values.len() * percent
}

/// `Histogram::new_with_bounds` with a lowest value of 1 and three significant
/// digits, which fails only where `high` is below 2. The new histogram is empty,
/// and records values as far as its buckets reach. That is short of `u64::MAX` for
/// every `high` that is admitted: the bucket of that value is shown one too low.
#[verifier::external_body]
pub(crate) fn new_histogram(high: u64) -> (h: ValueHistogram)
    requires
        2 <= high < 0x8000_0000_0000_0000,
    ensures
        recorded(h) == Multiset::<u64>::empty(),
        limit(h) == reach(high as nat),
{
    ValueHistogram { inner: Histogram::new_with_bounds(1, high, 3).unwrap() }
}

/// `Histogram::record`: counts a value that the buckets reach, and refuses any
/// other.
#[verifier::external_body]
pub(crate) fn record(h: &mut ValueHistogram, value: u64) -> (ok: bool)
    requires
        recorded(*old(h)).len() < u64::MAX,
    ensures
        ok == (value <= limit(*old(h))),
        recorded(*final(h)) == (if ok {
            recorded(*old(h)).insert(value)
        } else {
            recorded(*old(h))
        }),
        limit(*final(h)) == limit(*old(h)),
{
    h.inner.record(value).is_ok()
}

/// `Histogram::value_at_percentile`: a function of the recorded values. It is
/// zero of an empty histogram; else it shows one of the recorded values, it is no
/// less than any lower percentile, and it is at the percentile that is asked for, as
/// long as the recorded values are few enough for the rank to be exact. The four
/// percentiles admitted here are those whose share, as a double, does not exceed the
/// exact one; of others the rank may be one higher. A histogram that reaches
/// `u64::MAX` is left out.
#[verifier::external_body]
pub(crate) fn value_at(h: &ValueHistogram, percent: u32) -> (r: u64)
    requires
        percent == 50 || percent == 75 || percent == 95 || percent == 99,
        recorded(*h).len() <= u64::MAX,
        limit(*h) < u64::MAX,
    ensures
        r == percentile(recorded(*h), percent as nat),
        recorded(*h).len() == 0 ==> r == 0,
        recorded(*h).len() > 0 ==> shows_one_above(recorded(*h), r),
        forall|q: nat| 1 <= q <= percent ==> #[trigger] percentile(recorded(*h), q) <= r,
        0 < recorded(*h).len() <= 0x100_0000_0000 ==> is_at_percentile(
            recorded(*h),
            percent as nat,
            r,
        ),
{
    h.inner.value_at_percentile(percent.into())
}

/// `Histogram::min`: a function of the recorded values. It is zero of an empty
/// histogram or where zero was recorded; else it shows a recorded value, and none
/// is below it.
#[verifier::external_body]
pub(crate) fn lowest(h: &ValueHistogram) -> (r: u64)
    ensures
        r == lowest_shown(recorded(*h)),
        recorded(*h).len() == 0 || recorded(*h).count(0) > 0 ==> r == 0,
        recorded(*h).len() > 0 ==> shows_one_below(recorded(*h), r),
        forall|v: u64| #[trigger] recorded(*h).count(v) > 0 ==> r <= v,
{
    h.inner.min()
}

/// `Histogram::max`: a function of the recorded values. It is zero of an empty
/// histogram; else it shows a recorded value, and neither a recorded value nor a
/// percentile is above it.
#[verifier::external_body]
pub(crate) fn highest(h: &ValueHistogram) -> (r: u64)
    requires
        recorded(*h).len() <= u64::MAX,
        limit(*h) < u64::MAX,
    ensures
        r == highest_shown(recorded(*h)),
        recorded(*h).len() == 0 ==> r == 0,
        recorded(*h).len() > 0 ==> shows_one_above(recorded(*h), r),
        forall|v: u64| #[trigger] recorded(*h).count(v) > 0 ==> v <= r,
        forall|q: nat| 1 <= q <= 100 ==> #[trigger] percentile(recorded(*h), q) <= r,
{
    h.inner.max()
}

} // verus!
