//! What is shown to the user.
use vstd::prelude::*;

use crate::text;

pub mod bench_markdown;
pub mod bench_terminal;
pub mod json;
pub mod plan_terminal;
pub mod summary;
pub mod terminal;

verus! {

broadcast use vstd::string::group_string_axioms;

/// The figures of a GPU as text.
#[derive(Debug)]
pub struct GpuCells {
    /// Percent to one decimal.
    pub sm_utilization: String,
    /// Degrees without decimals.
    pub temperature: String,
}

/// A share of the step time: percent to one decimal, and as parts of a bar.
#[derive(Debug)]
pub struct ShareCells {
    pub percent: String,
    /// How many of the 30 parts of a bar it fills.
    pub filled: usize,
}

/// The shares of the step time.
#[derive(Debug)]
pub struct BreakdownCells {
    pub forward_backward: ShareCells,
    pub data_loader: ShareCells,
    pub cuda_sync: ShareCells,
    pub optimizer: ShareCells,
    pub memory_alloc: ShareCells,
}

/// The figures of a snapshot as text.
#[derive(Debug)]
pub struct SnapshotCells {
    /// Percent to one decimal.
    pub mfu: String,
    /// Percent to one decimal.
    pub peak_mfu: String,
    /// To one decimal.
    pub actual_tflops: String,
    /// To one decimal.
    pub peak_tflops: String,
    pub breakdown: BreakdownCells,
    /// Degrees without decimals.
    pub temperature: String,
    /// Watts without decimals.
    pub power_draw: String,
    /// Watts without decimals.
    pub power_limit: String,
    /// Percentage points without decimals.
    pub divergence: String,
    /// Milliseconds without decimals.
    pub step_time: String,
    /// Dollars to two decimals.
    pub cost_per_hour: String,
    /// Dollars to two decimals.
    pub waste_per_hour: String,
    /// Percentage points without decimals.
    pub expected_gain: String,
    /// Of each GPU.
    pub per_gpu: Vec<GpuCells>,
}

/// A number in at least two digits.
pub open spec fn two_digits(n: nat) -> Seq<char> {
    if n < 10 {
        "0"@ + text::decimal(n)
    } else {
        text::decimal(n)
    }
}

/// A number in at least two digits.
fn two_digit_text(n: u64) -> (r: String)
    ensures
        r@ == two_digits(n as nat),
{
    let digits = text::decimal_text(n);
    if n < 10 {
        let mut r = "0".to_owned();
        r.append(digits.as_str());
        r
    } else {
        digits
    }
}

/// A time in hours, minutes and seconds.
pub open spec fn clock(secs: nat) -> Seq<char> {
    two_digits(secs / 3600) + ":"@ + two_digits(secs % 3600 / 60) + ":"@ + two_digits(secs % 60)
}

/// A time in hours, minutes and seconds.
pub fn clock_text(secs: u64) -> (r: String)
    ensures
        r@ == clock(secs as nat),
{
    let mut r = two_digit_text(secs / 3600);
    r.append(":");
    r.append(two_digit_text(secs % 3600 / 60).as_str());
    r.append(":");
    r.append(two_digit_text(secs % 60).as_str());
    r
}

/// The parts of a clock text make up the time.
pub proof fn law_clock_keeps_the_time(secs: nat)
    ensures
        secs == 3600 * (secs / 3600) + 60 * (secs % 3600 / 60) + secs % 60,
        secs % 3600 / 60 < 60,
        secs % 60 < 60,
{
}

/// Tenths with a decimal point.
pub open spec fn tenths(n: nat) -> Seq<char> {
    text::decimal(n / 10) + "."@ + text::decimal(n % 10)
}

/// Tenths with a decimal point.
pub fn tenths_text(n: u64) -> (r: String)
    ensures
        r@ == tenths(n as nat),
{
    let mut r = text::decimal_text(n / 10);
    r.append(".");
    r.append(text::decimal_text(n % 10).as_str());
    r
}

/// A time of so many hours, minutes and seconds is shown as these, each in two digits or
/// more.
pub proof fn law_clocks_show_hours_minutes_and_seconds(h: nat, m: nat, s: nat)
    requires
        m < 60,
        s < 60,
    ensures
        clock(3600 * h + 60 * m + s) == two_digits(h) + ":"@ + two_digits(m) + ":"@ + two_digits(s),
        two_digits(h).len() >= 2,
        text::parsed(two_digits(h)) == Some(h),
        m >= 10 ==> two_digits(m) == text::decimal(m),
{
    let secs = 3600 * h + 60 * m + s;
    assert(secs / 3600 == h);
    assert(secs % 3600 == 60 * m + s);
    assert((60 * m + s) / 60 == m);
    assert(secs % 60 == s);
    reveal_strlit("0");
    text::lemma_decimal_read_back(h);
    let d = text::decimal(h);
    let t = two_digits(h);
    if h < 10 {
        assert(t =~= seq!['0'] + d);
        assert(t.drop_last() =~= seq!['0']);
        assert(seq!['0'].drop_last() =~= Seq::<char>::empty());
        assert(text::digits_value(Seq::<char>::empty()) == 0);
        assert(text::digits_value(seq!['0']) == 0);
        assert(d.drop_last() =~= Seq::<char>::empty());
        assert(text::digits_value(t) == text::digits_value(d));
        assert forall|i: int| 0 <= i < t.len() implies text::is_digit(#[trigger] t[i]) by {
            if i > 0 {
                assert(t[i] == d[i - 1]);
            }
        }
        assert(t[0] == '0');
        assert(!seq!['+'].is_prefix_of(t)) by {
            if seq!['+'].is_prefix_of(t) {
                assert(seq!['+'][0] == t[0]);
            }
        }
    } else {
        text::law_numbers_are_read(h, h, Seq::empty());
        assert(d.len() == text::decimal(h / 10).len() + 1);
        text::lemma_decimal_read_back(h / 10);
    }
}

/// Tenths are shown with their last digit behind the point.
pub proof fn law_tenths_have_one_decimal(n: nat, d: nat)
    requires
        d < 10,
    ensures
        tenths(10 * n + d) == text::decimal(n) + "."@ + text::decimal(d),
{
    assert((10 * n + d) / 10 == n);
    assert((10 * n + d) % 10 == d);
}

} // verus!
