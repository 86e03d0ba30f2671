//! Points in time, shown by the `chrono` crate.
use vstd::prelude::*;

verus! {

/// The first second, counted from the Unix epoch, of the year 262144 BCE.
pub const EARLIEST: i64 = -8_334_601_228_800;

/// The last second, counted from the Unix epoch, of the year 262142.
pub const LATEST: i64 = 8_210_266_876_799;

/// Whether a number of seconds since the Unix epoch is a point in time that has a
/// date.
pub open spec fn is_time(secs: i64) -> bool {
    EARLIEST <= secs <= LATEST
}

/// The text of a point in time by a pattern, in UTC.
pub uninterp spec fn utc_text(secs: int, pattern: Seq<char>) -> Seq<char>;

/// The pattern of a day.
pub open spec fn day_pattern() -> Seq<char> {
    "%Y-%m-%d"@
}

/// The pattern of a minute.
pub open spec fn minute_pattern() -> Seq<char> {
    "%Y-%m-%d %H:%M UTC"@
}

/// `DateTime::format` of the time that `DateTime::from_timestamp` makes of whole
/// seconds since the Unix epoch, which it does of those from [`EARLIEST`] to
/// [`LATEST`]: a function of the seconds and the pattern. A pattern that cannot be
/// followed would panic; the two that are admitted can be. What the calendar makes
/// of the seconds is left unsaid.
#[verifier::external_body]
pub(crate) fn format_utc(secs: i64, pattern: &str) -> (r: String)
    requires
        is_time(secs),
        pattern@ == day_pattern() || pattern@ == minute_pattern(),
    ensures
        r@ == utc_text(secs as int, pattern@),
{
    chrono::DateTime::from_timestamp(secs, 0).unwrap().format(pattern).to_string()
}

/// The day of a point in time, as `YYYY-MM-DD`.
pub fn day_text(secs: i64) -> (r: String)
    requires
        is_time(secs),
    ensures
        r@ == utc_text(secs as int, day_pattern()),
{
    format_utc(secs, "%Y-%m-%d")
}

/// The minute of a point in time, as `YYYY-MM-DD HH:MM UTC`.
pub fn minute_text(secs: i64) -> (r: String)
    requires
        is_time(secs),
    ensures
        r@ == utc_text(secs as int, minute_pattern()),
{
    format_utc(secs, "%Y-%m-%d %H:%M UTC")
}

/// Days are told by year, month and day, and minutes by the day before the hour and minute,
/// both in UTC.
pub proof fn law_minutes_tell_the_day_first()
    ensures
        day_pattern() == "%Y-%m-%d"@,
        minute_pattern() == day_pattern() + " %H:%M UTC"@,
{
    reveal_strlit("%Y-%m-%d");
    reveal_strlit(" %H:%M UTC");
    reveal_strlit("%Y-%m-%d %H:%M UTC");
    assert(minute_pattern() =~= day_pattern() + " %H:%M UTC"@);
}

} // verus!
