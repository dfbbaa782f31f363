//! Calendar days of timestamps.

use chrono::Datelike;
use vstd::prelude::*;

use crate::text;

verus! {

/// Nanoseconds of a day.
pub const DAY_NANOS: i64 = 86_400_000_000_000;

/// The number of the UTC day of a timestamp, with January 1 of year 1 as day 1.
pub open spec fn day_of(nanos: i64) -> int {
    nanos as int / DAY_NANOS as int + 719163
}

/// A day as `YYYYMMDD`.
pub uninterp spec fn day_stamp(day: int) -> Seq<char>;

/// `chrono::DateTime::from_timestamp_nanos` with `date_naive` and
/// `Datelike::num_days_from_ce`: the UTC day of a Unix timestamp, which is
/// day 719163 at timestamp 0 and changes every 86400 seconds.
#[verifier::external_body]
pub(crate) fn utc_day(nanos: i64) -> (r: i32)
    ensures
        r == day_of(nanos),
{
    chrono::DateTime::from_timestamp_nanos(nanos).date_naive().num_days_from_ce()
}

/// `chrono::NaiveDate::from_num_days_from_ce_opt` with the format `%Y%m%d`.
/// The text depends on the day alone: year, month and day of the month in
/// four, two and two decimal digits, so that it is eight digits long and texts
/// come in the order of their days. The days of 64-bit nanosecond timestamps are all
/// in the range of dates, in years of four digits.
#[verifier::external_body]
pub(crate) fn day_text(day: i32) -> (r: String)
    requires
        612411 <= day <= 825915,
    ensures
        r@ == day_stamp(day as int),
        r@.len() == 8,
        text::all_digits(r@),
        forall|other: int|
            612411 <= other < day ==> text::precedes(#[trigger] day_stamp(other), r@),
        forall|other: int|
            day < other <= 825915 ==> text::precedes(r@, #[trigger] day_stamp(other)),
{
    chrono::NaiveDate::from_num_days_from_ce_opt(day).unwrap().format("%Y%m%d").to_string()
}

/// The days of all timestamps are in the range that `day_text` takes.
pub proof fn lemma_day_range(nanos: i64)
    ensures
        612411 <= day_of(nanos) <= 825915,
{
}

/// `time::OffsetDateTime::from_unix_timestamp_nanos`, read back with
/// `unix_timestamp_nanos`: the Unix timestamp of the date and time made of a
/// timestamp. All 64-bit nanosecond timestamps are in the range of dates.
#[verifier::external_body]
pub(crate) fn datetime_nanos(nanos: i64) -> (r: Option<i128>)
    ensures
        r == Some(nanos as i128),
{
    let datetime = time::OffsetDateTime::from_unix_timestamp_nanos(nanos as i128);
    datetime.ok().map(|t| t.unix_timestamp_nanos())
}

/// The Unix timestamp of the date and time that a timestamp is stored as; the
/// epoch where it has none.
pub fn nanos_to_datetime(nanos: i64) -> (r: i128)
    ensures
        r == nanos,
{
    match datetime_nanos(nanos) {
        Some(t) => t,
        None => 0,
    }
}

} // verus!
