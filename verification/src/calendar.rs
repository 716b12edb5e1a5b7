//! Calendar resets that only the calendar library can compute.
//!
//! Truncating to `Days` or `Weeks` additionally resets the calendar
//! day-of-month (and month) of the floored instant to 1, which takes the
//! civil Gregorian calendar.  Those two resets are delegated to chrono
//! behind the trusted wrappers below; everything around them is verified.

use vstd::prelude::*;

use chrono::Datelike;

use crate::instant::MAX_EPOCH_SECS;
use crate::instant::MIN_EPOCH_SECS;

verus! {

/// The epoch seconds after resetting the calendar day-of-month (in UTC)
/// to 1 while keeping the time of day, or none if the input denotes no
/// calendar instant.
pub uninterp spec fn day_reset_of(secs: i64) -> Option<i64>;

/// The epoch seconds after resetting the calendar month (in UTC) to
/// January while keeping day and time, or none if the input denotes no
/// calendar instant.
pub uninterp spec fn month_reset_of(secs: i64) -> Option<i64>;

/// Relies on chrono's `DateTime::from_timestamp` and `Datelike::with_day`:
/// the day-of-month is set to 1, which exists in every month, so any
/// instant of the representable calendar range comes back, still in
/// range.
#[verifier::external_body]
pub(crate) fn reset_day_to_first(secs: i64) -> (r: Option<i64>)
    ensures
        r == day_reset_of(secs),
        (match r {
            Some(v) => MIN_EPOCH_SECS <= v <= MAX_EPOCH_SECS,
            None => !(MIN_EPOCH_SECS <= secs <= MAX_EPOCH_SECS),
        }),
{
    chrono::DateTime::from_timestamp(secs, 0).and_then(|dt| dt.with_day(1)).map(|dt| dt.timestamp())
}

/// Relies on chrono's `DateTime::from_timestamp` and
/// `Datelike::with_month`: the month is set to January, whose 31 days
/// admit every day-of-month, so any instant of the representable
/// calendar range comes back, still in range.
#[verifier::external_body]
pub(crate) fn reset_month_to_first(secs: i64) -> (r: Option<i64>)
    ensures
        r == month_reset_of(secs),
        (match r {
            Some(v) => MIN_EPOCH_SECS <= v <= MAX_EPOCH_SECS,
            None => !(MIN_EPOCH_SECS <= secs <= MAX_EPOCH_SECS),
        }),
{
    chrono::DateTime::from_timestamp(secs, 0).and_then(|dt| dt.with_month(1)).map(
        |dt| dt.timestamp(),
    )
}

} // verus!
