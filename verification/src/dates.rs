//! Calendar days, read by chrono.

use vstd::prelude::*;
use chrono::{NaiveDate, NaiveDateTime, NaiveTime};

verus! {

/// The seconds from the epoch to the start of the day that `date` names, as
/// chrono reads a date written with the format `%Y-%m-%d` and counts time on
/// the UTC clock; `None` where chrono reads no date in `date`.
pub uninterp spec fn midnight_epoch_seconds(date: Seq<char>) -> Option<i64>;

/// The least count of seconds that chrono gives a day.
pub open spec fn earliest_midnight() -> int {
    (i32::MIN - 719_163) * 86_400
}

/// The greatest count of seconds that chrono gives a day.
pub open spec fn latest_midnight() -> int {
    (i32::MAX - 719_163) * 86_400
}

/// Reads `date` with `chrono::NaiveDate::parse_from_str` and the format
/// `%Y-%m-%d`, takes midnight from `chrono::NaiveTime::from_hms_opt(0, 0, 0)`,
/// joins the two with `chrono::NaiveDateTime::new`, and asks
/// `chrono::NaiveDateTime::and_utc` and then `chrono::DateTime::timestamp` for
/// the seconds since the epoch. Where chrono reads no date, or gives no
/// midnight, the result is `None`.
///
/// Believed of chrono, not proved: the outcome depends on the text alone; and
/// a timestamp at midnight is 86 400 times a count of days, which chrono holds
/// in an `i32` and takes from day 719 163, the first of January 1970.
#[verifier::external_body]
pub(crate) fn midnight_timestamp(date: &str) -> (r: Option<i64>)
    ensures
        r == midnight_epoch_seconds(date@),
        r matches Some(t) ==> earliest_midnight() <= t <= latest_midnight(),
{
    let day = NaiveDate::parse_from_str(date, "%Y-%m-%d").ok()?;
    let start_of_day = NaiveTime::from_hms_opt(0, 0, 0)?;
    Some(NaiveDateTime::new(day, start_of_day).and_utc().timestamp())
}

} // verus!
