//! The calendar, in UTC.

use crate::nodes::Nanos;
use vstd::prelude::*;
use vstd::string::*;

verus! {

/// The year that chrono's `Datelike::year` finds in a moment.
pub uninterp spec fn year_of(now: Nanos) -> i32;

/// The month, from 1, that chrono's `Datelike::month` finds in a moment.
pub uninterp spec fn month_of(now: Nanos) -> u32;

/// The moment at which chrono's `TimeZone::with_ymd_and_hms` has a day begin, where
/// there is such a day and nanoseconds since the epoch can tell it.
pub uninterp spec fn midnight_of(year: i32, month: u32, day: u32) -> Option<Nanos>;

/// The date of a moment as chrono's `DateTime::format` writes it by `%Y-%m-%d`.
pub uninterp spec fn date_of(now: Nanos) -> Seq<char>;

/// The year of a moment, by `Datelike::year` of `chrono::DateTime<Utc>`: the named
/// year.
#[verifier::external_body]
fn utc_year(now: Nanos) -> (r: i32)
    ensures
        r == year_of(now),
{
    chrono::Datelike::year(&chrono::DateTime::from_timestamp_nanos(now))
}

/// The month of a moment, by `Datelike::month` of `chrono::DateTime<Utc>`: the named
/// month.
#[verifier::external_body]
fn utc_month(now: Nanos) -> (r: u32)
    ensures
        r == month_of(now),
{
    chrono::Datelike::month(&chrono::DateTime::from_timestamp_nanos(now))
}

/// The moment at which a day begins, by `TimeZone::with_ymd_and_hms` of
/// `chrono::Utc`: the named one.
#[verifier::external_body]
fn utc_midnight(year: i32, month: u32, day: u32) -> (r: Option<Nanos>)
    ensures
        r == midnight_of(year, month, day),
{
    chrono::TimeZone::with_ymd_and_hms(&chrono::Utc, year, month, day, 0, 0, 0).single().and_then(
        |t| t.timestamp_nanos_opt(),
    )
}

/// The date of a moment, by `DateTime::format` of chrono with `%Y-%m-%d`: the named
/// date.
#[verifier::external_body]
fn utc_date(now: Nanos) -> (r: String)
    ensures
        r@ == date_of(now),
{
    chrono::DateTime::from_timestamp_nanos(now).format("%Y-%m-%d").to_string()
}

/// A month begins at the midnight on which its first day does; where that cannot
/// be told, the moment itself stands for it.
pub open spec fn month_begin(midnight: Option<Nanos>, now: Nanos) -> Nanos {
    match midnight {
        Some(t) => t,
        None => now,
    }
}

/// When the month of a moment begins, given the midnight of its first day.
pub fn begins_at(midnight: Option<Nanos>, now: Nanos) -> (r: Nanos)
    ensures
        r == month_begin(midnight, now),
{
    match midnight {
        Some(t) => t,
        None => now,
    }
}

/// The beginning of a moment's month.
pub fn month_start(now: Nanos) -> (r: Nanos)
    ensures
        r == month_begin(midnight_of(year_of(now), month_of(now), 1), now),
{
    begins_at(utc_midnight(utc_year(now), utc_month(now), 1), now)
}

/// The date of a moment, such as `2024-05-31`.
pub fn date_text(now: Nanos) -> (r: String)
    ensures
        r@ == date_of(now),
{
    utc_date(now)
}

} // verus!
