//! Transaction dates. The calendar work is chrono's; the library keeps a
//! date and time as plain fields.

use chrono::{Datelike, Timelike};
use vstd::prelude::*;

verus! {

/// A calendar date with a time of day, without a time zone.
#[derive(Debug, Clone, Copy, PartialEq, Eq, Structural)]
pub struct DateTime {
    pub year: i32,
    pub month: u32,
    pub day: u32,
    pub hour: u32,
    pub minute: u32,
    pub second: u32,
    /// Above 999,999,999 during a leap second.
    pub nanosecond: u32,
}

impl DateTime {
    /// Each field lies in the range of its kind.
    pub open spec fn wf(self) -> bool {
        &&& 1 <= self.month <= 12
        &&& 1 <= self.day <= 31
        &&& self.hour <= 23
        &&& self.minute <= 59
        &&& self.second <= 59
        &&& self.nanosecond <= 1_999_999_999
    }

    /// Midnight at the start of the given day.
    pub open spec fn spec_at_midnight(year: i32, month: u32, day: u32) -> DateTime {
        DateTime { year, month, day, hour: 0, minute: 0, second: 0, nanosecond: 0 }
    }

    /// Midnight at the start of the given day.
    pub fn at_midnight(year: i32, month: u32, day: u32) -> (d: DateTime)
        ensures
            d == Self::spec_at_midnight(year, month, day),
    {
        DateTime { year, month, day, hour: 0, minute: 0, second: 0, nanosecond: 0 }
    }

    /// The date of a row that has not been anchored: the first of January 1970.
    pub open spec fn spec_epoch() -> DateTime {
        Self::spec_at_midnight(1970, 1, 1)
    }

    /// The date of a row that has not been anchored: the first of January 1970.
    pub fn epoch() -> (d: DateTime)
        ensures
            d == Self::spec_epoch(),
            d.wf(),
    {
        Self::at_midnight(1970, 1, 1)
    }
}

/// Day, month, year, then hours, minutes and seconds.
pub const SECONDS_FORMAT: &'static str = "%d/%m/%Y %H:%M:%S";

/// Day, month, year, a bar, then hours and minutes: domestic rows.
pub const DOMESTIC_FORMAT: &'static str = "%d/%m/%Y| %H:%M";

/// As the domestic form, with a space before the bar: international rows.
pub const INTERNATIONAL_FORMAT: &'static str = "%d/%m/%Y | %H:%M";

/// Day, month and year alone.
pub const DATE_FORMAT: &'static str = "%d/%m/%Y";

/// What chrono's `NaiveDateTime::parse_from_str` reads from `text` under the
/// strftime pattern `format`; `None` where it reports an error.
pub uninterp spec fn datetime_in_format(text: Seq<char>, format: Seq<char>) -> Option<DateTime>;

/// What chrono's `NaiveDate::parse_from_str` reads from `text` under the
/// strftime pattern `format`, as year, month and day; `None` where it
/// reports an error.
pub uninterp spec fn date_in_format(text: Seq<char>, format: Seq<char>) -> Option<(i32, u32, u32)>;

/// Calls `chrono::NaiveDateTime::parse_from_str` and copies the fields of
/// what it read. Trusted: the outcome depends on the two texts alone, and
/// the fields that chrono hands out lie in the ranges its documentation gives.
#[verifier::external_body]
fn read_datetime(text: &str, format: &str) -> (r: Option<DateTime>)
    ensures
        r == datetime_in_format(text@, format@),
        r matches Some(d) ==> d.wf(),
{
    match chrono::NaiveDateTime::parse_from_str(text, format) {
        Ok(t) => Some(
            DateTime {
                year: t.year(),
                month: t.month(),
                day: t.day(),
                hour: t.hour(),
                minute: t.minute(),
                second: t.second(),
                nanosecond: t.nanosecond(),
            },
        ),
        Err(_) => None,
    }
}

/// Calls `chrono::NaiveDate::parse_from_str` and copies year, month and day
/// of what it read. Trusted: the outcome depends on the two texts alone, and
/// month and day lie in the ranges chrono's documentation gives.
#[verifier::external_body]
pub(crate) fn read_date(text: &str, format: &str) -> (r: Option<(i32, u32, u32)>)
    ensures
        r == date_in_format(text@, format@),
        r matches Some(d) ==> 1 <= d.1 <= 12 && 1 <= d.2 <= 31,
{
    match chrono::NaiveDate::parse_from_str(text, format) {
        Ok(d) => Some((d.year(), d.month(), d.day())),
        Err(_) => None,
    }
}

/// The date that anchors a row, if `text` is one: the first of the four
/// forms that chrono reads from it, tried from the longest to the shortest.
pub open spec fn spec_transaction_date(text: Seq<char>) -> Option<DateTime> {
    if datetime_in_format(text, SECONDS_FORMAT@) is Some {
        datetime_in_format(text, SECONDS_FORMAT@)
    } else if datetime_in_format(text, DOMESTIC_FORMAT@) is Some {
        datetime_in_format(text, DOMESTIC_FORMAT@)
    } else if datetime_in_format(text, INTERNATIONAL_FORMAT@) is Some {
        datetime_in_format(text, INTERNATIONAL_FORMAT@)
    } else {
        match date_in_format(text, DATE_FORMAT@) {
            Some((year, month, day)) => Some(DateTime::spec_at_midnight(year, month, day)),
            None => None,
        }
    }
}

/// Reads `text` as the date of a transaction. A date without a time stands
/// for midnight.
pub fn parse_transaction_date(text: &str) -> (r: Option<DateTime>)
    ensures
        r == spec_transaction_date(text@),
        r matches Some(d) ==> d.wf(),
{
    let with_seconds = read_datetime(text, SECONDS_FORMAT);
    if with_seconds.is_some() {
        return with_seconds;
    }
    let domestic = read_datetime(text, DOMESTIC_FORMAT);
    if domestic.is_some() {
        return domestic;
    }
    let international = read_datetime(text, INTERNATIONAL_FORMAT);
    if international.is_some() {
        return international;
    }
    match read_date(text, DATE_FORMAT) {
        Some((year, month, day)) => Some(DateTime::at_midnight(year, month, day)),
        None => None,
    }
}

} // verus!
