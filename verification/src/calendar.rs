//! Dates and instants. A date is a day number in the proleptic Gregorian
//! calendar, with 1 January of year 1 as day 1; an instant is a number of
//! seconds since 1 January 1970, 00:00:00 UTC. What the calendar says of a
//! day number is asked of `chrono`.

use vstd::prelude::*;
use chrono::Datelike;

verus! {

/// `chrono::ParseError`: why `chrono` rejected a text. Nothing is read
/// from it.
#[verifier::external_type_specification]
#[verifier::external_body]
pub struct ExParseError(chrono::ParseError);

/// The layout of the timestamps that the store keeps.
pub open spec fn timestamp_layout() -> Seq<char> {
    "%Y-%m-%d %H:%M:%S"@
}

/// The layout of a date in a query bound.
pub open spec fn date_layout() -> Seq<char> {
    "%Y-%m-%d"@
}

/// The layout of the date above a workout in the history.
pub open spec fn day_label_layout() -> Seq<char> {
    "%A, %d %b"@
}

/// The layout of a month's label.
pub open spec fn month_label_layout() -> Seq<char> {
    "%b"@
}

/// The layouts that this library formats dates with. They name no time
/// of day.
pub open spec fn is_date_layout(layout: Seq<char>) -> bool {
    layout == date_layout() || layout == day_label_layout() || layout == month_label_layout()
}

/// The layouts that this library formats instants with.
pub open spec fn is_layout(layout: Seq<char>) -> bool {
    layout == timestamp_layout() || is_date_layout(layout)
}

/// The instant that `chrono` reads from `text` under `layout`, taken as
/// UTC; `None` where `chrono` rejects the text.
pub uninterp spec fn parsed_instant(text: Seq<char>, layout: Seq<char>) -> Option<i64>;

/// The text that `chrono` writes for the instant `instant` in UTC under
/// `layout`; `None` where the instant lies outside `chrono`'s range.
pub uninterp spec fn formatted_instant(instant: i64, layout: Seq<char>) -> Option<Seq<char>>;

/// The text that `chrono` writes for a date under `layout`; `None` where
/// the calendar has no such date.
pub uninterp spec fn formatted_date(year: i32, month: u32, day: u32, layout: Seq<char>) -> Option<
    Seq<char>,
>;

/// The year, month and day of a day number; `None` where the day lies
/// outside `chrono`'s range.
pub uninterp spec fn civil_date(day_number: i32) -> Option<(i32, u32, u32)>;

/// `NaiveDateTime::parse_from_str`, followed by the reading of the result
/// as UTC seconds: the result depends on the text and the layout alone.
#[verifier::external_body]
pub(crate) fn parse_instant(text: &str, layout: &str) -> (r: Result<i64, chrono::ParseError>)
    ensures
        match r {
            Ok(instant) => parsed_instant(text@, layout@) == Some(instant),
            Err(_) => parsed_instant(text@, layout@) is None,
        },
{
    match chrono::NaiveDateTime::parse_from_str(text, layout) {
        Ok(at) => Ok(at.and_utc().timestamp()),
        Err(e) => Err(e),
    }
}

/// `DateTime::from_timestamp` with no nanoseconds, then `format` and
/// `to_string`. Formatting panics on a layout that `chrono` cannot read,
/// so only the layouts of this library are admitted.
#[verifier::external_body]
pub(crate) fn format_instant(instant: i64, layout: &str) -> (r: Option<String>)
    requires
        is_layout(layout@),
    ensures
        match r {
            Some(text) => formatted_instant(instant, layout@) == Some(text@),
            None => formatted_instant(instant, layout@) is None,
        },
{
    match chrono::DateTime::from_timestamp(instant, 0) {
        Some(at) => Some(at.format(layout).to_string()),
        None => None,
    }
}

/// `NaiveDate::from_ymd_opt`, then `format` and `to_string`. Formatting
/// panics on a layout that `chrono` cannot read, and on one that asks a
/// date for a time of day, so only the date layouts of this library are
/// admitted.
#[verifier::external_body]
pub(crate) fn format_date(year: i32, month: u32, day: u32, layout: &str) -> (r: Option<String>)
    requires
        is_date_layout(layout@),
    ensures
        match r {
            Some(text) => formatted_date(year, month, day, layout@) == Some(text@),
            None => formatted_date(year, month, day, layout@) is None,
        },
{
    match chrono::NaiveDate::from_ymd_opt(year, month, day) {
        Some(date) => Some(date.format(layout).to_string()),
        None => None,
    }
}

/// `NaiveDate::from_num_days_from_ce_opt`, then `year`, `month` and `day`.
/// Months run from 1 to 12 and days of the month from 1 to 31.
#[verifier::external_body]
pub(crate) fn civil_from_days(day_number: i32) -> (r: Option<(i32, u32, u32)>)
    ensures
        r == civil_date(day_number),
        match r {
            Some(date) => 1 <= date.1 <= 12 && 1 <= date.2 <= 31,
            None => true,
        },
{
    match chrono::NaiveDate::from_num_days_from_ce_opt(day_number) {
        Some(date) => Some((date.year(), date.month(), date.day())),
        None => None,
    }
}

/// `Local::now`, as the day number of its date in the local time zone.
#[verifier::external_body]
pub(crate) fn today_local() -> i32 {
    chrono::Local::now().date_naive().num_days_from_ce()
}

/// `Utc::now`, in whole seconds.
#[verifier::external_body]
pub(crate) fn now_utc() -> i64 {
    chrono::Utc::now().timestamp()
}

/// `Utc::now`, written by `to_rfc3339`.
#[verifier::external_body]
pub(crate) fn now_rfc3339() -> String {
    chrono::Utc::now().to_rfc3339()
}

/// The day of the week of a day number, counted from Monday as 0. Day 1
/// is a Monday.
pub open spec fn weekday_from_monday(day_number: int) -> int {
    (day_number - 1) % 7
}

/// The Monday on or before `day_number`.
pub open spec fn monday_on_or_before(day_number: int) -> int {
    day_number - weekday_from_monday(day_number)
}

/// The day of the week of `day_number`, counted from Monday as 0.
pub fn days_from_monday(day_number: i32) -> (r: u8)
    ensures
        r == weekday_from_monday(day_number as int),
        r < 7,
{
    // 2147483653 is a multiple of 7 that lifts every day number above zero.
    let lifted: i64 = day_number as i64 - 1 + 2147483653;
    (lifted % 7) as u8
}

/// The Monday on or before every day is a Monday, lies at most six days
/// back, and is the same for all days of one week.
pub proof fn lemma_monday_anchor(day_number: int)
    ensures
        weekday_from_monday(monday_on_or_before(day_number)) == 0,
        day_number - 6 <= monday_on_or_before(day_number) <= day_number,
        forall|k: int|
            monday_on_or_before(day_number) <= k < monday_on_or_before(day_number) + 7
                ==> #[trigger] monday_on_or_before(k) == monday_on_or_before(day_number),
{
}

} // verus!
