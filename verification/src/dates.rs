//! Calendar dates, read and computed by chrono.
use chrono::Datelike;
use vstd::prelude::*;

use crate::client::types::CalendarDate;
use crate::text::{digit_char, digits};

verus! {

/// A leap year of the proleptic Gregorian calendar.
pub open spec fn is_leap_year(year: int) -> bool {
    year % 4 == 0 && (year % 100 != 0 || year % 400 == 0)
}

/// The number of days of a month.
pub open spec fn days_in_month(year: int, month: int) -> int {
    if month == 2 {
        if is_leap_year(year) { 29 } else { 28 }
    } else if month == 4 || month == 6 || month == 9 || month == 11 {
        30
    } else {
        31
    }
}

/// A date that chrono's `NaiveDate` can hold: a day of the proleptic
/// Gregorian calendar whose year lies in -262143..=262142.
pub open spec fn is_calendar_date(year: int, month: int, day: int) -> bool {
    &&& -262143 <= year <= 262142
    &&& 1 <= month <= 12
    &&& 1 <= day <= days_in_month(year, month)
}

/// A number of at least four digits, zero-padded on the left.
pub open spec fn four_digits(n: nat) -> Seq<char> {
    if n < 10 {
        "000"@ + digits(n)
    } else if n < 100 {
        "00"@ + digits(n)
    } else if n < 1000 {
        "0"@ + digits(n)
    } else {
        digits(n)
    }
}

/// A number below one hundred as two digits.
pub open spec fn two_digits(n: nat) -> Seq<char> {
    seq![digit_char(n / 10), digit_char(n % 10)]
}

/// How chrono writes a year for `%Y`: four digits for 0..=9999, otherwise
/// a sign (`+` or `-`) and at least four digits.
pub open spec fn year_text(year: int) -> Seq<char> {
    if 0 <= year <= 9999 {
        four_digits(year as nat)
    } else if year > 9999 {
        seq!['+'] + four_digits(year as nat)
    } else {
        seq!['-'] + four_digits((-year) as nat)
    }
}

/// A date written `%Y-%m-%d`.
pub open spec fn iso_date_text(year: int, month: int, day: int) -> Seq<char> {
    year_text(year) + "-"@ + two_digits(month as nat) + "-"@ + two_digits(day as nat)
}

/// What `chrono::NaiveDate::parse_from_str` gives for a text and a format:
/// the year, month and day, or the text of its parse error.
pub uninterp spec fn naive_date_parse(text: Seq<char>, fmt: Seq<char>) -> Result<(int, int, int), Seq<char>>;

/// `chrono::NaiveDate::parse_from_str(text, fmt)`. The contract names the
/// outcome `naive_date_parse` of both arguments; a parsed date is a date
/// chrono can hold. The grammar of the format string is chrono's and is
/// left unstated.
#[verifier::external_body]
pub(crate) fn parse_date(text: &str, fmt: &str) -> (r: Result<CalendarDate, String>)
    ensures
        r is Ok ==> naive_date_parse(text@, fmt@) == Ok::<(int, int, int), Seq<char>>(
            (r->Ok_0.year as int, r->Ok_0.month as int, r->Ok_0.day as int),
        ),
        r is Ok ==> is_calendar_date(r->Ok_0.year as int, r->Ok_0.month as int, r->Ok_0.day as int),
        r is Err ==> naive_date_parse(text@, fmt@) == Err::<(int, int, int), Seq<char>>(
            r->Err_0@,
        ),
{
    match chrono::NaiveDate::parse_from_str(text, fmt) {
        Ok(d) => Ok(CalendarDate { year: d.year(), month: d.month(), day: d.day() }),
        Err(e) => Err(e.to_string()),
    }
}

/// The machine's clock as whole seconds and nanoseconds since the Unix
/// epoch: std `SystemTime::now`, measured by `duration_since(UNIX_EPOCH)`.
/// Nothing when the clock reads before the epoch or its seconds do not fit
/// an `i64`. The reading depends on the clock, so only its ranges are
/// stated: the seconds are not negative and the nanoseconds under one
/// second, as std documents for a `Duration`.
#[verifier::external_body]
pub(crate) fn clock_since_epoch() -> (r: Option<(i64, u32)>)
    ensures
        r matches Some(t) ==> t.0 >= 0 && t.1 < 1_000_000_000,
{
    let d = std::time::SystemTime::now().duration_since(std::time::UNIX_EPOCH).ok()?;
    Some((i64::try_from(d.as_secs()).ok()?, d.subsec_nanos()))
}

/// What `chrono::DateTime::<Utc>::from_timestamp` gives for a Unix time,
/// taken as a calendar date: the year, month and day, or nothing when the
/// time lies outside chrono's range.
pub uninterp spec fn timestamp_date(secs: int, nanos: int) -> Option<(int, int, int)>;

/// The UTC calendar date of a Unix time, by
/// `chrono::DateTime::<Utc>::from_timestamp` and `date_naive`; the contract
/// names the outcome `timestamp_date` of both arguments. A resulting date
/// is one chrono can hold.
#[verifier::external_body]
pub(crate) fn date_of_timestamp(secs: i64, nanos: u32) -> (r: Option<CalendarDate>)
    ensures
        r matches Some(d) ==> timestamp_date(secs as int, nanos as int) == Some(
            (d.year as int, d.month as int, d.day as int),
        ),
        r matches Some(d) ==> is_calendar_date(d.year as int, d.month as int, d.day as int),
        r is None ==> timestamp_date(secs as int, nanos as int) is None,
{
    let d = chrono::DateTime::<chrono::Utc>::from_timestamp(secs, nanos)?.date_naive();
    Some(CalendarDate { year: d.year(), month: d.month(), day: d.day() })
}

/// Today's date in UTC: the calendar date of the clock's reading. Nothing
/// when the clock cannot be read as a time since the epoch or its date lies
/// outside chrono's calendar. Which date it is depends on the clock; it is
/// the date of some time at or after the epoch.
pub fn today_utc() -> (r: Option<CalendarDate>)
    ensures
        r matches Some(d) ==> is_calendar_date(d.year as int, d.month as int, d.day as int),
        r matches Some(d) ==> exists|secs: int, nanos: int|
            secs >= 0 && 0 <= nanos < 1_000_000_000 && #[trigger] timestamp_date(secs, nanos) == Some(
                (d.year as int, d.month as int, d.day as int),
            ),
{
    match clock_since_epoch() {
        None => None,
        Some((secs, nanos)) => {
            let r = date_of_timestamp(secs, nanos);
            r
        },
    }
}

/// What `chrono::NaiveDate::checked_sub_signed` gives for a date chrono
/// can hold less a number of whole days: the resulting date, or nothing
/// when it would leave chrono's calendar.
pub uninterp spec fn shifted_date(year: int, month: int, day: int, days: int) -> Option<(int, int, int)>;

/// `date` less `days` days (later when `days` is negative): the date is
/// built by `chrono::NaiveDate::from_ymd_opt`, which refuses what is no
/// date chrono can hold, and shifted by `checked_sub_signed` with
/// `TimeDelta::try_days` (which accepts every 32-bit day count). The
/// contract names the shift's outcome `shifted_date`; a result is a date
/// chrono can hold.
#[verifier::external_body]
pub(crate) fn shift_date(date: CalendarDate, days: i32) -> (r: Option<CalendarDate>)
    ensures
        !is_calendar_date(date.year as int, date.month as int, date.day as int) ==> r is None,
        is_calendar_date(date.year as int, date.month as int, date.day as int) ==> (r is Some
            ==> shifted_date(date.year as int, date.month as int, date.day as int, days as int)
            == Some((r->Some_0.year as int, r->Some_0.month as int, r->Some_0.day as int))),
        is_calendar_date(date.year as int, date.month as int, date.day as int) ==> (r is None
            ==> shifted_date(date.year as int, date.month as int, date.day as int, days as int) is None),
        r matches Some(d) ==> is_calendar_date(d.year as int, d.month as int, d.day as int),
{
    let start = chrono::NaiveDate::from_ymd_opt(date.year, date.month, date.day)?;
    let delta = chrono::TimeDelta::try_days(days as i64)?;
    let d = start.checked_sub_signed(delta)?;
    Some(CalendarDate { year: d.year(), month: d.month(), day: d.day() })
}

/// `date` written with `fmt` by `chrono::NaiveDate::format`, after
/// `from_ymd_opt` builds it. The caller passes `%Y-%m-%d`, whose output
/// (chrono's `write_year` and `write_two`) is exactly `iso_date_text` of
/// the date; nothing when it is no date chrono can hold.
#[verifier::external_body]
pub(crate) fn format_date(date: CalendarDate, fmt: &str) -> (r: Option<String>)
    requires
        fmt@ == "%Y-%m-%d"@,
    ensures
        r is Some <==> is_calendar_date(date.year as int, date.month as int, date.day as int),
        r matches Some(t) ==> t@ == iso_date_text(date.year as int, date.month as int, date.day as int),
{
    let d = chrono::NaiveDate::from_ymd_opt(date.year, date.month, date.day)?;
    Some(d.format(fmt).to_string())
}

} // verus!
