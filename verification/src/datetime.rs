//! Calendar dates and the arithmetic on them that reports need.
//!
//! A date is a year, a month and a day of the proleptic Gregorian calendar.
//! Whether such a triple names a day that exists, and when that day starts,
//! is asked of `chrono`; the present day and moment are read from its clock.

use chrono::Datelike;
use vstd::prelude::*;

use crate::error::{kind_text, Error, ErrorKind};
use crate::storage::Timestamp;
use crate::text::{signed_decimal, signed_text};
use crate::zone::{admits, is_admitted};

verus! {

/// A calendar year; zero and negative years are allowed.
pub type Year = i32;

/// A month of the year, from 1 to 12.
pub type Month = u32;

/// A day of the month, starting at 1.
pub type Day = u32;

/// The earliest year that a date can have.
pub const MIN_YEAR: i32 = -262143;

/// The latest year that a date can have.
pub const MAX_YEAR: i32 = 262142;

/// The smallest relative year that `absolute_year` accepts: below it, the
/// year it stands for would not fit the type of years.
pub const MIN_RELATIVE_YEAR: i32 = -2147221505;

/// Whether a year has 366 days.
pub open spec fn is_leap_year(year: int) -> bool {
    year % 4 == 0 && (year % 100 != 0 || year % 400 == 0)
}

/// The number of days of a month; zero where the month does not exist.
pub open spec fn days_in_month(year: int, month: int) -> int {
    if month == 2 {
        if is_leap_year(year) { 29 } else { 28 }
    } else if month == 4 || month == 6 || month == 9 || month == 11 {
        30
    } else if 1 <= month <= 12 {
        31
    } else {
        0
    }
}

/// Whether year, month and day name a day that exists and that a date can hold.
pub open spec fn is_calendar_date(year: int, month: int, day: int) -> bool {
    &&& MIN_YEAR <= year <= MAX_YEAR
    &&& 1 <= month <= 12
    &&& 1 <= day <= days_in_month(year, month)
}

/// The month that a relative month stands for when the current month is `current`.
///
/// A value from 1 to 12 is that month. Zero is the current month, `-n` the
/// n-th month before it, and `12 + n` the n-th month after it, each counted
/// around the year.
pub open spec fn absolute_month_spec(relative: int, current: int) -> int {
    if 1 <= relative <= 12 {
        relative
    } else {
        (current + relative - 1) % 12 + 1
    }
}

/// The year that a relative year stands for when the current year is `current`.
///
/// A positive value is that year. Zero is the current year and `-n` the n-th
/// year before it.
pub open spec fn absolute_year_spec(relative: int, current: int) -> int {
    if relative > 0 {
        relative
    } else {
        current + relative
    }
}

/// Year and month that lie `shift` months after the given month of the given year.
pub open spec fn shifted_month(year: int, month: int, shift: int) -> (int, int) {
    let months = year * 12 + (month - 1) + shift;
    (months / 12, months % 12 + 1)
}

/// The number of seconds of a day.
pub const SECONDS_PER_DAY: i64 = 86400;

/// The number of leap years from the year 1 up to and including `year`;
/// for a year before the year 1, the leap years after it up to and including
/// the year 0, counted negatively.
pub open spec fn leap_years_through(year: int) -> int {
    year / 4 - year / 100 + year / 400
}

/// The number of days of a year that lie before a month of it.
pub open spec fn days_before_month(year: int, month: int) -> int
    decreases month,
{
    if month <= 1 {
        0
    } else {
        days_before_month(year, month - 1) + days_in_month(year, month - 1)
    }
}

/// The number of days from the first of January 1970 to a day; negative for
/// a day before it.
pub open spec fn days_since_epoch(year: int, month: int, day: int) -> int {
    365 * (year - 1970) + leap_years_through(year - 1) - leap_years_through(1969)
        + days_before_month(year, month) + day - 1
}

/// A calendar date.
#[derive(Debug, Clone, Copy, PartialEq, Eq, Structural)]
pub struct Date {
    pub year: Year,
    pub month: Month,
    pub day: Day,
}

/// A shift of a date by whole years or whole months.
#[derive(Debug, Clone, Copy, PartialEq, Eq, Structural)]
pub enum Duration {
    /// Signed shift in years.
    Year(i32),
    /// Signed shift in months.
    Month(i32),
}

impl Date {
    /// Whether the date names a day that exists.
    pub open spec fn wf(&self) -> bool {
        is_calendar_date(self.year as int, self.month as int, self.day as int)
    }

    /// The seconds from the start of 1970 to the start of the day in UTC.
    pub open spec fn start(&self) -> int {
        SECONDS_PER_DAY * days_since_epoch(self.year as int, self.month as int, self.day as int)
    }

    /// The moment at which the day starts in UTC.
    pub fn midnight(&self) -> (moment: Timestamp)
        requires
            self.wf(),
        ensures
            moment == self.start(),
    {
        match start_of_day(self.year, self.month, self.day) {
            Some(moment) => moment,
            None => 0,
        }
    }
}

/// Year, month and day that a date shifted by `shift` would have, whether or
/// not such a day exists. The day of the month is never changed.
pub open spec fn advanced(origin: Date, shift: Duration) -> (int, int, int) {
    match shift {
        Duration::Year(years) => (origin.year + years, origin.month as int, origin.day as int),
        Duration::Month(months) => {
            let (year, month) = shifted_month(origin.year as int, origin.month as int, months as int);
            (year, month, origin.day as int)
        },
    }
}

/// `chrono::NaiveDate::from_ymd_opt`, and for the day that it finds the
/// seconds that `chrono::DateTime::timestamp` counts up to its start in UTC.
///
/// A day is found exactly for a year between `MIN_YEAR` and `MAX_YEAR`, a
/// month from 1 to 12 and a day that this month has in this year. The
/// seconds are 86400 for each day since the first of January 1970, and
/// negative before it.
#[verifier::external_body]
fn start_of_day(year: i32, month: u32, day: u32) -> (start: Option<Timestamp>)
    ensures
        start is Some <==> is_calendar_date(year as int, month as int, day as int),
        start is Some ==> start->0 == SECONDS_PER_DAY * days_since_epoch(
            year as int,
            month as int,
            day as int,
        ),
{
    let date = chrono::NaiveDate::from_ymd_opt(year, month, day);
    date.map(|date| date.and_time(chrono::NaiveTime::MIN).and_utc().timestamp())
}

/// `dateparser::parse`, its result read in seconds since the start of 1970,
/// and nothing where it gives an error.
///
/// A text without a time zone is read in the time zone of the machine, and a
/// text without a date on the present day, so nothing is known of the result.
/// The parser does not return for a time that is followed by the offset of a
/// zone a day or more from UTC; such a text must not be handed to it.
#[verifier::external_body]
fn parse_moment(text: &str) -> (moment: Option<Timestamp>)
    requires
        admits(text@),
{
    dateparser::parse(text).ok().map(|moment| moment.timestamp())
}

/// `chrono::Utc::now`, read twice over: in seconds since the start of 1970,
/// and as a calendar date in UTC.
///
/// Nothing is known of the reading but that the day exists and that the
/// moment lies in it.
#[verifier::external_body]
fn clock() -> (reading: (Timestamp, Date))
    ensures
        reading.1.wf(),
        reading.1.start() <= reading.0 < reading.1.start() + SECONDS_PER_DAY,
{
    let now = chrono::Utc::now();
    (now.timestamp(), Date { year: now.year(), month: now.month(), day: now.day() })
}

/// The present: the moment, and the day in UTC in which it lies.
pub fn present() -> (reading: (Timestamp, Date))
    ensures
        reading.1.wf(),
        reading.1.start() <= reading.0 < reading.1.start() + SECONDS_PER_DAY,
{
    clock()
}

/// The moment that a text names.
///
/// Fails with `ParseError` where the text is not understood. A text that
/// ends, after a time, with the offset of a zone a day or more from UTC is
/// never understood.
pub fn parse_timestamp(text: &str) -> (result: Result<Timestamp, Error>)
    ensures
        result is Err ==> result->Err_0.kind == ErrorKind::ParseError,
        !admits(text@) ==> result is Err,
{
    if is_admitted(text) {
        moment_read(parse_moment(text))
    } else {
        Err(Error::new(ErrorKind::ParseError))
    }
}

/// What reading a text as a moment comes to, for each outcome of the
/// reading: the moment that was read, and the error `ParseError` where none
/// was read.
pub open spec fn reading_outcome(read: Option<Timestamp>, result: Result<Timestamp, Error>) -> bool {
    match read {
        Some(moment) => result == Ok::<Timestamp, Error>(moment),
        None => result is Err && result->Err_0.kind == ErrorKind::ParseError,
    }
}

/// The moment that was read from a text, or the error that none was read.
pub fn moment_read(read: Option<Timestamp>) -> (result: Result<Timestamp, Error>)
    ensures
        reading_outcome(read, result),
{
    match read {
        Some(moment) => Ok(moment),
        None => Err(Error::new(ErrorKind::ParseError)),
    }
}

/// Whether the moment lies in the day, and the day exists.
pub open spec fn lies_in(moment: Timestamp, day: Date) -> bool {
    day.wf() && day.start() <= moment < day.start() + SECONDS_PER_DAY
}

/// The month that `relative_month` stands for on the day `today`.
pub fn absolute_month_on(relative_month: i32, today: &Date) -> (month: Month)
    requires
        today.wf(),
    ensures
        month == absolute_month_spec(relative_month as int, today.month as int),
        1 <= month <= 12,
{
    if 1 <= relative_month && relative_month <= 12 {
        return relative_month as Month;
    }
    let position: i64 = today.month as i64 + relative_month as i64 - 1;
    let index: i64 = if position >= 0 {
        position % 12
    } else {
        11 - (-(position + 1)) % 12
    };
    (index + 1) as Month
}

/// The month that `relative_month` stands for now.
///
/// A value from 1 to 12 is returned unchanged, whatever the clock says.
pub fn absolute_month(relative_month: i32) -> (month: Month)
    ensures
        1 <= month <= 12,
        1 <= relative_month <= 12 ==> month == relative_month,
{
    let (_, today) = present();
    absolute_month_on(relative_month, &today)
}

/// The year that `relative_year` stands for on the day `today`.
pub fn absolute_year_on(relative_year: i32, today: &Date) -> (year: Year)
    requires
        today.wf(),
        relative_year >= MIN_RELATIVE_YEAR,
    ensures
        year == absolute_year_spec(relative_year as int, today.year as int),
{
    if relative_year > 0 {
        return relative_year;
    }
    today.year + relative_year
}

/// The year that `relative_year` stands for now.
///
/// A positive value is returned unchanged, whatever the clock says; any other
/// value gives a year that is not after the current one.
pub fn absolute_year(relative_year: i32) -> (year: Year)
    requires
        relative_year >= MIN_RELATIVE_YEAR,
    ensures
        relative_year > 0 ==> year == relative_year,
        relative_year <= 0 ==> MIN_YEAR + relative_year <= year <= MAX_YEAR + relative_year,
{
    let (_, today) = present();
    absolute_year_on(relative_year, &today)
}

/// The words that name a day in the extra information of an error.
pub open spec fn date_text(year: int, month: int, day: int) -> Seq<char> {
    "year "@ + signed_decimal(year) + ", month "@ + signed_decimal(month) + ", day "@
        + signed_decimal(day)
}

/// Whether the error is the one for a day that does not exist: of the kind
/// `InvalidDate`, with the text of that kind as its message and the year,
/// the month and the day as its extra information.
pub open spec fn is_invalid_date(error: Error, year: int, month: int, day: int) -> bool {
    &&& error.kind == ErrorKind::InvalidDate
    &&& error.message@ == kind_text(ErrorKind::InvalidDate)
    &&& error.extra is Some
    &&& error.extra->0@ == date_text(year, month, day)
}

/// The error for a day that does not exist.
pub fn invalid_date(year: i64, month: i64, day: i64) -> (error: Error)
    ensures
        is_invalid_date(error, year as int, month as int, day as int),
{
    let note = "year ".to_owned().concat(signed_text(year).as_str()).concat(", month ").concat(
        signed_text(month).as_str(),
    ).concat(", day ").concat(signed_text(day).as_str());
    assert(note@ =~= date_text(year as int, month as int, day as int));
    Error::with_extra(ErrorKind::InvalidDate, note.as_str())
}

/// Makes a date from year, month and day, if such a day exists.
pub fn make_date(year: Year, month: Month, day: Day) -> (result: Result<Date, Error>)
    ensures
        is_calendar_date(year as int, month as int, day as int) ==> result == Ok::<Date, Error>(
            Date { year, month, day },
        ),
        !is_calendar_date(year as int, month as int, day as int) ==> result is Err
            && is_invalid_date(result->Err_0, year as int, month as int, day as int),
        result is Ok ==> result->Ok_0.wf(),
{
    match start_of_day(year, month, day) {
        Some(_) => Ok(Date { year, month, day }),
        None => Err(invalid_date(year as i64, month as i64, day as i64)),
    }
}

/// Makes a date from a year, month and day held as wide integers.
fn make_date_wide(year: i64, month: i64, day: Day) -> (result: Result<Date, Error>)
    ensures
        is_calendar_date(year as int, month as int, day as int) ==> result == Ok::<Date, Error>(
            Date { year: year as i32, month: month as u32, day },
        ),
        !is_calendar_date(year as int, month as int, day as int) ==> result is Err
            && is_invalid_date(result->Err_0, year as int, month as int, day as int),
        result is Ok ==> result->Ok_0.wf(),
{
    if year < MIN_YEAR as i64 || year > MAX_YEAR as i64 || month < 1 || month > 12 {
        return Err(invalid_date(year, month, day as i64));
    }
    make_date(year as i32, month as u32, day)
}

/// Shifts a date by whole years, keeping month and day.
pub fn advance_date_year(origin: &Date, shift: i32) -> (result: Result<Date, Error>)
    requires
        origin.wf(),
    ensures
        advance_outcome(*origin, Duration::Year(shift), result),
{
    make_date_wide(origin.year as i64 + shift as i64, origin.month as i64, origin.day)
}

/// Shifts a date by whole months, keeping the day.
pub fn advance_date_month(origin: &Date, shift: i32) -> (result: Result<Date, Error>)
    requires
        origin.wf(),
    ensures
        advance_outcome(*origin, Duration::Month(shift), result),
{
    let months: i64 = origin.year as i64 * 12 + (origin.month as i64 - 1) + shift as i64;
    let year: i64 = if months >= 0 {
        months / 12
    } else {
        -((-(months + 1)) / 12) - 1
    };
    let month: i64 = months - year * 12 + 1;
    make_date_wide(year, month, origin.day)
}

/// What shifting `origin` by `shift` has to give: the date with the shifted
/// year and month and the same day if that day exists, and the error for a
/// day that does not exist, naming that day, if it does not. No day is ever
/// moved to make it exist.
pub open spec fn advance_outcome(origin: Date, shift: Duration, result: Result<Date, Error>) -> bool {
    let (year, month, day) = advanced(origin, shift);
    if is_calendar_date(year, month, day) {
        result == Ok::<Date, Error>(Date { year: year as i32, month: month as u32, day: day as u32 })
    } else {
        result is Err && is_invalid_date(result->Err_0, year, month, day)
    }
}

/// Shifts a date by the given duration.
pub fn advance_date(origin: &Date, shift: Duration) -> (result: Result<Date, Error>)
    requires
        origin.wf(),
    ensures
        advance_outcome(*origin, shift, result),
        result is Ok ==> result->Ok_0.wf(),
{
    match shift {
        Duration::Year(diff) => advance_date_year(origin, diff),
        Duration::Month(diff) => advance_date_month(origin, diff),
    }
}

/// The relative month zero is the current month, and a relative month from
/// 1 to 12 is that month on any day.
pub proof fn absolute_month_is_anchored(relative: int, current: int)
    requires
        1 <= current <= 12,
    ensures
        absolute_month_spec(0, current) == current,
        1 <= relative <= 12 ==> absolute_month_spec(relative, current) == relative,
        1 <= absolute_month_spec(relative, current) <= 12,
{
}

/// A shift never moves a day within its month: where shifting a date
/// succeeds, the result has the day of the origin, and where the shifted
/// month has no such day, shifting fails.
pub proof fn advance_keeps_the_day(origin: Date, shift: Duration, result: Result<Date, Error>)
    requires
        advance_outcome(origin, shift, result),
    ensures
        result is Ok ==> result->Ok_0.day == origin.day && result->Ok_0.wf(),
        result is Err ==> result->Err_0.kind == ErrorKind::InvalidDate && !is_calendar_date(
            advanced(origin, shift).0,
            advanced(origin, shift).1,
            origin.day as int,
        ),
{
}

} // verus!
