//! The clock provider: the local wall-clock time as a short text.

use crate::number::digit;
use vstd::pervasive::unreached;
use vstd::prelude::*;

verus! {

/// The format of the clock fragment: abbreviated month name, day of the
/// month in two digits, hour of the 12-hour clock padded with a space, minute
/// in two digits, and `AM` or `PM`.
pub const TIME_FORMAT: &'static str = "%b %d %l:%M %p";

/// A wall-clock reading: a calendar date and a time of day.
#[derive(Clone, Copy, Debug, PartialEq, Eq)]
pub struct ClockTime {
    pub year: i32,
    pub month: u32,
    pub day: u32,
    pub hour: u32,
    pub minute: u32,
    pub second: u32,
}

/// Whether `year` is a leap year of the proleptic Gregorian calendar.
pub open spec fn is_leap_year(year: int) -> bool {
    year % 4 == 0 && (year % 100 != 0 || year % 400 == 0)
}

/// The number of days of `month` in `year`.
pub open spec fn days_in_month(year: int, month: int) -> int {
    if month == 2 {
        if is_leap_year(year) {
            29
        } else {
            28
        }
    } else if month == 4 || month == 6 || month == 9 || month == 11 {
        30
    } else {
        31
    }
}

impl ClockTime {
    /// The reading names a day that exists, in a year the calendar covers,
    /// and a time of day.
    pub open spec fn wf(&self) -> bool {
        &&& -262143 <= self.year <= 262142
        &&& 1 <= self.month <= 12
        &&& 1 <= self.day <= days_in_month(self.year as int, self.month as int)
        &&& self.hour < 24
        &&& self.minute < 60
        &&& self.second < 60
    }

    /// Whether the reading is well-formed.
    pub fn is_valid(&self) -> (valid: bool)
        ensures
            valid == self.wf(),
    {
        if self.year < -262143 || self.year > 262142 || self.month < 1 || self.month > 12 {
            return false;
        }
        let leap = self.year % 4 == 0 && (self.year % 100 != 0 || self.year % 400 == 0);
        let days: u32 = if self.month == 2 {
            if leap {
                29
            } else {
                28
            }
        } else if self.month == 4 || self.month == 6 || self.month == 9 || self.month == 11 {
            30
        } else {
            31
        };
        1 <= self.day && self.day <= days && self.hour < 24 && self.minute < 60 && self.second
            < 60
    }
}

/// The three-letter English name of `month`, counted from 1.
pub open spec fn month_name(month: int) -> Seq<char> {
    if month == 1 {
        "Jan"@
    } else if month == 2 {
        "Feb"@
    } else if month == 3 {
        "Mar"@
    } else if month == 4 {
        "Apr"@
    } else if month == 5 {
        "May"@
    } else if month == 6 {
        "Jun"@
    } else if month == 7 {
        "Jul"@
    } else if month == 8 {
        "Aug"@
    } else if month == 9 {
        "Sep"@
    } else if month == 10 {
        "Oct"@
    } else if month == 11 {
        "Nov"@
    } else {
        "Dec"@
    }
}

/// `n`, below a hundred, in two decimal digits.
pub open spec fn two_digits(n: int) -> Seq<char> {
    seq![digit(n / 10), digit(n % 10)]
}

/// `n`, below a hundred, in two characters: a space in place of a leading
/// zero.
pub open spec fn space_padded(n: int) -> Seq<char> {
    if n < 10 {
        seq![' ', digit(n)]
    } else {
        two_digits(n)
    }
}

/// The hour of the 12-hour clock, from 1 to 12, for an hour of the day.
pub open spec fn hour12(hour: int) -> int {
    if hour % 12 == 0 {
        12
    } else {
        hour % 12
    }
}

/// `AM` before noon, `PM` from noon on.
pub open spec fn meridiem(hour: int) -> Seq<char> {
    if hour >= 12 {
        "PM"@
    } else {
        "AM"@
    }
}

/// The clock fragment for a reading, such as `Jan 05  3:07 PM`.
pub open spec fn clock_text(now: ClockTime) -> Seq<char> {
    month_name(now.month as int) + seq![' '] + two_digits(now.day as int) + seq![' ']
        + space_padded(hour12(now.hour as int)) + seq![':'] + two_digits(now.minute as int)
        + seq![' '] + meridiem(now.hour as int)
}

/// Whether `text` is the clock fragment of some reading.
pub open spec fn is_clock_text(text: Seq<char>) -> bool {
    exists|now: ClockTime| now.wf() && text == #[trigger] clock_text(now)
}

/// Reads the local wall clock.
///
/// Calls `chrono::Local::now` and takes the fields of its `naive_local`. The
/// contract claims that they name an existing day within the years chrono
/// covers and a time of day, which holds of every `NaiveDateTime`. Nothing is
/// claimed of which moment it is.
#[verifier::external_body]
fn local_now() -> (now: ClockTime)
    ensures
        now.wf(),
{
    let stamp = chrono::Local::now().naive_local();
    ClockTime {
        year: chrono::Datelike::year(&stamp),
        month: chrono::Datelike::month(&stamp),
        day: chrono::Datelike::day(&stamp),
        hour: chrono::Timelike::hour(&stamp),
        minute: chrono::Timelike::minute(&stamp),
        second: chrono::Timelike::second(&stamp),
    }
}

/// Formats a reading with the pattern [`TIME_FORMAT`].
///
/// Calls `chrono::NaiveDate::from_ymd_opt`, `NaiveDate::and_hms_opt` and
/// `NaiveDateTime::format`. The contract claims that chrono accepts every
/// well-formed reading, and that the text is what chrono documents for the
/// specifiers `%b`, `%d`, `%l`, `%M` and `%p`.
#[verifier::external_body]
fn format_clock(now: &ClockTime, pattern: &str) -> (text: Option<String>)
    requires
        pattern@ == TIME_FORMAT@,
    ensures
        now.wf() ==> text is Some,
        text matches Some(t) ==> t@ == clock_text(*now),
{
    let date = chrono::NaiveDate::from_ymd_opt(now.year, now.month, now.day)?;
    let stamp = date.and_hms_opt(now.hour, now.minute, now.second)?;
    Some(stamp.format(pattern).to_string())
}

/// The format of a time of day in hours and minutes.
pub const HOUR_MINUTE_FORMAT: &'static str = "%R";

/// The time of day `hour`:`minute`, each in two digits.
pub open spec fn hour_minute_text(hour: int, minute: int) -> Seq<char> {
    two_digits(hour) + seq![':'] + two_digits(minute)
}

/// Whether `text` is a time of day in hours and minutes.
pub open spec fn is_hour_minute(text: Seq<char>) -> bool {
    exists|hour: int, minute: int|
        0 <= hour < 24 && 0 <= minute < 60 && text == #[trigger] hour_minute_text(hour, minute)
}

/// The local time of day that lies `minutes` minutes after the midnight at
/// which the local day began that held the moment `days_back` days before
/// now, formatted with the pattern [`HOUR_MINUTE_FORMAT`]; nothing if chrono
/// cannot tell it.
///
/// Calls `chrono::Local::now`, `TimeDelta::try_days`,
/// `DateTime::checked_sub_signed`, `DateTime::date_naive`, `NaiveDate::and_time`
/// with `NaiveTime::MIN`, `NaiveDateTime::and_local_timezone`,
/// `MappedLocalTime::single`, `TimeDelta::try_minutes`,
/// `DateTime::checked_add_signed` and `DateTime::format`. They give nothing
/// where chrono cannot represent the result, or where that local midnight
/// does not exist or exists twice. The contract claims only that a text, if
/// there is one, is what chrono documents for `%R`: an hour of the day and a
/// minute, in two digits each, with a colon between them. It asks for a
/// moment in the near past, so that its local date is one that chrono can
/// represent.
#[verifier::external_body]
pub(crate) fn format_after_midnight(days_back: i64, minutes: i64, pattern: &str) -> (text: Option<
    String,
>)
    requires
        0 <= days_back <= 1000,
        pattern@ == HOUR_MINUTE_FORMAT@,
    ensures
        text matches Some(t) ==> is_hour_minute(t@),
{
    let day = chrono::Local::now().checked_sub_signed(chrono::TimeDelta::try_days(days_back)?)?;
    let start = day.date_naive().and_time(chrono::NaiveTime::MIN);
    let midnight = start.and_local_timezone(chrono::Local).single()?;
    let then = midnight.checked_add_signed(chrono::TimeDelta::try_minutes(minutes)?)?;
    Some(then.format(pattern).to_string())
}

/// The clock fragment for `now`.
pub fn format_time(now: &ClockTime) -> (text: String)
    requires
        now.wf(),
    ensures
        text@ == clock_text(*now),
{
    match format_clock(now, TIME_FORMAT) {
        Some(text) => text,
        None => unreached(),
    }
}

/// The clock fragment for the present moment.
pub fn time() -> (text: String)
    ensures
        is_clock_text(text@),
{
    let now = local_now();
    format_time(&now)
}

} // verus!
