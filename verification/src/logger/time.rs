use vstd::prelude::*;
use crate::text::{decimal, zero_padded};

verus! {

/// The calendar dates that `chrono` can hold: the year lies in its range, the month is one of
/// the twelve, and the day exists in that month (proleptic Gregorian calendar).
pub open spec fn is_valid_date(year: i32, month: u32, day: u32) -> bool {
    &&& -262143 <= year <= 262142
    &&& 1 <= month <= 12
    &&& 1 <= day <= days_in_month(year as int, month as int)
}

/// Leap years of the proleptic Gregorian calendar.
pub open spec fn is_leap_year(year: int) -> bool {
    year % 4 == 0 && (year % 100 != 0 || year % 400 == 0)
}

/// The number of days of a month.
pub open spec fn days_in_month(year: int, month: int) -> int {
    if month == 2 {
        if is_leap_year(year) { 29 } else { 28 }
    } else if month == 4 || month == 6 || month == 9 || month == 11 {
        30
    } else {
        31
    }
}

/// The times of day that `chrono` can hold; a nanosecond count of a second or more stands for
/// a leap second, which only the 59th second may hold.
pub open spec fn is_valid_time(hour: u32, minute: u32, second: u32, nano: u32) -> bool {
    &&& hour < 24
    &&& minute < 60
    &&& second < 60
    &&& nano < 2_000_000_000
    &&& (nano >= 1_000_000_000 ==> second == 59)
}

/// How `chrono` writes a year: four digits for the years 0 to 9999, otherwise a sign and at
/// least four digits.
pub open spec fn year_text(year: int) -> Seq<char> {
    if 0 <= year <= 9999 {
        zero_padded(year as nat, 4)
    } else if year > 9999 {
        seq!['+'] + decimal(year as nat)
    } else {
        seq!['-'] + zero_padded((-year) as nat, 4)
    }
}

/// How `chrono` writes a date: `YYYY-MM-DD`.
pub open spec fn date_text(year: i32, month: u32, day: u32) -> Seq<char> {
    year_text(year as int) + seq!['-'] + zero_padded(month as nat, 2) + seq!['-']
        + zero_padded(day as nat, 2)
}

/// How `chrono` writes the fraction of a second: nothing for none, else a dot and three, six
/// or nine digits, the fewest that hold it exactly.
pub open spec fn fraction_text(nano: nat) -> Seq<char> {
    if nano == 0 {
        seq![]
    } else if nano % 1_000_000 == 0 {
        seq!['.'] + zero_padded(nano / 1_000_000, 3)
    } else if nano % 1_000 == 0 {
        seq!['.'] + zero_padded(nano / 1_000, 6)
    } else {
        seq!['.'] + zero_padded(nano, 9)
    }
}

/// How `chrono` writes a time of day: `HH:MM:SS` and the fraction; a leap second is written
/// as the 60th second.
pub open spec fn time_text(hour: u32, minute: u32, second: u32, nano: u32) -> Seq<char> {
    let (sec, frac) = if nano >= 1_000_000_000 {
        (second + 1, nano - 1_000_000_000)
    } else {
        (second as int, nano as int)
    };
    zero_padded(hour as nat, 2) + seq![':'] + zero_padded(minute as nat, 2) + seq![':']
        + zero_padded(sec as nat, 2) + fraction_text(frac as nat)
}

/// `chrono::NaiveDate::from_ymd_opt` and the `Display` of the date it makes. `chrono` makes a
/// date exactly when the calendar date exists in its range, and writes it as `date_text` says.
#[verifier::external_body]
pub(crate) fn chrono_date_text(year: i32, month: u32, day: u32) -> (text: Option<String>)
    ensures
        text is Some <==> is_valid_date(year, month, day),
        text matches Some(t) ==> t@ == date_text(year, month, day),
{
    match chrono::NaiveDate::from_ymd_opt(year, month, day) {
        Some(date) => Some(date.to_string()),
        None => None,
    }
}

/// `chrono::NaiveTime::from_hms_nano_opt` and the `Display` of the time it makes. `chrono`
/// makes a time exactly when the values are in range, and writes it as `time_text` says.
#[verifier::external_body]
pub(crate) fn chrono_time_text(hour: u32, minute: u32, second: u32, nano: u32) -> (text: Option<String>)
    ensures
        text is Some <==> is_valid_time(hour, minute, second, nano),
        text matches Some(t) ==> t@ == time_text(hour, minute, second, nano),
{
    match chrono::NaiveTime::from_hms_nano_opt(hour, minute, second, nano) {
        Some(time) => Some(time.to_string()),
        None => None,
    }
}

} // verus!
