//! Reading the clock: message timestamps and the names of daily log files.

use vstd::prelude::*;
use crate::text::{decimal, decimal_string, push_char, repeated};

use chrono::{DateTime, Datelike, Utc};
use std::time::{Duration, SystemTime, SystemTimeError};

verus! {

#[verifier::external_type_specification]
#[verifier::external_body]
pub struct ExSystemTime(SystemTime);

#[verifier::external_type_specification]
#[verifier::external_body]
pub struct ExSystemTimeError(SystemTimeError);

/// `SystemTime::now`: the current time of the system clock. Nothing is
/// claimed of the value.
#[verifier::external_body]
fn system_now() -> SystemTime {
    SystemTime::now()
}

/// `SystemTime::duration_since(UNIX_EPOCH)`: how long after the Unix epoch
/// `t` lies, or an error when `t` lies before it. Nothing is claimed of
/// which of the two comes back.
#[verifier::external_body]
fn since_unix_epoch(t: &SystemTime) -> Result<Duration, SystemTimeError> {
    t.duration_since(SystemTime::UNIX_EPOCH)
}

/// `Duration::as_millis`: the whole milliseconds of a duration. Nothing is
/// claimed of the value.
#[verifier::external_body]
fn whole_millis(d: &Duration) -> u128 {
    d.as_millis()
}

/// `ToString::to_string` on a `SystemTimeError`: its message. Nothing is
/// claimed of the text.
#[verifier::external_body]
fn time_error_text(e: &SystemTimeError) -> String {
    e.to_string()
}

/// The milliseconds since the Unix epoch as decimal digits, or the clock's
/// error message when the clock reads a time before the epoch.
pub fn current_timestamp() -> (r: Result<String, String>)
    ensures
        r matches Ok(s) ==> exists|millis: nat| s@ == decimal(millis),
{
    let now = system_now();
    match since_unix_epoch(&now) {
        Ok(d) => {
            let millis = whole_millis(&d);
            let s = decimal_string(millis);
            assert(s@ == decimal(millis as nat));
            Ok(s)
        },
        Err(e) => Err(time_error_text(&e)),
    }
}

/// `Duration::as_secs`: the whole seconds of a duration. Nothing is claimed
/// of the value.
#[verifier::external_body]
fn whole_secs(d: &Duration) -> u64 {
    d.as_secs()
}

/// The UTC calendar date, as day, month and year, of the moment `secs`
/// seconds after the Unix epoch; `None` where that moment lies outside the
/// dates the calendar covers. It depends on `secs` alone.
pub uninterp spec fn civil_date(secs: int) -> Option<(u32, u32, i32)>;

/// `DateTime::<Utc>::from_timestamp(secs, 0)`, then its day, month and year.
/// The contract claims that the date is the one `civil_date` names for
/// `secs`, and, as chrono documents `Datelike::day` and `Datelike::month`,
/// that the day lies in 1..=31 and the month in 1..=12. `from_timestamp`
/// gives `None` only for seconds outside the range of dates, whose last day
/// is `NaiveDate::MAX`, documented as December 31, 262142; its last second
/// is 8_210_266_876_799 seconds after the epoch, so every moment from the
/// epoch up to it has a date.
#[verifier::external_body]
fn utc_date(secs: i64) -> (r: Option<(u32, u32, i32)>)
    ensures
        r == civil_date(secs as int),
        r matches Some((day, month, _)) ==> 1 <= day <= 31 && 1 <= month <= 12,
        0 <= secs <= 8_210_266_876_799 ==> r is Some,
{
    DateTime::<Utc>::from_timestamp(secs, 0).map(|t| (t.day(), t.month(), t.year()))
}

/// `n` in decimal, with zeros in front up to `width` digits.
pub open spec fn zero_padded(n: nat, width: nat) -> Seq<char> {
    let digits = decimal(n);
    if digits.len() >= width {
        digits
    } else {
        repeated('0', (width - digits.len()) as nat) + digits
    }
}

/// A year as the pattern `%Y` writes it: four digits with zeros in front for
/// the years 0 to 9999; otherwise a sign, then at least four digits.
pub open spec fn year_text(year: int) -> Seq<char> {
    if 0 <= year <= 9999 {
        zero_padded(year as nat, 4)
    } else if year > 9999 {
        seq!['+'] + zero_padded(year as nat, 4)
    } else {
        seq!['-'] + zero_padded((-year) as nat, 4)
    }
}

/// A date as the pattern `%d-%m-%Y` writes it: the day and the month in two
/// digits, then the year, separated by dashes.
pub open spec fn date_text(day: u32, month: u32, year: i32) -> Seq<char> {
    zero_padded(day as nat, 2) + seq!['-'] + zero_padded(month as nat, 2) + seq!['-'] + year_text(
        year as int,
    )
}

/// The name of the log file for a date: the date as `%d-%m-%Y`, then `.log`.
pub open spec fn log_name(day: u32, month: u32, year: i32) -> Seq<char> {
    date_text(day, month, year) + ".log"@
}

/// Appends `n` in decimal, with zeros in front up to `width` digits.
fn push_zero_padded(s: &mut String, n: u64, width: usize)
    ensures
        final(s)@ == old(s)@ + zero_padded(n as nat, width as nat),
{
    let digits = decimal_string(n as u128);
    let len = digits.unicode_len();
    if len < width {
        let mut i: usize = len;
        while i < width
            invariant
                len <= i <= width,
                s@ == old(s)@ + repeated('0', (i - len) as nat),
            decreases width - i,
        {
            push_char(s, '0');
            assert(s@ =~= old(s)@ + repeated('0', (i + 1 - len) as nat));
            i = i + 1;
        }
    }
    s.append(digits.as_str());
    assert(s@ =~= old(s)@ + zero_padded(n as nat, width as nat));
}

/// The name of the log file for a date: the day and the month in two digits,
/// the year as `%Y` writes it, separated by dashes, then `.log`.
pub fn log_file_name_for_date(day: u32, month: u32, year: i32) -> (r: String)
    ensures
        r@ == log_name(day, month, year),
{
    let mut r = String::new();
    push_zero_padded(&mut r, day as u64, 2);
    push_char(&mut r, '-');
    push_zero_padded(&mut r, month as u64, 2);
    push_char(&mut r, '-');
    if 0 <= year && year <= 9999 {
        push_zero_padded(&mut r, year as u64, 4);
    } else if year > 9999 {
        push_char(&mut r, '+');
        push_zero_padded(&mut r, year as u64, 4);
    } else {
        push_char(&mut r, '-');
        let magnitude: u64 = (0i64 - year as i64) as u64;
        push_zero_padded(&mut r, magnitude, 4);
    }
    r.append(".log");
    assert(r@ =~= log_name(day, month, year));
    r
}

/// The name of the log file for the moment `secs` seconds after the Unix
/// epoch: its UTC date as `%d-%m-%Y`, then `.log`; `None` where the date
/// lies outside the calendar's range.
pub fn log_file_name_at(secs: i64) -> (r: Option<String>)
    ensures
        r is Some <==> civil_date(secs as int) is Some,
        0 <= secs <= 8_210_266_876_799 ==> r is Some,
        r matches Some(s) ==> (civil_date(secs as int) matches Some((day, month, year)) && 1 <= day
            <= 31 && 1 <= month <= 12 && s@ == log_name(day, month, year)),
{
    match utc_date(secs) {
        Some((day, month, year)) => Some(log_file_name_for_date(day, month, year)),
        None => None,
    }
}

/// The name of today's log file: today's UTC date as `%d-%m-%Y`, then
/// `.log`. `None` when the clock reads a time before the Unix epoch, or one
/// past the dates the calendar covers.
pub fn log_file_name() -> (r: Option<String>)
    ensures
        r matches Some(s) ==> exists|secs: int, day: u32, month: u32, year: i32|
            0 <= secs && civil_date(secs) == Some((day, month, year)) && 1 <= day <= 31 && 1
                <= month <= 12 && s@ == log_name(day, month, year),
{
    let now = system_now();
    let secs = match since_unix_epoch(&now) {
        Ok(d) => whole_secs(&d),
        Err(_) => return None,
    };
    if secs > i64::MAX as u64 {
        return None;
    }
    log_file_name_at(secs as i64)
}

} // verus!
