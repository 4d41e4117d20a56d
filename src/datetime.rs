use vstd::prelude::*;

use chrono::{Datelike, Timelike};

verus! {

/// A calendar date and a time of day, without a time zone.
#[derive(Clone, Copy, Debug, PartialEq, Eq, Structural)]
pub struct DateTimeParts {
    pub year: i32,
    pub month: u32,
    pub day: u32,
    pub hour: u32,
    pub minute: u32,
}

/// Why a date and time could not be read.
#[derive(Debug, PartialEq, Eq, Structural)]
pub enum DateTimeError {
    /// The date is not a valid `DD.MM.YYYY`.
    BadDate,
    /// The time is not a valid `HH:MM`.
    BadTime,
    /// The date and time do not name exactly one instant in the local time
    /// zone (a gap or an overlap of a clock change, or out of range).
    NoSuchLocalTime,
}

/// The time of day when only a date is given: 08:00.
pub const DEFAULT_HOUR: u32 = 8;

/// Year, month and day that chrono reads from `s` with the format
/// `%d.%m.%Y`, if it accepts `s`.
pub uninterp spec fn parsed_date(s: Seq<char>) -> Option<(i32, u32, u32)>;

/// Hour and minute that chrono reads from `s` with the format `%H:%M`, if it
/// accepts `s`.
pub uninterp spec fn parsed_time(s: Seq<char>) -> Option<(u32, u32)>;

/// Relies on `str::split_once` with a space: the part before the first
/// space and the part after it, or `None` when there is no space.
#[verifier::external_body]
fn split_at_space(s: &str) -> (r: Option<(&str, &str)>)
    ensures
        r is Some == s@.contains(' '),
        r matches Some((a, b)) ==> s@ == a@ + seq![' '] + b@ && !a@.contains(' '),
{
    s.split_once(' ')
}

/// Relies on `chrono::NaiveDate::parse_from_str` with `%d.%m.%Y`: the date
/// read, as year, month (1 to 12) and day (1 to 31).
#[verifier::external_body]
fn parse_date(s: &str) -> (r: Option<(i32, u32, u32)>)
    ensures
        r == parsed_date(s@),
        r matches Some((y, m, d)) ==> 1 <= m <= 12 && 1 <= d <= 31,
{
    chrono::NaiveDate::parse_from_str(s, "%d.%m.%Y").ok().map(|d| (d.year(), d.month(), d.day()))
}

/// Relies on `chrono::NaiveTime::parse_from_str` with `%H:%M`: the time read,
/// as hour (below 24) and minute (below 60).
#[verifier::external_body]
fn parse_time(s: &str) -> (r: Option<(u32, u32)>)
    ensures
        r == parsed_time(s@),
        r matches Some((h, m)) ==> h < 24 && m < 60,
{
    chrono::NaiveTime::parse_from_str(s, "%H:%M").ok().map(|t| (t.hour(), t.minute()))
}

/// Relies on `chrono::NaiveDateTime::and_local_timezone` with
/// `chrono::Local`: the seconds since the epoch of the one instant that the
/// date and time name in the host's time zone, if there is exactly one. The
/// answer depends on the host, so nothing is claimed of it.
#[verifier::external_body]
fn local_timestamp(p: DateTimeParts) -> (r: Option<i64>) {
    chrono::NaiveDate::from_ymd_opt(p.year, p.month, p.day)
        .and_then(|d| d.and_hms_opt(p.hour, p.minute, 0))
        .and_then(|dt| dt.and_local_timezone(chrono::Local).single())
        .map(|dt| dt.timestamp())
}

/// The position of the first space in `s`, which holds one.
pub open spec fn first_space(s: Seq<char>) -> int {
    choose|i: int| 0 <= i < s.len() && s[i] == ' ' && !s.take(i).contains(' ')
}

/// What `DD.MM.YYYY HH:MM` or `DD.MM.YYYY` (at 08:00) written as `s` reads
/// as; the date and the time are split at the first space.
pub open spec fn date_time_of(s: Seq<char>) -> Result<DateTimeParts, DateTimeError> {
    let (date, time) = if s.contains(' ') {
        (s.take(first_space(s)), Some(s.skip(first_space(s) + 1)))
    } else {
        (s, None)
    };
    match parsed_date(date) {
        None => Err(DateTimeError::BadDate),
        Some((year, month, day)) => match time {
            None => Ok(DateTimeParts { year, month, day, hour: DEFAULT_HOUR, minute: 0 }),
            Some(t) => match parsed_time(t) {
                None => Err(DateTimeError::BadTime),
                Some((hour, minute)) => Ok(DateTimeParts { year, month, day, hour, minute }),
            },
        },
    }
}

proof fn lemma_first_space(s: Seq<char>, a: Seq<char>, b: Seq<char>)
    requires
        s == a + seq![' '] + b,
        !a.contains(' '),
    ensures
        s.contains(' '),
        first_space(s) == a.len(),
        s.take(a.len() as int) == a,
        s.skip(a.len() as int + 1) == b,
{
    let n = a.len() as int;
    assert(s[n] == ' ');
    assert(s.take(n) =~= a);
    assert(s.skip(n + 1) =~= b);
    let i = first_space(s);
    assert(0 <= i < s.len() && s[i] == ' ' && !s.take(i).contains(' '));
    if i < n {
        assert(a[i] == ' ');
    } else if i > n {
        assert(s.take(i)[n] == ' ');
    }
}

/// Reads `DD.MM.YYYY HH:MM`, or `DD.MM.YYYY` meaning 08:00 of that day.
pub fn parse_naive_date_time(repr: &str) -> (r: Result<DateTimeParts, DateTimeError>)
    ensures
        r == date_time_of(repr@),
{
    match split_at_space(repr) {
        Some((date, time)) => {
            proof {
                lemma_first_space(repr@, date@, time@);
            }
            match parse_date(date) {
                None => Err(DateTimeError::BadDate),
                Some((year, month, day)) => match parse_time(time) {
                    None => Err(DateTimeError::BadTime),
                    Some((hour, minute)) => Ok(DateTimeParts { year, month, day, hour, minute }),
                },
            }
        },
        None => match parse_date(repr) {
            None => Err(DateTimeError::BadDate),
            Some((year, month, day)) => Ok(
                DateTimeParts { year, month, day, hour: DEFAULT_HOUR, minute: 0 },
            ),
        },
    }
}

/// Reads a date and time as `parse_naive_date_time` does and places it in
/// the host's time zone: seconds since the epoch.
pub fn parse_date_time(repr: &str) -> (r: Result<i64, DateTimeError>)
    ensures
        date_time_of(repr@) matches Err(e) ==> r == Err::<i64, DateTimeError>(e),
        r is Ok ==> date_time_of(repr@) is Ok,
        r matches Err(e) ==> (e == DateTimeError::NoSuchLocalTime) == (date_time_of(repr@) is Ok),
{
    let parts = match parse_naive_date_time(repr) {
        Ok(p) => p,
        Err(e) => return Err(e),
    };
    match local_timestamp(parts) {
        Some(t) => Ok(t),
        None => Err(DateTimeError::NoSuchLocalTime),
    }
}

} // verus!
