//! Readings of the system clock, in the forms the library uses.

use vstd::prelude::*;
use std::time::{Duration, SystemTime};
use crate::text::{decimal, digit_char};

verus! {

#[verifier::external_type_specification]
#[verifier::external_body]
pub struct ExSystemTime(std::time::SystemTime);

/// The system clock's current time (`SystemTime::now`).
#[verifier::external_body]
fn system_now() -> (r: SystemTime) {
    SystemTime::now()
}

/// The time from the Unix epoch to `t` (`SystemTime::duration_since` with
/// `UNIX_EPOCH`), or `None` when `t` is earlier than the epoch.
#[verifier::external_body]
fn since_unix_epoch(t: &SystemTime) -> (r: Option<Duration>) {
    match t.duration_since(std::time::UNIX_EPOCH) {
        Ok(d) => Some(d),
        Err(_) => None,
    }
}

/// The whole seconds of a duration (`Duration::as_secs`).
#[verifier::external_body]
fn whole_seconds(d: &Duration) -> (r: u64) {
    d.as_secs()
}

/// The whole nanoseconds of a duration (`Duration::as_nanos`).
#[verifier::external_body]
fn whole_nanos(d: &Duration) -> (r: u128) {
    d.as_nanos()
}

/// The fraction of a second of a duration, in nanoseconds
/// (`Duration::subsec_nanos`): always less than one billion.
#[verifier::external_body]
fn fraction_nanos(d: &Duration) -> (r: u32)
    ensures
        r < 1_000_000_000,
{
    d.subsec_nanos()
}

/// Seconds since the Unix epoch by the system clock, or `None` when the
/// clock reads a time before the epoch.
pub fn unix_seconds() -> (r: Option<u64>) {
    match since_unix_epoch(&system_now()) {
        Some(d) => Some(whole_seconds(&d)),
        None => None,
    }
}

/// Nanoseconds since the Unix epoch by the system clock, cut to 64 bits,
/// or `None` when the clock reads a time before the epoch.
pub fn unix_nanos() -> (r: Option<u64>) {
    match since_unix_epoch(&system_now()) {
        Some(d) => {
            let n = whole_nanos(&d);
            Some(#[verifier::truncate] (n as u64))
        },
        None => None,
    }
}

/// `n` in decimal, padded with leading zeros to at least `width` digits.
pub open spec fn zero_padded(n: nat, width: nat) -> Seq<char> {
    if decimal(n).len() < width {
        Seq::new((width - decimal(n).len()) as nat, |i: int| '0') + decimal(n)
    } else {
        decimal(n)
    }
}

/// A number below 100 as two decimal digits.
pub open spec fn two_digits(n: nat) -> Seq<char> {
    seq![digit_char(n / 10), digit_char(n % 10)]
}

/// A year as chrono writes it: four digits (zero-padded) for years 0 to
/// 9999, otherwise a sign and at least four digits.
pub open spec fn year_text(year: int) -> Seq<char> {
    if 0 <= year <= 9999 {
        zero_padded(year as nat, 4)
    } else if year > 9999 {
        seq!['+'] + zero_padded(year as nat, 4)
    } else {
        seq!['-'] + zero_padded((-year) as nat, 4)
    }
}

/// Fields of a calendar date and time of day in range: a leap second
/// reads 60.
pub open spec fn civil_in_range(month: nat, day: nat, hour: nat, minute: nat, second: nat) -> bool {
    &&& 1 <= month <= 12
    &&& 1 <= day <= 31
    &&& hour <= 23
    &&& minute <= 59
    &&& second <= 60
}

/// `%Y-%m-%d` of a date.
pub open spec fn date_text(year: int, month: nat, day: nat) -> Seq<char> {
    year_text(year) + seq!['-'] + two_digits(month) + seq!['-'] + two_digits(day)
}

/// `%Y%m%d_%H%M%S` of a date and time.
pub open spec fn compact_datetime_text(year: int, month: nat, day: nat, hour: nat, minute: nat, second: nat) -> Seq<char> {
    year_text(year) + two_digits(month) + two_digits(day) + seq!['_'] + two_digits(hour) + two_digits(minute)
        + two_digits(second)
}

/// The fraction of a second as RFC 3339 output writes it: nothing for a
/// whole second, else a dot and 3, 6 or 9 digits, the fewest that are exact.
pub open spec fn fraction_text(nanos: nat) -> Seq<char> {
    if nanos == 0 {
        Seq::empty()
    } else if nanos % 1_000_000 == 0 {
        seq!['.'] + zero_padded(nanos / 1_000_000, 3)
    } else if nanos % 1000 == 0 {
        seq!['.'] + zero_padded(nanos / 1000, 6)
    } else {
        seq!['.'] + zero_padded(nanos, 9)
    }
}

/// RFC 3339 text of a UTC date and time: `YYYY-MM-DDTHH:MM:SS`, the
/// fraction, and the offset `+00:00`.
pub open spec fn rfc3339_utc_text(
    year: int,
    month: nat,
    day: nat,
    hour: nat,
    minute: nat,
    second: nat,
    nanos: nat,
) -> Seq<char> {
    date_text(year, month, day) + seq!['T'] + two_digits(hour) + seq![':'] + two_digits(minute) + seq![':']
        + two_digits(second) + fraction_text(nanos) + "+00:00"@
}

/// `s` is the `%Y-%m-%d` text of some date.
pub open spec fn is_date_text(s: Seq<char>) -> bool {
    exists|year: int, month: nat, day: nat|
        civil_in_range(month, day, 0, 0, 0) && s == #[trigger] date_text(year, month, day)
}

/// `s` is the `%Y%m%d_%H%M%S` text of some date and time.
pub open spec fn is_compact_datetime_text(s: Seq<char>) -> bool {
    exists|year: int, month: nat, day: nat, hour: nat, minute: nat, second: nat|
        civil_in_range(month, day, hour, minute, second) && s == #[trigger] compact_datetime_text(
            year,
            month,
            day,
            hour,
            minute,
            second,
        )
}

/// `s` is the RFC 3339 text of some UTC date and time.
pub open spec fn is_rfc3339_utc_text(s: Seq<char>) -> bool {
    exists|year: int, month: nat, day: nat, hour: nat, minute: nat, second: nat, nanos: nat|
        civil_in_range(month, day, hour, minute, second) && nanos < 1_000_000_000 && s == #[trigger] rfc3339_utc_text(
            year,
            month,
            day,
            hour,
            minute,
            second,
            nanos,
        )
}

/// Seconds since the Unix epoch below which every time has a calendar
/// date that chrono writes (2^40 seconds, some 34 800 years).
pub const CALENDAR_LIMIT_SECS: u64 = 1_099_511_627_776;

/// The text `DateTime::format(pattern).to_string()` writes for the UTC time
/// `secs` whole seconds after the Unix epoch.
pub uninterp spec fn strftime_at(secs: int, pattern: Seq<char>) -> Seq<char>;

/// The text `DateTime::to_rfc3339` writes for the UTC time `secs` seconds
/// and `nanos` nanoseconds after the Unix epoch.
pub uninterp spec fn rfc3339_at(secs: int, nanos: int) -> Seq<char>;

/// The UTC time `secs` seconds after the Unix epoch
/// (`DateTime::from_timestamp`, which gives `None` for a time without a
/// calendar date), written with a strftime pattern (`format`, shown with
/// `to_string`). Only the two patterns the library writes are admitted,
/// since an invalid pattern makes the display fail. As chrono's formatter
/// writes them, `%Y` is the year (four digits, with a sign outside 0 to
/// 9999), `%m`, `%d`, `%H`, `%M` and `%S` two digits each.
#[verifier::external_body]
fn utc_formatted_at(secs: i64, pattern: &str) -> (r: Option<String>)
    requires
        pattern@ == "%Y-%m-%d"@ || pattern@ == "%Y%m%d_%H%M%S"@,
    ensures
        r matches Some(s) ==> s@ == strftime_at(secs as int, pattern@),
        r matches Some(s) ==> (pattern@ == "%Y-%m-%d"@ ==> is_date_text(s@)),
        r matches Some(s) ==> (pattern@ == "%Y%m%d_%H%M%S"@ ==> is_compact_datetime_text(s@)),
        0 <= secs < CALENDAR_LIMIT_SECS ==> r is Some,
{
    match chrono::DateTime::from_timestamp(secs, 0) {
        Some(t) => Some(t.format(pattern).to_string()),
        None => None,
    }
}

/// The UTC time `secs` seconds and `nanos` nanoseconds after the Unix epoch
/// (`DateTime::from_timestamp`, `None` for a time without a calendar date or
/// a fraction out of range) in RFC 3339 form (`to_rfc3339`): the date and
/// time of day as above, the fraction of a second with 0, 3, 6 or 9 digits,
/// and the offset of UTC as `+00:00`.
#[verifier::external_body]
fn utc_rfc3339_at(secs: i64, nanos: u32) -> (r: Option<String>)
    ensures
        r matches Some(s) ==> s@ == rfc3339_at(secs as int, nanos as int) && is_rfc3339_utc_text(s@),
        0 <= secs < CALENDAR_LIMIT_SECS && nanos < 1_000_000_000 ==> r is Some,
{
    match chrono::DateTime::from_timestamp(secs, nanos) {
        Some(t) => Some(t.to_rfc3339()),
        None => None,
    }
}

/// The UTC date `secs` seconds after the Unix epoch, as `%Y-%m-%d`; `None`
/// for a time without a calendar date.
pub fn utc_date_text(secs: u64) -> (r: Option<String>)
    ensures
        r matches Some(s) ==> s@ == strftime_at(secs as int, "%Y-%m-%d"@) && is_date_text(s@),
        secs < CALENDAR_LIMIT_SECS ==> r is Some,
{
    if secs > 9_223_372_036_854_775_807u64 {
        None
    } else {
        utc_formatted_at(secs as i64, "%Y-%m-%d")
    }
}

/// The UTC date and time `secs` seconds after the Unix epoch, as
/// `%Y%m%d_%H%M%S`; `None` for a time without a calendar date.
pub fn utc_datetime_text(secs: u64) -> (r: Option<String>)
    ensures
        r matches Some(s) ==> s@ == strftime_at(secs as int, "%Y%m%d_%H%M%S"@) && is_compact_datetime_text(s@),
        secs < CALENDAR_LIMIT_SECS ==> r is Some,
{
    if secs > 9_223_372_036_854_775_807u64 {
        None
    } else {
        utc_formatted_at(secs as i64, "%Y%m%d_%H%M%S")
    }
}

/// The UTC time `secs` seconds and `nanos` nanoseconds after the Unix epoch
/// in RFC 3339 form; `None` for a time without a calendar date or a
/// fraction of a second out of range.
pub fn rfc3339_text(secs: u64, nanos: u32) -> (r: Option<String>)
    ensures
        r matches Some(s) ==> s@ == rfc3339_at(secs as int, nanos as int) && is_rfc3339_utc_text(s@),
        secs < CALENDAR_LIMIT_SECS && nanos < 1_000_000_000 ==> r is Some,
{
    if secs > 9_223_372_036_854_775_807u64 {
        None
    } else {
        utc_rfc3339_at(secs as i64, nanos)
    }
}

/// The current UTC date and time in RFC 3339 form. A clock before the Unix
/// epoch, or at or past `CALENDAR_LIMIT_SECS`, reads as the epoch.
pub fn rfc3339_now() -> (r: String)
    ensures
        exists|secs: nat, nanos: nat|
            secs < CALENDAR_LIMIT_SECS && nanos < 1_000_000_000 && r@ == #[trigger] rfc3339_at(secs as int, nanos as int),
        is_rfc3339_utc_text(r@),
{
    let (mut secs, mut nanos): (u64, u32) = match since_unix_epoch(&system_now()) {
        Some(d) => (whole_seconds(&d), fraction_nanos(&d)),
        None => (0, 0),
    };
    if secs >= CALENDAR_LIMIT_SECS {
        secs = 0;
        nanos = 0;
    }
    match rfc3339_text(secs, nanos) {
        Some(s) => s,
        None => String::new(),
    }
}

} // verus!
