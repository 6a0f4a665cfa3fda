//! The few places where the library touches the world outside its own
//! verified code: the clock, the random id generator, and one `String`
//! primitive that vstd does not cover. Every function here is trusted;
//! its doc comment names the outside function it relies on.

use chrono::{Datelike, Timelike};
use vstd::prelude::*;

verus! {

/// Raw calendar-clock reading: `(year, month, day, hour, minute, second)`.
/// The year is whatever the platform clock reports; the other fields are
/// in their calendar ranges.
pub struct ClockParts {
    pub year: i32,
    pub month: u8,
    pub day: u8,
    pub hour: u8,
    pub minute: u8,
    pub second: u8,
}

/// Month lengths, counted with the proleptic Gregorian leap rule, for any
/// year the clock may report.
pub open spec fn spec_clock_day_ok(year: int, month: int, day: int) -> bool {
    &&& 1 <= month <= 12
    &&& 1 <= day <= 31
    &&& (month == 2 ==> day <= 29)
    &&& (month == 4 || month == 6 || month == 9 || month == 11 ==> day <= 30)
}

/// Relies on `chrono::Utc::now` and the `Datelike`/`Timelike` accessors:
/// `month` is 1-12, `day` is 1-31 and a real day of that month, `hour`
/// is 0-23, `minute` and `second` are 0-59.
#[verifier::external_body]
pub fn utc_clock_parts() -> (r: ClockParts)
    ensures
        spec_clock_day_ok(r.year as int, r.month as int, r.day as int),
        r.hour <= 23,
        r.minute <= 59,
        r.second <= 59,
{
    let now = chrono::Utc::now();
    ClockParts {
        year: now.year(),
        month: now.month() as u8,
        day: now.day() as u8,
        hour: now.hour() as u8,
        minute: now.minute() as u8,
        second: now.second() as u8,
    }
}

/// Relies on `chrono::Local::now` and `DateTime::date_naive` with the
/// `Datelike` accessors: `month` is 1-12, `day` is 1-31 and a real day
/// of that month in the local calendar.
#[verifier::external_body]
pub fn local_date_parts() -> (r: ClockParts)
    ensures
        spec_clock_day_ok(r.year as int, r.month as int, r.day as int),
        r.hour == 0 && r.minute == 0 && r.second == 0,
{
    let today = chrono::Local::now().date_naive();
    ClockParts {
        year: today.year(),
        month: today.month() as u8,
        day: today.day() as u8,
        hour: 0,
        minute: 0,
        second: 0,
    }
}

/// Relies on `nanoid::format` over the default url-safe alphabet of
/// ascii characters: the id has exactly the requested number of
/// characters, here six.
#[verifier::external_body]
pub fn fresh_item_id() -> (r: String)
    ensures
        r@.len() == 6,
{
    nanoid::format(nanoid::rngs::default, &nanoid::alphabet::SAFE, 6)
}

/// Relies on `String::push`: appends exactly the one character.
#[verifier::external_body]
pub fn push_char(s: &mut String, c: char)
    ensures
        final(s)@ == old(s)@.push(c),
{
    s.push(c);
}

} // verus!
