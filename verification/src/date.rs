//! Calendar dates and timestamps as plain values: a date is a year,
//! month and day; a timestamp adds a time of day. Both carry their
//! validity as spec predicates, and both order lexicographically.

use vstd::prelude::*;
use vstd::string::StringExecFns;

use crate::sys;

verus! {

/// A calendar date in the proleptic Gregorian calendar, within the
/// four-digit years that the on-disk format can carry.
#[derive(Clone, Copy, Debug, PartialEq, Eq, Structural)]
pub struct Date {
    pub year: u16,
    pub month: u8,
    pub day: u8,
}

/// A calendar date with a time of day, in UTC.
#[derive(Clone, Copy, Debug, PartialEq, Eq, Structural)]
pub struct Timestamp {
    pub date: Date,
    pub hour: u8,
    pub minute: u8,
    pub second: u8,
}

pub open spec fn is_leap_year(y: int) -> bool {
    y % 4 == 0 && (y % 100 != 0 || y % 400 == 0)
}

pub open spec fn spec_days_in_month(y: int, m: int) -> int {
    if m == 2 {
        if is_leap_year(y) {
            29
        } else {
            28
        }
    } else if m == 4 || m == 6 || m == 9 || m == 11 {
        30
    } else {
        31
    }
}

pub open spec fn date_valid(d: Date) -> bool {
    &&& d.year <= 9999
    &&& 1 <= d.month <= 12
    &&& 1 <= d.day <= spec_days_in_month(d.year as int, d.month as int)
}

/// The day after a valid date, within the representable years.
pub open spec fn spec_succ(d: Date) -> Option<Date> {
    if d.day < spec_days_in_month(d.year as int, d.month as int) {
        Some(Date { year: d.year, month: d.month, day: (d.day + 1) as u8 })
    } else if d.month < 12 {
        Some(Date { year: d.year, month: (d.month + 1) as u8, day: 1 })
    } else if d.year < 9999 {
        Some(Date { year: (d.year + 1) as u16, month: 1, day: 1 })
    } else {
        None
    }
}

/// The day before a valid date, within the representable years.
pub open spec fn spec_pred(d: Date) -> Option<Date> {
    if d.day > 1 {
        Some(Date { year: d.year, month: d.month, day: (d.day - 1) as u8 })
    } else if d.month > 1 {
        Some(
            Date {
                year: d.year,
                month: (d.month - 1) as u8,
                day: spec_days_in_month(d.year as int, d.month - 1) as u8,
            },
        )
    } else if d.year > 0 {
        Some(Date { year: (d.year - 1) as u16, month: 12, day: 31 })
    } else {
        None
    }
}

pub open spec fn timestamp_valid(t: Timestamp) -> bool {
    &&& date_valid(t.date)
    &&& t.hour <= 23
    &&& t.minute <= 59
    &&& t.second <= 59
}

/// Strict lexicographic order on dates.
pub open spec fn date_lt(a: Date, b: Date) -> bool {
    ||| a.year < b.year
    ||| (a.year == b.year && a.month < b.month)
    ||| (a.year == b.year && a.month == b.month && a.day < b.day)
}

/// Strict lexicographic order on timestamps.
pub open spec fn timestamp_lt(a: Timestamp, b: Timestamp) -> bool {
    ||| date_lt(a.date, b.date)
    ||| (a.date == b.date && a.hour < b.hour)
    ||| (a.date == b.date && a.hour == b.hour && a.minute < b.minute)
    ||| (a.date == b.date && a.hour == b.hour && a.minute == b.minute && a.second < b.second)
}

pub fn days_in_month(y: u16, m: u8) -> (r: u8)
    requires
        1 <= m <= 12,
    ensures
        r == spec_days_in_month(y as int, m as int),
{
    if m == 2 {
        if y % 4 == 0 && (y % 100 != 0 || y % 400 == 0) {
            29
        } else {
            28
        }
    } else if m == 4 || m == 6 || m == 9 || m == 11 {
        30
    } else {
        31
    }
}

impl Date {
    pub fn new(year: u16, month: u8, day: u8) -> (r: Date)
        ensures
            r == (Date { year, month, day }),
    {
        Date { year, month, day }
    }

    /// Whether this is a real calendar date within the representable years.
    pub fn is_valid(self) -> (r: bool)
        ensures
            r == date_valid(self),
    {
        self.year <= 9999 && 1 <= self.month && self.month <= 12 && 1 <= self.day && self.day
            <= days_in_month(self.year, self.month)
    }

    /// The day after `self`, or `None` past the last representable date.
    pub fn succ(self) -> (r: Option<Date>)
        requires
            date_valid(self),
        ensures
            r == spec_succ(self),
            r matches Some(d) ==> date_valid(d) && date_lt(self, d),
            r is None <==> self == (Date { year: 9999, month: 12, day: 31 }),
    {
        if self.day < days_in_month(self.year, self.month) {
            Some(Date { year: self.year, month: self.month, day: self.day + 1 })
        } else if self.month < 12 {
            Some(Date { year: self.year, month: self.month + 1, day: 1 })
        } else if self.year < 9999 {
            Some(Date { year: self.year + 1, month: 1, day: 1 })
        } else {
            None
        }
    }

    /// The day before `self`, or `None` before the first representable date.
    pub fn pred(self) -> (r: Option<Date>)
        requires
            date_valid(self),
        ensures
            r == spec_pred(self),
            r matches Some(d) ==> date_valid(d) && date_lt(d, self),
            r is None <==> self == (Date { year: 0, month: 1, day: 1 }),
    {
        if self.day > 1 {
            Some(Date { year: self.year, month: self.month, day: self.day - 1 })
        } else if self.month > 1 {
            let m = self.month - 1;
            Some(Date { year: self.year, month: m, day: days_in_month(self.year, m) })
        } else if self.year > 0 {
            Some(Date { year: self.year - 1, month: 12, day: 31 })
        } else {
            None
        }
    }
}

/// The current moment of the UTC clock as a valid timestamp. The clock's
/// reading is out of this library's control, so the contract promises
/// validity alone; a reading outside the representable years falls back
/// to the first moment of 2000-01-01.
pub fn now_timestamp() -> (r: Timestamp)
    ensures
        timestamp_valid(r),
{
    let p = sys::utc_clock_parts();
    let date = date_from_clock(p.year, p.month, p.day);
    Timestamp { date, hour: p.hour, minute: p.minute, second: p.second }
}

/// The current local calendar date, valid by construction; a reading
/// outside the representable years falls back to 2000-01-01.
pub fn today_date() -> (r: Date)
    ensures
        date_valid(r),
{
    let p = sys::local_date_parts();
    date_from_clock(p.year, p.month, p.day)
}

/// What a date argument means: the exact `YYYY-MM-DD` form checked
/// against the calendar, or one of the two relative tokens resolved
/// against today.
pub open spec fn spec_parse_ymd(s: Seq<char>, today: Date) -> Option<Date> {
    if s == "yesterday"@ {
        spec_pred(today)
    } else if s == "tomorrow"@ {
        spec_succ(today)
    } else {
        match crate::parse::spec_parse_date_digits(s) {
            Some((d, rest)) => if rest.len() == 0 {
                Some(d)
            } else {
                None
            },
            None => None,
        }
    }
}

/// Reads a date argument: `YYYY-MM-DD`, `yesterday` or `tomorrow`.
/// An unrecognized string is an invalid-date error carrying the input;
/// a relative token that leaves the representable years is out of range.
pub fn parse_ymd(s: &str, today: Date) -> (r: Result<Date, crate::errors::TuskError>)
    requires
        date_valid(today),
    ensures
        r matches Ok(d) ==> spec_parse_ymd(s@, today) == Some(d) && date_valid(d),
        r is Err <==> spec_parse_ymd(s@, today) is None,
        r matches Err(e) ==> if s@ == "yesterday"@ || s@ == "tomorrow"@ {
            e == crate::errors::TuskError::DateOutOfRange
        } else {
            e matches crate::errors::TuskError::InvalidDate { input } && input@ == s@
        },
{
    let chars = crate::strings::str_chars(s);
    if crate::strings::chars_eq_str(&chars, "yesterday") {
        match today.pred() {
            Some(d) => Ok(d),
            None => Err(crate::errors::TuskError::DateOutOfRange),
        }
    } else if crate::strings::chars_eq_str(&chars, "tomorrow") {
        match today.succ() {
            Some(d) => Ok(d),
            None => Err(crate::errors::TuskError::DateOutOfRange),
        }
    } else {
        proof {
            assert(chars@.skip(0) =~= s@);
        }
        match crate::parse::p_date_digits(&chars, 0) {
            Some((d, p)) => {
                if p == chars.len() {
                    proof {
                        assert(chars@.skip(p as int).len() == 0);
                    }
                    Ok(d)
                } else {
                    proof {
                        assert(chars@.skip(p as int).len() > 0);
                    }
                    Err(
                        crate::errors::TuskError::InvalidDate {
                            input: String::from_str(s),
                        },
                    )
                }
            },
            None => Err(
                crate::errors::TuskError::InvalidDate {
                    input: String::from_str(s),
                },
            ),
        }
    }
}

fn date_from_clock(year: i32, month: u8, day: u8) -> (r: Date)
    requires
        sys::spec_clock_day_ok(year as int, month as int, day as int),
    ensures
        date_valid(r),
{
    if 0 <= year && year <= 9999 {
        let y = year as u16;
        if day <= days_in_month(y, month) {
            return Date { year: y, month, day };
        }
    }
    Date { year: 2000, month: 1, day: 1 }
}

} // verus!
