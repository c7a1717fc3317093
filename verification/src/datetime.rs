//! Calendar date-times built from discrete field choices.
//!
//! A `DateTime` is a naive (timezone-free) local date and time. Field
//! combinations that do not name a real calendar moment (day 31 of a 30-day
//! month, hour 24, ...) are refused by [`compose`]; a well-formed value can
//! only hold a real one. Years are kept in the four-digit range 1..=9999.

use chrono::Datelike;
use chrono::Timelike;
use vstd::prelude::*;

verus! {

/// A naive calendar date-time: year, month, day, hour, minute, second.
#[derive(Clone, Copy, Debug, PartialEq, Eq, Structural)]
pub struct DateTime {
    pub year: i32,
    pub month: u32,
    pub day: u32,
    pub hour: u32,
    pub minute: u32,
    pub second: u32,
}

/// Gregorian leap year: divisible by 4, except century years not divisible by 400.
pub open spec fn is_leap_year(y: int) -> bool {
    (y % 4 == 0 && y % 100 != 0) || y % 400 == 0
}

/// Number of days of month `m` of year `y`.
pub open spec fn days_in_month(y: int, m: int) -> int
    recommends
        1 <= y,
        1 <= m <= 12,
{
    if m == 2 {
        if is_leap_year(y) {
            29
        } else {
            28
        }
    } else if m == 4 || m == 6 || m == 9 || m == 11 {
        30
    } else {
        31
    }
}

/// The six fields name a real calendar date-time in the supported year range.
pub open spec fn fields_ok(y: int, m: int, d: int, h: int, mi: int, s: int) -> bool {
    &&& 1 <= y <= 9999
    &&& 1 <= m <= 12
    &&& 1 <= d <= days_in_month(y, m)
    &&& 0 <= h <= 23
    &&& 0 <= mi <= 59
    &&& 0 <= s <= 59
}

/// Lexicographic order on date-times: year, then month, day, hour, minute, second.
pub open spec fn dt_le(a: DateTime, b: DateTime) -> bool {
    if a.year != b.year {
        a.year < b.year
    } else if a.month != b.month {
        a.month < b.month
    } else if a.day != b.day {
        a.day < b.day
    } else if a.hour != b.hour {
        a.hour < b.hour
    } else if a.minute != b.minute {
        a.minute < b.minute
    } else {
        a.second <= b.second
    }
}

impl DateTime {
    /// The value holds a real calendar date-time.
    pub open spec fn wf(self) -> bool {
        fields_ok(
            self.year as int,
            self.month as int,
            self.day as int,
            self.hour as int,
            self.minute as int,
            self.second as int,
        )
    }

    /// Start of the supported calendar: 1970-01-01 00:00:00.
    pub fn epoch() -> (r: DateTime)
        ensures
            r == (DateTime { year: 1970, month: 1, day: 1, hour: 0, minute: 0, second: 0 }),
            r.wf(),
    {
        DateTime { year: 1970, month: 1, day: 1, hour: 0, minute: 0, second: 0 }
    }

    /// Runtime check of well-formedness.
    pub fn valid(&self) -> (r: bool)
        ensures
            r == self.wf(),
    {
        compose(self.year, self.month, self.day, self.hour, self.minute, self.second).is_some()
    }

    /// `self` is at or before `other` in calendar order.
    pub fn le(&self, other: &DateTime) -> (r: bool)
        ensures
            r == dt_le(*self, *other),
    {
        if self.year != other.year {
            self.year < other.year
        } else if self.month != other.month {
            self.month < other.month
        } else if self.day != other.day {
            self.day < other.day
        } else if self.hour != other.hour {
            self.hour < other.hour
        } else if self.minute != other.minute {
            self.minute < other.minute
        } else {
            self.second <= other.second
        }
    }
}

/// Number of days of the given month, 29 for February of a leap year.
pub fn month_length(year: i32, month: u32) -> (r: u32)
    requires
        1 <= year,
        1 <= month <= 12,
    ensures
        r == days_in_month(year as int, month as int),
{
    if month == 2 {
        let y: u32 = year as u32;
        if (y % 4 == 0 && y % 100 != 0) || y % 400 == 0 {
            29
        } else {
            28
        }
    } else if month == 4 || month == 6 || month == 9 || month == 11 {
        30
    } else {
        31
    }
}

/// Build a date-time from independently chosen fields.
///
/// Returns `Some` exactly when the fields name a real calendar date-time;
/// an impossible combination is a composition failure and yields `None`,
/// never a silently adjusted date.
pub fn compose(year: i32, month: u32, day: u32, hour: u32, minute: u32, second: u32) -> (r: Option<
    DateTime,
>)
    ensures
        r is Some <==> fields_ok(
            year as int,
            month as int,
            day as int,
            hour as int,
            minute as int,
            second as int,
        ),
        r is Some ==> r->0 == (DateTime { year, month, day, hour, minute, second }),
{
    if 1 <= year && year <= 9999 && 1 <= month && month <= 12 && 1 <= day && day <= month_length(
        year,
        month,
    ) && hour <= 23 && minute <= 59 && second <= 59 {
        Some(DateTime { year, month, day, hour, minute, second })
    } else {
        None
    }
}

/// Relies on std's `SystemTime::now`: the machine clock's seconds since the
/// Unix epoch, or `None` when the clock reads before the epoch (the one case
/// in which `duration_since` errs). No call here can panic, and nothing is
/// assumed of the value; callers validate what they build from it.
#[verifier::external_body]
fn clock_unix_seconds() -> Option<i64> {
    match std::time::SystemTime::now().duration_since(std::time::UNIX_EPOCH) {
        Ok(d) => Some(d.as_secs() as i64),
        Err(_) => None,
    }
}

/// Relies on chrono's `DateTime::<Utc>::from_timestamp`: the UTC calendar
/// fields of the given Unix-epoch second, read through `Datelike` /
/// `Timelike` (on a UTC value these yield the UTC fields), or `None` when
/// the second is outside chrono's range. No call here can panic, and nothing
/// is assumed of the values; callers validate them.
#[verifier::external_body]
fn utc_fields_of(secs: i64) -> Option<(i32, u32, u32, u32, u32, u32)> {
    match chrono::DateTime::<chrono::Utc>::from_timestamp(secs, 0) {
        Some(t) => Some((t.year(), t.month(), t.day(), t.hour(), t.minute(), t.second())),
        None => None,
    }
}

/// The current UTC date-time (naive, as all date-times here are) if the
/// machine clock yields a representable one, else the epoch. The result is
/// always well-formed; which value it is depends on the machine's clock.
pub fn now_or_epoch() -> (r: DateTime)
    ensures
        r.wf(),
{
    match clock_unix_seconds() {
        Some(secs) => match utc_fields_of(secs) {
            Some((y, mo, d, h, mi, s)) => match compose(y, mo, d, h, mi, s) {
                Some(dt) => dt,
                None => DateTime::epoch(),
            },
            None => DateTime::epoch(),
        },
        None => DateTime::epoch(),
    }
}

} // verus!
