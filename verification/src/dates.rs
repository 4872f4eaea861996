//! Calendar dates as day numbers since 1970-01-01, the relative-day tag and
//! the midnight timestamp carried by an output line.

use vstd::prelude::*;

verus! {

/// Whether a year has a leap day.
pub open spec fn is_leap_year(y: int) -> bool {
    y % 4 == 0 && (y % 100 != 0 || y % 400 == 0)
}

/// Days in a year.
pub open spec fn days_in_year(y: int) -> int {
    if is_leap_year(y) {
        366
    } else {
        365
    }
}

/// Days in month `m` (counted from 1) of year `y`.
pub open spec fn days_in_month(y: int, m: int) -> int {
    if m == 2 {
        if is_leap_year(y) {
            29
        } else {
            28
        }
    } else if m == 4 || m == 6 || m == 9 || m == 11 {
        30
    } else {
        31
    }
}

/// Days from the start of 1970 to the start of year `y`.
pub open spec fn days_before_year(y: int) -> int
    recommends
        y >= 1970,
    decreases y - 1970,
    when y >= 1970
{
    if y <= 1970 {
        0
    } else {
        days_before_year(y - 1) + days_in_year(y - 1)
    }
}

/// Days from the start of year `y` to the start of month `m`.
pub open spec fn days_before_month(y: int, m: int) -> int
    recommends
        m >= 1,
    decreases m,
    when m >= 1
{
    if m <= 1 {
        0
    } else {
        days_before_month(y, m - 1) + days_in_month(y, m - 1)
    }
}

/// The day number of a calendar date: days since 1970-01-01.
pub open spec fn day_number(y: int, m: int, d: int) -> int {
    days_before_year(y) + days_before_month(y, m) + (d - 1)
}

/// The calendar dates this library converts to day numbers.
pub open spec fn valid_ymd(y: int, m: int, d: int) -> bool {
    &&& 1970 <= y <= 9999
    &&& 1 <= m <= 12
    &&& 1 <= d <= days_in_month(y, m)
}

/// Whether a year has a leap day.
pub fn leap_year(y: u32) -> (r: bool)
    ensures
        r == is_leap_year(y as int),
{
    y % 4 == 0 && (y % 100 != 0 || y % 400 == 0)
}

/// Days in month `m` (counted from 1) of year `y`.
pub fn month_length(y: u32, m: u32) -> (r: u32)
    requires
        1 <= m <= 12,
    ensures
        r == days_in_month(y as int, m as int),
{
    if m == 2 {
        if leap_year(y) {
            29
        } else {
            28
        }
    } else if m == 4 || m == 6 || m == 9 || m == 11 {
        30
    } else {
        31
    }
}

/// The day number of a calendar date.
pub fn date_from_ymd(y: u32, m: u32, d: u32) -> (r: i64)
    requires
        valid_ymd(y as int, m as int, d as int),
    ensures
        r == day_number(y as int, m as int, d as int),
{
    let mut days: i64 = 0;
    let mut yy: u32 = 1970;
    while yy < y
        invariant
            1970 <= yy <= y <= 9999,
            days == days_before_year(yy as int),
            0 <= days <= 366 * (yy - 1970),
        decreases y - yy,
    {
        if leap_year(yy) {
            days = days + 366;
        } else {
            days = days + 365;
        }
        yy = yy + 1;
    }
    let mut mm: u32 = 1;
    while mm < m
        invariant
            1 <= mm <= m <= 12,
            yy == y <= 9999,
            days == days_before_year(y as int) + days_before_month(y as int, mm as int),
            days_before_year(y as int) <= 366 * (y - 1970),
            0 <= days <= 366 * (y - 1970) + 31 * (mm - 1),
        decreases m - mm,
    {
        let ml = month_length(y, mm);
        days = days + ml as i64;
        mm = mm + 1;
    }
    days + d as i64 - 1
}

/// The tag value that places a record's date beside today's: strictly past
/// dates are `previous`, today is `current`, and future dates are `next`.
pub open spec fn day_tag(date: int, today: int) -> Seq<char> {
    if today > date {
        "previous"@
    } else if today == date {
        "current"@
    } else {
        "next"@
    }
}

/// The relative-day tag of a record's date beside today's.
pub fn day_tag_str(date: i64, today: i64) -> (r: &'static str)
    ensures
        r@ == day_tag(date as int, today as int),
{
    if today > date {
        "previous"
    } else if today == date {
        "current"
    } else {
        "next"
    }
}

/// Seconds from the epoch to local midnight of the date, for a zone `off`
/// seconds east of UTC.
pub open spec fn epoch_seconds(date: int, off: int) -> int {
    date * 86400 - off
}

/// Nanoseconds from the epoch to local midnight of the date.
pub open spec fn timestamp_nanos(date: int, off: int) -> int {
    epoch_seconds(date, off) * 1000000000
}

/// Whether the midnight timestamp of the date fits a 64-bit nanosecond count.
pub open spec fn ts_in_range(date: int, off: int) -> bool {
    -9223372036 <= epoch_seconds(date, off) <= 9223372036
}

/// The nanosecond timestamp of local midnight of the date.
pub fn midnight_timestamp(date: i64, off: i32) -> (r: i64)
    requires
        ts_in_range(date as int, off as int),
    ensures
        r == timestamp_nanos(date as int, off as int),
{
    let secs: i64 = date * 86400 - off as i64;
    secs * 1000000000
}

} // verus!
