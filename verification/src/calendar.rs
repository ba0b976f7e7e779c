//! Calendar conversion: turns Unix seconds plus the NTP fraction field into
//! year/month/day hour:minute:second.millisecond, in the proleptic Gregorian
//! calendar, UTC, with no timezone offset.

use vstd::prelude::*;

verus! {

/// The decoded absolute time, broken into the fields a platform clock-set
/// call takes.
#[derive(Clone, Copy, Debug, PartialEq, Eq, Structural)]
pub struct CalendarTime {
    pub year: u32,
    pub month: u32,
    pub day: u32,
    pub hour: u32,
    pub minute: u32,
    pub second: u32,
    pub millisecond: u32,
}

/// A Gregorian leap year: divisible by 4, except century years not divisible
/// by 400.
pub open spec fn is_leap_year(y: int) -> bool {
    y % 4 == 0 && (y % 100 != 0 || y % 400 == 0)
}

/// Days in year `y`.
pub open spec fn days_in_year(y: int) -> int {
    if is_leap_year(y) {
        366
    } else {
        365
    }
}

/// Days in month `m` (1 = January) of year `y`.
pub open spec fn days_in_month(y: int, m: int) -> int
    recommends
        1 <= m <= 12,
{
    if m == 2 {
        if is_leap_year(y) {
            29
        } else {
            28
        }
    } else if m == 4 || m == 6 || m == 9 || m == 11 {
        30
    } else {
        31
    }
}

/// Days from 1970-01-01 up to the first day of year `y`.
pub open spec fn days_before_year(y: int) -> int
    recommends
        y >= 1970,
    decreases y,
{
    if y <= 1970 {
        0
    } else {
        days_before_year(y - 1) + days_in_year(y - 1)
    }
}

/// Days from the first day of year `y` up to the first day of its month `m`.
pub open spec fn days_before_month(y: int, m: int) -> int
    recommends
        1 <= m <= 13,
    decreases m,
{
    if m <= 1 {
        0
    } else {
        days_before_month(y, m - 1) + days_in_month(y, m - 1)
    }
}

/// The calendar fields are in range: a date of 1970 or later that exists in
/// the Gregorian calendar, and a time of day.
pub open spec fn calendar_wf(c: CalendarTime) -> bool {
    &&& c.year >= 1970
    &&& 1 <= c.month <= 12
    &&& 1 <= c.day <= days_in_month(c.year as int, c.month as int)
    &&& c.hour < 24
    &&& c.minute < 60
    &&& c.second < 60
    &&& c.millisecond < 1000
}

/// Days from 1970-01-01 to the date of `c`.
pub open spec fn days_of_date(c: CalendarTime) -> int {
    days_before_year(c.year as int) + days_before_month(c.year as int, c.month as int) + c.day
        - 1
}

/// The Unix time, in whole seconds, that `c` denotes.
pub open spec fn unix_seconds_of(c: CalendarTime) -> int {
    86400 * days_of_date(c) + 3600 * c.hour + 60 * c.minute + c.second
}

/// The NTP fraction field scaled to milliseconds: `f / 2^32` seconds,
/// truncated to whole milliseconds only after the multiplication by 1000.
pub open spec fn millis_of_fraction(f: nat) -> nat {
    f * 1000 / 0x100000000
}

/// The months of a year sum to its length.
proof fn lemma_year_is_sum_of_months(y: int)
    ensures
        days_before_month(y, 13) == days_in_year(y),
{
    reveal_with_fuel(days_before_month, 13);
}

/// Every year from 1970 on contributes at least 365 days.
proof fn lemma_days_before_year_lower(y: int)
    requires
        y >= 1970,
    ensures
        days_before_year(y) >= (y - 1970) * 365,
    decreases y,
{
    if y > 1970 {
        lemma_days_before_year_lower(y - 1);
    }
}

/// Later years never lie earlier in the day count.
proof fn lemma_days_before_year_mono(y1: int, y2: int)
    requires
        1970 <= y1 <= y2,
    ensures
        days_before_year(y1) <= days_before_year(y2),
    decreases y2,
{
    if y1 < y2 {
        lemma_days_before_year_mono(y1, y2 - 1);
    }
}

/// Later months never lie earlier in a year's day count.
proof fn lemma_days_before_month_mono(y: int, m1: int, m2: int)
    requires
        1 <= m1 <= m2,
    ensures
        days_before_month(y, m1) <= days_before_month(y, m2),
    decreases m2,
{
    if m1 < m2 {
        lemma_days_before_month_mono(y, m1, m2 - 1);
    }
}

/// The date of a well-formed calendar time falls inside its own year: its
/// day count lies between the year's first day and the next year's first
/// day.
proof fn lemma_date_within_year(c: CalendarTime)
    requires
        calendar_wf(c),
    ensures
        days_before_year(c.year as int) <= days_of_date(c),
        days_of_date(c) < days_before_year(c.year as int + 1),
{
    lemma_days_before_month_mono(c.year as int, 1, c.month as int);
    lemma_days_before_month_mono(c.year as int, c.month as int + 1, 13);
    lemma_year_is_sum_of_months(c.year as int);
    assert(days_before_month(c.year as int, c.month as int + 1) == days_before_month(
        c.year as int,
        c.month as int,
    ) + days_in_month(c.year as int, c.month as int));
    assert(days_before_year(c.year as int + 1) == days_before_year(c.year as int) + days_in_year(
        c.year as int,
    ));
}

/// A well-formed calendar time denotes its instant uniquely: two
/// well-formed calendar times with the same Unix seconds and the same
/// millisecond field are equal. Together with the contract of
/// `to_calendar`, converting Unix seconds to a calendar time and reading
/// the calendar time back as Unix seconds is the identity in both
/// directions.
pub proof fn lemma_calendar_representation_unique(c1: CalendarTime, c2: CalendarTime)
    requires
        calendar_wf(c1),
        calendar_wf(c2),
        unix_seconds_of(c1) == unix_seconds_of(c2),
        c1.millisecond == c2.millisecond,
    ensures
        c1 == c2,
{
    let d1 = days_of_date(c1);
    let d2 = days_of_date(c2);
    let t1 = 3600 * c1.hour + 60 * c1.minute + c1.second;
    let t2 = 3600 * c2.hour + 60 * c2.minute + c2.second;
    lemma_date_within_year(c1);
    lemma_date_within_year(c2);
    assert(0 <= t1 < 86400 && 0 <= t2 < 86400);
    assert(d1 == d2 && t1 == t2);
    assert(c1.hour == c2.hour && c1.minute == c2.minute && c1.second == c2.second);
    // The two dates share the day count; first the years must agree, since
    // each year's dates fill a half-open day-count interval.
    if c1.year < c2.year {
        lemma_days_before_year_mono(c1.year as int + 1, c2.year as int);
        assert(false);
    }
    if c2.year < c1.year {
        lemma_days_before_year_mono(c2.year as int + 1, c1.year as int);
        assert(false);
    }
    // Within one year the months must agree, since each month's dates fill
    // a half-open interval of the year's day count.
    let y = c1.year as int;
    if c1.month < c2.month {
        lemma_days_before_month_mono(y, c1.month as int + 1, c2.month as int);
        assert(days_before_month(y, c1.month as int + 1) == days_before_month(y, c1.month as int)
            + days_in_month(y, c1.month as int));
        assert(false);
    }
    if c2.month < c1.month {
        lemma_days_before_month_mono(y, c2.month as int + 1, c1.month as int);
        assert(days_before_month(y, c2.month as int + 1) == days_before_month(y, c2.month as int)
            + days_in_month(y, c2.month as int));
        assert(false);
    }
    assert(c1.day == c2.day);
}

/// Whether `y` is a Gregorian leap year.
fn is_leap(y: u32) -> (r: bool)
    ensures
        r == is_leap_year(y as int),
{
    y % 4 == 0 && (y % 100 != 0 || y % 400 == 0)
}

/// The number of days in year `y`.
fn year_length(y: u32) -> (r: u32)
    ensures
        r == days_in_year(y as int),
{
    if is_leap(y) {
        366
    } else {
        365
    }
}

/// The number of days in month `m` of year `y`.
fn month_length(y: u32, m: u32) -> (r: u32)
    requires
        1 <= m <= 12,
    ensures
        r == days_in_month(y as int, m as int),
{
    if m == 2 {
        if is_leap(y) {
            29
        } else {
            28
        }
    } else if m == 4 || m == 6 || m == 9 || m == 11 {
        30
    } else {
        31
    }
}

/// Scales the NTP fraction field to whole milliseconds, for any fraction
/// value, widening before the division so the multiplication cannot
/// overflow.
pub fn fraction_to_milliseconds(fraction: u32) -> (r: u32)
    ensures
        r == millis_of_fraction(fraction as nat),
        r < 1000,
{
    let wide: u64 = (fraction as u64) * 1000;
    let ms: u64 = wide / 4294967296;
    ms as u32
}

/// Converts a Unix time in whole seconds, plus the NTP fraction field, into
/// calendar fields. The result is a well-formed calendar time that denotes
/// exactly the given instant.
pub fn to_calendar(unix_seconds: u32, fraction: u32) -> (c: CalendarTime)
    ensures
        calendar_wf(c),
        unix_seconds_of(c) == unix_seconds,
        c.millisecond == millis_of_fraction(fraction as nat),
{
    let millisecond = fraction_to_milliseconds(fraction);
    let days: u32 = unix_seconds / 86400;
    let rem: u32 = unix_seconds % 86400;
    let hour: u32 = rem / 3600;
    let rem2: u32 = rem % 3600;
    let minute: u32 = rem2 / 60;
    let second: u32 = rem2 % 60;
    let mut year: u32 = 1970;
    let mut days_left: u32 = days;
    loop
        invariant
            year >= 1970,
            days_before_year(year as int) + days_left == days,
            days <= 49710,
        ensures
            year >= 1970,
            days_before_year(year as int) + days_left == days,
            days_left < days_in_year(year as int),
        decreases days_left,
    {
        proof {
            lemma_days_before_year_lower(year as int);
        }
        let len: u32 = year_length(year);
        if days_left < len {
            break;
        }
        days_left = days_left - len;
        year = year + 1;
    }

    let mut month: u32 = 1;
    loop
        invariant
            year >= 1970,
            1 <= month <= 12,
            days_before_year(year as int) + days_before_month(year as int, month as int)
                + days_left == days,
            days_before_month(year as int, month as int) + days_left < days_in_year(
                year as int,
            ),
        ensures
            1 <= month <= 12,
            days_before_year(year as int) + days_before_month(year as int, month as int)
                + days_left == days,
            days_left < days_in_month(year as int, month as int),
        decreases 12 - month,
    {
        let len: u32 = month_length(year, month);
        if days_left < len {
            break;
        }
        proof {
            lemma_year_is_sum_of_months(year as int);
            if month == 12 {
                assert(days_before_month(year as int, 13) == days_before_month(year as int, 12)
                    + days_in_month(year as int, 12));
                assert(false);
            }
        }
        days_left = days_left - len;
        month = month + 1;
    }

    let day: u32 = days_left + 1;
    CalendarTime { year, month, day, hour, minute, second, millisecond }
}

} // verus!
