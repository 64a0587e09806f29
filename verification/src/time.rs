use vstd::prelude::*;

verus! {

/// A wall-clock instant in some (implicit) time zone: a proleptic Gregorian
/// calendar date together with an hour/minute/second of day.
#[derive(Clone, Copy, PartialEq, Eq, Structural, Debug)]
pub struct LocalTime {
    pub year: i32,
    pub month: u8,
    pub day: u8,
    pub hour: u8,
    pub minute: u8,
    pub second: u8,
}

/// Failure to turn a raw meeting record into a local wall-clock time.
#[derive(Clone, Copy, PartialEq, Eq, Structural, Debug)]
pub enum TimeError {
    /// The zone name is not a known IANA zone identifier.
    InvalidTimeZone,
    /// The timestamp is not a valid RFC 3339 date-time.
    InvalidTimestamp,
    /// The timestamp parses, but falls outside the year range this
    /// library supports (years 1 through 9998).
    UnsupportedDate,
}

pub open spec fn is_leap_year(y: int) -> bool {
    (y % 4 == 0 && y % 100 != 0) || y % 400 == 0
}

pub open spec fn days_in_month_spec(y: int, m: int) -> int {
    if m == 2 {
        if is_leap_year(y) {
            29
        } else {
            28
        }
    } else if m == 4 || m == 6 || m == 9 || m == 11 {
        30
    } else {
        31
    }
}

impl LocalTime {
    /// A well-formed wall-clock time: a real calendar date (years 1 to 9999)
    /// and a valid time of day.
    pub open spec fn wf(self) -> bool {
        &&& 1 <= self.year <= 9999
        &&& 1 <= self.month <= 12
        &&& 1 <= self.day <= days_in_month_spec(self.year as int, self.month as int)
        &&& self.hour <= 23
        &&& self.minute <= 59
        &&& self.second <= 59
    }
}

pub fn is_leap(year: i32) -> (r: bool)
    requires
        year >= 1,
    ensures
        r == is_leap_year(year as int),
{
    (year % 4 == 0 && year % 100 != 0) || year % 400 == 0
}

pub fn days_in_month(year: i32, month: u8) -> (r: u8)
    requires
        year >= 1,
        1 <= month <= 12,
    ensures
        r as int == days_in_month_spec(year as int, month as int),
{
    if month == 2 {
        if is_leap(year) {
            29
        } else {
            28
        }
    } else if month == 4 || month == 6 || month == 9 || month == 11 {
        30
    } else {
        31
    }
}

/// The calendar date following `t`'s date; the time of day is kept.
pub open spec fn next_day_spec(t: LocalTime) -> LocalTime {
    if t.day < days_in_month_spec(t.year as int, t.month as int) {
        LocalTime { day: (t.day + 1) as u8, ..t }
    } else if t.month < 12 {
        LocalTime { month: (t.month + 1) as u8, day: 1, ..t }
    } else {
        LocalTime { year: (t.year + 1) as i32, month: 1, day: 1, ..t }
    }
}

pub fn next_day(t: &LocalTime) -> (r: LocalTime)
    requires
        t.wf(),
        t.year <= 9998,
    ensures
        r == next_day_spec(*t),
        r.wf(),
        r.year <= 9999,
{
    if t.day < days_in_month(t.year, t.month) {
        LocalTime { day: t.day + 1, ..*t }
    } else if t.month < 12 {
        LocalTime { month: t.month + 1, day: 1, ..*t }
    } else {
        LocalTime { year: t.year + 1, month: 1, day: 1, ..*t }
    }
}

/// Hour rounding with a five-minute tolerance: minutes 55-59 round up to the
/// next hour (rolling the date over at midnight), minutes 0-5 round down to
/// the hour, and anything in between is left untouched.
pub open spec fn round_spec(t: LocalTime) -> LocalTime {
    if t.minute >= 55 {
        if t.hour == 23 {
            LocalTime { hour: 0, minute: 0, second: 0, ..next_day_spec(t) }
        } else {
            LocalTime { hour: (t.hour + 1) as u8, minute: 0, second: 0, ..t }
        }
    } else if t.minute <= 5 {
        LocalTime { minute: 0, second: 0, ..t }
    } else {
        t
    }
}

/// Round a time like 09:58 to 10:00 (and 10:02 back to 10:00), leaving
/// genuinely off-hour times alone.
pub fn round_time_to_hour(t: &mut LocalTime)
    requires
        old(t).wf(),
        old(t).year <= 9998,
    ensures
        *final(t) == round_spec(*old(t)),
        final(t).wf(),
{
    if t.minute >= 55 {
        if t.hour == 23 {
            let d = next_day(t);
            *t = LocalTime { hour: 0, minute: 0, second: 0, ..d };
        } else {
            *t = LocalTime { hour: t.hour + 1, minute: 0, second: 0, ..*t };
        }
    } else if t.minute <= 5 {
        *t = LocalTime { minute: 0, second: 0, ..*t };
    }
}

pub open spec fn year_length(y: int) -> int {
    if is_leap_year(y) {
        366
    } else {
        365
    }
}

/// Days in all years strictly before `y`, counting from year 1.
pub open spec fn days_before_year(y: int) -> int
    decreases y,
{
    if y <= 1 {
        0
    } else {
        days_before_year(y - 1) + year_length(y - 1)
    }
}

/// Days in all months of year `y` strictly before month `m`.
pub open spec fn days_before_month(y: int, m: int) -> int
    decreases m,
{
    if m <= 1 {
        0
    } else {
        days_before_month(y, m - 1) + days_in_month_spec(y, m - 1)
    }
}

/// The date's rank in a linear count of days, with year 1, January 1 as day 0.
pub open spec fn day_index_spec(t: LocalTime) -> int {
    days_before_year(t.year as int) + days_before_month(t.year as int, t.month as int) + t.day - 1
}

/// Seconds since the start of day 0, ignoring zone offsets: a total order on
/// wall-clock times.
pub open spec fn total_seconds_spec(t: LocalTime) -> int {
    day_index_spec(t) * 86400 + t.hour * 3600 + t.minute * 60 + t.second
}

proof fn lemma_days_before_year_bounds(y: int)
    requires
        y >= 1,
    ensures
        0 <= days_before_year(y) <= 366 * (y - 1),
    decreases y,
{
    if y > 1 {
        lemma_days_before_year_bounds(y - 1);
    }
}

proof fn lemma_days_before_month_bounds(y: int, m: int)
    requires
        1 <= m <= 13,
    ensures
        0 <= days_before_month(y, m) <= 31 * (m - 1),
    decreases m,
{
    if m > 1 {
        lemma_days_before_month_bounds(y, m - 1);
    }
}

/// The date's day index, as an integer usable for range comparisons.
pub fn day_number(t: &LocalTime) -> (r: i64)
    requires
        t.wf(),
    ensures
        r == day_index_spec(*t),
        0 <= r <= 3_660_000,
{
    let mut acc: i64 = 0;
    let mut y: i32 = 1;
    while y < t.year
        invariant
            1 <= y <= t.year <= 9999,
            acc == days_before_year(y as int),
            0 <= acc <= 366 * (y - 1),
        decreases t.year - y,
    {
        if is_leap(y) {
            acc = acc + 366;
        } else {
            acc = acc + 365;
        }
        y = y + 1;
    }
    let mut m: u8 = 1;
    while m < t.month
        invariant
            1 <= m <= t.month <= 12,
            1 <= t.year <= 9999,
            acc == days_before_year(t.year as int) + days_before_month(t.year as int, m as int),
            0 <= acc <= 366 * (t.year - 1) + 31 * (m - 1),
        decreases t.month - m,
    {
        proof {
            lemma_days_before_year_bounds(t.year as int);
            lemma_days_before_month_bounds(t.year as int, m as int);
        }
        acc = acc + days_in_month(t.year, m) as i64;
        m = m + 1;
    }
    proof {
        lemma_days_before_year_bounds(t.year as int);
        lemma_days_before_month_bounds(t.year as int, t.month as int);
    }
    acc + t.day as i64 - 1
}

proof fn lemma_months_total(y: int)
    ensures
        days_before_month(y, 13) == year_length(y),
{
    reveal_with_fuel(days_before_month, 13);
}

proof fn lemma_months_mono(y: int, a: int, b: int)
    requires
        1 <= a <= b <= 13,
    ensures
        days_before_month(y, a) <= days_before_month(y, b),
    decreases b - a,
{
    if a < b {
        lemma_months_mono(y, a, b - 1);
    }
}

/// The day index counts calendar succession: the next day's index is one
/// more, across month and year ends included.
pub proof fn lemma_day_index_next(t: LocalTime)
    requires
        t.wf(),
        t.year <= 9998,
    ensures
        day_index_spec(next_day_spec(t)) == day_index_spec(t) + 1,
{
    let y = t.year as int;
    let m = t.month as int;
    if t.day < days_in_month_spec(y, m) {
    } else if t.month < 12 {
        assert(days_before_month(y, m + 1) == days_before_month(y, m) + days_in_month_spec(y, m));
    } else {
        lemma_months_total(y);
        assert(days_before_month(y, 13) == days_before_month(y, 12) + days_in_month_spec(y, 12));
        assert(days_before_year(y + 1) == days_before_year(y) + year_length(y));
    }
}

/// A date's offset within its year is less than the year's length.
proof fn lemma_day_in_year(t: LocalTime)
    requires
        t.wf(),
    ensures
        0 <= days_before_month(t.year as int, t.month as int) + t.day - 1 < year_length(
            t.year as int,
        ),
{
    let y = t.year as int;
    let m = t.month as int;
    lemma_months_total(y);
    lemma_months_mono(y, m + 1, 13);
    assert(days_before_month(y, m + 1) == days_before_month(y, m) + days_in_month_spec(y, m));
    lemma_months_mono(y, 1, m);
}

/// The date `lookback_days` whole days before `t`'s date, floored at the
/// first representable day (year 1, January 1), with the time of day
/// zeroed: the start of the remote query window.
pub fn date_back(t: &LocalTime, lookback_days: i64) -> (r: LocalTime)
    requires
        t.wf(),
        lookback_days >= 0,
    ensures
        r.wf(),
        r.year <= t.year,
        day_index_spec(r) == if day_index_spec(*t) - lookback_days >= 0 {
            day_index_spec(*t) - lookback_days
        } else {
            0
        },
        r.hour == 0 && r.minute == 0 && r.second == 0,
{
    let n = day_number(t);
    let mut rem: i64 = if lookback_days > n {
        0
    } else {
        n - lookback_days
    };
    let ghost target = rem as int;
    let mut y: i32 = 1;
    while rem >= 366 || (rem >= 365 && !is_leap(y))
        invariant
            1 <= y <= t.year,
            t.wf(),
            target == days_before_year(y as int) + rem,
            0 <= rem,
            target <= day_index_spec(*t),
        decreases t.year - y,
    {
        proof {
            lemma_day_in_year(*t);
            if y == t.year {
                assert(rem == target - days_before_year(y as int));
                assert(rem < year_length(y as int));
                assert(false);
            }
        }
        if is_leap(y) {
            rem = rem - 366;
        } else {
            rem = rem - 365;
        }
        y = y + 1;
    }
    proof {
        assert(rem < year_length(y as int));
    }
    let mut m: u8 = 1;
    while rem >= days_in_month(y, m) as i64
        invariant
            1 <= y <= t.year <= 9999,
            t.wf(),
            1 <= m <= 12,
            target == days_before_year(y as int) + days_before_month(y as int, m as int) + rem,
            0 <= rem,
            days_before_month(y as int, m as int) + rem < year_length(y as int),
        decreases 12 - m,
    {
        proof {
            lemma_months_total(y as int);
            assert(days_before_month(y as int, 13) == days_before_month(y as int, 12)
                + days_in_month_spec(y as int, 12));
            if m == 12 {
                assert(false);
            }
        }
        rem = rem - days_in_month(y, m) as i64;
        m = m + 1;
    }
    let r = LocalTime { year: y, month: m, day: (rem + 1) as u8, hour: 0, minute: 0, second: 0 };
    proof {
        assert(r.day == rem + 1);
        assert(day_index_spec(r) == target);
    }
    r
}

/// The range filter: `t` qualifies iff it lies strictly after the cutoff,
/// which is `now` moved back by `lookback_days` whole days.
pub fn in_range(t: &LocalTime, now: &LocalTime, lookback_days: i64) -> (r: bool)
    requires
        t.wf(),
        now.wf(),
        lookback_days >= 0,
    ensures
        r == (total_seconds_spec(*t) > total_seconds_spec(*now) - lookback_days * 86400),
{
    let ts: i128 = day_number(t) as i128 * 86400 + t.hour as i128 * 3600 + t.minute as i128 * 60
        + t.second as i128;
    let cutoff: i128 = day_number(now) as i128 * 86400 + now.hour as i128 * 3600
        + now.minute as i128 * 60 + now.second as i128 - lookback_days as i128 * 86400;
    ts > cutoff
}

/// The wall-clock times the pipeline works on: real calendar dates in years
/// 1 through 9998 (so that rounding up at midnight of New Year's Eve stays
/// representable), with in-range time fields.
pub open spec fn supported_spec(t: LocalTime) -> bool {
    t.wf() && t.year <= 9998
}

/// Check that a wall-clock reading is a supported calendar time.
pub fn check_supported(t: &LocalTime) -> (r: bool)
    ensures
        r == supported_spec(*t),
{
    1 <= t.year && t.year <= 9998 && 1 <= t.month && t.month <= 12 && 1 <= t.day && t.day
        <= days_in_month(t.year, t.month) && t.hour <= 23 && t.minute <= 59 && t.second <= 59
}

/// Rounding only ever zeroes the minutes for times within the tolerance of
/// an hour boundary, and never touches a time whose minute lies in 6..=54.
pub proof fn lemma_rounding(t: LocalTime)
    requires
        t.wf(),
    ensures
        t.minute <= 5 ==> round_spec(t) == (LocalTime { minute: 0, second: 0, ..t }),
        t.minute >= 55 ==> round_spec(t).minute == 0 && round_spec(t).second == 0,
        t.minute >= 55 && t.hour < 23 ==> round_spec(t).hour == t.hour + 1,
        6 <= t.minute <= 54 ==> round_spec(t) == t,
{
}

} // verus!
