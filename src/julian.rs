//! Julian Dates for Gregorian date-times, held as whole seconds.
//!
//! A Julian Date (JD) is a count of days since noon of 4713 BC (proleptic
//! Julian calendar). Here a JD is an `i64` of seconds: the JD in days times 86400.
use vstd::prelude::*;
use vstd::arithmetic::div_mod::{
    lemma_fundamental_div_mod, lemma_hoist_over_denominator, lemma_mod_bound,
    lemma_mod_multiples_basic,
};

verus! {

/// Seconds in one day.
pub const SECONDS_PER_DAY: i64 = 86400;

/// JD 2400000.5, the epoch of the Modified Julian Day, in seconds.
pub const MJD_EPOCH: i64 = 207360043200;

/// JD 2451545.0, the J2000.0 epoch (2000-01-01 12:00 UTC), in seconds.
pub const J2000: i64 = 211813488000;

/// Seconds in a Julian century of 36525 days.
pub const SECONDS_PER_CENTURY: i64 = 3155760000;

/// Julian centuries are given in units of 10^-12 century.
pub const CENTURY_SCALE: i64 = 1000000000000;

/// Earliest supported year.
pub const YEAR_MIN: i32 = -200000;

/// Latest supported year.
pub const YEAR_MAX: i32 = 200000;

/// Years shifted by this many (a multiple of 400) are never negative.
const YEAR_SHIFT: i64 = 400000;

/// Days in `YEAR_SHIFT` Gregorian years.
const YEAR_SHIFT_DAYS: i64 = 146097000;

/// Day counts shifted by this many are never negative.
const DAY_SHIFT: i64 = 100000000;

/// A Gregorian date and time of day, in UTC.
#[derive(Debug, Clone, Copy, PartialEq, Eq, Structural)]
pub struct DateTime {
    pub year: i32,
    pub month: u32,
    pub day: u32,
    pub hour: u32,
    pub minute: u32,
    pub second: u32,
}

pub open spec fn is_leap_year(y: int) -> bool {
    y % 4 == 0 && (y % 100 != 0 || y % 400 == 0)
}

pub open spec fn days_in_month(y: int, m: int) -> int {
    if m == 2 {
        if is_leap_year(y) {
            29
        } else {
            28
        }
    } else if m == 4 || m == 6 || m == 9 || m == 11 {
        30
    } else {
        31
    }
}

/// A real calendar date within the supported years.
pub open spec fn is_valid_date(y: int, m: int, d: int) -> bool {
    YEAR_MIN <= y <= YEAR_MAX && 1 <= m <= 12 && 1 <= d <= days_in_month(y, m)
}

/// `floor(365.25 y) + floor(y / 400) - floor(y / 100)`.
pub open spec fn year_days(y: int) -> int {
    (1461 * y) / 4 + y / 400 - y / 100
}

/// The Modified Julian Day of a date: months 1 and 2 count as months 13 and 14
/// of the previous year, then
/// `floor(365.25 y) + floor(y/400) - floor(y/100) + floor(30.59 (m - 2)) + d - 678912`.
pub open spec fn mjd_of(y: int, m: int, d: int) -> int {
    let yy = if m <= 2 { y - 1 } else { y };
    let mm = if m <= 2 { m + 12 } else { m };
    year_days(yy) + (3059 * (mm - 2)) / 100 + d - 678912
}

/// The day after the last day of month `m` of year `y`.
pub open spec fn next_month_start(y: int, m: int) -> int {
    if m == 12 {
        mjd_of(y + 1, 1, 1)
    } else {
        mjd_of(y, m + 1, 1)
    }
}

impl DateTime {
    pub open spec fn is_valid(&self) -> bool {
        &&& is_valid_date(self.year as int, self.month as int, self.day as int)
        &&& self.hour < 24
        &&& self.minute < 60
        &&& self.second < 60
    }

    /// Seconds since midnight.
    pub open spec fn seconds_of_day(&self) -> int {
        self.hour * 3600 + self.minute * 60 + self.second
    }

    /// The JD of the date-time, in seconds.
    pub open spec fn jd(&self) -> int {
        mjd_of(self.year as int, self.month as int, self.day as int) * SECONDS_PER_DAY
            + MJD_EPOCH + self.seconds_of_day()
    }

    /// Calendar order: by year, month, day, hour, minute, second.
    pub open spec fn before(&self, o: DateTime) -> bool {
        if self.year != o.year {
            self.year < o.year
        } else if self.month != o.month {
            self.month < o.month
        } else if self.day != o.day {
            self.day < o.day
        } else {
            self.seconds_of_day() < o.seconds_of_day()
        }
    }
}

/// The first JD (in seconds) of the supported years.
pub open spec fn jd_min() -> int {
    mjd_of(YEAR_MIN as int, 1, 1) * SECONDS_PER_DAY + MJD_EPOCH
}

/// The first JD (in seconds) after the supported years.
pub open spec fn jd_end() -> int {
    mjd_of(YEAR_MAX + 1, 1, 1) * SECONDS_PER_DAY + MJD_EPOCH
}

/// `year_days` is unchanged but for a constant when the year moves by `YEAR_SHIFT`.
proof fn lemma_year_days_shift(y: int)
    ensures
        year_days(y + YEAR_SHIFT) == year_days(y) + YEAR_SHIFT_DAYS,
{
    assert((1461 * (y + 400000)) / 4 == (1461 * y) / 4 + 146100000);
    assert((y + 400000) / 400 == y / 400 + 1000);
    assert((y + 400000) / 100 == y / 100 + 4000);
}

/// The Modified Julian Day of a valid date.
pub(crate) fn mjd_days(y: i32, m: u32, d: u32) -> (r: i64)
    requires
        YEAR_MIN - 1 <= y <= YEAR_MAX + 1,
        1 <= m <= 12,
        1 <= d <= 31,
    ensures
        r == mjd_of(y as int, m as int, d as int),
{
    let (yy, mm): (i64, i64) = if m <= 2 {
        (y as i64 - 1, m as i64 + 12)
    } else {
        (y as i64, m as i64)
    };
    let ys: i64 = yy + YEAR_SHIFT;
    proof {
        lemma_year_days_shift(yy as int);
    }
    let yd: i64 = (1461 * ys) / 4 + ys / 400 - ys / 100 - YEAR_SHIFT_DAYS;
    yd + (3059 * (mm - 2)) / 100 + d as i64 - 678912
}

/// Moving back one year drops the quotient by one exactly at multiples.
proof fn lemma_div_step(y: int, d: int)
    requires
        d == 4 || d == 100 || d == 400,
    ensures
        y / d - (y - 1) / d == if y % d == 0 { 1int } else { 0int },
{
    lemma_fundamental_div_mod(y, d);
    lemma_fundamental_div_mod(y - 1, d);
    lemma_mod_bound(y, d);
    lemma_mod_bound(y - 1, d);
    let (q1, r1, q2, r2) = (y / d, y % d, (y - 1) / d, (y - 1) % d);
    assert(q1 - q2 == if r1 == 0 { 1int } else { 0int }) by (nonlinear_arith)
        requires
            d > 0,
            y == d * q1 + r1,
            y - 1 == d * q2 + r2,
            0 <= r1 < d,
            0 <= r2 < d,
    ;
}

/// `floor(365.25 y) == 365 y + floor(y / 4)`.
proof fn lemma_quarter_days(y: int)
    ensures
        (1461 * y) / 4 == 365 * y + y / 4,
{
    lemma_hoist_over_denominator(y, 365 * y, 4);
    assert(y + (365 * y) * 4 == 1461 * y);
}

/// Multiples of 400 are multiples of 100, which are multiples of 4.
proof fn lemma_leap_divisors(y: int)
    ensures
        y % 100 == 0 ==> y % 4 == 0,
        y % 400 == 0 ==> y % 100 == 0,
{
    if y % 100 == 0 {
        lemma_fundamental_div_mod(y, 100);
        let q = y / 100;
        assert(y == (25 * q) * 4);
        lemma_mod_multiples_basic(25 * q, 4);
    }
    if y % 400 == 0 {
        lemma_fundamental_div_mod(y, 400);
        let q = y / 400;
        assert(y == (4 * q) * 100);
        lemma_mod_multiples_basic(4 * q, 100);
    }
}

/// `year_days` grows by the length of the Gregorian year that ends a shifted year.
proof fn lemma_year_days_step(y: int)
    ensures
        year_days(y) - year_days(y - 1) == if is_leap_year(y) { 366int } else { 365int },
{
    lemma_div_step(y, 4);
    lemma_div_step(y, 100);
    lemma_div_step(y, 400);
    lemma_quarter_days(y);
    lemma_quarter_days(y - 1);
    lemma_leap_divisors(y);
}

/// Each month starts right after the last day of the month before it.
pub proof fn lemma_month_length(y: int, m: int)
    requires
        1 <= m <= 12,
    ensures
        mjd_of(y, m, 1) + days_in_month(y, m) == next_month_start(y, m),
{
    if m == 2 {
        lemma_year_days_step(y);
    }
}

/// Month starts increase within a year.
proof fn lemma_month_starts(y: int, m: int)
    requires
        1 <= m <= 12,
    ensures
        mjd_of(y, 1, 1) <= mjd_of(y, m, 1),
        next_month_start(y, m) <= mjd_of(y + 1, 1, 1),
    decreases m,
{
    lemma_month_length(y, m);
    if m > 1 {
        lemma_month_starts(y, m - 1);
        lemma_month_length(y, m - 1);
    }
    lemma_month_ends(y, m);
}

/// Month ends stay before the next year.
proof fn lemma_month_ends(y: int, m: int)
    requires
        1 <= m <= 12,
    ensures
        next_month_start(y, m) <= mjd_of(y + 1, 1, 1),
    decreases 12 - m,
{
    if m < 12 {
        lemma_month_length(y, m + 1);
        lemma_month_ends(y, m + 1);
    }
}

/// A valid date lies within its year.
pub proof fn lemma_date_within_year(y: int, m: int, d: int)
    requires
        1 <= m <= 12,
        1 <= d <= days_in_month(y, m),
    ensures
        mjd_of(y, 1, 1) <= mjd_of(y, m, d) < mjd_of(y + 1, 1, 1),
        mjd_of(y, m, 1) <= mjd_of(y, m, d) < next_month_start(y, m),
{
    lemma_month_starts(y, m);
    lemma_month_length(y, m);
}

/// Each year is 365 or 366 days long.
proof fn lemma_year_length(y: int)
    ensures
        365 <= mjd_of(y + 1, 1, 1) - mjd_of(y, 1, 1) <= 366,
{
    lemma_year_days_step(y);
}

/// Year starts increase with the year.
pub proof fn lemma_year_starts_ordered(a: int, b: int)
    requires
        a <= b,
    ensures
        mjd_of(a, 1, 1) <= mjd_of(b, 1, 1),
        a < b ==> mjd_of(a, 1, 1) + 365 <= mjd_of(b, 1, 1),
    decreases b - a,
{
    if a < b {
        lemma_year_length(b - 1);
        lemma_year_starts_ordered(a, b - 1);
    }
}

/// Month starts increase with the month.
proof fn lemma_month_starts_ordered(y: int, m1: int, m2: int)
    requires
        1 <= m1 < m2 <= 12,
    ensures
        next_month_start(y, m1) <= mjd_of(y, m2, 1),
    decreases m2 - m1,
{
    if m1 + 1 < m2 {
        lemma_month_starts_ordered(y, m1, m2 - 1);
        lemma_month_length(y, m2 - 1);
    }
}

/// The JD grows with the date-time in calendar order.
pub proof fn lemma_julian_date_monotonic(d1: DateTime, d2: DateTime)
    requires
        d1.is_valid(),
        d2.is_valid(),
        d1.before(d2),
    ensures
        d1.jd() < d2.jd(),
{
    let (y1, m1, e1) = (d1.year as int, d1.month as int, d1.day as int);
    let (y2, m2, e2) = (d2.year as int, d2.month as int, d2.day as int);
    lemma_date_within_year(y1, m1, e1);
    lemma_date_within_year(y2, m2, e2);
    let n1 = mjd_of(y1, m1, e1);
    let n2 = mjd_of(y2, m2, e2);
    if y1 != y2 {
        lemma_year_starts_ordered(y1 + 1, y2);
        assert(n1 < n2);
    } else if m1 != m2 {
        lemma_month_starts_ordered(y1, m1, m2);
        assert(n1 < n2);
    }
    if n1 < n2 {
        assert(d1.jd() < (n1 + 1) * SECONDS_PER_DAY + MJD_EPOCH);
        assert((n1 + 1) * SECONDS_PER_DAY <= n2 * SECONDS_PER_DAY);
    }
}

/// Two valid date-times with the same JD are the same: converting a date-time to
/// its JD and back gives the date-time again.
pub proof fn lemma_julian_date_round_trip(d: DateTime, r: DateTime)
    requires
        d.is_valid(),
        r.is_valid(),
        r.jd() == d.jd(),
    ensures
        r == d,
{
    if r.before(d) {
        lemma_julian_date_monotonic(r, d);
    } else if d.before(r) {
        lemma_julian_date_monotonic(d, r);
    } else {
        assert(r.seconds_of_day() == d.seconds_of_day());
        assert(r.hour == d.hour) by {
            assert(r.hour * 3600 <= r.seconds_of_day() < r.hour * 3600 + 3600);
            assert(d.hour * 3600 <= d.seconds_of_day() < d.hour * 3600 + 3600);
        }
    }
}

/// Converts a Gregorian date-time (UTC) into its JD, in seconds.
pub fn to_julian_date(datetime: &DateTime) -> (r: i64)
    requires
        datetime.is_valid(),
    ensures
        r == datetime.jd(),
        jd_min() <= r < jd_end(),
{
    let mjd = mjd_days(datetime.year, datetime.month, datetime.day);
    proof {
        lemma_date_within_year(datetime.year as int, datetime.month as int, datetime.day as int);
        lemma_year_starts_ordered(YEAR_MIN as int, datetime.year as int);
        lemma_year_starts_ordered(datetime.year as int + 1, YEAR_MAX + 1);
    }
    let time: i64 = datetime.hour as i64 * 3600 + datetime.minute as i64 * 60
        + datetime.second as i64;
    mjd * SECONDS_PER_DAY + MJD_EPOCH + time
}

/// Converts a JD (in seconds) back into the Gregorian date-time (UTC) it stands for.
pub fn from_julian_date(jd: i64) -> (r: DateTime)
    requires
        jd_min() <= jd < jd_end(),
    ensures
        r.is_valid(),
        r.jd() == jd,
{
    let rel: i64 = jd - MJD_EPOCH;
    assert(mjd_of(YEAR_MIN as int, 1, 1) > -DAY_SHIFT);
    assert(mjd_of(YEAR_MAX + 1, 1, 1) < DAY_SHIFT);
    let shifted: i64 = rel + DAY_SHIFT * SECONDS_PER_DAY;
    let days: i64 = shifted / SECONDS_PER_DAY - DAY_SHIFT;
    let secs: i64 = shifted % SECONDS_PER_DAY;
    assert(mjd_of(YEAR_MIN as int, 1, 1) <= days < mjd_of(YEAR_MAX + 1, 1, 1));

    // First guess of the year by the Modified-Julian-Day formula, on a shifted
    // day count so that every quotient is taken of a non-negative number.
    let n: i64 = days + 678881 + YEAR_SHIFT_DAYS;
    let a: i64 = n * 4 + 3 + ((((n + 1) * 4 / 146097) + 1) * 3 / 4) * 4;
    let b: i64 = (a % 1461) / 4 * 5 + 2;
    let mut guess: i64 = a / 1461 - YEAR_SHIFT;
    if b / 153 + 3 > 12 {
        guess = guess + 1;
    }
    let mut y: i32 = if guess < YEAR_MIN as i64 {
        YEAR_MIN
    } else if guess > YEAR_MAX as i64 {
        YEAR_MAX
    } else {
        guess as i32
    };

    // Settle the year: its first day is on or before `days`, the next year's after.
    while y > YEAR_MIN && mjd_days(y, 1, 1) > days
        invariant
            YEAR_MIN <= y <= YEAR_MAX,
            mjd_of(YEAR_MIN as int, 1, 1) <= days < mjd_of(YEAR_MAX + 1, 1, 1),
        decreases y - YEAR_MIN,
    {
        y = y - 1;
    }
    while y < YEAR_MAX && mjd_days(y + 1, 1, 1) <= days
        invariant
            YEAR_MIN <= y <= YEAR_MAX,
            mjd_of(y as int, 1, 1) <= days < mjd_of(YEAR_MAX + 1, 1, 1),
        decreases YEAR_MAX - y,
    {
        y = y + 1;
    }

    // The month is the last one that starts on or before `days`.
    let mut m: u32 = 12;
    while m > 1 && mjd_days(y, m, 1) > days
        invariant
            1 <= m <= 12,
            YEAR_MIN <= y <= YEAR_MAX,
            mjd_of(y as int, 1, 1) <= days < next_month_start(y as int, m as int),
        decreases m,
    {
        m = m - 1;
    }
    let start = mjd_days(y, m, 1);
    proof {
        lemma_month_length(y as int, m as int);
    }
    let day: i64 = days - start + 1;

    let hour: i64 = secs / 3600;
    let rest: i64 = secs % 3600;
    let minute: i64 = rest / 60;
    let second: i64 = rest % 60;
    DateTime {
        year: y,
        month: m,
        day: day as u32,
        hour: hour as u32,
        minute: minute as u32,
        second: second as u32,
    }
}

/// Julian centuries since J2000.0, `(JD - 2451545.0) / 36525`, in units of
/// 10^-12 century, rounded down.
pub fn julian_century(jd: i64) -> (r: i64)
    requires
        jd_min() <= jd < jd_end(),
    ensures
        r == ((jd - J2000) * CENTURY_SCALE) / (SECONDS_PER_CENTURY as int),
{
    let num: i128 = (jd as i128 - J2000 as i128) * CENTURY_SCALE as i128;
    let den: i128 = SECONDS_PER_CENTURY as i128;
    let q: i128 = if num >= 0 {
        num / den
    } else {
        -((-num + den - 1) / den)
    };
    q as i64
}

/// Whether a JD (in seconds) lies within the supported years.
pub fn jd_in_range(jd: i64) -> (b: bool)
    ensures
        b == (jd_min() <= jd < jd_end()),
{
    let lo: i64 = mjd_days(YEAR_MIN, 1, 1) * SECONDS_PER_DAY + MJD_EPOCH;
    let hi: i64 = mjd_days(YEAR_MAX + 1, 1, 1) * SECONDS_PER_DAY + MJD_EPOCH;
    lo <= jd && jd < hi
}

/// Whether year, month and day make a real date within the supported years.
pub fn is_valid_ymd(year: i32, month: u32, day: u32) -> (b: bool)
    ensures
        b == is_valid_date(year as int, month as int, day as int),
{
    if year < YEAR_MIN || year > YEAR_MAX || month < 1 || month > 12 || day < 1 {
        return false;
    }
    let leap = year % 4 == 0 && (year % 100 != 0 || year % 400 == 0);
    let length: u32 = if month == 2 {
        if leap {
            29
        } else {
            28
        }
    } else if month == 4 || month == 6 || month == 9 || month == 11 {
        30
    } else {
        31
    };
    day <= length
}

} // verus!
