use tempo::julian::{
    is_valid_ymd, jd_in_range, CENTURY_SCALE, J2000, SECONDS_PER_DAY, YEAR_MAX, YEAR_MIN,
};
use tempo::{from_julian_date, julian_century, to_julian_date, DateTime};

fn dt(year: i32, month: u32, day: u32, hour: u32, minute: u32, second: u32) -> DateTime {
    DateTime { year, month, day, hour, minute, second }
}

#[test]
fn j2000_epoch_is_noon_of_2000_01_01() {
    assert_eq!(to_julian_date(&dt(2000, 1, 1, 12, 0, 0)), J2000);
}

#[test]
fn julian_date_of_2023_new_year() {
    // JD 2459945.5
    assert_eq!(to_julian_date(&dt(2023, 1, 1, 0, 0, 0)), 212539291200);
}

#[test]
fn julian_date_counts_seconds() {
    let a = to_julian_date(&dt(2023, 6, 1, 0, 0, 0));
    let b = to_julian_date(&dt(2023, 6, 1, 13, 45, 7));
    assert_eq!(b - a, 13 * 3600 + 45 * 60 + 7);
}

#[test]
fn round_trip_on_sample_dates() {
    let samples = vec![
        dt(2000, 1, 1, 12, 0, 0),
        dt(2024, 2, 29, 23, 59, 59),
        dt(2023, 12, 31, 0, 0, 1),
        dt(1900, 2, 28, 6, 30, 0),
        dt(1900, 3, 1, 0, 0, 0),
        dt(1600, 2, 29, 18, 0, 0),
        dt(1, 1, 1, 0, 0, 0),
        dt(-44, 3, 15, 11, 11, 11),
        dt(9999, 12, 31, 23, 59, 59),
    ];
    for d in samples {
        assert_eq!(from_julian_date(to_julian_date(&d)), d);
    }
}

#[test]
fn round_trip_over_every_day_of_two_years() {
    let start = to_julian_date(&dt(2023, 1, 1, 0, 0, 0));
    for k in 0..731i64 {
        let jd = start + k * SECONDS_PER_DAY + k * 97;
        let d = from_julian_date(jd);
        assert_eq!(to_julian_date(&d), jd);
    }
}

#[test]
fn julian_date_grows_with_calendar_order() {
    let ordered = vec![
        dt(1999, 12, 31, 23, 59, 59),
        dt(2000, 1, 1, 0, 0, 0),
        dt(2000, 2, 28, 0, 0, 0),
        dt(2000, 2, 29, 0, 0, 0),
        dt(2000, 3, 1, 0, 0, 0),
        dt(2001, 1, 1, 0, 0, 0),
    ];
    for w in ordered.windows(2) {
        assert!(to_julian_date(&w[0]) < to_julian_date(&w[1]));
    }
    assert_eq!(
        to_julian_date(&dt(2000, 3, 1, 0, 0, 0)) - to_julian_date(&dt(2000, 2, 28, 0, 0, 0)),
        2 * SECONDS_PER_DAY
    );
    assert_eq!(
        to_julian_date(&dt(1900, 3, 1, 0, 0, 0)) - to_julian_date(&dt(1900, 2, 28, 0, 0, 0)),
        SECONDS_PER_DAY
    );
}

#[test]
fn from_julian_date_splits_time_of_day() {
    let d = from_julian_date(J2000 + 3 * 3600 + 25 * 60 + 9);
    assert_eq!(d, dt(2000, 1, 1, 15, 25, 9));
}

#[test]
fn julian_century_from_j2000() {
    assert_eq!(julian_century(J2000), 0);
    assert_eq!(julian_century(J2000 + 36525 * SECONDS_PER_DAY), CENTURY_SCALE);
    assert_eq!(julian_century(J2000 - 36525 * SECONDS_PER_DAY), -CENTURY_SCALE);
    assert_eq!(julian_century(J2000 + 1), 316);
    assert_eq!(julian_century(J2000 - 1), -317);
}

#[test]
fn date_validity_follows_the_gregorian_rules() {
    assert!(is_valid_ymd(2024, 2, 29));
    assert!(!is_valid_ymd(2023, 2, 29));
    assert!(!is_valid_ymd(1900, 2, 29));
    assert!(is_valid_ymd(2000, 2, 29));
    assert!(!is_valid_ymd(2023, 4, 31));
    assert!(!is_valid_ymd(2023, 13, 1));
    assert!(!is_valid_ymd(2023, 1, 0));
    assert!(!is_valid_ymd(300000, 1, 1));
}

#[test]
fn supported_range_of_julian_dates() {
    let first = to_julian_date(&dt(YEAR_MIN, 1, 1, 0, 0, 0));
    let last = to_julian_date(&dt(YEAR_MAX, 12, 31, 23, 59, 59));
    assert!(jd_in_range(first));
    assert!(!jd_in_range(first - 1));
    assert!(jd_in_range(last));
    assert!(!jd_in_range(last + 1));
    assert_eq!(from_julian_date(first), dt(YEAR_MIN, 1, 1, 0, 0, 0));
    assert_eq!(from_julian_date(last), dt(YEAR_MAX, 12, 31, 23, 59, 59));
}
