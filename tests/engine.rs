use tempo::ephemeris::{reduce_longitude, DEGREE, FULL_CIRCLE};
use tempo::julian::{J2000, SECONDS_PER_DAY};
use tempo::locate::{saku_correction, sekki_correction, TERM_WIDTH};
use tempo::tempo::{
    assemble_months, is_same_saku, local_midnight, principal_terms, select_tempo_date, LOCAL_OFFSET,
};
use tempo::{
    calculate_leading_24sekki, calculate_leading_saku, to_julian_date, DateTime, LunarMonth,
    TempoDate, TempoError, ZonedDate,
};

fn days_since_j2000(jd: i64) -> f64 {
    (jd - J2000) as f64 / SECONDS_PER_DAY as f64
}

fn to_units(deg: f64) -> i64 {
    (deg.rem_euclid(360.0) * DEGREE as f64) as i64
}

/// Mean longitude of the Sun: a constant rate.
fn mean_sun(jd: i64) -> i64 {
    to_units(280.46646 + 0.98564736 * days_since_j2000(jd))
}

/// Mean longitude of the Moon: the Sun's plus the mean elongation.
fn mean_moon(jd: i64) -> i64 {
    let d = days_since_j2000(jd);
    to_units(280.46646 + 0.98564736 * d + 297.8501921 + 445267.1114034 * d / 36525.0)
}

fn convert(date: &ZonedDate) -> Result<TempoDate, TempoError> {
    TempoDate::from_gregory_date(&mean_sun, &mean_moon, date)
}

fn jst(year: i32, month: u32, day: u32) -> ZonedDate {
    ZonedDate { year, month, day, utc_offset: 32400 }
}

fn midnight(year: i32, month: u32, day: u32) -> i64 {
    to_julian_date(&DateTime { year, month, day, hour: 0, minute: 0, second: 0 })
}

#[test]
fn sekki_correction_values() {
    assert_eq!(sekki_correction(0, DEGREE), 87648);
    assert_eq!(sekki_correction(0, 359 * DEGREE), -87648);
    assert_eq!(sekki_correction(15 * DEGREE, 15 * DEGREE), 0);
    assert_eq!(sekki_correction(0, 180 * DEGREE), 15776640);
}

#[test]
fn saku_correction_values() {
    assert_eq!(saku_correction(false, 0, DEGREE), 7087);
    assert_eq!(saku_correction(true, 10 * DEGREE, 5 * DEGREE), 2516006);
    assert_eq!(saku_correction(false, 10 * DEGREE, 5 * DEGREE), -7087 * 5 - 1);
    assert_eq!(saku_correction(false, 100 * DEGREE, 100 * DEGREE), 0);
}

#[test]
fn sekki_locator_finds_the_term_before() {
    for k in 0..40i64 {
        let jd = midnight(2023, 1, 1) + k * 9 * SECONDS_PER_DAY;
        let (found, term) = calculate_leading_24sekki(&mean_sun, jd).unwrap();
        let lon_now = mean_sun(jd);
        assert_eq!(term, lon_now / TERM_WIDTH * TERM_WIDTH);
        assert!(found <= jd);
        assert!(jd - found < 16 * SECONDS_PER_DAY);
        assert_eq!(sekki_correction(term, mean_sun(found)), 0);
    }
}

#[test]
fn saku_locator_finds_a_new_moon() {
    for k in 0..40i64 {
        let jd = midnight(2023, 1, 1) + k * 7 * SECONDS_PER_DAY;
        let found = calculate_leading_saku(&mean_sun, &mean_moon, jd).unwrap();
        let gap = (mean_moon(found) - mean_sun(found)).rem_euclid(FULL_CIRCLE);
        assert!(gap < DEGREE / 100 || FULL_CIRCLE - gap < DEGREE / 100);
        assert!(found <= jd + 60);
        assert!(jd - found < 31 * SECONDS_PER_DAY);
    }
}

#[test]
fn sekki_locator_gives_up_on_a_still_sun() {
    assert_eq!(
        calculate_leading_24sekki(&|_jd: i64| 10 * DEGREE, J2000),
        Err(TempoError::SekkiNotConverged)
    );
}

#[test]
fn saku_locator_gives_up_without_a_new_moon() {
    let still = |_jd: i64| 0;
    let quarter = |_jd: i64| 90 * DEGREE;
    assert_eq!(calculate_leading_saku(&still, &quarter, J2000), Err(TempoError::SakuNotConverged));
}

#[test]
fn conversion_of_new_year_2023_falls_in_the_twelfth_month() {
    let t = convert(&jst(2023, 1, 1)).unwrap();
    assert_eq!(t.year, 2022);
    assert!(t.month == 11 || t.month == 12);
    assert!(t.day >= 1 && t.day <= 30);
}

#[test]
fn conversion_of_june_2023_is_not_a_leap_month() {
    let t = convert(&jst(2023, 6, 1)).unwrap();
    assert!(!t.leap_month);
    assert_eq!(t.year, 2023);
    assert!(t.month >= 3 && t.month <= 5);
}

#[test]
fn conversion_over_a_year_keeps_days_and_months_in_step() {
    let mut prev: Option<TempoDate> = None;
    let mut leap_months = 0;
    let mut month_starts = 0;
    let start = midnight(2023, 3, 10);
    for k in 0..340i64 {
        let d = tempo::from_julian_date(start + k * SECONDS_PER_DAY);
        let t = convert(&jst(d.year, d.month, d.day)).unwrap();
        assert!(t.day >= 1 && t.day <= 30);
        assert!(t.month >= 1 && t.month <= 12);
        if d.month == 1 && t.month == 12 {
            assert_eq!(t.year, 2023);
        }
        if let Some(p) = prev {
            if t.day == 1 {
                month_starts += 1;
                if t.leap_month {
                    leap_months += 1;
                    assert_eq!(t.month, p.month);
                } else {
                    assert_eq!(t.month, p.month % 12 + 1);
                }
            } else {
                assert_eq!(t.day, p.day + 1);
                assert_eq!(t.month, p.month);
                assert_eq!(t.leap_month, p.leap_month);
            }
        }
        prev = Some(t);
    }
    assert!(month_starts == 11 || month_starts == 12);
    assert!(leap_months <= 1);
}

#[test]
fn conversion_rejects_an_impossible_date() {
    assert_eq!(
        convert(&jst(2023, 2, 29)),
        Err(TempoError::InvalidDate)
    );
    assert_eq!(
        convert(&jst(0, 5, 1)),
        Err(TempoError::InvalidDate)
    );
}

#[test]
fn conversion_reports_a_walk_that_never_reaches_the_solstice() {
    assert_eq!(
        TempoDate::from_gregory_date(&|_jd: i64| 0, &|_jd: i64| 0, &jst(2023, 5, 1)),
        Err(TempoError::SearchExhausted)
    );
}

#[test]
fn principal_terms_keep_multiples_of_thirty_degrees() {
    let sekkis = vec![(1, 270 * DEGREE), (2, 285 * DEGREE), (3, 300 * DEGREE), (4, 315 * DEGREE)];
    assert_eq!(principal_terms(&sekkis), vec![(1, 270 * DEGREE), (3, 300 * DEGREE)]);
}

/// A new moon at 12:00 UTC on a day, as a JD.
fn noon(year: i32, month: u32, day: u32) -> i64 {
    midnight(year, month, day) + 12 * 3600
}

#[test]
fn a_month_without_a_principal_term_is_a_leap_month() {
    let sakus = vec![
        noon(2023, 1, 21),
        noon(2023, 2, 20),
        noon(2023, 3, 22),
        noon(2023, 4, 20),
        noon(2023, 5, 19),
    ];
    let chukis = vec![
        (noon(2023, 1, 25), 300 * DEGREE),
        (noon(2023, 2, 25), 330 * DEGREE),
        (noon(2023, 4, 21), 30 * DEGREE),
    ];
    let months = assemble_months(&sakus, &chukis);
    assert_eq!(months.len(), 4);
    assert_eq!((months[0].month, months[0].leap_month), (12, false));
    assert_eq!((months[1].month, months[1].leap_month), (1, false));
    assert_eq!((months[2].month, months[2].leap_month), (1, true));
    assert_eq!((months[3].month, months[3].leap_month), (3, false));
    assert_eq!(months[2].start, midnight(2023, 3, 22));
    assert_eq!(months.iter().filter(|m| m.leap_month).count(), 1);
}

#[test]
fn month_numbers_of_the_principal_terms() {
    let sakus = vec![noon(2023, 1, 1), noon(2023, 2, 1)];
    let expected = [2, 3, 4, 5, 6, 7, 8, 9, 10, 11, 12, 1];
    for (i, m) in expected.iter().enumerate() {
        let chukis = vec![(noon(2023, 1, 10), i as i64 * 30 * DEGREE)];
        assert_eq!(assemble_months(&sakus, &chukis)[0].month, *m);
    }
}

#[test]
fn month_day_starts_follow_the_local_date() {
    // A new moon at 16:00 UTC falls on the next local day.
    let sakus = vec![midnight(2023, 1, 21) + 16 * 3600, noon(2023, 2, 20)];
    let months = assemble_months(&sakus, &vec![]);
    assert_eq!(months[0].start, midnight(2023, 1, 22));
    assert!(months[0].leap_month);
    assert_eq!(months[0].month, 0);
    assert_eq!(LOCAL_OFFSET, 9 * 3600);
}

#[test]
fn selecting_the_date_within_its_month() {
    let months = vec![
        LunarMonth { start: midnight(2022, 12, 23), month: 12, leap_month: false },
        LunarMonth { start: midnight(2023, 1, 22), month: 1, leap_month: false },
    ];
    let t = select_tempo_date(&months, midnight(2023, 1, 1), 2023, 1).unwrap();
    assert_eq!(t, TempoDate { year: 2022, leap_month: false, month: 12, day: 10, jd: months[0].start });
    let t = select_tempo_date(&months, midnight(2023, 1, 22), 2023, 1).unwrap();
    assert_eq!((t.year, t.month, t.day), (2023, 1, 1));
    assert_eq!(
        select_tempo_date(&months, midnight(2022, 12, 1), 2022, 12),
        Err(TempoError::MonthNotFound)
    );
}

#[test]
fn longitudes_are_reduced_into_a_circle() {
    assert_eq!(reduce_longitude(0), 0);
    assert_eq!(reduce_longitude(FULL_CIRCLE), 0);
    assert_eq!(reduce_longitude(-1), FULL_CIRCLE - 1);
    assert_eq!(reduce_longitude(-FULL_CIRCLE - 5), FULL_CIRCLE - 5);
    assert_eq!(reduce_longitude(3 * FULL_CIRCLE + 7), 7);
}

#[test]
fn local_midnight_of_a_late_utc_hour() {
    assert_eq!(local_midnight(midnight(2023, 1, 1) + 14 * 3600), midnight(2023, 1, 1));
    assert_eq!(local_midnight(midnight(2023, 1, 1) + 15 * 3600), midnight(2023, 1, 2));
}

#[test]
fn tempo_date_text() {
    let t = TempoDate { year: 2022, leap_month: false, month: 12, day: 10, jd: 0 };
    assert_eq!(t.to_string(), "2022/12/10");
    let t = TempoDate { year: 33, leap_month: true, month: 2, day: 5, jd: 0 };
    assert_eq!(t.to_string(), "0033/L02/05");
    let t = TempoDate { year: 12345, leap_month: false, month: 1, day: 30, jd: 0 };
    assert_eq!(t.to_string(), "12345/01/30");
}

#[test]
fn a_day_past_the_last_whole_month_is_reported() {
    // With mean longitudes the walk stops at the new moon of 2023-02-20, so the
    // days after it belong to no whole month of the assembled year.
    assert_eq!(convert(&jst(2023, 2, 21)), Err(TempoError::MonthNotFound));
}

#[test]
fn same_new_moon_test_uses_twenty_six_days() {
    let day = SECONDS_PER_DAY;
    assert!(is_same_saku(0, 25 * day));
    assert!(is_same_saku(0, -25 * day));
    assert!(!is_same_saku(0, 26 * day));
    assert!(!is_same_saku(0, 30 * day));
}

#[test]
fn saku_locator_probes_thirty_times_before_failing() {
    let calls = std::cell::Cell::new(0u32);
    let probes = std::cell::RefCell::new(Vec::new());
    let sun = |jd: i64| {
        calls.set(calls.get() + 1);
        probes.borrow_mut().push(jd);
        0
    };
    let quarter = |_jd: i64| 90 * DEGREE;
    assert_eq!(calculate_leading_saku(&sun, &quarter, J2000), Err(TempoError::SakuNotConverged));
    assert_eq!(calls.get(), 30);
    let p = probes.borrow();
    assert_eq!(p[0], J2000);
    assert_eq!(p[15], J2000 - 26 * SECONDS_PER_DAY);
    assert!(p[14] != J2000 - 26 * SECONDS_PER_DAY);
}
