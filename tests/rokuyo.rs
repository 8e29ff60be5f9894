use tempo::{Rokuyo, TempoDate, TempoError};

#[test]
fn numbering_runs_from_sensho() {
    let order = [
        Rokuyo::Sensho,
        Rokuyo::Tomobiki,
        Rokuyo::Sempu,
        Rokuyo::Butsumetsu,
        Rokuyo::Taian,
        Rokuyo::Shakku,
    ];
    for (i, r) in order.iter().enumerate() {
        assert_eq!(r.to_number(), i);
        assert_eq!(Rokuyo::from_number(i), Ok(*r));
    }
}

#[test]
fn from_number_rejects_six() {
    assert_eq!(Rokuyo::from_number(6), Err(TempoError::OutOfRokuyoIndex));
    assert_eq!(Rokuyo::from_number(100), Err(TempoError::OutOfRokuyoIndex));
}

#[test]
fn japanese_names() {
    assert_eq!(Rokuyo::Taian.to_japanese(), "大安");
    assert_eq!(Rokuyo::Shakku.to_japanese(), "赤口");
    assert_eq!(Rokuyo::Sensho.to_japanese(), "先勝");
    assert_eq!(Rokuyo::Tomobiki.to_japanese(), "友引");
    assert_eq!(Rokuyo::Sempu.to_japanese(), "先負");
    assert_eq!(Rokuyo::Butsumetsu.to_japanese(), "仏滅");
}

fn date(year: usize, month: usize, day: usize) -> TempoDate {
    TempoDate { year, leap_month: false, month, day, jd: 0 }
}

#[test]
fn first_days_of_months_follow_the_almanac() {
    assert_eq!(date(2023, 1, 1).rokuyo(), Rokuyo::Sensho);
    assert_eq!(date(2023, 2, 1).rokuyo(), Rokuyo::Tomobiki);
    assert_eq!(date(2023, 3, 1).rokuyo(), Rokuyo::Sempu);
    assert_eq!(date(2023, 4, 1).rokuyo(), Rokuyo::Butsumetsu);
    assert_eq!(date(2023, 5, 1).rokuyo(), Rokuyo::Taian);
    assert_eq!(date(2023, 6, 1).rokuyo(), Rokuyo::Shakku);
    assert_eq!(date(2023, 7, 1).rokuyo(), Rokuyo::Sensho);
    assert_eq!(date(2023, 12, 1).rokuyo(), Rokuyo::Shakku);
}

#[test]
fn rokuyo_cycles_every_six_days_and_ignores_the_year() {
    for month in 1..=12 {
        for day in 1..=24 {
            let a = date(2020, month, day).rokuyo();
            assert_eq!(date(1999, month, day).rokuyo(), a);
            assert_eq!(date(2020, month, day + 6).rokuyo(), a);
            assert_eq!(date(2020, month, day + 1).rokuyo().to_number(), (a.to_number() + 1) % 6);
        }
    }
}

#[test]
fn default_tempo_date() {
    let d = TempoDate::default();
    assert_eq!(d, TempoDate { year: 1, leap_month: false, month: 1, day: 1, jd: 0 });
}
