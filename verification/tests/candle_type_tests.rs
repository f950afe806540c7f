use candles::candle_type::CandleType;
use chrono::{DateTime, Datelike, Duration, TimeZone, Timelike, Utc};

fn ts(y: i32, mo: u32, d: u32, h: u32, mi: u32, s: u32) -> i64 {
    Utc.with_ymd_and_hms(y, mo, d, h, mi, s).unwrap().timestamp()
}

fn dt(t: i64) -> DateTime<Utc> {
    Utc.timestamp_opt(t, 0).unwrap()
}

#[test]
fn count_minute() {
    let candle_type = CandleType::Minute;
    let duration = Duration::minutes(15);
    let from = ts(2000, 1, 1, 0, 0, 0);
    let to = from + duration.num_seconds() - 1;

    let count = candle_type.get_dates_count(from, to);

    assert_eq!(count, duration.num_minutes() as usize);
}

#[test]
fn count_hour() {
    let candle_type = CandleType::Hour;
    let duration = Duration::hours(15);
    let from = ts(2000, 1, 1, 0, 0, 0);
    let to = from + duration.num_seconds() - 1;

    let count = candle_type.get_dates_count(from, to);

    assert_eq!(count, duration.num_hours() as usize);
}

#[test]
fn count_day() {
    let candle_type = CandleType::Day;
    let duration = Duration::days(15);
    let from = ts(2000, 1, 1, 0, 0, 0);
    let to = from + duration.num_seconds() - 1;

    let count = candle_type.get_dates_count(from, to);

    assert_eq!(count, duration.num_days() as usize);
}

#[test]
fn count_month() {
    let candle_type = CandleType::Month;
    let num_months = 12;
    let from = ts(2000, 1, 1, 0, 0, 0);
    let to = ts(2000, num_months, 1, 0, 0, 0);

    let count = candle_type.get_dates_count(from, to);

    assert_eq!(count, num_months as usize);
}

#[test]
fn get_date_for_minute() {
    let candle_type = CandleType::Minute;
    let src = dt(ts(2000, 1, 1, 1, 1, 34));

    let start_date = dt(candle_type.get_start_date(src.timestamp()));

    assert_eq!(start_date.year(), src.year());
    assert_eq!(start_date.month(), src.month());
    assert_eq!(start_date.day(), src.day());
    assert_eq!(start_date.hour(), src.hour());
    assert_eq!(start_date.hour(), src.hour());
    assert_eq!(start_date.minute(), src.minute());
    assert_eq!(start_date.second(), 0);
}

#[test]
fn get_date_for_hour() {
    let candle_type = CandleType::Hour;
    let src = dt(ts(2000, 1, 1, 1, 23, 34));

    let start_date = dt(candle_type.get_start_date(src.timestamp()));

    assert_eq!(start_date.year(), src.year());
    assert_eq!(start_date.month(), src.month());
    assert_eq!(start_date.day(), src.day());
    assert_eq!(start_date.hour(), src.hour());
    assert_eq!(start_date.minute(), 0);
    assert_eq!(start_date.second(), 0);
}

#[test]
fn get_date_for_day() {
    let candle_type = CandleType::Day;
    let src = dt(ts(2000, 1, 1, 3, 23, 34));

    let start_date = dt(candle_type.get_start_date(src.timestamp()));

    assert_eq!(start_date.year(), src.year());
    assert_eq!(start_date.month(), src.month());
    assert_eq!(start_date.day(), src.day());
    assert_eq!(start_date.hour(), 0);
    assert_eq!(start_date.minute(), 0);
    assert_eq!(start_date.second(), 0);
}

#[test]
fn get_start_date_for_month() {
    let candle_type = CandleType::Month;
    let src = dt(ts(2000, 1, 12, 3, 23, 34));

    let start_date = dt(candle_type.get_start_date(src.timestamp()));

    assert_eq!(start_date.year(), src.year());
    assert_eq!(start_date.month(), src.month());
    assert_eq!(start_date.day(), 1);
    assert_eq!(start_date.hour(), 0);
    assert_eq!(start_date.minute(), 0);
    assert_eq!(start_date.second(), 0);
}

#[test]
fn get_end_date_for_month() {
    let candle_type = CandleType::Month;
    let src = dt(ts(2000, 12, 12, 3, 23, 34));

    let end_date = dt(candle_type.get_end_date(src.timestamp()));

    assert_eq!(end_date.year(), src.year() + 1);
    assert_eq!(end_date.month(), 1);
    assert_eq!(end_date.day(), 1);
    assert_eq!(end_date.hour(), 0);
    assert_eq!(end_date.minute(), 0);
    assert_eq!(end_date.second(), 0);
}

#[test]
fn get_start_dates_for_minute() {
    let duration = Duration::minutes(15);
    let from = ts(2000, 1, 1, 0, 0, 0);
    let to = from + duration.num_seconds();
    let candle_type = CandleType::Minute;

    let dates = candle_type.get_start_dates(from, to);

    assert!(dates.contains(&candle_type.get_start_date(from)));
    assert!(dates.contains(&candle_type.get_start_date(to)));
    assert_eq!(dates.len(), (duration.num_minutes() + 1) as usize);

    for _ in 0..duration.num_minutes() {
        let date = candle_type.get_start_date(from) + candle_type.get_duration(from);
        assert!(dates.contains(&date));
    }
}

#[test]
fn get_start_dates_for_hour() {
    let duration = Duration::hours(15);
    let from = ts(2000, 1, 1, 0, 0, 0);
    let to = from + duration.num_seconds();
    let candle_type = CandleType::Hour;

    let dates = candle_type.get_start_dates(from, to);

    assert!(dates.contains(&candle_type.get_start_date(from)));
    assert!(dates.contains(&candle_type.get_start_date(to)));
    assert_eq!(dates.len(), (duration.num_hours() + 1) as usize);

    for _ in 0..duration.num_hours() {
        let date = candle_type.get_start_date(from) + candle_type.get_duration(from);
        assert!(dates.contains(&date));
    }
}

#[test]
fn get_start_dates_for_day() {
    let duration = Duration::days(15);
    let from = ts(2000, 1, 1, 0, 0, 0);
    let to = from + duration.num_seconds();
    let candle_type = CandleType::Day;

    let dates = candle_type.get_start_dates(from, to);

    assert!(dates.contains(&candle_type.get_start_date(from)));
    assert!(dates.contains(&candle_type.get_start_date(to)));
    assert_eq!(dates.len(), (duration.num_days() + 1) as usize);

    for _ in 0..duration.num_days() {
        let date = candle_type.get_start_date(from) + candle_type.get_duration(from);
        assert!(dates.contains(&date));
    }
}

#[test]
fn get_start_dates_for_month() {
    let num_months = 12;
    let from = ts(2000, 1, 1, 0, 0, 0);
    let to = ts(2000, num_months, 1, 0, 0, 0);
    let candle_type = CandleType::Month;

    let dates = candle_type.get_start_dates(from, to);

    assert!(dates.contains(&candle_type.get_start_date(from)));
    assert!(dates.contains(&candle_type.get_start_date(to)));
    assert_eq!(dates.len(), num_months as usize);

    for _ in 0..num_months {
        let date = candle_type.get_start_date(from) + candle_type.get_duration(from);
        assert!(dates.contains(&date));
    }
}

#[test]
fn wire_codes_are_stable() {
    assert_eq!(CandleType::Minute.to_code(), 0);
    assert_eq!(CandleType::Hour.to_code(), 1);
    assert_eq!(CandleType::Day.to_code(), 2);
    assert_eq!(CandleType::Month.to_code(), 3);
    assert_eq!(CandleType::ThreeMinutes.to_code(), 4);
    assert_eq!(CandleType::FiveMinutes.to_code(), 5);
    assert_eq!(CandleType::FifteenMinutes.to_code(), 6);
    assert_eq!(CandleType::ThirtyMinutes.to_code(), 7);
    assert_eq!(CandleType::TwoHours.to_code(), 8);
    assert_eq!(CandleType::FourHours.to_code(), 9);
    assert_eq!(CandleType::SixHours.to_code(), 10);
    assert_eq!(CandleType::EightHours.to_code(), 11);
    assert_eq!(CandleType::TwelveHours.to_code(), 12);
    assert_eq!(CandleType::ThreeDays.to_code(), 13);
    assert_eq!(CandleType::SevenDays.to_code(), 14);
}

#[test]
fn code_round_trip() {
    for code in 0..=14 {
        let ct = CandleType::from_code(code).unwrap();
        assert_eq!(ct.to_code(), code);
    }
}

#[test]
fn out_of_range_codes_are_rejected() {
    let e = CandleType::from_code(15).unwrap_err();
    assert_eq!(e.code, 15);
    let e = CandleType::from_code(-1).unwrap_err();
    assert_eq!(e.code, -1);
    let e = CandleType::from_code(i32::MAX).unwrap_err();
    assert_eq!(e.code, i32::MAX);
}

#[test]
fn bucket_start_is_idempotent() {
    let t = ts(2000, 6, 17, 13, 47, 29);
    for code in 0..=14 {
        let ct = CandleType::from_code(code).unwrap();
        let start = ct.get_start_date(t);
        assert_eq!(ct.get_start_date(start), start);
        assert!(start <= t);
    }
}

#[test]
fn bucket_contains_instant() {
    let t = ts(2000, 6, 17, 13, 47, 29);
    for code in 0..=14 {
        let ct = CandleType::from_code(code).unwrap();
        if ct == CandleType::ThreeDays || ct == CandleType::SevenDays {
            continue;
        }
        assert!(ct.get_start_date(t) <= t);
        assert!(t < ct.get_end_date(t));
    }
}

#[test]
fn month_duration_follows_calendar() {
    assert_eq!(
        CandleType::Month.get_duration(ts(2000, 1, 15, 0, 0, 0)),
        31 * 86400
    );
    assert_eq!(
        CandleType::Month.get_duration(ts(2000, 2, 15, 0, 0, 0)),
        29 * 86400
    );
    assert_eq!(
        CandleType::Month.get_duration(ts(2001, 2, 15, 0, 0, 0)),
        28 * 86400
    );
    assert_eq!(
        CandleType::Month.get_duration(ts(2000, 12, 31, 23, 59, 59)),
        31 * 86400
    );
}
