use candles::candle::BidAskCandle;
use candles::candle_data::CandleData;
use candles::candle_prices_cache::CandlePricesCache;
use candles::candle_type::CandleType;
use candles::candles_cache::CandlesCache;
use chrono::{TimeZone, Utc};

fn ts(y: i32, mo: u32, d: u32, h: u32, mi: u32, s: u32) -> i64 {
    Utc.with_ymd_and_hms(y, mo, d, h, mi, s).unwrap().timestamp()
}

#[test]
fn calculate_candle_dates() {
    let candle_types = [
        CandleType::Minute,
        CandleType::ThreeMinutes,
        CandleType::FiveMinutes,
        CandleType::FifteenMinutes,
        CandleType::ThirtyMinutes,
        CandleType::Hour,
        CandleType::TwoHours,
        CandleType::FourHours,
        CandleType::SixHours,
        CandleType::EightHours,
        CandleType::TwelveHours,
        CandleType::Day,
        CandleType::ThreeDays,
        CandleType::SevenDays,
        CandleType::Month,
    ];
    let cache = CandlesCache::new(candle_types.to_vec());
    let initial_date = ts(2000, 1, 1, 0, 0, 0);
    let dates = cache.calculate_candle_dates(initial_date);

    assert_eq!(candle_types.len(), dates.len());

    for candle_type in candle_types.iter() {
        let date = dates
            .iter()
            .find(|(ct, _)| ct == candle_type)
            .map(|(_, d)| *d);
        assert_eq!(date, Some(candle_type.get_start_date(initial_date)));
    }
}

#[test]
fn new_cache_deduplicates_and_sorts() {
    let cache = CandlesCache::new(vec![
        CandleType::Hour,
        CandleType::Minute,
        CandleType::Hour,
        CandleType::Minute,
    ]);
    assert_eq!(cache.candle_types, vec![CandleType::Minute, CandleType::Hour]);
    assert_eq!(cache.len(), 0);
    assert!(cache.last_update_date.is_none());
}

#[test]
fn fold_keeps_open_extremes_close_and_volume() {
    let t0 = ts(2000, 1, 1, 0, 0, 0);
    let mut bar = CandleData::new(t0, 10, 1);
    bar.update(t0 + 1, 15, 2);
    bar.update(t0 + 2, 8, 3);
    bar.update(t0 + 3, 12, 4);

    assert_eq!(bar.open, 10);
    assert_eq!(bar.high, 15);
    assert_eq!(bar.low, 8);
    assert_eq!(bar.close, 12);
    assert_eq!(bar.volume, 1 + 2 + 3 + 4);
    assert_eq!(bar.datetime, t0);
}

#[test]
fn volume_saturates_at_machine_limit() {
    let t0 = ts(2000, 1, 1, 0, 0, 0);
    let mut bar = CandleData::new(t0, 10, i64::MAX - 1);
    bar.update(t0 + 1, 10, 5);
    assert_eq!(bar.volume, i64::MAX);
}

#[test]
fn forward_of_empty_cache_is_none() {
    let cache = CandlesCache::new(vec![CandleType::Minute, CandleType::Hour]);
    assert!(cache.get_after(ts(2000, 1, 1, 0, 0, 0)).is_none());
}

#[test]
fn forward_of_nonempty_cache_with_no_match_is_some_empty() {
    let mut cache = CandlesCache::new(vec![CandleType::Minute]);
    cache.create_or_update(ts(2000, 1, 1, 0, 0, 5), "X", 10, 11, 1, 1);
    let got = cache.get_after(ts(2005, 1, 1, 0, 0, 0));
    assert!(got.is_some());
    assert!(got.unwrap().is_empty());
}

#[test]
fn forward_of_returns_bars_at_or_after_floor() {
    let mut cache = CandlesCache::new(vec![CandleType::Minute]);
    cache.create_or_update(ts(2000, 1, 1, 0, 0, 5), "X", 10, 11, 1, 1);
    cache.create_or_update(ts(2000, 1, 1, 0, 5, 5), "X", 10, 11, 1, 1);
    let got = cache.get_after(ts(2000, 1, 1, 0, 5, 30)).unwrap();
    assert_eq!(got.len(), 1);
    assert_eq!(got[0].datetime, ts(2000, 1, 1, 0, 5, 0));
}

#[test]
fn evict_with_kind_leaves_other_kinds_alone() {
    let mut cache = CandlesCache::new(vec![CandleType::Minute, CandleType::Hour]);
    let t0 = ts(2000, 1, 1, 0, 0, 5);
    cache.create_or_update(t0, "X", 10, 11, 1, 1);
    assert_eq!(cache.len(), 2);

    let removed = cache.remove_before(ts(2000, 1, 1, 5, 0, 0), Some(CandleType::Minute));

    assert_eq!(removed, 1);
    assert_eq!(cache.len(), 1);
    let survivors = cache.get_all();
    assert_eq!(survivors[0].candle_type, CandleType::Hour);
}

#[test]
fn evict_without_kind_sweeps_every_kind() {
    let mut cache = CandlesCache::new(vec![CandleType::Minute, CandleType::Hour]);
    cache.create_or_update(ts(2000, 1, 1, 0, 0, 5), "X", 10, 11, 1, 1);
    cache.create_or_update(ts(2000, 1, 1, 6, 30, 5), "X", 10, 11, 1, 1);
    assert_eq!(cache.len(), 4);

    let removed = cache.remove_before(ts(2000, 1, 1, 3, 0, 0), None);

    assert_eq!(removed, 2);
    assert_eq!(cache.len(), 2);
    for bar in cache.get_all().iter() {
        assert!(bar.datetime >= ts(2000, 1, 1, 6, 0, 0));
    }
}

#[test]
fn end_to_end_minute_and_hour_fan_out() {
    let mut cache = CandlesCache::new(vec![CandleType::Minute, CandleType::Hour]);
    let t0 = ts(2000, 1, 1, 0, 0, 0);
    let instrument = "X";

    cache.create_or_update(t0, instrument, 10, 11, 1, 1);
    cache.create_or_update(t0 + 10, instrument, 15, 16, 2, 2);
    cache.create_or_update(t0 + 3700, instrument, 8, 9, 3, 3);

    let minute_bars: Vec<&BidAskCandle> = cache
        .get_all()
        .iter()
        .filter(|c| c.candle_type == CandleType::Minute)
        .collect();
    let hour_bars: Vec<&BidAskCandle> = cache
        .get_all()
        .iter()
        .filter(|c| c.candle_type == CandleType::Hour)
        .collect();

    // t0 and t0+10s share a minute bucket; t0+3700s opens a new minute
    // bucket and, 3700s being more than an hour, a new hour bucket.
    assert_eq!(minute_bars.len(), 2);
    assert_eq!(hour_bars.len(), 2);

    let first_minute = cache
        .get(&instrument.to_owned(), CandleType::Minute, t0)
        .unwrap();
    assert_eq!(first_minute.bid_data.open, 10);
    assert_eq!(first_minute.bid_data.high, 15);
    assert_eq!(first_minute.bid_data.low, 10);
    assert_eq!(first_minute.bid_data.close, 15);
    assert_eq!(first_minute.bid_data.volume, 3);
    assert_eq!(first_minute.ask_data.open, 11);
    assert_eq!(first_minute.ask_data.close, 16);
    assert!(cache.last_update_date.is_some());
}

#[test]
fn insert_and_lookup_by_identity() {
    let mut cache = CandlesCache::new(vec![CandleType::Minute]);
    let t0 = ts(2000, 1, 1, 0, 0, 0);
    let bar = BidAskCandle::new("EURUSD".to_owned(), CandleType::Minute, t0, 10, 11, 1, 1);
    cache.insert(bar);

    let instrument = "EURUSD".to_owned();
    assert!(cache.contains(&instrument, CandleType::Minute, t0));
    assert!(!cache.contains(&instrument, CandleType::Minute, t0 + 60));
    let got = cache.get(&instrument, CandleType::Minute, t0).unwrap();
    assert_eq!(got.bid_data.open, 10);
    assert_eq!(got.ask_data.open, 11);
    assert!(cache.get(&instrument, CandleType::Minute, t0 + 60).is_none());
}

#[test]
fn range_query_is_half_open_and_ascending() {
    let mut cache = CandlePricesCache::new(CandleType::Minute);
    let t0 = ts(2000, 1, 1, 0, 0, 0);
    cache.init(CandleData::new(t0 + 120, 3, 1));
    cache.init(CandleData::new(t0, 1, 1));
    cache.init(CandleData::new(t0 + 60, 2, 1));

    let got = cache.get_by_date_range(t0, t0 + 120);

    assert_eq!(got.len(), 2);
    assert_eq!(got[0].datetime, t0);
    assert_eq!(got[0].open, 1);
    assert_eq!(got[1].datetime, t0 + 60);
    assert_eq!(got[1].open, 2);
}

#[test]
fn ingest_tick_folds_into_its_bucket() {
    let mut cache = CandlePricesCache::new(CandleType::Minute);
    let t0 = ts(2000, 1, 1, 0, 0, 0);
    cache.update(t0 + 5, 10, 1);
    cache.update(t0 + 30, 15, 2);
    cache.update(t0 + 70, 8, 3);

    assert_eq!(cache.prices_by_date.len(), 2);
    let first = cache.prices_by_date[0];
    assert_eq!(first.datetime, t0);
    assert_eq!(first.open, 10);
    assert_eq!(first.high, 15);
    assert_eq!(first.close, 15);
    assert_eq!(first.volume, 3);
    let second = cache.prices_by_date[1];
    assert_eq!(second.datetime, t0 + 60);
    assert_eq!(second.open, 8);
}

#[test]
fn init_replaces_bar_at_same_start() {
    let mut cache = CandlePricesCache::new(CandleType::Minute);
    let t0 = ts(2000, 1, 1, 0, 0, 0);
    cache.init(CandleData::new(t0, 1, 1));
    cache.init(CandleData::new(t0, 7, 9));

    assert_eq!(cache.prices_by_date.len(), 1);
    assert_eq!(cache.prices_by_date[0].open, 7);
    assert_eq!(cache.prices_by_date[0].volume, 9);
}

#[test]
fn clear_empties_the_series() {
    let mut cache = CandlePricesCache::new(CandleType::Minute);
    cache.init(CandleData::new(ts(2000, 1, 1, 0, 0, 0), 1, 1));
    assert_eq!(cache.prices_by_date.len(), 1);
    cache.clear();
    assert_eq!(cache.prices_by_date.len(), 0);
    assert!(cache.get_by_date_range(0, i64::MAX).is_empty());
}
