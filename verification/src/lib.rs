//! In-memory aggregation of price ticks into OHLCV candles.
//!
//! Ticks (timestamp, rate, volume) are bucketed by a calendar of fixed
//! granularities and folded into per-bucket accumulators.  Two caches are
//! built on the bucketing: a multi-granularity live cache keyed by
//! instrument, and a per-granularity ordered historical cache with range
//! queries and retention eviction.
//!
//! Instants are seconds since the Unix epoch; rates and volumes are scaled
//! integers supplied by the caller.

pub mod calendar;
pub mod candle;
pub mod candle_data;
pub mod candle_prices_cache;
pub mod candle_type;
pub mod candles_cache;
