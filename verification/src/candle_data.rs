use vstd::prelude::*;

verus! {

/// One OHLCV bucket: open/high/low/close over the rates folded into the
/// bucket, and the cumulative volume.  `datetime` is the bucket start,
/// fixed at creation; folding later ticks never moves it.
#[derive(Clone, Copy, PartialEq, Eq, Structural, Debug)]
pub struct CandleData {
    pub datetime: i64,
    pub open: i64,
    pub high: i64,
    pub low: i64,
    pub close: i64,
    pub volume: i64,
}

impl CandleData {
    /// The accumulator's internal invariant: the running extremes bound
    /// open and close, and volume never goes negative.
    pub open spec fn wf(self) -> bool {
        &&& self.low <= self.open <= self.high
        &&& self.low <= self.close <= self.high
        &&& 0 <= self.volume
    }

    /// Cumulative volume after folding `add` onto `cur`, saturating at the
    /// top of the machine range.
    pub open spec fn folded_volume(cur: int, add: int) -> int {
        if cur + add <= i64::MAX { cur + add } else { i64::MAX as int }
    }

    /// The accumulator seeded from a bucket's first tick.
    pub open spec fn seeded(datetime: i64, rate: i64, volume: i64) -> CandleData {
        CandleData { datetime, open: rate, high: rate, low: rate, close: rate, volume }
    }

    /// The accumulator after one more tick is folded in.
    pub open spec fn folded_with(self, rate: i64, volume: i64) -> CandleData {
        CandleData {
            datetime: self.datetime,
            open: self.open,
            high: if rate > self.high { rate } else { self.high },
            low: if rate < self.low { rate } else { self.low },
            close: rate,
            volume: Self::folded_volume(self.volume as int, volume as int) as i64,
        }
    }

    /// Seeds a bucket from its first tick: all four rates are that tick's
    /// rate.
    pub fn new(datetime: i64, rate: i64, volume: i64) -> (r: Self)
        requires
            0 <= volume,
        ensures
            r.datetime == datetime,
            r.open == rate,
            r.high == rate,
            r.low == rate,
            r.close == rate,
            r.volume == volume,
            r == Self::seeded(datetime, rate, volume),
            r.wf(),
    {
        CandleData { datetime, open: rate, high: rate, low: rate, close: rate, volume }
    }

    /// Folds one more tick into the bucket: the extremes widen, close
    /// becomes this tick's rate, volume accumulates.  `datetime` is the
    /// tick's raw time; the bucket identity does not change with it.
    pub fn update(&mut self, datetime: i64, rate: i64, volume: i64)
        requires
            old(self).wf(),
            0 <= volume,
        ensures
            final(self).datetime == old(self).datetime,
            final(self).open == old(self).open,
            final(self).high == if rate > old(self).high { rate as int } else { old(self).high as int },
            final(self).low == if rate < old(self).low { rate as int } else { old(self).low as int },
            final(self).close == rate,
            final(self).volume == Self::folded_volume(old(self).volume as int, volume as int),
            *final(self) == old(self).folded_with(rate, volume),
            final(self).wf(),
    {
        let _ = datetime;
        if rate > self.high {
            self.high = rate;
        }
        if rate < self.low {
            self.low = rate;
        }
        self.close = rate;
        if self.volume <= i64::MAX - volume {
            self.volume = self.volume + volume;
        } else {
            self.volume = i64::MAX;
        }
    }
}

} // verus!
