use vstd::prelude::*;
use crate::calendar::{MAX_TS, MIN_TS};
use crate::candle_data::CandleData;
use crate::candle_type::CandleType;

verus! {

/// A dual-sided bar: one bid and one ask accumulator sharing a single
/// identity `(instrument, kind, bucket start)`.  Two ticks for the same
/// instrument and kind whose raw times fall in the same bucket resolve
/// to the same identity.
#[derive(Debug)]
pub struct BidAskCandle {
    pub instrument: String,
    pub candle_type: CandleType,
    pub datetime: i64,
    pub bid_data: CandleData,
    pub ask_data: CandleData,
}

impl BidAskCandle {
    /// Both sides are well-formed accumulators anchored at this bar's
    /// bucket start, and the bucket start really is a bucket start of
    /// this bar's kind.
    pub open spec fn wf(self) -> bool {
        &&& self.bid_data.wf()
        &&& self.ask_data.wf()
        &&& self.bid_data.datetime == self.datetime
        &&& self.ask_data.datetime == self.datetime
        &&& MIN_TS <= self.datetime <= MAX_TS
        &&& self.datetime as int == self.candle_type.bucket_start_spec(self.datetime as int)
    }

    /// Whether this bar's identity is exactly the given triple.
    pub open spec fn has_key(self, instrument: Seq<char>, candle_type: CandleType, datetime: int) -> bool {
        &&& self.instrument@ == instrument
        &&& self.candle_type == candle_type
        &&& self.datetime as int == datetime
    }

    /// Whether a tick at raw time `t` for `instrument` lands in this
    /// bar: same instrument, and the tick floors to this bar's bucket
    /// start under this bar's own kind.
    pub open spec fn targeted_by(self, instrument: Seq<char>, t: int) -> bool {
        &&& self.instrument@ == instrument
        &&& self.datetime as int == self.candle_type.bucket_start_spec(t)
    }

    /// This bar after one tick is folded into both sides.
    pub open spec fn folded(self, bid: i64, ask: i64, bid_vol: i64, ask_vol: i64) -> BidAskCandle {
        BidAskCandle {
            bid_data: self.bid_data.folded_with(bid, bid_vol),
            ask_data: self.ask_data.folded_with(ask, ask_vol),
            ..self
        }
    }

    /// Whether this bar is exactly one freshly seeded from a tick at raw
    /// time `t`, under this bar's own kind.
    pub open spec fn is_seeded_for(
        self,
        instrument: Seq<char>,
        t: int,
        bid: i64,
        ask: i64,
        bid_vol: i64,
        ask_vol: i64,
    ) -> bool {
        &&& self.instrument@ == instrument
        &&& self.datetime as int == self.candle_type.bucket_start_spec(t)
        &&& self.bid_data == CandleData::seeded(self.datetime, bid, bid_vol)
        &&& self.ask_data == CandleData::seeded(self.datetime, ask, ask_vol)
    }

    /// Seeds a bar for one bucket from its first tick.
    pub fn new(
        instrument: String,
        candle_type: CandleType,
        datetime: i64,
        bid: i64,
        ask: i64,
        bid_vol: i64,
        ask_vol: i64,
    ) -> (r: Self)
        requires
            0 <= bid_vol,
            0 <= ask_vol,
            MIN_TS <= datetime <= MAX_TS,
            datetime as int == candle_type.bucket_start_spec(datetime as int),
        ensures
            r.instrument@ == instrument@,
            r.candle_type == candle_type,
            r.datetime == datetime,
            r.bid_data == CandleData::seeded(datetime, bid, bid_vol),
            r.ask_data == CandleData::seeded(datetime, ask, ask_vol),
            r.wf(),
    {
        BidAskCandle {
            instrument,
            candle_type,
            datetime,
            bid_data: CandleData::new(datetime, bid, bid_vol),
            ask_data: CandleData::new(datetime, ask, ask_vol),
        }
    }

    /// Folds one tick into both sides; the identity fields stay as they
    /// are.
    pub fn update(&mut self, datetime: i64, bid: i64, ask: i64, bid_vol: i64, ask_vol: i64)
        requires
            old(self).wf(),
            0 <= bid_vol,
            0 <= ask_vol,
        ensures
            *final(self) == old(self).folded(bid, ask, bid_vol, ask_vol),
            final(self).wf(),
    {
        self.bid_data.update(datetime, bid, bid_vol);
        self.ask_data.update(datetime, ask, ask_vol);
    }

    /// An owned copy, built field by field so the copy is provably equal
    /// to the value it was taken from.
    pub fn clone_candle(&self) -> (r: Self)
        ensures
            r == *self,
    {
        BidAskCandle {
            instrument: self.instrument.clone(),
            candle_type: self.candle_type,
            datetime: self.datetime,
            bid_data: self.bid_data,
            ask_data: self.ask_data,
        }
    }

    /// Whether this bar's identity equals the given triple.
    pub fn matches_key(&self, instrument: &String, candle_type: CandleType, datetime: i64) -> (r:
        bool)
        ensures
            r == self.has_key(instrument@, candle_type, datetime as int),
    {
        self.datetime == datetime && self.candle_type == candle_type && self.instrument
            == *instrument
    }
}

} // verus!
