use vstd::prelude::*;
use crate::calendar::{MAX_TS, MIN_TS};
use crate::candle_data::CandleData;
use crate::candle_type::CandleType;

verus! {

/// Keeps the bars whose bucket start lies in `[from, to)`: the selection
/// a range query returns.
pub open spec fn range_pred(from: int, to: int) -> spec_fn(CandleData) -> bool {
    |c: CandleData| from <= c.datetime as int && (c.datetime as int) < to
}

/// The historical price cache: an ordered series of accumulators for one
/// instrument and one kind, keyed by bucket start, supporting range
/// extraction and clearing.  The instrument is implicit to the owner.
pub struct CandlePricesCache {
    pub candle_type: CandleType,
    pub prices_by_date: Vec<CandleData>,
}

impl CandlePricesCache {
    /// The series is strictly ascending by bucket start (so starts are
    /// unique keys) and every accumulator is well-formed.
    pub open spec fn wf(self) -> bool {
        &&& forall|i: int, j: int|
            0 <= i < j < self.prices_by_date@.len() ==> (
            #[trigger] self.prices_by_date@[i]).datetime < (
            #[trigger] self.prices_by_date@[j]).datetime
        &&& forall|i: int|
            0 <= i < self.prices_by_date@.len() ==> (#[trigger] self.prices_by_date@[i]).wf()
    }

    /// Whether some bar sits at bucket start `key`.
    pub open spec fn has_start(self, key: int) -> bool {
        exists|i: int|
            0 <= i < self.prices_by_date@.len() && (#[trigger] self.prices_by_date@[i]).datetime
                as int == key
    }

    /// An empty series for one kind.
    pub fn new(candle_type: CandleType) -> (r: Self)
        ensures
            r.wf(),
            r.candle_type == candle_type,
            r.prices_by_date@.len() == 0,
    {
        CandlePricesCache { candle_type, prices_by_date: Vec::new() }
    }

    /// The position of the first bar at or after `key`, which is the
    /// bar at `key` when one exists.
    fn find_at_or_after(&self, key: i64) -> (r: usize)
        requires
            self.wf(),
        ensures
            r <= self.prices_by_date@.len(),
            forall|i: int| 0 <= i < r ==> (#[trigger] self.prices_by_date@[i]).datetime < key,
            forall|i: int|
                r <= i < self.prices_by_date@.len() ==> (
                #[trigger] self.prices_by_date@[i]).datetime >= key,
    {
        let mut i: usize = 0;
        while i < self.prices_by_date.len() && self.prices_by_date[i].datetime < key
            invariant
                i <= self.prices_by_date@.len(),
                forall|j: int| 0 <= j < i ==> (#[trigger] self.prices_by_date@[j]).datetime < key,
            decreases self.prices_by_date@.len() - i,
        {
            i += 1;
        }
        proof {
            assert forall|j: int|
                i <= j < self.prices_by_date@.len() implies (
            #[trigger] self.prices_by_date@[j]).datetime >= key by {
                if i < self.prices_by_date@.len() && i < j {
                    assert(self.prices_by_date@[i as int].datetime
                        < self.prices_by_date@[j].datetime);
                }
            }
        }
        i
    }

    /// Stores a precomputed bar at its own bucket start, bypassing any
    /// bucket recomputation, replacing the bar already there if any:
    /// how a backfill source seeds the cache.
    pub fn init(&mut self, candle: CandleData)
        requires
            old(self).wf(),
            candle.wf(),
        ensures
            final(self).wf(),
            final(self).candle_type == old(self).candle_type,
            old(self).has_start(candle.datetime as int) ==> exists|i: int|
                0 <= i < old(self).prices_by_date@.len() && (#[trigger] old(
                    self,
                ).prices_by_date@[i]).datetime == candle.datetime && final(self).prices_by_date@
                    == old(self).prices_by_date@.update(i, candle),
            !old(self).has_start(candle.datetime as int) ==> exists|i: int|
                0 <= i <= old(self).prices_by_date@.len() && final(self).prices_by_date@
                    == #[trigger] old(self).prices_by_date@.insert(i, candle),
    {
        let pos = self.find_at_or_after(candle.datetime);
        if pos < self.prices_by_date.len() && self.prices_by_date[pos].datetime == candle.datetime
         {
            let slot = &mut self.prices_by_date[pos];
            *slot = candle;
            proof {
                assert(old(self).prices_by_date@[pos as int].datetime == candle.datetime);
                assert(self.wf());
            }
        } else {
            proof {
                if old(self).has_start(candle.datetime as int) {
                    let i = choose|i: int|
                        0 <= i < old(self).prices_by_date@.len() && (#[trigger] old(
                            self,
                        ).prices_by_date@[i]).datetime as int == candle.datetime as int;
                    assert(false);
                }
            }
            self.prices_by_date.insert(pos, candle);
            proof {
                assert forall|i: int, j: int|
                    0 <= i < j < self.prices_by_date@.len() implies (
                #[trigger] self.prices_by_date@[i]).datetime < (
                #[trigger] self.prices_by_date@[j]).datetime by {
                    if j < pos {
                        assert(self.prices_by_date@[i] == old(self).prices_by_date@[i]);
                        assert(self.prices_by_date@[j] == old(self).prices_by_date@[j]);
                    } else if i > pos {
                        assert(self.prices_by_date@[i] == old(self).prices_by_date@[i - 1]);
                        assert(self.prices_by_date@[j] == old(self).prices_by_date@[j - 1]);
                    }
                }
                assert(self.wf());
            }
        }
    }

    /// Folds a tick into the bar at the tick's bucket (under this
    /// cache's kind), creating the bar from the tick when the bucket has
    /// none yet.
    pub fn update(&mut self, datetime: i64, rate: i64, volume: i64)
        requires
            old(self).wf(),
            MIN_TS <= datetime <= MAX_TS,
            0 <= volume,
        ensures
            final(self).wf(),
            final(self).candle_type == old(self).candle_type,
            old(self).has_start(old(self).candle_type.bucket_start_spec(datetime as int)) ==>
                exists|i: int|
                0 <= i < old(self).prices_by_date@.len() && (#[trigger] old(
                    self,
                ).prices_by_date@[i]).datetime as int == old(self).candle_type.bucket_start_spec(
                    datetime as int,
                ) && final(self).prices_by_date@ == old(self).prices_by_date@.update(
                    i,
                    old(self).prices_by_date@[i].folded_with(rate, volume),
                ),
            !old(self).has_start(old(self).candle_type.bucket_start_spec(datetime as int)) ==>
                exists|i: int|
                0 <= i <= old(self).prices_by_date@.len() && final(self).prices_by_date@
                    == #[trigger] old(self).prices_by_date@.insert(
                    i,
                    CandleData::seeded(
                        (old(self).candle_type.bucket_start_spec(datetime as int)) as i64,
                        rate,
                        volume,
                    ),
                ),
    {
        let candle_date = self.candle_type.get_start_date(datetime);
        let pos = self.find_at_or_after(candle_date);
        if pos < self.prices_by_date.len() && self.prices_by_date[pos].datetime == candle_date {
            let slot = &mut self.prices_by_date[pos];
            slot.update(datetime, rate, volume);
            proof {
                assert(old(self).prices_by_date@[pos as int].datetime == candle_date);
                assert(self.wf());
            }
        } else {
            proof {
                if old(self).has_start(candle_date as int) {
                    let i = choose|i: int|
                        0 <= i < old(self).prices_by_date@.len() && (#[trigger] old(
                            self,
                        ).prices_by_date@[i]).datetime as int == candle_date as int;
                    assert(false);
                }
            }
            let candle_model = CandleData::new(candle_date, rate, volume);
            self.prices_by_date.insert(pos, candle_model);
            proof {
                assert forall|i: int, j: int|
                    0 <= i < j < self.prices_by_date@.len() implies (
                #[trigger] self.prices_by_date@[i]).datetime < (
                #[trigger] self.prices_by_date@[j]).datetime by {
                    if j < pos {
                        assert(self.prices_by_date@[i] == old(self).prices_by_date@[i]);
                        assert(self.prices_by_date@[j] == old(self).prices_by_date@[j]);
                    } else if i > pos {
                        assert(self.prices_by_date@[i] == old(self).prices_by_date@[i - 1]);
                        assert(self.prices_by_date@[j] == old(self).prices_by_date@[j - 1]);
                    }
                }
                assert(self.wf());
                assert((old(self).candle_type.bucket_start_spec(datetime as int)) as i64
                    == candle_date);
                assert(self.prices_by_date@ == old(self).prices_by_date@.insert(
                    pos as int,
                    CandleData::seeded(
                        (old(self).candle_type.bucket_start_spec(datetime as int)) as i64,
                        rate,
                        volume,
                    ),
                ));
            }
        }
    }

    /// All bars whose bucket start lies in `[date_from, date_to)`, in
    /// ascending time order; absence is an empty result, never a
    /// failure.
    pub fn get_by_date_range(&self, date_from: i64, date_to: i64) -> (r: Vec<CandleData>)
        requires
            self.wf(),
        ensures
            r@ == self.prices_by_date@.filter(range_pred(date_from as int, date_to as int)),
            forall|i: int, j: int| 0 <= i < j < r@.len() ==> r@[i].datetime < r@[j].datetime,
    {
        let ghost pred = range_pred(date_from as int, date_to as int);
        let mut result: Vec<CandleData> = Vec::new();
        let mut i: usize = 0;
        while i < self.prices_by_date.len()
            invariant
                self.wf(),
                i <= self.prices_by_date@.len(),
                result@ == self.prices_by_date@.take(i as int).filter(pred),
                pred == range_pred(date_from as int, date_to as int),
                forall|a: int|
                    0 <= a < result@.len() ==> exists|j: int|
                        0 <= j < i && self.prices_by_date@[j] == #[trigger] result@[a],
                forall|a: int, b: int|
                    0 <= a < b < result@.len() ==> (#[trigger] result@[a]).datetime < (
                    #[trigger] result@[b]).datetime,
            decreases self.prices_by_date@.len() - i,
        {
            let candle = self.prices_by_date[i];
            proof {
                self.prices_by_date@.lemma_take_succ_push(i as int);
                self.prices_by_date@.take(i as int).lemma_filter_push(
                    self.prices_by_date@[i as int],
                    pred,
                );
            }
            if date_from <= candle.datetime && candle.datetime < date_to {
                let ghost res0 = result@;
                result.push(candle);
                proof {
                    assert forall|a: int| 0 <= a < res0.len() implies (
                    #[trigger] result@[a]).datetime < result@[res0.len() as int].datetime by {
                        let j = choose|j: int|
                            0 <= j < i && self.prices_by_date@[j] == res0[a];
                        assert(self.prices_by_date@[j].datetime
                            < self.prices_by_date@[i as int].datetime);
                        assert(result@[a] == res0[a]);
                    }
                }
            }
            i += 1;
        }
        proof {
            assert(self.prices_by_date@.take(self.prices_by_date@.len() as int)
                == self.prices_by_date@);
        }
        result
    }

    /// Empties the series.
    pub fn clear(&mut self)
        ensures
            final(self).wf(),
            final(self).candle_type == old(self).candle_type,
            final(self).prices_by_date@.len() == 0,
    {
        self.prices_by_date.clear()
    }
}

} // verus!
