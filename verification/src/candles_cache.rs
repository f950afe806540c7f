use vstd::prelude::*;
use crate::calendar;
use crate::calendar::{MAX_TS, MIN_TS};
use crate::candle::BidAskCandle;
use crate::candle_type::CandleType;

verus! {

/// Keeps the bars whose own bucket start is at or after the per-kind
/// floor of `t`: the selection `forward_of`-style queries use.
pub open spec fn after_pred(t: int) -> spec_fn(BidAskCandle) -> bool {
    |c: BidAskCandle| c.datetime as int >= c.candle_type.bucket_start_spec(t)
}

/// Keeps the bars a retention sweep at `t` leaves in place.  With a kind
/// given, only that kind's bars at or before its floor of `t` go; with
/// none, every bar at or before its own kind's floor of `t` goes.
pub open spec fn kept_pred(t: int, filter_type: Option<CandleType>) -> spec_fn(
    BidAskCandle,
) -> bool {
    |c: BidAskCandle|
        match filter_type {
            Some(ct) => !(c.candle_type == ct && c.datetime as int <= ct.bucket_start_spec(t)),
            None => c.datetime as int > c.candle_type.bucket_start_spec(t),
        }
}

/// The live aggregation cache: one dual-sided bar per (instrument, kind,
/// bucket) for every configured kind, fed by incoming ticks.
pub struct CandlesCache {
    pub candles: Vec<BidAskCandle>,
    pub candle_types: Vec<CandleType>,
    pub last_update_date: Option<i64>,
}

impl CandlesCache {
    /// Whether `ct` is one of the configured kinds.
    pub open spec fn has_type(self, ct: CandleType) -> bool {
        exists|k: int| 0 <= k < self.candle_types@.len() && self.candle_types@[k] == ct
    }

    /// Whether `ct` appears among the first `n` configured kinds.
    pub open spec fn has_type_among(self, ct: CandleType, n: int) -> bool {
        exists|k: int| 0 <= k < n && k < self.candle_types@.len() && self.candle_types@[k] == ct
    }

    /// Whether some stored bar carries the identity the tick at `t`
    /// derives for kind `ct`: instrument, kind, and `ct`'s floor of `t`.
    pub open spec fn covers(self, instrument: Seq<char>, ct: CandleType, t: int) -> bool {
        exists|i: int|
            0 <= i < self.candles@.len() && (#[trigger] self.candles@[i]).has_key(
                instrument,
                ct,
                ct.bucket_start_spec(t),
            )
    }

    /// The cache's invariant: the configured kinds are strictly sorted
    /// by wire code (so deduplicated), every stored bar is well-formed,
    /// belongs to a configured kind, and no two stored bars share an
    /// identity.
    pub open spec fn wf(self) -> bool {
        &&& forall|i: int, j: int|
            0 <= i < j < self.candle_types@.len() ==> (#[trigger] self.candle_types@[i]).code_spec()
                < (#[trigger] self.candle_types@[j]).code_spec()
        &&& forall|i: int| 0 <= i < self.candles@.len() ==> (#[trigger] self.candles@[i]).wf()
        &&& forall|i: int|
            0 <= i < self.candles@.len() ==> self.has_type(
                (#[trigger] self.candles@[i]).candle_type,
            )
        &&& forall|i: int, j: int|
            0 <= i < j < self.candles@.len() ==> !(#[trigger] self.candles@[j]).has_key(
                (#[trigger] self.candles@[i]).instrument@,
                self.candles@[i].candle_type,
                self.candles@[i].datetime as int,
            )
    }

    /// Builds a cache over the given kinds, deduplicated and sorted by
    /// wire code; no bars, no last-update stamp.
    pub fn new(candle_types: Vec<CandleType>) -> (r: Self)
        ensures
            r.wf(),
            r.candles@.len() == 0,
            r.last_update_date is None,
            forall|ct: CandleType| r.has_type(ct) <==> candle_types@.contains(ct),
    {
        let mut sorted: Vec<CandleType> = Vec::new();
        let mut code: i32 = 0;
        while code <= 14
            invariant
                0 <= code <= 15,
                forall|i: int, j: int|
                    0 <= i < j < sorted@.len() ==> (#[trigger] sorted@[i]).code_spec() < (
                    #[trigger] sorted@[j]).code_spec(),
                forall|i: int|
                    0 <= i < sorted@.len() ==> (#[trigger] sorted@[i]).code_spec() < code as int,
                forall|ct: CandleType|
                    #[trigger] sorted@.contains(ct) <==> (candle_types@.contains(ct)
                        && ct.code_spec() < code as int),
            decreases 15 - code,
        {
            let mut found = false;
            let mut i: usize = 0;
            while i < candle_types.len()
                invariant
                    i <= candle_types@.len(),
                    found <==> exists|k: int|
                        0 <= k < i && (#[trigger] candle_types@[k]).code_spec() == code as int,
                decreases candle_types@.len() - i,
            {
                if candle_types[i].to_code() == code {
                    found = true;
                }
                i += 1;
            }
            if found {
                let ct = match CandleType::from_code(code) {
                    Ok(ct) => ct,
                    Err(_) => {
                        proof {
                            assert(false);
                        }
                        CandleType::Minute
                    },
                };
                proof {
                    let k = choose|k: int|
                        0 <= k < candle_types@.len() && (#[trigger] candle_types@[k]).code_spec()
                            == code as int;
                    assert(candle_types@[k] == ct);
                    assert(candle_types@.contains(ct));
                    assert forall|c2: CandleType| sorted@.push(ct).contains(c2) implies (
                    candle_types@.contains(c2) && c2.code_spec() < code as int + 1) by {
                        if c2 != ct {
                            let m = choose|m: int| 0 <= m < sorted@.push(ct).len() && sorted@.push(
                                ct,
                            )[m] == c2;
                            assert(sorted@[m] == c2);
                            assert(sorted@.contains(c2));
                        }
                    }
                    assert forall|c2: CandleType|
                        candle_types@.contains(c2) && c2.code_spec() < code as int
                            + 1 implies sorted@.push(ct).contains(c2) by {
                        if c2.code_spec() < code as int {
                            assert(sorted@.contains(c2));
                            let m = choose|m: int| 0 <= m < sorted@.len() && sorted@[m] == c2;
                            assert(sorted@.push(ct)[m] == c2);
                        } else {
                            assert(c2.code_spec() == code as int);
                            assert(sorted@.push(ct)[sorted@.len() as int] == ct);
                            assert(c2 == ct);
                        }
                    }
                }
                sorted.push(ct);
            } else {
                proof {
                    assert forall|c2: CandleType|
                        candle_types@.contains(c2) && c2.code_spec() < code as int
                            + 1 implies sorted@.contains(c2) by {
                        if c2.code_spec() == code as int {
                            let m = choose|m: int| 0 <= m < candle_types@.len()
                                && candle_types@[m] == c2;
                            assert(candle_types@[m].code_spec() == code as int);
                            assert(false);
                        }
                    }
                }
            }
            code += 1;
        }
        proof {
            assert forall|ct: CandleType| sorted@.contains(ct) <==> candle_types@.contains(
                ct,
            ) by {
                assert(ct.code_spec() < 15);
            }
        }
        let r = CandlesCache { candles: Vec::new(), candle_types: sorted, last_update_date: None };
        proof {
            assert forall|ct: CandleType| r.has_type(ct) <==> sorted@.contains(ct) by {
                if r.has_type(ct) {
                    let k = choose|k: int|
                        0 <= k < r.candle_types@.len() && r.candle_types@[k] == ct;
                    assert(sorted@[k] == ct);
                }
                if sorted@.contains(ct) {
                    let k = choose|k: int| 0 <= k < sorted@.len() && sorted@[k] == ct;
                    assert(r.candle_types@[k] == ct);
                }
            }
        }
        r
    }

    /// How many bars are stored.
    pub fn len(&self) -> (r: usize)
        ensures
            r == self.candles@.len(),
    {
        self.candles.len()
    }

    /// All stored bars.
    pub fn get_all(&self) -> (r: &Vec<BidAskCandle>)
        ensures
            r@ == self.candles@,
    {
        &self.candles
    }

    /// The position of the bar with the given identity, if any.
    fn find_index(&self, instrument: &String, candle_type: CandleType, datetime: i64) -> (r:
        Option<usize>)
        ensures
            match r {
                Some(i) => i < self.candles@.len() && self.candles@[i as int].has_key(
                    instrument@,
                    candle_type,
                    datetime as int,
                ),
                None => forall|i: int|
                    0 <= i < self.candles@.len() ==> !(#[trigger] self.candles@[i]).has_key(
                        instrument@,
                        candle_type,
                        datetime as int,
                    ),
            },
    {
        let mut i: usize = 0;
        while i < self.candles.len()
            invariant
                i <= self.candles@.len(),
                forall|k: int|
                    0 <= k < i ==> !(#[trigger] self.candles@[k]).has_key(
                        instrument@,
                        candle_type,
                        datetime as int,
                    ),
            decreases self.candles@.len() - i,
        {
            if self.candles[i].matches_key(instrument, candle_type, datetime) {
                return Some(i);
            }
            i += 1;
        }
        None
    }

    /// Whether a bar with the given identity is stored.
    pub fn contains(&self, instrument: &String, candle_type: CandleType, datetime: i64) -> (r:
        bool)
        ensures
            r == exists|i: int|
                0 <= i < self.candles@.len() && (#[trigger] self.candles@[i]).has_key(
                    instrument@,
                    candle_type,
                    datetime as int,
                ),
    {
        match self.find_index(instrument, candle_type, datetime) {
            Some(i) => {
                proof {
                    assert(self.candles@[i as int].has_key(
                        instrument@,
                        candle_type,
                        datetime as int,
                    ));
                }
                true
            },
            None => false,
        }
    }

    /// The stored bar with the given identity, if any.
    pub fn get(&self, instrument: &String, candle_type: CandleType, datetime: i64) -> (r: Option<
        &BidAskCandle>)
        ensures
            match r {
                Some(c) => c.has_key(instrument@, candle_type, datetime as int)
                    && self.candles@.contains(*c),
                None => forall|i: int|
                    0 <= i < self.candles@.len() ==> !(#[trigger] self.candles@[i]).has_key(
                        instrument@,
                        candle_type,
                        datetime as int,
                    ),
            },
    {
        match self.find_index(instrument, candle_type, datetime) {
            Some(i) => {
                let c = &self.candles[i];
                proof {
                    assert(self.candles@[i as int] == *c);
                }
                Some(c)
            },
            None => None,
        }
    }

    /// Stores a bar under its own identity, replacing any bar already
    /// stored under it.  The bar's kind must be configured: the
    /// configured set is validated at every insertion so that no stored
    /// bar can ever lack its per-kind bucket floor.
    #[verifier::rlimit(50)]
    pub fn insert(&mut self, candle: BidAskCandle)
        requires
            old(self).wf(),
            candle.wf(),
            old(self).has_type(candle.candle_type),
        ensures
            final(self).wf(),
            final(self).candle_types@ == old(self).candle_types@,
            final(self).last_update_date == old(self).last_update_date,
            (exists|i: int|
                0 <= i < old(self).candles@.len() && (#[trigger] old(self).candles@[i]).has_key(
                    candle.instrument@,
                    candle.candle_type,
                    candle.datetime as int,
                )) ==> exists|i: int|
                0 <= i < old(self).candles@.len() && (#[trigger] old(self).candles@[i]).has_key(
                    candle.instrument@,
                    candle.candle_type,
                    candle.datetime as int,
                ) && final(self).candles@ == old(self).candles@.update(i, candle),
            !(exists|i: int|
                0 <= i < old(self).candles@.len() && (#[trigger] old(self).candles@[i]).has_key(
                    candle.instrument@,
                    candle.candle_type,
                    candle.datetime as int,
                )) ==> final(self).candles@ == old(self).candles@.push(candle),
    {
        match self.find_index(&candle.instrument, candle.candle_type, candle.datetime) {
            Some(i) => {
                let slot = &mut self.candles[i];
                *slot = candle;
                proof {
                    assert forall|x: int| 0 <= x < self.candles@.len() implies ((
                    #[trigger] self.candles@[x]).instrument@ == old(self).candles@[x].instrument@
                        && self.candles@[x].candle_type == old(self).candles@[x].candle_type
                        && self.candles@[x].datetime == old(self).candles@[x].datetime) by {
                        if x != i {
                            assert(self.candles@[x] == old(self).candles@[x]);
                        }
                    }
                    assert(self.wf());
                }
            },
            None => {
                self.candles.push(candle);
                proof {
                    let n = self.candles@.len() - 1;
                    let c = self.candles@[n];
                    assert forall|a: int| 0 <= a < n implies !self.candles@[n].has_key(
                        (#[trigger] self.candles@[a]).instrument@,
                        self.candles@[a].candle_type,
                        self.candles@[a].datetime as int,
                    ) by {
                        assert(self.candles@[a] == old(self).candles@[a]);
                        assert(!old(self).candles@[a].has_key(
                            c.instrument@,
                            c.candle_type,
                            c.datetime as int,
                        ));
                    }
                    assert(forall|i: int, j: int|
                        0 <= i < j < self.candle_types@.len() ==> (
                        #[trigger] self.candle_types@[i]).code_spec() < (
                        #[trigger] self.candle_types@[j]).code_spec());
                    assert(forall|i: int|
                        0 <= i < self.candles@.len() ==> (#[trigger] self.candles@[i]).wf());
                    assert(forall|i: int|
                        0 <= i < self.candles@.len() ==> self.has_type(
                            (#[trigger] self.candles@[i]).candle_type,
                        ));
                    assert(forall|i: int, j: int|
                        0 <= i < j < self.candles@.len() ==> !(#[trigger] self.candles@[j]).has_key(
                            (#[trigger] self.candles@[i]).instrument@,
                            self.candles@[i].candle_type,
                            self.candles@[i].datetime as int,
                        ));
                    assert(self.wf());
                }
            },
        }
    }

    /// Fans one tick out to every configured kind: for each kind, the
    /// tick's raw time is floored to that kind's bucket and the bar at
    /// (instrument, kind, bucket) is folded if present, else freshly
    /// seeded and appended.  Bars the tick does not target are left
    /// exactly as they were, and the last-update stamp is set once, at
    /// the end.
    #[verifier::rlimit(100)]
    pub fn create_or_update(
        &mut self,
        datetime: i64,
        instrument: &str,
        bid: i64,
        ask: i64,
        bid_vol: i64,
        ask_vol: i64,
    )
        requires
            old(self).wf(),
            MIN_TS <= datetime <= MAX_TS,
            0 <= bid_vol,
            0 <= ask_vol,
        ensures
            final(self).wf(),
            final(self).candle_types@ == old(self).candle_types@,
            final(self).last_update_date is Some,
            old(self).candles@.len() <= final(self).candles@.len(),
            forall|i: int|
                0 <= i < old(self).candles@.len() ==> #[trigger] final(self).candles@[i] == (
                if old(self).candles@[i].targeted_by(instrument@, datetime as int) {
                    old(self).candles@[i].folded(bid, ask, bid_vol, ask_vol)
                } else {
                    old(self).candles@[i]
                }),
            forall|i: int|
                old(self).candles@.len() <= i < final(self).candles@.len() ==> (#[trigger] final(self).candles@[i]).is_seeded_for(instrument@, datetime as int, bid, ask, bid_vol,
                    ask_vol) && old(self).has_type(final(self).candles@[i].candle_type) && !(
                exists|j: int|
                    0 <= j < old(self).candles@.len() && (#[trigger] old(self).candles@[j]).has_key(
                        instrument@,
                        final(self).candles@[i].candle_type,
                        final(self).candles@[i].datetime as int,
                    )),
            forall|k: int|
                0 <= k < old(self).candle_types@.len() ==> final(self).covers(
                    instrument@,
                    #[trigger] old(self).candle_types@[k],
                    datetime as int,
                ),
    {
        let instr: String = instrument.to_owned();
        let n_types = self.candle_types.len();
        let mut k: usize = 0;
        while k < n_types
            invariant
                self.wf(),
                self.candle_types@ == old(self).candle_types@,
                self.last_update_date == old(self).last_update_date,
                n_types == self.candle_types@.len(),
                k <= n_types,
                instr@ == instrument@,
                MIN_TS <= datetime <= MAX_TS,
                0 <= bid_vol,
                0 <= ask_vol,
                old(self).candles@.len() <= self.candles@.len(),
                forall|i: int|
                    0 <= i < old(self).candles@.len() ==> #[trigger] self.candles@[i] == (if old(
                        self,
                    ).candles@[i].targeted_by(instr@, datetime as int) && old(self).has_type_among(
                        old(self).candles@[i].candle_type,
                        k as int,
                    ) {
                        old(self).candles@[i].folded(bid, ask, bid_vol, ask_vol)
                    } else {
                        old(self).candles@[i]
                    }),
                forall|i: int|
                    old(self).candles@.len() <= i < self.candles@.len() ==> (
                    #[trigger] self.candles@[i]).is_seeded_for(instr@, datetime as int, bid, ask,
                        bid_vol, ask_vol) && old(self).has_type_among(
                        self.candles@[i].candle_type,
                        k as int,
                    ) && !(exists|j: int|
                        0 <= j < old(self).candles@.len() && (#[trigger] old(
                            self,
                        ).candles@[j]).has_key(
                            instr@,
                            self.candles@[i].candle_type,
                            self.candles@[i].datetime as int,
                        )),
                forall|kk: int|
                    0 <= kk < k ==> exists|i: int|
                        0 <= i < self.candles@.len() && (#[trigger] self.candles@[i]).has_key(
                            instr@,
                            old(self).candle_types@[kk],
                            (#[trigger] old(self).candle_types@[kk]).bucket_start_spec(
                                datetime as int,
                            ),
                        ),
            decreases n_types - k,
        {
            let ct = self.candle_types[k];
            let bs = ct.get_start_date(datetime);
            let ghost prev = *self;
            match self.find_index(&instr, ct, bs) {
                Some(idx) => {
                    proof {
                        // A bar appended this call has a kind earlier in the
                        // sorted list than `ct`, so it cannot carry `ct`'s key;
                        // the match is an untouched pre-existing bar.
                        if idx >= old(self).candles@.len() {
                            let jj = choose|jj: int|
                                0 <= jj < k && jj < old(self).candle_types@.len() && old(
                                    self,
                                ).candle_types@[jj] == prev.candles@[idx as int].candle_type;
                            assert(old(self).candle_types@[jj].code_spec() < old(
                                self,
                            ).candle_types@[k as int].code_spec());
                            assert(false);
                        }
                        if old(self).has_type_among(prev.candles@[idx as int].candle_type,
                            k as int) {
                            let jj = choose|jj: int|
                                0 <= jj < k && jj < old(self).candle_types@.len() && old(
                                    self,
                                ).candle_types@[jj] == prev.candles@[idx as int].candle_type;
                            assert(old(self).candle_types@[jj].code_spec() < old(
                                self,
                            ).candle_types@[k as int].code_spec());
                            assert(false);
                        }
                        assert(prev.candles@[idx as int] == old(self).candles@[idx as int]);
                        assert(old(self).candles@[idx as int].targeted_by(
                            instr@,
                            datetime as int,
                        ));
                    }
                    let slot = &mut self.candles[idx];
                    slot.update(datetime, bid, ask, bid_vol, ask_vol);
                    proof {
                        assert forall|x: int| 0 <= x < self.candles@.len() implies ((
                        #[trigger] self.candles@[x]).instrument@ == prev.candles@[x].instrument@
                            && self.candles@[x].candle_type == prev.candles@[x].candle_type
                            && self.candles@[x].datetime == prev.candles@[x].datetime) by {
                            if x != idx {
                                assert(self.candles@[x] == prev.candles@[x]);
                            }
                        }
                        assert(self.wf());
                        assert forall|i: int|
                            0 <= i < old(self).candles@.len() implies #[trigger] self.candles@[i]
                            == (if old(self).candles@[i].targeted_by(instr@, datetime as int)
                            && old(self).has_type_among(
                            old(self).candles@[i].candle_type,
                            k as int + 1,
                        ) {
                            old(self).candles@[i].folded(bid, ask, bid_vol, ask_vol)
                        } else {
                            old(self).candles@[i]
                        }) by {
                            if i != idx {
                                assert(self.candles@[i] == prev.candles@[i]);
                                if old(self).candles@[i].targeted_by(instr@, datetime as int)
                                    && old(self).candles@[i].candle_type
                                    == old(self).candles@[idx as int].candle_type {
                                    assert(old(self).candles@[i].has_key(
                                        old(self).candles@[idx as int].instrument@,
                                        old(self).candles@[idx as int].candle_type,
                                        old(self).candles@[idx as int].datetime as int,
                                    ));
                                    assert(false);
                                }
                            }
                        }
                        assert forall|kk: int| 0 <= kk < k + 1 implies exists|i: int|
                            0 <= i < self.candles@.len() && (#[trigger] self.candles@[i]).has_key(
                                instr@,
                                old(self).candle_types@[kk],
                                (#[trigger] old(self).candle_types@[kk]).bucket_start_spec(
                                    datetime as int,
                                ),
                            ) by {
                            if kk == k {
                                assert(self.candles@[idx as int].has_key(
                                    instr@,
                                    old(self).candle_types@[kk],
                                    old(self).candle_types@[kk].bucket_start_spec(datetime as int),
                                ));
                            } else {
                                let i0 = choose|i0: int|
                                    0 <= i0 < prev.candles@.len() && (
                                    #[trigger] prev.candles@[i0]).has_key(
                                        instr@,
                                        old(self).candle_types@[kk],
                                        old(self).candle_types@[kk].bucket_start_spec(
                                            datetime as int,
                                        ),
                                    );
                                assert(self.candles@[i0].has_key(
                                    instr@,
                                    old(self).candle_types@[kk],
                                    old(self).candle_types@[kk].bucket_start_spec(datetime as int),
                                ));
                            }
                        }
                        assert forall|i: int|
                            old(self).candles@.len() <= i
                                < self.candles@.len() implies old(self).has_type_among(
                            (#[trigger] self.candles@[i]).candle_type,
                            k as int + 1,
                        ) by {
                            assert(self.candles@[i] == prev.candles@[i]);
                            let kk = choose|kk: int|
                                0 <= kk < k && kk < old(self).candle_types@.len() && old(
                                    self,
                                ).candle_types@[kk] == prev.candles@[i].candle_type;
                            assert(0 <= kk < k as int + 1 && old(self).candle_types@[kk]
                                == self.candles@[i].candle_type);
                        }
                    }
                },
                None => {
                    let bar = BidAskCandle::new(
                        instr.clone(),
                        ct,
                        bs,
                        bid,
                        ask,
                        bid_vol,
                        ask_vol,
                    );
                    self.candles.push(bar);
                    proof {
                        let n = self.candles@.len() - 1;
                        assert forall|a: int| 0 <= a < n implies !self.candles@[n].has_key(
                            (#[trigger] self.candles@[a]).instrument@,
                            self.candles@[a].candle_type,
                            self.candles@[a].datetime as int,
                        ) by {
                            assert(self.candles@[a] == prev.candles@[a]);
                            assert(!prev.candles@[a].has_key(instr@, ct, bs as int));
                        }
                        assert(self.candles@[n].candle_type == old(
                            self,
                        ).candle_types@[k as int]);
                        assert(self.wf());
                        assert forall|i: int|
                            0 <= i < old(self).candles@.len() implies #[trigger] self.candles@[i]
                            == (if old(self).candles@[i].targeted_by(instr@, datetime as int)
                            && old(self).has_type_among(
                            old(self).candles@[i].candle_type,
                            k as int + 1,
                        ) {
                            old(self).candles@[i].folded(bid, ask, bid_vol, ask_vol)
                        } else {
                            old(self).candles@[i]
                        }) by {
                            assert(self.candles@[i] == prev.candles@[i]);
                            if old(self).candles@[i].targeted_by(instr@, datetime as int) && old(
                                self,
                            ).candles@[i].candle_type == ct && !old(self).has_type_among(
                                old(self).candles@[i].candle_type,
                                k as int,
                            ) {
                                assert(prev.candles@[i] == old(self).candles@[i]);
                                assert(prev.candles@[i].has_key(instr@, ct, bs as int));
                                assert(false);
                            }
                        }
                        assert forall|kk: int| 0 <= kk < k + 1 implies exists|i: int|
                            0 <= i < self.candles@.len() && (#[trigger] self.candles@[i]).has_key(
                                instr@,
                                old(self).candle_types@[kk],
                                (#[trigger] old(self).candle_types@[kk]).bucket_start_spec(
                                    datetime as int,
                                ),
                            ) by {
                            if kk == k {
                                assert(self.candles@[n].has_key(
                                    instr@,
                                    old(self).candle_types@[kk],
                                    old(self).candle_types@[kk].bucket_start_spec(datetime as int),
                                ));
                            } else {
                                let i0 = choose|i0: int|
                                    0 <= i0 < prev.candles@.len() && (
                                    #[trigger] prev.candles@[i0]).has_key(
                                        instr@,
                                        old(self).candle_types@[kk],
                                        old(self).candle_types@[kk].bucket_start_spec(
                                            datetime as int,
                                        ),
                                    );
                                assert(self.candles@[i0].has_key(
                                    instr@,
                                    old(self).candle_types@[kk],
                                    old(self).candle_types@[kk].bucket_start_spec(datetime as int),
                                ));
                            }
                        }
                        assert forall|j: int| 0 <= j < old(self).candles@.len() implies !(
                        #[trigger] old(self).candles@[j]).has_key(instr@, ct, bs as int) by {
                            assert(!prev.candles@[j].has_key(instr@, ct, bs as int));
                            assert(prev.candles@[j].instrument@ == old(
                                self,
                            ).candles@[j].instrument@ && prev.candles@[j].candle_type == old(
                                self,
                            ).candles@[j].candle_type && prev.candles@[j].datetime == old(
                                self,
                            ).candles@[j].datetime);
                        }
                        assert forall|i: int|
                            old(self).candles@.len() <= i < self.candles@.len() implies (
                        #[trigger] self.candles@[i]).is_seeded_for(instr@, datetime as int, bid,
                            ask, bid_vol, ask_vol) && old(self).has_type_among(
                            self.candles@[i].candle_type,
                            k as int + 1,
                        ) && !(exists|j: int|
                            0 <= j < old(self).candles@.len() && (#[trigger] old(
                                self,
                            ).candles@[j]).has_key(
                                instr@,
                                self.candles@[i].candle_type,
                                self.candles@[i].datetime as int,
                            )) by {
                            if i < self.candles@.len() - 1 {
                                assert(self.candles@[i] == prev.candles@[i]);
                                let kk = choose|kk: int|
                                    0 <= kk < k && kk < old(self).candle_types@.len() && old(
                                        self,
                                    ).candle_types@[kk] == prev.candles@[i].candle_type;
                                assert(0 <= kk < k as int + 1 && old(self).candle_types@[kk]
                                    == self.candles@[i].candle_type);
                            } else {
                                assert(self.candles@[i].candle_type == old(
                                    self,
                                ).candle_types@[k as int]);
                                assert(old(self).has_type_among(
                                    self.candles@[i].candle_type,
                                    k as int + 1,
                                ));
                            }
                        }
                    }
                },
            }
            k += 1;
        }
        self.last_update_date = Some(calendar::now_ts());
        proof {
            assert forall|ct: CandleType| old(self).has_type_among(ct, n_types as int) <==> old(
                self,
            ).has_type(ct) by {}
            assert(self.wf());
            assert forall|k: int| 0 <= k < old(self).candle_types@.len() implies self.covers(
                instrument@,
                #[trigger] old(self).candle_types@[k],
                datetime as int,
            ) by {
                let i0 = choose|i0: int|
                    0 <= i0 < self.candles@.len() && (#[trigger] self.candles@[i0]).has_key(
                        instr@,
                        old(self).candle_types@[k],
                        old(self).candle_types@[k].bucket_start_spec(datetime as int),
                    );
                assert(self.candles@[i0].has_key(
                    instrument@,
                    old(self).candle_types@[k],
                    old(self).candle_types@[k].bucket_start_spec(datetime as int),
                ));
            }
        }
    }

    /// Per-kind bucket floors of `datetime`, one pair per configured
    /// kind, in the configured order.
    pub fn calculate_candle_dates(&self, datetime: i64) -> (r: Vec<(CandleType, i64)>)
        requires
            MIN_TS <= datetime <= MAX_TS,
        ensures
            r@.len() == self.candle_types@.len(),
            forall|i: int|
                0 <= i < r@.len() ==> (#[trigger] r@[i]).0 == self.candle_types@[i]
                    && r@[i].1 as int == self.candle_types@[i].bucket_start_spec(datetime as int),
    {
        let mut dates: Vec<(CandleType, i64)> = Vec::new();
        let mut i: usize = 0;
        while i < self.candle_types.len()
            invariant
                MIN_TS <= datetime <= MAX_TS,
                i <= self.candle_types@.len(),
                dates@.len() == i,
                forall|j: int|
                    0 <= j < i ==> (#[trigger] dates@[j]).0 == self.candle_types@[j]
                        && dates@[j].1 as int == self.candle_types@[j].bucket_start_spec(
                        datetime as int,
                    ),
            decreases self.candle_types@.len() - i,
        {
            let ct = self.candle_types[i];
            let start = ct.get_start_date(datetime);
            dates.push((ct, start));
            i += 1;
        }
        dates
    }

    /// All bars whose own bucket start is at or after their kind's floor
    /// of `datetime`.  `None` only when the cache holds no bars at all;
    /// a non-empty cache with nothing matching yields `Some` of an empty
    /// list.  That asymmetry distinguishes "nothing ever ingested" from
    /// "nothing matches" and is part of the contract.
    pub fn get_after(&self, datetime: i64) -> (r: Option<Vec<BidAskCandle>>)
        requires
            MIN_TS <= datetime <= MAX_TS,
        ensures
            r is None <==> self.candles@.len() == 0,
            r matches Some(v) ==> v@ == self.candles@.filter(after_pred(datetime as int)),
    {
        if self.candles.len() == 0 {
            return None;
        }
        let mut out: Vec<BidAskCandle> = Vec::new();
        let mut i: usize = 0;
        while i < self.candles.len()
            invariant
                MIN_TS <= datetime <= MAX_TS,
                i <= self.candles@.len(),
                out@ == self.candles@.take(i as int).filter(after_pred(datetime as int)),
            decreases self.candles@.len() - i,
        {
            let c = &self.candles[i];
            let floor = c.candle_type.get_start_date(datetime);
            proof {
                self.candles@.lemma_take_succ_push(i as int);
                self.candles@.take(i as int).lemma_filter_push(
                    self.candles@[i as int],
                    after_pred(datetime as int),
                );
            }
            if c.datetime >= floor {
                let copy = c.clone_candle();
                out.push(copy);
            }
            i += 1;
        }
        proof {
            assert(self.candles@.take(self.candles@.len() as int) == self.candles@);
        }
        Some(out)
    }

    /// Removes stale bars: with a kind given, only that kind's bars at
    /// or before its floor of `datetime` (bars of every other kind stay,
    /// whatever their age); with none, every bar at or before its own
    /// kind's floor.  Returns how many bars went.
    pub fn remove_before(&mut self, datetime: i64, candle_type: Option<CandleType>) -> (r: i32)
        requires
            old(self).wf(),
            MIN_TS <= datetime <= MAX_TS,
            old(self).candles@.len() <= i32::MAX,
        ensures
            final(self).wf(),
            final(self).candle_types@ == old(self).candle_types@,
            final(self).last_update_date == old(self).last_update_date,
            final(self).candles@ == old(self).candles@.filter(
                kept_pred(datetime as int, candle_type),
            ),
            r as int == old(self).candles@.len() - final(self).candles@.len(),
            0 <= r,
            candle_type matches Some(ct) ==> forall|i: int|
                0 <= i < old(self).candles@.len() && (#[trigger] old(
                    self,
                ).candles@[i]).candle_type != ct ==> final(self).candles@.contains(
                    old(self).candles@[i],
                ),
    {
        let ghost pred = kept_pred(datetime as int, candle_type);
        let mut out: Vec<BidAskCandle> = Vec::new();
        let mut i: usize = 0;
        while i < self.candles.len()
            invariant
                self.wf(),
                MIN_TS <= datetime <= MAX_TS,
                i <= self.candles@.len(),
                out@ == self.candles@.take(i as int).filter(pred),
                pred == kept_pred(datetime as int, candle_type),
                out@.len() <= i,
                forall|a: int|
                    0 <= a < out@.len() ==> exists|j: int|
                        0 <= j < i && self.candles@[j] == #[trigger] out@[a],
                forall|a: int, b: int|
                    0 <= a < b < out@.len() ==> !(#[trigger] out@[b]).has_key(
                        (#[trigger] out@[a]).instrument@,
                        out@[a].candle_type,
                        out@[a].datetime as int,
                    ),
            decreases self.candles@.len() - i,
        {
            let c = &self.candles[i];
            let keep = match &candle_type {
                Some(ct) => {
                    let fl = ct.get_start_date(datetime);
                    !(c.datetime <= fl && c.candle_type == *ct)
                },
                None => {
                    let fl = c.candle_type.get_start_date(datetime);
                    c.datetime > fl
                },
            };
            proof {
                self.candles@.lemma_take_succ_push(i as int);
                self.candles@.take(i as int).lemma_filter_push(self.candles@[i as int], pred);
                assert(keep == pred(self.candles@[i as int]));
            }
            if keep {
                let copy = c.clone_candle();
                let ghost out0 = out@;
                out.push(copy);
                proof {
                    assert forall|a: int| 0 <= a < out0.len() implies !(
                    #[trigger] out@[out0.len() as int]).has_key(
                        (#[trigger] out@[a]).instrument@,
                        out@[a].candle_type,
                        out@[a].datetime as int,
                    ) by {
                        let j = choose|j: int| 0 <= j < i && self.candles@[j] == out0[a];
                        assert(!self.candles@[i as int].has_key(
                            self.candles@[j].instrument@,
                            self.candles@[j].candle_type,
                            self.candles@[j].datetime as int,
                        ));
                        assert(out@[a] == out0[a]);
                    }
                }
            }
            i += 1;
        }
        proof {
            assert(self.candles@.take(self.candles@.len() as int) == self.candles@);
        }
        let removed = self.candles.len() - out.len();
        let ghost prev = *self;
        self.candles = out;
        proof {
            assert forall|x: int| 0 <= x < self.candles@.len() implies (
            #[trigger] self.candles@[x]).wf() && self.has_type(self.candles@[x].candle_type) by {
                let jx = choose|jx: int|
                    0 <= jx < prev.candles@.len() && prev.candles@[jx] == self.candles@[x];
                assert(prev.candles@[jx].wf());
                assert(prev.has_type(prev.candles@[jx].candle_type));
                let kx = choose|kx: int|
                    0 <= kx < prev.candle_types@.len() && prev.candle_types@[kx]
                        == prev.candles@[jx].candle_type;
                assert(self.candle_types@[kx] == self.candles@[x].candle_type);
            }
            assert(self.wf());
            if let Some(ct) = candle_type {
                assert forall|i2: int|
                    0 <= i2 < old(self).candles@.len() && (#[trigger] old(
                        self,
                    ).candles@[i2]).candle_type != ct implies self.candles@.contains(
                    old(self).candles@[i2],
                ) by {
                    assert(pred(old(self).candles@[i2]));
                    old(self).candles@.lemma_filter_contains(pred, i2);
                }
            }
        }
        removed as i32
    }
}

} // verus!
