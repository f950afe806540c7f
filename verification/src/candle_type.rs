use vstd::prelude::*;
use vstd::arithmetic::div_mod::{
    lemma_fundamental_div_mod, lemma_mod_division_less_than_divisor, lemma_mod_multiples_basic,
    lemma_div_is_ordered, lemma_div_pos_is_pos,
};
use vstd::arithmetic::mul::lemma_mul_inequality;
use crate::calendar;
use crate::calendar::{
    MAX_TS, MIN_TS, month_index, month_of, month_start, next_month, next_month_year, year_of,
};

verus! {

/// The fifteen bucket kinds.  Each has a stable wire code (see
/// `code_spec`); the codes are an external contract and are never
/// renumbered, so they are kept in an explicit table rather than derived
/// from declaration order.
#[derive(Clone, Copy, Debug, Hash, PartialEq, Eq, Structural)]
pub enum CandleType {
    Minute,
    Hour,
    Day,
    Month,
    ThreeMinutes,
    FiveMinutes,
    FifteenMinutes,
    ThirtyMinutes,
    TwoHours,
    FourHours,
    SixHours,
    EightHours,
    TwelveHours,
    ThreeDays,
    SevenDays,
}

/// A wire code outside the valid range, reported back to the caller.
#[derive(Clone, Copy, Debug, PartialEq, Eq, Structural)]
pub struct CandleCodeError {
    pub code: i32,
}

impl CandleType {
    /// The stable interchange code of each kind.
    pub open spec fn code_spec(self) -> int {
        match self {
            CandleType::Minute => 0,
            CandleType::Hour => 1,
            CandleType::Day => 2,
            CandleType::Month => 3,
            CandleType::ThreeMinutes => 4,
            CandleType::FiveMinutes => 5,
            CandleType::FifteenMinutes => 6,
            CandleType::ThirtyMinutes => 7,
            CandleType::TwoHours => 8,
            CandleType::FourHours => 9,
            CandleType::SixHours => 10,
            CandleType::EightHours => 11,
            CandleType::TwelveHours => 12,
            CandleType::ThreeDays => 13,
            CandleType::SevenDays => 14,
        }
    }

    /// The stride, in seconds, by which an instant is floored to its
    /// bucket start, for every kind but the month.  The three-day and
    /// seven-day kinds keep the strides the series has always used
    /// (seven and twelve days), which differ from their nominal
    /// durations; changing either would move externally observable
    /// bucket boundaries.
    pub open spec fn stride_spec(self) -> int {
        match self {
            CandleType::Minute => 60,
            CandleType::Hour => 3600,
            CandleType::Day => 86400,
            CandleType::Month => 1,
            CandleType::ThreeMinutes => 180,
            CandleType::FiveMinutes => 300,
            CandleType::FifteenMinutes => 900,
            CandleType::ThirtyMinutes => 1800,
            CandleType::TwoHours => 7200,
            CandleType::FourHours => 14400,
            CandleType::SixHours => 21600,
            CandleType::EightHours => 28800,
            CandleType::TwelveHours => 43200,
            CandleType::ThreeDays => 604800,
            CandleType::SevenDays => 1036800,
        }
    }

    /// The bucket length in seconds for every kind but the month, whose
    /// length varies with the calendar (see `duration_spec`).
    pub open spec fn fixed_duration_spec(self) -> int {
        match self {
            CandleType::Minute => 60,
            CandleType::Hour => 3600,
            CandleType::Day => 86400,
            CandleType::Month => 1,
            CandleType::ThreeMinutes => 180,
            CandleType::FiveMinutes => 300,
            CandleType::FifteenMinutes => 900,
            CandleType::ThirtyMinutes => 1800,
            CandleType::TwoHours => 7200,
            CandleType::FourHours => 14400,
            CandleType::SixHours => 21600,
            CandleType::EightHours => 28800,
            CandleType::TwelveHours => 43200,
            CandleType::ThreeDays => 259200,
            CandleType::SevenDays => 604800,
        }
    }

    /// Whether the flooring stride and the bucket duration agree.  They
    /// do for every kind except the three-day and seven-day ones, whose
    /// historical strides differ from their durations; containment of an
    /// instant in `[start, end)` holds exactly for the kinds where this
    /// is true.
    pub open spec fn stride_matches_duration(self) -> bool {
        match self {
            CandleType::ThreeDays => false,
            CandleType::SevenDays => false,
            _ => true,
        }
    }

    /// The start of the bucket enclosing `ts`: the fixed kinds floor by
    /// their stride, the month kind floors to the first instant of the
    /// calendar month.
    pub open spec fn bucket_start_spec(self, ts: int) -> int {
        if self is Month {
            month_start(year_of(ts), month_of(ts))
        } else {
            ts - ts % self.stride_spec()
        }
    }

    /// The length in seconds of the bucket enclosing `ts`: constant for
    /// the fixed kinds, and for the month kind the distance from the
    /// first instant of `ts`'s month to the first instant of the next.
    pub open spec fn duration_spec(self, ts: int) -> int {
        if self is Month {
            month_start(
                next_month_year(year_of(ts), month_of(ts)),
                next_month(year_of(ts), month_of(ts)),
            ) - month_start(year_of(ts), month_of(ts))
        } else {
            self.fixed_duration_spec()
        }
    }

    /// The end of the bucket enclosing `ts`.
    pub open spec fn bucket_end_spec(self, ts: int) -> int {
        self.bucket_start_spec(ts) + self.duration_spec(ts)
    }

    /// The stable interchange code of this kind.
    pub fn to_code(&self) -> (r: i32)
        ensures
            r as int == self.code_spec(),
    {
        match self {
            CandleType::Minute => 0,
            CandleType::Hour => 1,
            CandleType::Day => 2,
            CandleType::Month => 3,
            CandleType::ThreeMinutes => 4,
            CandleType::FiveMinutes => 5,
            CandleType::FifteenMinutes => 6,
            CandleType::ThirtyMinutes => 7,
            CandleType::TwoHours => 8,
            CandleType::FourHours => 9,
            CandleType::SixHours => 10,
            CandleType::EightHours => 11,
            CandleType::TwelveHours => 12,
            CandleType::ThreeDays => 13,
            CandleType::SevenDays => 14,
        }
    }

    /// Decodes an interchange code.  Every code in 0..=14 yields its
    /// kind; any other code is rejected with a decode error carrying the
    /// offending value.
    pub fn from_code(code: i32) -> (r: Result<CandleType, CandleCodeError>)
        ensures
            0 <= code <= 14 ==> (r matches Ok(ct) && ct.code_spec() == code as int),
            !(0 <= code <= 14) ==> (r matches Err(e) && e.code == code),
    {
        match code {
            0 => Ok(CandleType::Minute),
            1 => Ok(CandleType::Hour),
            2 => Ok(CandleType::Day),
            3 => Ok(CandleType::Month),
            4 => Ok(CandleType::ThreeMinutes),
            5 => Ok(CandleType::FiveMinutes),
            6 => Ok(CandleType::FifteenMinutes),
            7 => Ok(CandleType::ThirtyMinutes),
            8 => Ok(CandleType::TwoHours),
            9 => Ok(CandleType::FourHours),
            10 => Ok(CandleType::SixHours),
            11 => Ok(CandleType::EightHours),
            12 => Ok(CandleType::TwelveHours),
            13 => Ok(CandleType::ThreeDays),
            14 => Ok(CandleType::SevenDays),
            _ => Err(CandleCodeError { code }),
        }
    }

    /// The flooring stride in seconds (1 for the month kind, which does
    /// not floor by a stride).
    fn stride_secs(&self) -> (r: i64)
        ensures
            r as int == self.stride_spec(),
            0 < r,
    {
        match self {
            CandleType::Minute => 60,
            CandleType::Hour => 3600,
            CandleType::Day => 86400,
            CandleType::Month => 1,
            CandleType::ThreeMinutes => 180,
            CandleType::FiveMinutes => 300,
            CandleType::FifteenMinutes => 900,
            CandleType::ThirtyMinutes => 1800,
            CandleType::TwoHours => 7200,
            CandleType::FourHours => 14400,
            CandleType::SixHours => 21600,
            CandleType::EightHours => 28800,
            CandleType::TwelveHours => 43200,
            CandleType::ThreeDays => 604800,
            CandleType::SevenDays => 1036800,
        }
    }

    /// The constant bucket length in seconds of a non-month kind.
    fn fixed_duration_secs(&self) -> (r: i64)
        ensures
            r as int == self.fixed_duration_spec(),
            0 < r,
    {
        match self {
            CandleType::Minute => 60,
            CandleType::Hour => 3600,
            CandleType::Day => 86400,
            CandleType::Month => 1,
            CandleType::ThreeMinutes => 180,
            CandleType::FiveMinutes => 300,
            CandleType::FifteenMinutes => 900,
            CandleType::ThirtyMinutes => 1800,
            CandleType::TwoHours => 7200,
            CandleType::FourHours => 14400,
            CandleType::SixHours => 21600,
            CandleType::EightHours => 28800,
            CandleType::TwelveHours => 43200,
            CandleType::ThreeDays => 259200,
            CandleType::SevenDays => 604800,
        }
    }

    /// Floors `ts` to the start of its enclosing bucket.  The result is
    /// itself a bucket start (flooring is idempotent) and never after
    /// `ts`.  For the month kind the result keeps `ts`'s calendar year
    /// and month, and separates earlier months from this and later ones.
    pub fn get_start_date(&self, ts: i64) -> (r: i64)
        requires
            MIN_TS <= ts <= MAX_TS,
        ensures
            r as int == self.bucket_start_spec(ts as int),
            MIN_TS <= r <= ts,
            self.bucket_start_spec(r as int) == r as int,
            *self is Month ==> {
                &&& year_of(r as int) == year_of(ts as int)
                &&& month_of(r as int) == month_of(ts as int)
                &&& 1970 <= year_of(r as int) <= 9999
                &&& 1 <= month_of(r as int) <= 12
            },
            *self is Month ==> forall|t: i64|
                MIN_TS <= t <= MAX_TS && month_index(year_of(t as int), month_of(t as int))
                    >= month_index(year_of(r as int), month_of(r as int)) ==> r <= t,
            *self is Month ==> forall|t: i64|
                MIN_TS <= t <= MAX_TS && month_index(year_of(t as int), month_of(t as int))
                    < month_index(year_of(r as int), month_of(r as int)) ==> t < r,
    {
        match self {
            CandleType::Month => {
                let y = calendar::year_of_ts(ts);
                let m = calendar::month_of_ts(ts);
                let r = calendar::month_start_of(y, m);
                r
            },
            _ => {
                let d = self.stride_secs();
                let q = ts % d;
                let r = ts - q;
                proof {
                    lemma_mod_division_less_than_divisor(ts as int, d as int);
                    lemma_fundamental_div_mod(ts as int, d as int);
                    lemma_div_pos_is_pos(ts as int, d as int);
                    lemma_mod_multiples_basic(ts as int / d as int, d as int);
                }
                r
            },
        }
    }

    /// The length in seconds of the bucket enclosing `ts`.  Strictly
    /// positive; where stride and duration agree, the bucket's end lies
    /// strictly after `ts`.  For the month kind the end is the first
    /// instant of the following month: it keeps that month's calendar
    /// fields and bounds every instant of later months from below.
    pub fn get_duration(&self, ts: i64) -> (r: i64)
        requires
            MIN_TS <= ts <= MAX_TS,
        ensures
            r as int == self.duration_spec(ts as int),
            0 < r,
            r as int <= MAX_TS as int + 1,
            self.stride_matches_duration() ==> ts < self.bucket_start_spec(ts as int) + r,
            *self is Month ==> {
                &&& year_of(self.bucket_start_spec(ts as int) + r) == next_month_year(
                    year_of(ts as int),
                    month_of(ts as int),
                )
                &&& month_of(self.bucket_start_spec(ts as int) + r) == next_month(
                    year_of(ts as int),
                    month_of(ts as int),
                )
            },
            *self is Month ==> forall|t: i64|
                MIN_TS <= t <= MAX_TS && month_index(year_of(t as int), month_of(t as int))
                    > month_index(year_of(ts as int), month_of(ts as int)) ==> self
                    .bucket_start_spec(ts as int) + r <= t,
    {
        match self {
            CandleType::Month => {
                let y = calendar::year_of_ts(ts);
                let m = calendar::month_of_ts(ts);
                let s = calendar::month_start_of(y, m);
                let ny: i32 = if m == 12 { y + 1 } else { y };
                let nm: u32 = if m == 12 { 1 } else { m + 1 };
                let e = calendar::month_start_of(ny, nm);
                assert(s < e);
                e - s
            },
            _ => {
                let r = self.fixed_duration_secs();
                proof {
                    if self.stride_matches_duration() {
                        let d = self.stride_spec();
                        lemma_mod_division_less_than_divisor(ts as int, d);
                        assert(self.fixed_duration_spec() == d);
                    }
                }
                r
            },
        }
    }

    /// The number of whole buckets spanning `[bucket_start(from),
    /// bucket_end(to))`.  For the month kind it is the calendar month
    /// difference between the two boundaries; for every other kind the
    /// elapsed seconds divided by the bucket duration.
    pub fn get_dates_count(&self, from: i64, to: i64) -> (r: usize)
        requires
            MIN_TS <= from <= MAX_TS,
            MIN_TS <= to <= MAX_TS,
            from <= to,
        ensures
            !(*self is Month) ==> r as int == (self.bucket_end_spec(to as int)
                - self.bucket_start_spec(from as int)) / self.fixed_duration_spec(),
            *self is Month ==> r as int == 12 * (year_of(self.bucket_end_spec(to as int))
                - year_of(self.bucket_start_spec(from as int))) + month_of(
                self.bucket_end_spec(to as int),
            ) - month_of(self.bucket_start_spec(from as int)),
            1 <= r,
    {
        match self {
            CandleType::Month => {
                let yf = calendar::year_of_ts(from);
                let mf = calendar::month_of_ts(from);
                let sf = calendar::month_start_of(yf, mf);
                let yt = calendar::year_of_ts(to);
                let mt = calendar::month_of_ts(to);
                let ny: i32 = if mt == 12 { yt + 1 } else { yt };
                let nm: u32 = if mt == 12 { 1 } else { mt + 1 };
                let te = calendar::month_start_of(ny, nm);
                proof {
                    assert(month_index(year_of(to as int), month_of(to as int)) < month_index(
                        ny as int,
                        nm as int,
                    ));
                    assert(to < te);
                    assert(month_index(year_of(from as int), month_of(from as int)) < month_index(
                        ny as int,
                        nm as int,
                    ));
                }
                let total: i32 = (ny - yf) * 12 + (nm as i32 - mf as i32);
                total as usize
            },
            _ => {
                let s = self.get_start_date(from);
                let e = self.get_end_date(to);
                let d = self.fixed_duration_secs();
                proof {
                    let dd = self.stride_spec();
                    lemma_fundamental_div_mod(from as int, dd);
                    lemma_fundamental_div_mod(to as int, dd);
                    lemma_mod_division_less_than_divisor(from as int, dd);
                    lemma_mod_division_less_than_divisor(to as int, dd);
                    lemma_div_is_ordered(from as int, to as int, dd);
                    lemma_mul_inequality(from as int / dd, to as int / dd, dd);
                    lemma_div_pos_is_pos((e - s) as int, d as int);
                }
                ((e - s) / d) as usize
            },
        }
    }

    /// Every distinct bucket start from `bucket_start(from)` up to and
    /// including `bucket_start(to)`, in ascending order: each entry after
    /// the first is obtained from its predecessor by advancing one bucket
    /// duration and re-flooring.  Restricted to the kinds whose stride
    /// and duration agree, where that advance is guaranteed to make
    /// progress.
    pub fn get_start_dates(&self, from: i64, to: i64) -> (r: Vec<i64>)
        requires
            MIN_TS <= from <= MAX_TS,
            MIN_TS <= to <= MAX_TS,
            self.stride_matches_duration(),
        ensures
            r@.len() >= 1,
            r@[0] as int == self.bucket_start_spec(from as int),
            r@[r@.len() - 1] as int == if self.bucket_start_spec(from as int)
                <= self.bucket_start_spec(to as int) {
                self.bucket_start_spec(to as int)
            } else {
                self.bucket_start_spec(from as int)
            },
            forall|i: int|
                0 <= i < r@.len() ==> self.bucket_start_spec(r@[i] as int) == r@[i] as int,
            forall|i: int|
                0 < i < r@.len() ==> #[trigger] r@[i] as int == self.bucket_start_spec(
                    r@[i - 1] as int + self.duration_spec(r@[i - 1] as int),
                ),
            forall|i: int, j: int| 0 <= i < j < r@.len() ==> r@[i] < r@[j],
    {
        let date_from = self.get_start_date(from);
        let date_to = self.get_start_date(to);
        let mut dates: Vec<i64> = Vec::new();
        dates.push(date_from);
        let mut last_date = date_from;
        while last_date < date_to
            invariant
                MIN_TS <= to <= MAX_TS,
                self.stride_matches_duration(),
                date_from as int == self.bucket_start_spec(from as int),
                date_to as int == self.bucket_start_spec(to as int),
                self.bucket_start_spec(date_to as int) == date_to as int,
                MIN_TS <= date_to <= MAX_TS,
                *self is Month ==> forall|t: i64|
                    MIN_TS <= t <= MAX_TS && month_index(year_of(t as int), month_of(t as int))
                        >= month_index(year_of(date_to as int), month_of(date_to as int))
                        ==> date_to <= t,
                dates@.len() >= 1,
                dates@[0] == date_from,
                dates@[dates@.len() - 1] == last_date,
                MIN_TS <= last_date <= MAX_TS,
                self.bucket_start_spec(last_date as int) == last_date as int,
                last_date <= date_to || last_date == date_from,
                forall|i: int|
                    0 <= i < dates@.len() ==> self.bucket_start_spec(dates@[i] as int)
                        == dates@[i] as int,
                forall|i: int|
                    0 < i < dates@.len() ==> #[trigger] dates@[i] as int
                        == self.bucket_start_spec(
                        dates@[i - 1] as int + self.duration_spec(dates@[i - 1] as int),
                    ),
                forall|i: int, j: int| 0 <= i < j < dates@.len() ==> dates@[i] < dates@[j],
            decreases date_to - last_date,
        {
            let duration = self.get_duration(last_date);
            proof {
                if !(*self is Month) {
                    let dd = self.stride_spec();
                    lemma_fundamental_div_mod(last_date as int, dd);
                    lemma_fundamental_div_mod(date_to as int, dd);
                    let ql = last_date as int / dd;
                    let qt = date_to as int / dd;
                    if ql >= qt {
                        lemma_mul_inequality(qt, ql, dd);
                        assert(false);
                    }
                    lemma_mul_inequality(ql + 1, qt, dd);
                    lemma_mod_multiples_basic(ql + 1, dd);
                    assert((last_date + duration) as int == dd * (ql + 1));
                    assert(self.bucket_start_spec((last_date + duration) as int) == (last_date
                        + duration) as int);
                }
            }
            let next_date = last_date + duration;
            last_date = self.get_start_date(next_date);
            assert(last_date == next_date);
            dates.push(last_date);
        }
        dates
    }

    /// Law: flooring an instant to its bucket start is idempotent for
    /// every kind whose flooring is stride arithmetic.  (The month
    /// kind's flooring is idempotent too; that is stated on
    /// `get_start_date` itself, since the calendar facts live on its
    /// calls.)
    pub proof fn lemma_bucket_start_idempotent(ct: CandleType, ts: int)
        requires
            0 <= ts,
            !(ct is Month),
        ensures
            ct.bucket_start_spec(ct.bucket_start_spec(ts)) == ct.bucket_start_spec(ts),
    {
        let d = ct.stride_spec();
        lemma_fundamental_div_mod(ts, d);
        lemma_mod_multiples_basic(ts / d, d);
    }

    /// Law: for every kind whose stride and duration agree, an instant
    /// lies inside its own bucket: `start <= ts < start + duration`.
    /// The three-day and seven-day kinds break this (their strides
    /// exceed their durations, so an instant late in a stride lands at
    /// or past the bucket end), and the month kind's containment is
    /// stated on `get_start_date` and `get_end_date` themselves.
    pub proof fn lemma_bucket_contains(ct: CandleType, ts: int)
        requires
            0 <= ts,
            !(ct is Month),
            ct.stride_matches_duration(),
        ensures
            ct.bucket_start_spec(ts) <= ts < ct.bucket_end_spec(ts),
    {
        let d = ct.stride_spec();
        lemma_mod_division_less_than_divisor(ts, d);
        assert(ct.fixed_duration_spec() == d);
    }

    /// The end of the bucket enclosing `ts`: its start plus its length.
    pub fn get_end_date(&self, ts: i64) -> (r: i64)
        requires
            MIN_TS <= ts <= MAX_TS,
        ensures
            r as int == self.bucket_end_spec(ts as int),
            self.stride_matches_duration() ==> ts < r,
    {
        let start = self.get_start_date(ts);
        let duration = self.get_duration(ts);
        start + duration
    }
}

} // verus!
