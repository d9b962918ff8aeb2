//! Time bucketing for OHLCV candles.
//!
//! A [`CandleClock`] sees the timestamp of each quote, in order, and decides
//! what happens to the candle being built: the quote opens it, joins it, or
//! closes it and opens the next. Timestamps are whole units (nanoseconds, say)
//! since the Unix epoch; the duration of a bucket is in the same unit.
//!
//! Buckets are anchored at the first quote's timestamp, so they are aligned to
//! no round point in time. After a gap in the quotes the clock moves on by as
//! many whole buckets as the gap spans, at once: only the candle that was open
//! is closed, and the buckets in between are skipped.
use vstd::prelude::*;
use vstd::arithmetic::div_mod::{
    lemma_fundamental_div_mod,
    lemma_fundamental_div_mod_converse,
    lemma_mod_pos_bound,
};

verus! {

/// Start of the bucket of length `duration` that holds `ts`, on the grid of
/// buckets that has a bucket starting at `start`; requires `start <= ts`.
pub open spec fn bucket_start(start: int, duration: int, ts: int) -> int {
    start + ((ts - start) / duration) * duration
}

/// What a quote does to the candle being built.
#[derive(Clone, Copy, Debug, PartialEq, Eq, Structural)]
pub enum Tick {
    /// The first quote: it opens the first candle, whose bucket starts at its
    /// timestamp. Nothing is emitted.
    Opened,
    /// The quote falls in the bucket of the open candle and joins it. Nothing
    /// is emitted.
    Joined,
    /// The quote falls at or after the end of the open candle's bucket. That
    /// candle, whose bucket starts at `closed`, is finished with the previous
    /// quote's price and emitted; the quote opens a new candle whose bucket
    /// starts at `opened`.
    Rolled { closed: i64, opened: i64 },
}

/// A quote older than the one before it.
#[derive(Clone, Copy, Debug, PartialEq, Eq, Structural)]
pub struct OrderError {
    /// Timestamp of the previous quote.
    pub last: i64,
    /// Timestamp of the quote that was refused.
    pub received: i64,
}

/// The bucketing state of a candle aggregator.
pub struct CandleClock {
    duration: u64,
    start: i64,
    last: Option<i64>,
}

impl CandleClock {
    /// Length of a bucket.
    pub closed spec fn spec_duration(&self) -> nat {
        self.duration as nat
    }

    /// Start of the bucket of the open candle (meaningless before the first quote).
    pub closed spec fn spec_start(&self) -> int {
        self.start as int
    }

    /// Timestamp of the last quote accepted, if any.
    pub closed spec fn spec_last(&self) -> Option<i64> {
        self.last
    }

    /// The clock's invariant: the bucket of the open candle holds the last quote.
    pub closed spec fn wf(&self) -> bool {
        &&& self.duration > 0
        &&& match self.last {
            None => true,
            Some(l) => self.start <= l < self.start + self.duration,
        }
    }

    /// A clock for buckets of length `duration`, before any quote.
    pub fn new(duration: u64) -> (c: Self)
        requires
            duration > 0,
        ensures
            c.wf(),
            c.spec_duration() == duration,
            c.spec_last() == None::<i64>,
    {
        CandleClock { duration, start: 0, last: None }
    }

    /// Length of a bucket.
    pub fn duration(&self) -> (r: u64)
        requires
            self.wf(),
        ensures
            r == self.spec_duration(),
            r > 0,
    {
        self.duration
    }

    /// Start of the bucket of the open candle, once a quote has been seen.
    pub fn current_start(&self) -> (r: Option<i64>)
        requires
            self.wf(),
        ensures
            r == (match self.spec_last() {
                None => None::<i64>,
                Some(_) => Some(self.spec_start() as i64),
            }),
    {
        match self.last {
            None => None,
            Some(_) => Some(self.start),
        }
    }

    /// Timestamp of the last quote accepted, if any.
    pub fn last(&self) -> (r: Option<i64>)
        requires
            self.wf(),
        ensures
            r == self.spec_last(),
    {
        self.last
    }

    /// Takes the timestamp `ts` of the next quote and says what it does to the
    /// open candle. A quote older than the previous one is refused with an
    /// [`OrderError`] and leaves the clock as it was.
    pub fn observe(&mut self, ts: i64) -> (r: Result<Tick, OrderError>)
        requires
            old(self).wf(),
        ensures
            final(self).wf(),
            final(self).spec_duration() == old(self).spec_duration(),
            match old(self).spec_last() {
                None => {
                    &&& r == Ok::<Tick, OrderError>(Tick::Opened)
                    &&& final(self).spec_start() == ts
                    &&& final(self).spec_last() == Some(ts)
                },
                Some(l) => if ts < l {
                    &&& r == Err::<Tick, OrderError>(OrderError { last: l, received: ts })
                    &&& final(self).spec_start() == old(self).spec_start()
                    &&& final(self).spec_last() == old(self).spec_last()
                } else if ts < old(self).spec_start() + old(self).spec_duration() {
                    &&& r == Ok::<Tick, OrderError>(Tick::Joined)
                    &&& final(self).spec_start() == old(self).spec_start()
                    &&& final(self).spec_last() == Some(ts)
                } else {
                    let opened = bucket_start(
                        old(self).spec_start(),
                        old(self).spec_duration() as int,
                        ts as int,
                    );
                    &&& r == Ok::<Tick, OrderError>(
                        Tick::Rolled { closed: old(self).spec_start() as i64, opened: opened as i64 },
                    )
                    &&& final(self).spec_start() == opened
                    &&& final(self).spec_last() == Some(ts)
                },
            },
    {
        match self.last {
            None => {
                self.start = ts;
                self.last = Some(ts);
                Ok(Tick::Opened)
            },
            Some(l) => {
                if ts < l {
                    return Err(OrderError { last: l, received: ts });
                }
                let start = self.start as i128;
                let duration = self.duration as i128;
                let t = ts as i128;
                if t < start + duration {
                    self.last = Some(ts);
                    Ok(Tick::Joined)
                } else {
                    let gap = t - start;
                    let skipped = gap / duration;
                    proof {
                        lemma_fundamental_div_mod(gap as int, duration as int);
                        lemma_mod_pos_bound(gap as int, duration as int);
                        assert(skipped * duration <= gap) by (nonlinear_arith)
                            requires
                                gap == duration * skipped + gap % duration,
                                gap % duration >= 0,
                        ;
                        assert(gap < (skipped + 1) * duration) by (nonlinear_arith)
                            requires
                                gap == duration * skipped + gap % duration,
                                gap % duration < duration,
                        ;
                        assert(skipped >= 1) by (nonlinear_arith)
                            requires
                                gap < (skipped + 1) * duration,
                                gap >= duration,
                                duration > 0,
                        ;
                        assert(skipped * duration >= 0) by (nonlinear_arith)
                            requires
                                skipped >= 1,
                                duration > 0,
                        ;
                    }
                    let opened = (start + skipped * duration) as i64;
                    let closed = self.start;
                    self.start = opened;
                    self.last = Some(ts);
                    Ok(Tick::Rolled { closed, opened })
                }
            },
        }
    }
}

/// A quote that arrives `k` whole buckets after the last one (`k >= 1`) closes
/// the open candle and moves the bucket start on by exactly `k` buckets: the
/// buckets in between are skipped, not emitted.
pub proof fn lemma_gap_skips_whole_buckets(start: int, duration: int, last: int, k: int)
    requires
        duration > 0,
        start <= last < start + duration,
        k >= 1,
    ensures
        last + k * duration >= start + duration,
        bucket_start(start, duration, last + k * duration) == start + k * duration,
{
    let ts = last + k * duration;
    assert(k * duration >= duration) by (nonlinear_arith)
        requires
            k >= 1,
            duration > 0,
    ;
    lemma_fundamental_div_mod_converse(ts - start, duration, k, last - start);
}

} // verus!
