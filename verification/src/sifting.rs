//! Live 15-minute candles and tick-volume bars built from the SiftingIO
//! tick stream.
//!
//! Prices are positive and finite (the stream adapter drops any other
//! price) and travel as their IEEE-754 bit patterns: for positive finite
//! numbers the bit patterns order exactly as the numbers do, so every
//! comparison below is the comparison of the prices.
use vstd::prelude::*;
use std::collections::VecDeque;
use crate::types::TickVolumeBar;

verus! {

/// 15-minute chart candles.
pub const BUCKET_MS: i64 = 900_000;

/// Rolling window for the tick rate.
pub const RATE_WINDOW_MS: i64 = 10_000;

/// Tick-rule classification against the previous tick's price.
#[derive(Debug, Clone, Copy, PartialEq, Eq, Structural)]
pub enum TickDir {
    Up,
    Down,
    Flat,
}

pub open spec fn spec_classify(prev: Option<u64>, price: u64) -> TickDir {
    match prev {
        Some(p) => if price > p {
            TickDir::Up
        } else if price < p {
            TickDir::Down
        } else {
            TickDir::Flat
        },
        None => TickDir::Flat,
    }
}

impl TickDir {
    /// Up when the price rose, Down when it fell, Flat otherwise (and for
    /// the first tick).
    pub fn classify(prev: Option<u64>, price: u64) -> (d: TickDir)
        ensures
            d == spec_classify(prev, price),
    {
        match prev {
            Some(p) => if price > p {
                TickDir::Up
            } else if price < p {
                TickDir::Down
            } else {
                TickDir::Flat
            },
            None => TickDir::Flat,
        }
    }
}

/// One 15m bucket being built from ticks. `ticks` is the bucket's volume:
/// SiftingIO's historical bars count price updates, so live candles do too.
#[derive(Debug, Clone, Copy)]
pub struct Aggregator {
    pub start_time: i64,
    pub open: u64,
    pub high: u64,
    pub low: u64,
    pub close: u64,
    pub ticks: u64,
    pub up_ticks: u64,
    pub down_ticks: u64,
    pub last_tick: i64,
}

pub open spec fn max_i64(a: i64, b: i64) -> i64 {
    if a >= b { a } else { b }
}

/// One more tick in direction `dir` at time `ts`.
pub open spec fn count_tick(a: Aggregator, ts: i64, dir: TickDir) -> Aggregator {
    Aggregator {
        ticks: (a.ticks + 1) as u64,
        up_ticks: if dir == TickDir::Up { (a.up_ticks + 1) as u64 } else { a.up_ticks },
        down_ticks: if dir == TickDir::Down { (a.down_ticks + 1) as u64 } else { a.down_ticks },
        last_tick: max_i64(a.last_tick, ts),
        ..a
    }
}

/// The bucket started at `start` by its first tick.
pub open spec fn spec_agg_new(start: i64, price: u64, ts: i64, dir: TickDir) -> Aggregator {
    count_tick(
        Aggregator {
            start_time: start,
            open: price,
            high: price,
            low: price,
            close: price,
            ticks: 0,
            up_ticks: 0,
            down_ticks: 0,
            last_tick: ts,
        },
        ts,
        dir,
    )
}

/// `a` after one more tick in the same bucket.
pub open spec fn spec_agg_update(a: Aggregator, price: u64, ts: i64, dir: TickDir) -> Aggregator {
    count_tick(
        Aggregator {
            high: if price > a.high { price } else { a.high },
            low: if price < a.low { price } else { a.low },
            close: price,
            ..a
        },
        ts,
        dir,
    )
}

/// A 15m candle in price-bit form; `volume` is the tick count.
#[derive(Debug, Clone, Copy, PartialEq, Eq, Structural)]
pub struct TickCandle {
    pub time: i64,
    pub open_bits: u64,
    pub high_bits: u64,
    pub low_bits: u64,
    pub close_bits: u64,
    pub volume: u64,
}

pub open spec fn spec_candle(a: Aggregator) -> TickCandle {
    TickCandle {
        time: a.start_time,
        open_bits: a.open,
        high_bits: a.high,
        low_bits: a.low,
        close_bits: a.close,
        volume: a.ticks,
    }
}

/// `bar` is the tick-volume bar of `a`, with `window` ticks in the last
/// ten seconds.
pub open spec fn is_bar_of(bar: TickVolumeBar, a: Aggregator, window: u64, closed: bool) -> bool {
    &&& bar.time == a.start_time
    &&& bar.ticks == a.ticks
    &&& bar.up_ticks == a.up_ticks
    &&& bar.down_ticks == a.down_ticks
    &&& bar.flat_ticks == a.ticks - a.up_ticks - a.down_ticks
    &&& bar.close_bits == a.close
    &&& bar.last_tick == a.last_tick
    &&& bar.window_ticks == window
    &&& bar.closed == closed
    &&& bar.source@ == "sifting"@
}

impl Aggregator {
    pub open spec fn wf(&self) -> bool {
        self.up_ticks + self.down_ticks <= self.ticks
    }

    fn count(&mut self, ts: i64, dir: TickDir)
        requires
            old(self).wf(),
            old(self).ticks < u64::MAX,
        ensures
            *final(self) == count_tick(*old(self), ts, dir),
            final(self).wf(),
    {
        self.ticks += 1;
        match dir {
            TickDir::Up => self.up_ticks += 1,
            TickDir::Down => self.down_ticks += 1,
            TickDir::Flat => {},
        }
        if ts > self.last_tick {
            self.last_tick = ts;
        }
    }

    /// The bucket starting at `start_time`, opened by a tick at `price`.
    pub fn new(start_time: i64, price: u64, ts: i64, dir: TickDir) -> (a: Self)
        ensures
            a == spec_agg_new(start_time, price, ts, dir),
            a.wf(),
    {
        let mut agg = Aggregator {
            start_time,
            open: price,
            high: price,
            low: price,
            close: price,
            ticks: 0,
            up_ticks: 0,
            down_ticks: 0,
            last_tick: ts,
        };
        agg.count(ts, dir);
        agg
    }

    /// Fold one more tick of this bucket in.
    pub fn update(&mut self, price: u64, ts: i64, dir: TickDir)
        requires
            old(self).wf(),
            old(self).ticks < u64::MAX,
        ensures
            *final(self) == spec_agg_update(*old(self), price, ts, dir),
            final(self).wf(),
    {
        if price > self.high {
            self.high = price;
        }
        if price < self.low {
            self.low = price;
        }
        self.close = price;
        self.count(ts, dir);
    }

    pub fn candle(&self) -> (c: TickCandle)
        ensures
            c == spec_candle(*self),
    {
        TickCandle {
            time: self.start_time,
            open_bits: self.open,
            high_bits: self.high,
            low_bits: self.low,
            close_bits: self.close,
            volume: self.ticks,
        }
    }

    pub fn tick_volume(&self, window_ticks: u64, closed: bool) -> (b: TickVolumeBar)
        requires
            self.wf(),
        ensures
            is_bar_of(b, *self, window_ticks, closed),
    {
        TickVolumeBar {
            time: self.start_time,
            ticks: self.ticks,
            up_ticks: self.up_ticks,
            down_ticks: self.down_ticks,
            flat_ticks: self.ticks - self.up_ticks - self.down_ticks,
            close_bits: self.close,
            last_tick: self.last_tick,
            window_ticks,
            closed,
            source: "sifting".to_owned(),
        }
    }
}

/// What one accepted tick produced: the bucket it closed (if any) and the
/// current in-progress bucket.
pub struct TickOutcome {
    pub closed: Option<(TickCandle, TickVolumeBar)>,
    pub live: (TickCandle, TickVolumeBar),
}

/// Stream state that has to survive reconnects.
pub struct TickState {
    pub agg: Option<Aggregator>,
    pub last_price: Option<u64>,
    /// `(t, p, P)` of the last accepted tick (size 0 when absent), to drop
    /// the cached snapshot tick the stream replays on every (re)subscribe.
    pub last_key: Option<(i64, u64, u64)>,
    /// Stream timestamps of recent ticks for the rolling rate.
    pub recent: VecDeque<i64>,
    pub newest_ts: i64,
}

/// The identity of a tick: time, price, and trade size (0 when absent).
pub open spec fn tick_key(ts: i64, price: u64, size: Option<u64>) -> (i64, u64, u64) {
    (
        ts,
        price,
        match size {
            Some(s) => s,
            None => 0,
        },
    )
}

/// Start of the 15m bucket holding `ts`.
pub open spec fn bucket_of(ts: i64) -> int {
    ts - ts % BUCKET_MS
}

/// `s` without its leading timestamps at or before `cutoff`.
pub open spec fn drop_expired(s: Seq<i64>, cutoff: int) -> Seq<i64>
    decreases s.len(),
{
    if s.len() > 0 && s[0] <= cutoff {
        drop_expired(s.drop_first(), cutoff)
    } else {
        s
    }
}

impl TickState {
    pub open spec fn wf(&self) -> bool {
        match self.agg {
            Some(a) => a.wf(),
            None => true,
        }
    }

    /// A tick that must not be counted: an exact repeat of the previous
    /// tick (the re-subscribe snapshot), or a late tick for a bucket that
    /// has already closed.
    pub open spec fn rejects(&self, price: u64, ts: i64, size: Option<u64>) -> bool {
        ||| self.last_key == Some(tick_key(ts, price, size))
        ||| (self.agg is Some && bucket_of(ts) < self.agg->0.start_time)
    }

    /// The bucket the accepted tick lands in.
    pub open spec fn next_agg(&self, price: u64, ts: i64) -> Aggregator {
        let dir = spec_classify(self.last_price, price);
        let b = bucket_of(ts) as i64;
        if self.agg is Some && self.agg->0.start_time == b {
            spec_agg_update(self.agg->0, price, ts, dir)
        } else {
            spec_agg_new(b, price, ts, dir)
        }
    }

    pub fn new() -> (s: Self)
        ensures
            s.wf(),
            s.agg is None,
            s.last_price is None,
            s.last_key is None,
            s.recent@ == Seq::<i64>::empty(),
            s.newest_ts == i64::MIN,
    {
        TickState {
            agg: None,
            last_price: None,
            last_key: None,
            recent: VecDeque::new(),
            newest_ts: i64::MIN,
        }
    }

    /// Ticks seen in the last ten seconds (ticks per second is a tenth).
    pub fn window_ticks(&self) -> (n: u64)
        ensures
            n == self.recent@.len(),
    {
        self.recent.len() as u64
    }

    /// Fold one tick in. Returns None, changing nothing, for a tick that
    /// must not be counted; otherwise the candle/bar the tick closed (when it
    /// opened a new bucket after another) and the live candle/bar. The live
    /// candle and bar sit in the tick's own bucket at its price, still open,
    /// every tick counted once as up, down or flat; a bar is closed exactly
    /// when the tick opened a new bucket after another, and it is the old
    /// bucket's.
    pub fn on_tick(&mut self, price: u64, ts: i64, size: Option<u64>) -> (r: Option<TickOutcome>)
        requires
            old(self).wf(),
            old(self).last_key != Some(tick_key(ts, price, size)) ==> bucket_of(ts) >= i64::MIN,
            !old(self).rejects(price, ts, size) ==> max_i64(old(self).newest_ts, ts) - RATE_WINDOW_MS
                >= i64::MIN,
            !old(self).rejects(price, ts, size) && old(self).agg is Some && old(self).agg->0.start_time
                == bucket_of(ts) ==> old(self).agg->0.ticks < u64::MAX,
        ensures
            final(self).wf(),
            old(self).rejects(price, ts, size) ==> r is None && *final(self) == *old(self),
            !old(self).rejects(price, ts, size) ==> r is Some && {
                let out = r->0;
                let a = old(self).next_agg(price, ts);
                let newest = max_i64(old(self).newest_ts, ts);
                &&& final(self).agg == Some(a)
                &&& final(self).last_price == Some(price)
                &&& final(self).last_key == Some(tick_key(ts, price, size))
                &&& final(self).newest_ts == newest
                &&& final(self).recent@ == drop_expired(old(self).recent@.push(ts), newest - RATE_WINDOW_MS)
                &&& out.live.0 == spec_candle(a)
                &&& is_bar_of(out.live.1, a, final(self).recent@.len() as u64, false)
                &&& if old(self).agg is Some && old(self).agg->0.start_time != a.start_time {
                    &&& out.closed is Some
                    &&& (out.closed->0).0 == spec_candle(old(self).agg->0)
                    &&& is_bar_of((out.closed->0).1, old(self).agg->0, old(self).recent@.len() as u64, true)
                } else {
                    out.closed is None
                }
            },
            !old(self).rejects(price, ts, size) ==> {
                let out = r->0;
                &&& out.live.0.time == bucket_of(ts)
                &&& out.live.1.time == bucket_of(ts)
                &&& out.live.0.close_bits == price
                &&& out.live.0.low_bits <= price <= out.live.0.high_bits
                &&& (old(self).agg is Some && old(self).agg->0.start_time == bucket_of(ts) ==> out.live.0.low_bits
                    <= old(self).agg->0.low && out.live.0.high_bits >= old(self).agg->0.high
                    && out.live.0.open_bits == old(self).agg->0.open)
                &&& out.live.1.close_bits == price
                &&& !out.live.1.closed
                &&& out.live.1.ticks == out.live.1.up_ticks + out.live.1.down_ticks + out.live.1.flat_ticks
                &&& (out.closed is Some <==> (old(self).agg is Some && old(self).agg->0.start_time != bucket_of(ts)))
                &&& out.closed matches Some(c) ==> c.1.closed && c.0.time == old(self).agg->0.start_time
                    && c.1.time == old(self).agg->0.start_time
            },
    {
        let key = (ts, price, match size {
            Some(s) => s,
            None => 0,
        });
        if self.last_key == Some(key) {
            return None;
        }
        let rem = match ts.checked_rem_euclid(BUCKET_MS) {
            Some(r) => r,
            None => 0,
        };
        let bucket = ts - rem;
        if let Some(current) = &self.agg {
            if bucket < current.start_time {
                return None;
            }
        }
        self.last_key = Some(key);
        let dir = TickDir::classify(self.last_price, price);
        self.last_price = Some(price);

        let mut closed: Option<(TickCandle, TickVolumeBar)> = None;
        let same_bucket = match &self.agg {
            Some(c) => c.start_time == bucket,
            None => false,
        };
        if same_bucket {
            let mut a = self.agg.unwrap();
            a.update(price, ts, dir);
            self.agg = Some(a);
        } else {
            // Close with the rate as it stood before the new bucket's first tick.
            let rate = self.window_ticks();
            if let Some(previous) = self.agg {
                closed = Some((previous.candle(), previous.tick_volume(rate, true)));
            }
            self.agg = Some(Aggregator::new(bucket, price, ts, dir));
        }

        self.recent.push_back(ts);
        if ts > self.newest_ts {
            self.newest_ts = ts;
        }
        let cutoff = self.newest_ts - RATE_WINDOW_MS;
        let ghost pushed = self.recent@;
        let ghost agg_now = self.agg;
        let ghost lp = self.last_price;
        let ghost lk = self.last_key;
        let ghost nt = self.newest_ts;
        assert(agg_now is Some && agg_now->0.wf());
        while self.recent.len() > 0 && self.recent[0] <= cutoff
            invariant
                self.agg == agg_now,
                agg_now is Some && agg_now->0.wf(),
                self.last_price == lp,
                self.last_key == lk,
                self.newest_ts == nt,
                drop_expired(self.recent@, cutoff as int) == drop_expired(pushed, cutoff as int),
            decreases self.recent@.len(),
        {
            let ghost pre = self.recent@;
            let _ = self.recent.pop_front();
            assert(self.recent@ =~= pre.drop_first());
        }
        let tps = self.window_ticks();
        let current = self.agg.unwrap();
        Some(TickOutcome { closed, live: (current.candle(), current.tick_volume(tps, false)) })
    }
}


/// A late tick never rolls the live bar backwards: whenever a tick is
/// accepted, the live bucket afterwards starts no earlier than before.
pub proof fn lemma_live_bucket_never_moves_back(s: TickState, price: u64, ts: i64, size: Option<u64>)
    requires
        s.agg is Some,
        !s.rejects(price, ts, size),
        bucket_of(ts) >= i64::MIN,
    ensures
        s.next_agg(price, ts).start_time >= s.agg->0.start_time,
{
}

/// Every accepted tick is counted exactly once: it adds one to the live
/// bucket's count, or opens a new bucket with a count of one; the count
/// always splits into up, down and flat ticks.
pub proof fn lemma_each_tick_counted_once(s: TickState, price: u64, ts: i64)
    requires
        s.wf(),
        bucket_of(ts) >= i64::MIN,
        s.agg is Some && s.agg->0.start_time == bucket_of(ts) ==> s.agg->0.ticks < u64::MAX,
    ensures
        s.next_agg(price, ts).ticks == if s.agg is Some && s.agg->0.start_time == bucket_of(ts) {
            s.agg->0.ticks + 1
        } else {
            1
        },
        s.next_agg(price, ts).wf(),
{
}
/// A bucket's candle spans every price counted in it: a tick lowers the
/// low to its price when it is below, raises the high when it is above,
/// and closes the candle at its price; the open stays the first tick's.
/// So the low is the least and the high the greatest price of the bucket's
/// ticks, and a bucket's first tick is its open, high, low and close.
pub proof fn lemma_candle_spans_its_ticks(a: Aggregator, price: u64, ts: i64, dir: TickDir, start: i64)
    ensures
        ({
            let n = spec_agg_update(a, price, ts, dir);
            &&& n.low <= price && n.low <= a.low && (n.low == price || n.low == a.low)
            &&& n.high >= price && n.high >= a.high && (n.high == price || n.high == a.high)
            &&& n.close == price
            &&& n.open == a.open
            &&& n.start_time == a.start_time
        }),
        ({
            let f = spec_agg_new(start, price, ts, dir);
            &&& f.open == price && f.high == price && f.low == price && f.close == price
            &&& f.start_time == start
            &&& f.ticks == 1
        }),
{
}

} // verus!
