//! Time-keyed candle history behind the volume profile: one candle per
//! bucket time, sorted, with the session and week windows the profiles
//! are computed over.
use vstd::prelude::*;
use crate::session::{
    DAY_MS, last_session_close_utc, most_recent_week_start_utc, previous_session_close,
    previous_week_bounds_utc, spec_last_session_close, spec_previous_close, spec_previous_week,
    spec_week_start,
};

verus! {

/// How many sessions back the previous-session profile may look for a
/// session with candles (covers the weekend hole plus holidays).
pub const MAX_SESSION_LOOKBACK: u32 = 5;

/// Candles older than this (and older than the previous week) are dropped.
pub const RETAIN_MS: i64 = 35 * DAY_MS;

/// Default candle spacing when the history shows none.
pub const FIFTEEN_MIN_MS: i64 = 900_000;

pub open spec fn keys_increasing<C>(s: Seq<(i64, C)>) -> bool {
    forall|i: int, j: int| 0 <= i < j < s.len() ==> s[i].0 < s[j].0
}

/// How many leading entries are keyed before `t`.
pub open spec fn count_before<C>(s: Seq<(i64, C)>, t: int) -> nat
    decreases s.len(),
{
    if s.len() == 0 || s[0].0 >= t {
        0
    } else {
        1 + count_before(s.drop_first(), t)
    }
}

/// `e` written into the sorted `s`: replacing the entry with its key, or
/// inserted where its key belongs.
pub open spec fn place_entry<C>(s: Seq<(i64, C)>, e: (i64, C)) -> Seq<(i64, C)> {
    let p = count_before(s, e.0 as int) as int;
    if p < s.len() && s[p].0 == e.0 {
        s.update(p, e)
    } else {
        s.insert(p, e)
    }
}

/// Some entry of `s` is keyed in `[start, end)`.
pub open spec fn has_key_in<C>(s: Seq<(i64, C)>, start: i64, end: i64) -> bool {
    exists|i: int| 0 <= i < s.len() && start <= #[trigger] s[i].0 < end
}

/// Walking back session by session from the one ending at `end`, the first
/// that holds candles; `Some(None)` when `k` sessions hold none; None when
/// the clock cannot name a session close.
pub open spec fn search_sessions<C>(s: Seq<(i64, C)>, end: i64, k: nat) -> Option<Option<(i64, i64)>>
    decreases k,
{
    if k == 0 {
        Some(None)
    } else {
        match spec_previous_close(end) {
            Some(start) => if has_key_in(s, start, end) {
                Some(Some((start, end)))
            } else {
                search_sessions(s, start, (k - 1) as nat)
            },
            None => None,
        }
    }
}

/// The previous-session window at `now`: the last closed session, or the
/// latest of the `MAX_SESSION_LOOKBACK` sessions before it that holds
/// candles; if none does, the last closed session (empty).
pub open spec fn spec_previous_session<C>(s: Seq<(i64, C)>, now: i64) -> Option<(i64, i64)> {
    match spec_last_session_close(now) {
        Some(e) => match spec_previous_close(e) {
            Some(s0) => match search_sessions(s, e, MAX_SESSION_LOOKBACK as nat) {
                Some(Some(w)) => Some(w),
                Some(None) => Some((s0, e)),
                None => None,
            },
            None => None,
        },
        None => None,
    }
}

proof fn lemma_count_before<C>(s: Seq<(i64, C)>, t: int, k: int)
    requires
        keys_increasing(s),
        0 <= k <= s.len(),
        forall|i: int| 0 <= i < k ==> (#[trigger] s[i]).0 < t,
        k == s.len() || s[k].0 >= t,
    ensures
        count_before(s, t) == k,
    decreases k,
{
    if k > 0 {
        let d = s.drop_first();
        assert forall|i: int| 0 <= i < k - 1 implies (#[trigger] d[i]).0 < t by {
            assert(d[i] == s[i + 1]);
        }
        if k < s.len() {
            assert(d[k - 1] == s[k]);
        }
        lemma_count_before(d, t, k - 1);
    }
}

/// Candles keyed by their bucket time (epoch ms), oldest first.
pub struct CandleHistory<C> {
    entries: Vec<(i64, C)>,
}

impl<C> View for CandleHistory<C> {
    type V = Seq<(i64, C)>;

    closed spec fn view(&self) -> Seq<(i64, C)> {
        self.entries@
    }
}

impl<C> CandleHistory<C> {
    /// One candle per time, sorted by time.
    pub closed spec fn wf(&self) -> bool {
        keys_increasing(self.entries@)
    }

    /// A well-formed history holds one candle per time, in strictly
    /// increasing time.
    pub proof fn lemma_sorted(&self)
        requires
            self.wf(),
        ensures
            keys_increasing(self@),
    {
    }

    pub fn new() -> (h: Self)
        ensures
            h.wf(),
            h@ == Seq::<(i64, C)>::empty(),
    {
        CandleHistory { entries: Vec::new() }
    }

    pub fn len(&self) -> (n: usize)
        ensures
            n == self@.len(),
    {
        self.entries.len()
    }

    /// All entries, oldest first.
    pub fn entries(&self) -> (e: &Vec<(i64, C)>)
        ensures
            e@ == self@,
    {
        &self.entries
    }

    /// Index of the first entry keyed at or after `t` (binary search).
    fn lower_bound(&self, t: i64) -> (p: usize)
        requires
            self.wf(),
        ensures
            p == count_before(self@, t as int),
            p <= self@.len(),
            forall|i: int| 0 <= i < p ==> (#[trigger] self@[i]).0 < t,
            forall|i: int| p <= i < self@.len() ==> (#[trigger] self@[i]).0 >= t,
    {
        let ghost s = self.entries@;
        let mut lo: usize = 0;
        let mut hi: usize = self.entries.len();
        while lo < hi
            invariant
                s == self.entries@,
                keys_increasing(s),
                lo <= hi <= s.len(),
                forall|i: int| 0 <= i < lo ==> (#[trigger] s[i]).0 < t,
                forall|i: int| hi <= i < s.len() ==> (#[trigger] s[i]).0 >= t,
            decreases hi - lo,
        {
            let mid = lo + (hi - lo) / 2;
            if self.entries[mid].0 < t {
                proof {
                    assert forall|i: int| 0 <= i < mid + 1 implies (#[trigger] s[i]).0 < t by {
                        if i < mid {
                            assert(s[i].0 < s[mid as int].0);
                        }
                    }
                }
                lo = mid + 1;
            } else {
                proof {
                    assert forall|i: int| mid <= i < s.len() implies (#[trigger] s[i]).0 >= t by {
                        if i > mid {
                            assert(s[i].0 > s[mid as int].0);
                        }
                    }
                }
                hi = mid;
            }
        }
        proof {
            lemma_count_before(s, t as int, lo as int);
        }
        lo
    }

    /// Add a candle, or replace the one with the same time; the history
    /// stays sorted by time.
    pub fn upsert(&mut self, time: i64, candle: C)
        requires
            old(self).wf(),
        ensures
            final(self).wf(),
            final(self)@ == place_entry(old(self)@, (time, candle)),
    {
        let ghost s = self.entries@;
        let p = self.lower_bound(time);
        if p < self.entries.len() && self.entries[p].0 == time {
            let _ = self.entries.remove(p);
            self.entries.insert(p, (time, candle));
            assert(self.entries@ =~= s.update(p as int, (time, candle)));
            assert forall|i: int, j: int| 0 <= i < j < self.entries@.len() implies self.entries@[i].0
                < self.entries@[j].0 by {
                if j > p {
                    assert(s[j].0 > s[p as int].0);
                }
            }
        } else {
            self.entries.insert(p, (time, candle));
            let ghost r = self.entries@;
            assert forall|i: int, j: int| 0 <= i < j < r.len() implies r[i].0 < r[j].0 by {
                if i < p && j > p {
                    assert(r[j] == s[j - 1]);
                } else if i == p {
                    assert(r[j] == s[j - 1]);
                } else if i > p {
                    assert(r[i] == s[i - 1]);
                    assert(r[j] == s[j - 1]);
                }
            }
        }
    }

    /// Drop every candle older than `floor`.
    pub fn retain_from(&mut self, floor: i64)
        requires
            old(self).wf(),
        ensures
            final(self).wf(),
            final(self)@ == old(self)@.skip(count_before(old(self)@, floor as int) as int),
            forall|i: int|
                0 <= i < count_before(old(self)@, floor as int) ==> (#[trigger] old(self)@[i]).0
                    < floor,
            forall|i: int| 0 <= i < final(self)@.len() ==> (#[trigger] final(self)@[i]).0 >= floor,
    {
        let ghost s = self.entries@;
        let p = self.lower_bound(floor);
        let tail = self.entries.split_off(p);
        self.entries = tail;
        assert(self.entries@ =~= s.skip(p as int));
        assert forall|i: int, j: int| 0 <= i < j < self.entries@.len() implies self.entries@[i].0
            < self.entries@[j].0 by {
            assert(self.entries@[i] == s[i + p]);
            assert(self.entries@[j] == s[j + p]);
        }
        assert forall|i: int| 0 <= i < self.entries@.len() implies (#[trigger] self.entries@[i]).0
            >= floor by {
            assert(self.entries@[i] == s[i + p]);
        }
    }

    /// Keep only the newest `max` candles.
    pub fn keep_newest(&mut self, max: usize)
        requires
            old(self).wf(),
        ensures
            final(self).wf(),
            final(self)@ == if old(self)@.len() > max {
                old(self)@.skip(old(self)@.len() - max)
            } else {
                old(self)@
            },
    {
        let n = self.entries.len();
        if n > max {
            let ghost s = self.entries@;
            let tail = self.entries.split_off(n - max);
            self.entries = tail;
            assert(self.entries@ =~= s.skip(n - max));
            assert forall|i: int, j: int| 0 <= i < j < self.entries@.len() implies self.entries@[i].0
                < self.entries@[j].0 by {
                assert(self.entries@[i] == s[i + (n - max)]);
                assert(self.entries@[j] == s[j + (n - max)]);
            }
        }
    }

    /// Index range `[lo, hi)` of the candles with `start <= time < end`.
    pub fn range(&self, start: i64, end: i64) -> (r: (usize, usize))
        requires
            self.wf(),
        ensures
            r.0 <= r.1 <= self@.len(),
            r.0 == count_before(self@, start as int),
            forall|i: int| 0 <= i < self@.len() ==> ((r.0 <= i < r.1) <==> (start <= (
                #[trigger] self@[i]).0 < end)),
    {
        let lo = self.lower_bound(start);
        let hi0 = self.lower_bound(end);
        let hi = if hi0 < lo { lo } else { hi0 };
        (lo, hi)
    }

    /// Index range `[lo, hi)` of the candles with `start <= time <= end`.
    pub fn range_through(&self, start: i64, end: i64) -> (r: (usize, usize))
        requires
            self.wf(),
        ensures
            r.0 <= r.1 <= self@.len(),
            forall|i: int| 0 <= i < self@.len() ==> ((r.0 <= i < r.1) <==> (start <= (
                #[trigger] self@[i]).0 <= end)),
    {
        if end == i64::MAX {
            let lo = self.lower_bound(start);
            (lo, self.entries.len())
        } else {
            self.range(start, end + 1)
        }
    }

    /// Walks back from the most recent session close until it finds a
    /// session that holds candles (skipping the weekend / holiday gap);
    /// returns that session's `(start, end)`.
    pub fn previous_session_window(&self, now_ms: i64) -> (r: Option<(i64, i64)>)
        requires
            self.wf(),
        ensures
            r == spec_previous_session(self@, now_ms),
    {
        let first_end = match last_session_close_utc(now_ms) {
            Some(e) => e,
            None => return None,
        };
        let first_start = match previous_session_close(first_end) {
            Some(s) => s,
            None => return None,
        };
        let mut end = first_end;
        let mut k: u32 = 0;
        while k < MAX_SESSION_LOOKBACK
            invariant
                self.wf(),
                spec_last_session_close(now_ms) == Some(first_end),
                spec_previous_close(first_end) == Some(first_start),
                k <= MAX_SESSION_LOOKBACK,
                search_sessions(self@, first_end, MAX_SESSION_LOOKBACK as nat) == search_sessions(
                    self@,
                    end,
                    (MAX_SESSION_LOOKBACK - k) as nat,
                ),
            decreases MAX_SESSION_LOOKBACK - k,
        {
            let start = match previous_session_close(end) {
                Some(s) => s,
                None => return None,
            };
            let (lo, hi) = self.range(start, end);
            if lo < hi {
                assert(start <= self@[lo as int].0 < end);
                return Some((start, end));
            }
            assert(!has_key_in(self@, start, end));
            end = start;
            k += 1;
        }
        Some((first_start, first_end))
    }

    /// Spacing of the candles `[lo, hi)`: the first positive (saturating)
    /// gap between neighbours, else 15 minutes.
    pub fn candle_interval(&self, lo: usize, hi: usize) -> (d: i64)
        requires
            lo <= hi <= self@.len(),
        ensures
            d == first_gap(self@, lo as int, hi as int),
    {
        let mut i = lo;
        while hi > 0 && i < hi - 1
            invariant
                lo <= i <= hi,
                hi <= self@.len(),
                first_gap(self@, lo as int, hi as int) == first_gap(self@, i as int, hi as int),
            decreases hi - i,
        {
            let a = self.entries[i].0;
            let b = self.entries[i + 1].0;
            let gap = match b.checked_sub(a) {
                Some(g) => g,
                None => if b > a {
                    i64::MAX
                } else {
                    i64::MIN
                },
            };
            if gap > 0 {
                return gap;
            }
            i += 1;
        }
        FIFTEEN_MIN_MS
    }
}

/// `b - a`, saturated to the `i64` range.
pub open spec fn sat_sub(b: i64, a: i64) -> i64 {
    if b - a > i64::MAX {
        i64::MAX
    } else if b - a < i64::MIN {
        i64::MIN
    } else {
        (b - a) as i64
    }
}

/// The first positive gap between neighbouring keys from index `i` on
/// (below `hi`), or 15 minutes when there is none.
pub open spec fn first_gap<C>(s: Seq<(i64, C)>, i: int, hi: int) -> i64
    decreases hi - i,
{
    if i + 1 >= hi {
        FIFTEEN_MIN_MS
    } else if sat_sub(s[i + 1].0, s[i].0) > 0 {
        sat_sub(s[i + 1].0, s[i].0)
    } else {
        first_gap(s, i + 1, hi)
    }
}

/// The time windows of the profiles at `now`: the current week's start,
/// the previous week's bounds, the oldest time worth keeping, and the
/// latest session close (the boundary the profiles are computed against).
#[derive(Debug, Clone, Copy, PartialEq, Eq)]
pub struct ProfileWindows {
    pub latest_close: i64,
    pub week_start: i64,
    pub pw_start: i64,
    pub pw_end: i64,
    pub retain_floor: i64,
}

/// Windows at `now`; None where the clock cannot name them.
pub fn profile_windows(now_ms: i64) -> (r: Option<ProfileWindows>)
    ensures
        match r {
            Some(w) => {
                &&& spec_last_session_close(now_ms) == Some(w.latest_close)
                &&& spec_week_start(now_ms) == Some(w.week_start)
                &&& spec_previous_week(now_ms) == Some((w.pw_start, w.pw_end))
                &&& now_ms - RETAIN_MS >= i64::MIN
                &&& w.retain_floor == if w.pw_start <= now_ms - RETAIN_MS { w.pw_start as int } else { now_ms - RETAIN_MS }
            },
            None => spec_last_session_close(now_ms) is None || spec_week_start(now_ms) is None
                || spec_previous_week(now_ms) is None || now_ms - RETAIN_MS < i64::MIN,
        },
{
    let latest_close = match last_session_close_utc(now_ms) {
        Some(c) => c,
        None => return None,
    };
    let week_start = match most_recent_week_start_utc(now_ms) {
        Some(w) => w,
        None => return None,
    };
    let (pw_start, pw_end) = match previous_week_bounds_utc(now_ms) {
        Some(b) => b,
        None => return None,
    };
    let keep = match now_ms.checked_sub(RETAIN_MS) {
        Some(k) => k,
        None => return None,
    };
    let retain_floor = if pw_start <= keep { pw_start } else { keep };
    Some(ProfileWindows { latest_close, week_start, pw_start, pw_end, retain_floor })
}

/// Whether the profiles computed against the session close `computed_at`
/// are stale at `now`: the latest close is another one. None where the
/// clock cannot name the latest close.
pub open spec fn spec_session_rolled(computed_at: Option<i64>, now: i64) -> Option<bool> {
    match spec_last_session_close(now) {
        Some(e) => Some(computed_at != Some(e)),
        None => None,
    }
}

/// Whether the previous-session profile must be recomputed at `now`:
/// `computed_at` is the latest close the profiles were last computed
/// against (`ProfileWindows::latest_close`), and they are stale exactly
/// when the latest close has moved on.
pub fn session_rolled(computed_at: Option<i64>, now_ms: i64) -> (r: Option<bool>)
    ensures
        r == spec_session_rolled(computed_at, now_ms),
{
    match last_session_close_utc(now_ms) {
        Some(e) => Some(computed_at != Some(e)),
        None => None,
    }
}

/// A recompute settles the session: profiles computed at `now` (against
/// the latest close the windows name) are not reported stale at `now`, nor
/// at any later instant with the same latest close, so a refresh rolls
/// over once per session close.
pub proof fn lemma_recompute_settles_session(now: i64, later: i64)
    requires
        spec_last_session_close(now) is Some,
        spec_last_session_close(later) == spec_last_session_close(now),
    ensures
        spec_session_rolled(spec_last_session_close(now), now) == Some(false),
        spec_session_rolled(spec_last_session_close(now), later) == Some(false),
{
}

/// The `j`-th session walking back from the one that ends at `end`
/// (`j == 0` is that session itself), as `(start, end)`.
pub open spec fn session_back(end: i64, j: nat) -> Option<(i64, i64)>
    decreases j,
{
    match spec_previous_close(end) {
        Some(start) => if j == 0 {
            Some((start, end))
        } else {
            session_back(start, (j - 1) as nat)
        },
        None => None,
    }
}

/// The session holds a candle.
pub open spec fn session_has_candle<C>(s: Seq<(i64, C)>, w: Option<(i64, i64)>) -> bool {
    w matches Some(v) && has_key_in(s, v.0, v.1)
}

proof fn lemma_search_finds<C>(s: Seq<(i64, C)>, end: i64, k: nat, j: nat) -> (m: nat)
    requires
        j < k,
        session_has_candle(s, session_back(end, j)),
    ensures
        m <= j,
        session_has_candle(s, session_back(end, m)),
        search_sessions(s, end, k) == Some(Some(session_back(end, m)->0)),
        forall|i: nat| i < m ==> !session_has_candle(s, #[trigger] session_back(end, i)),
    decreases k,
{
    let start = spec_previous_close(end)->0;
    if has_key_in(s, start, end) {
        0
    } else {
        let m0 = lemma_search_finds(s, start, (k - 1) as nat, (j - 1) as nat);
        assert forall|i: nat| i < m0 + 1 implies !session_has_candle(s, #[trigger] session_back(end, i)) by {
            if i > 0 {
                assert(session_back(end, i) == session_back(start, (i - 1) as nat));
            }
        }
        assert(session_back(end, m0 + 1) == session_back(start, m0));
        m0 + 1
    }
}

/// The previous-session profile covers the weekend and holiday hole: when
/// one of the `MAX_SESSION_LOOKBACK` sessions before the last close holds a
/// candle, the window is the latest of them that does; every later session
/// up to the last close is empty.
pub proof fn lemma_previous_session_skips_empty_sessions<C>(s: Seq<(i64, C)>, now: i64, j: nat)
    requires
        j < MAX_SESSION_LOOKBACK,
        spec_last_session_close(now) is Some,
        session_has_candle(s, session_back(spec_last_session_close(now)->0, j)),
    ensures
        spec_previous_session(s, now) matches Some(w) && has_key_in(s, w.0, w.1) && exists|m: nat|
            m <= j && #[trigger] session_back(spec_last_session_close(now)->0, m) == Some(w) && forall|i: nat|
                i < m ==> !session_has_candle(s, #[trigger] session_back(spec_last_session_close(now)->0, i)),
{
    let e = spec_last_session_close(now)->0;
    let m = lemma_search_finds(s, e, MAX_SESSION_LOOKBACK as nat, j);
    assert(session_back(e, m) is Some);
}

} // verus!
