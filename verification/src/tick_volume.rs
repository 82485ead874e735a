//! Bounded history of live tick-volume bars, sorted by bar time.
//!
//! The stream adapter writes here before broadcasting, so a client that
//! subscribes mid-bucket gets the in-progress bar in its replay and then
//! sees every following update. Clients upsert by `time`, which makes the
//! overlap harmless.
use vstd::prelude::*;
use std::collections::VecDeque;
use crate::types::TickVolumeBar;

verus! {

/// Bar times strictly increase along `s` (sorted, one bar per time).
pub open spec fn times_increasing(s: Seq<TickVolumeBar>) -> bool {
    forall|i: int, j: int| 0 <= i < j < s.len() ==> s[i].time < s[j].time
}

/// How many leading bars are older than `t`.
pub open spec fn pos_before(s: Seq<TickVolumeBar>, t: i64) -> nat
    decreases s.len(),
{
    if s.len() == 0 || s[0].time >= t {
        0
    } else {
        1 + pos_before(s.drop_first(), t)
    }
}

/// `bar` written into the sorted `s`: it replaces the bar with the same
/// time, or is inserted where its time belongs.
pub open spec fn place_bar(s: Seq<TickVolumeBar>, bar: TickVolumeBar) -> Seq<TickVolumeBar> {
    let p = pos_before(s, bar.time) as int;
    if p < s.len() && s[p].time == bar.time {
        s.update(p, bar)
    } else {
        s.insert(p, bar)
    }
}

/// The newest `cap` bars of `s`.
pub open spec fn keep_newest(s: Seq<TickVolumeBar>, cap: nat) -> Seq<TickVolumeBar> {
    if s.len() > cap {
        s.skip(s.len() - cap)
    } else {
        s
    }
}

pub open spec fn spec_upsert(s: Seq<TickVolumeBar>, bar: TickVolumeBar, cap: nat) -> Seq<
    TickVolumeBar,
> {
    keep_newest(place_bar(s, bar), cap)
}

proof fn lemma_pos_before(s: Seq<TickVolumeBar>, t: i64, k: int)
    requires
        times_increasing(s),
        0 <= k <= s.len(),
        forall|i: int| 0 <= i < k ==> (#[trigger] s[i]).time < t,
        k == s.len() || s[k].time >= t,
    ensures
        pos_before(s, t) == k,
    decreases k,
{
    if k > 0 {
        let d = s.drop_first();
        assert forall|i: int| 0 <= i < k - 1 implies (#[trigger] d[i]).time < t by {
            assert(d[i] == s[i + 1]);
        }
        if k < s.len() {
            assert(d[k - 1] == s[k]);
        }
        lemma_pos_before(d, t, k - 1);
    }
}

proof fn lemma_place_sorted(s: Seq<TickVolumeBar>, bar: TickVolumeBar, p: int)
    requires
        times_increasing(s),
        0 <= p <= s.len(),
        forall|i: int| 0 <= i < p ==> (#[trigger] s[i]).time < bar.time,
        forall|i: int| p <= i < s.len() ==> (#[trigger] s[i]).time >= bar.time,
    ensures
        times_increasing(place_bar(s, bar)),
{
    lemma_pos_before(s, bar.time, p);
    let r = place_bar(s, bar);
    if p < s.len() && s[p].time == bar.time {
        assert forall|i: int, j: int| 0 <= i < j < r.len() implies r[i].time < r[j].time by {
            if j > p {
                assert(s[j].time > s[p].time);
            }
        }
    } else {
        assert forall|i: int, j: int| 0 <= i < j < r.len() implies r[i].time < r[j].time by {
            if i < p && j > p {
                assert(r[j] == s[j - 1]);
            } else if i == p {
                assert(r[j] == s[j - 1]);
            } else if i > p {
                assert(r[i] == s[i - 1]);
                assert(r[j] == s[j - 1]);
            }
        }
    }
}

/// Insert-or-replace store of the most recent tick-volume bars.
pub struct TickVolumeStore {
    bars: VecDeque<TickVolumeBar>,
    capacity: usize,
}

impl View for TickVolumeStore {
    type V = Seq<TickVolumeBar>;

    closed spec fn view(&self) -> Seq<TickVolumeBar> {
        self.bars@
    }
}

impl TickVolumeStore {
    /// The most bars the store keeps.
    pub closed spec fn cap(&self) -> nat {
        self.capacity as nat
    }

    /// Well-formed: a positive capacity, never exceeded, bars sorted by
    /// strictly increasing time.
    pub closed spec fn wf(&self) -> bool {
        &&& self.capacity >= 1
        &&& self.bars@.len() <= self.capacity
        &&& times_increasing(self.bars@)
    }

    /// A well-formed store keeps its bars in strictly increasing time and
    /// never more of them than its (positive) capacity.
    pub proof fn lemma_sorted_and_bounded(&self)
        requires
            self.wf(),
        ensures
            times_increasing(self@),
            self@.len() <= self.cap(),
            self.cap() >= 1,
    {
    }

    /// An empty store that keeps at most `max(capacity, 1)` bars.
    pub fn new(capacity: usize) -> (s: Self)
        ensures
            s.wf(),
            s@ == Seq::<TickVolumeBar>::empty(),
            s.cap() == if capacity >= 1 { capacity as nat } else { 1 },
    {
        let initial = if capacity < 4096 { capacity } else { 4096 };
        TickVolumeStore {
            bars: VecDeque::with_capacity(initial),
            capacity: if capacity >= 1 { capacity } else { 1 },
        }
    }

    /// Insert or replace the bar for `bar.time`, keeping bars sorted by time
    /// and never holding more than the capacity (the oldest go first).
    pub fn upsert(&mut self, bar: TickVolumeBar)
        requires
            old(self).wf(),
        ensures
            final(self).wf(),
            final(self).cap() == old(self).cap(),
            final(self)@ == spec_upsert(old(self)@, bar, old(self).cap()),
    {
        let ghost s = self.bars@;
        let ghost cap0 = self.capacity;
        let t = bar.time;
        let n = self.bars.len();
        let p: usize;
        if n == 0 || self.bars[n - 1].time < t {
            p = n;
            proof {
                assert forall|i: int| 0 <= i < n implies (#[trigger] s[i]).time < t by {
                    if i < n - 1 {
                        assert(s[i].time < s[n - 1].time);
                    }
                }
            }
        } else {
            let mut lo: usize = 0;
            let mut hi: usize = n - 1;
            while lo < hi
                invariant
                    s == self.bars@,
                    n == s.len(),
                    times_increasing(s),
                    lo <= hi < n,
                    forall|i: int| 0 <= i < lo ==> (#[trigger] s[i]).time < t,
                    forall|i: int| hi <= i < n ==> (#[trigger] s[i]).time >= t,
                decreases hi - lo,
            {
                let mid = lo + (hi - lo) / 2;
                if self.bars[mid].time < t {
                    proof {
                        assert forall|i: int| 0 <= i < mid + 1 implies (#[trigger] s[i]).time < t by {
                            if i < mid {
                                assert(s[i].time < s[mid as int].time);
                            }
                        }
                    }
                    lo = mid + 1;
                } else {
                    proof {
                        assert forall|i: int| mid <= i < n implies (#[trigger] s[i]).time >= t by {
                            if i > mid {
                                assert(s[i].time > s[mid as int].time);
                            }
                        }
                    }
                    hi = mid;
                }
            }
            p = lo;
        }
        proof {
            lemma_pos_before(s, t, p as int);
            lemma_place_sorted(s, bar, p as int);
        }
        if p < n && self.bars[p].time == t {
            let _ = self.bars.remove(p);
            self.bars.insert(p, bar);
            assert(self.bars@ =~= s.update(p as int, bar));
        } else {
            self.bars.insert(p, bar);
        }
        let ghost placed = self.bars@;
        assert(placed == place_bar(s, bar));
        assert(placed.skip(0) =~= placed);
        while self.bars.len() > self.capacity
            invariant
                self.capacity == cap0,
                self.capacity >= 1,
                s.len() <= self.capacity,
                placed.len() <= s.len() + 1,
                times_increasing(placed),
                self.bars@.len() <= placed.len(),
                placed.len() > self.capacity ==> self.bars@.len() >= self.capacity,
                placed.len() <= self.capacity ==> self.bars@ == placed,
                self.bars@ == placed.skip(placed.len() - self.bars@.len()),
            decreases self.bars@.len(),
        {
            let ghost pre = self.bars@;
            let _ = self.bars.pop_front();
            assert(self.bars@ =~= placed.skip(placed.len() - self.bars@.len()));
        }
        proof {
            let r = self.bars@;
            if placed.len() > self.capacity {
                assert(r == placed.skip(placed.len() - self.capacity));
            }
            assert(r == keep_newest(placed, cap0 as nat));
            assert forall|i: int, j: int| 0 <= i < j < r.len() implies r[i].time < r[j].time by {
                let off = placed.len() - r.len();
                assert(r[i] == placed[i + off]);
                assert(r[j] == placed[j + off]);
            }
        }
    }

    /// All bars, oldest first (strictly increasing time, at most the
    /// capacity of them); the store is left as it was.
    pub fn snapshot(&self) -> (out: Vec<TickVolumeBar>)
        ensures
            out@ == self@,
            self.wf() ==> times_increasing(out@) && out@.len() <= self.cap(),
    {
        let mut out: Vec<TickVolumeBar> = Vec::new();
        let n = self.bars.len();
        for i in 0..n
            invariant
                n == self.bars@.len(),
                out@ == self.bars@.take(i as int),
        {
            out.push(self.bars[i].clone());
            assert(out@ =~= self.bars@.take(i + 1));
        }
        assert(self.bars@.take(n as int) =~= self.bars@);
        out
    }
}


proof fn lemma_pos_before_props(s: Seq<TickVolumeBar>, t: i64)
    requires
        times_increasing(s),
    ensures
        pos_before(s, t) <= s.len(),
        forall|i: int| 0 <= i < pos_before(s, t) ==> (#[trigger] s[i]).time < t,
        forall|i: int| pos_before(s, t) <= i < s.len() ==> (#[trigger] s[i]).time >= t,
    decreases s.len(),
{
    if s.len() > 0 && s[0].time < t {
        let d = s.drop_first();
        lemma_pos_before_props(d, t);
        assert forall|i: int| 0 <= i < pos_before(s, t) implies (#[trigger] s[i]).time < t by {
            if i > 0 {
                assert(s[i] == d[i - 1]);
            }
        }
        assert forall|i: int| pos_before(s, t) <= i < s.len() implies (#[trigger] s[i]).time >= t by {
            assert(s[i] == d[i - 1]);
        }
    } else if s.len() > 0 {
        assert forall|i: int| 0 <= i < s.len() implies (#[trigger] s[i]).time >= t by {
            if i > 0 {
                assert(s[i].time > s[0].time);
            }
        }
    }
}

/// Writing a bar into a sorted store within its capacity leaves it sorted
/// by strictly increasing time and within its capacity (the oldest bars go
/// first).
pub proof fn lemma_upsert_sorted_and_bounded(s: Seq<TickVolumeBar>, bar: TickVolumeBar, cap: nat)
    requires
        cap >= 1,
        s.len() <= cap,
        times_increasing(s),
    ensures
        times_increasing(spec_upsert(s, bar, cap)),
        spec_upsert(s, bar, cap).len() <= cap,
{
    lemma_pos_before_props(s, bar.time);
    lemma_place_sorted(s, bar, pos_before(s, bar.time) as int);
    let placed = place_bar(s, bar);
    let r = spec_upsert(s, bar, cap);
    if placed.len() > cap {
        assert forall|i: int, j: int| 0 <= i < j < r.len() implies r[i].time < r[j].time by {
            let off = placed.len() - cap;
            assert(r[i] == placed[i + off]);
            assert(r[j] == placed[j + off]);
        }
    }
}

/// The live bar is readable: writing a bar at least as new as every stored
/// bar makes it the newest bar of the store.
pub proof fn lemma_upsert_newest_is_live(s: Seq<TickVolumeBar>, bar: TickVolumeBar, cap: nat)
    requires
        cap >= 1,
        s.len() <= cap,
        times_increasing(s),
        s.len() == 0 || s.last().time <= bar.time,
    ensures
        spec_upsert(s, bar, cap).len() >= 1,
        spec_upsert(s, bar, cap).last() == bar,
{
    lemma_pos_before_props(s, bar.time);
    let p = pos_before(s, bar.time) as int;
    let placed = place_bar(s, bar);
    if p < s.len() && s[p].time == bar.time {
        assert(p == s.len() - 1) by {
            if p < s.len() - 1 {
                assert(s[p].time < s.last().time);
            }
        }
    } else {
        assert(p == s.len()) by {
            if p < s.len() {
                assert(s[p].time > bar.time || s[p].time == bar.time);
                if p < s.len() - 1 {
                    assert(s[p].time < s.last().time);
                }
            }
        }
    }
    assert(placed.last() == bar);
}

/// Writing the same bar twice leaves the store as writing it once.
pub proof fn lemma_upsert_idempotent(s: Seq<TickVolumeBar>, bar: TickVolumeBar, cap: nat)
    requires
        cap >= 1,
        s.len() <= cap,
        times_increasing(s),
    ensures
        spec_upsert(spec_upsert(s, bar, cap), bar, cap) == spec_upsert(s, bar, cap),
{
    lemma_pos_before_props(s, bar.time);
    let t = bar.time;
    let p = pos_before(s, t) as int;
    let placed = place_bar(s, bar);
    lemma_place_sorted(s, bar, p);
    let r = spec_upsert(s, bar, cap);
    if p < s.len() && s[p].time == t {
        assert(r == placed);
        lemma_pos_before(r, t, p);
        assert(r.update(p, bar) =~= r);
    } else if placed.len() <= cap {
        assert(r == placed);
        assert forall|i: int| 0 <= i < p implies (#[trigger] r[i]).time < t by {
            assert(r[i] == s[i]);
        }
        lemma_pos_before(r, t, p);
        assert(r.update(p, bar) =~= r);
    } else if p >= 1 {
        assert(r == placed.skip(1));
        assert(times_increasing(r)) by {
            assert forall|i: int, j: int| 0 <= i < j < r.len() implies r[i].time < r[j].time by {
                assert(r[i] == placed[i + 1]);
                assert(r[j] == placed[j + 1]);
            }
        }
        assert(r[p - 1] == bar);
        assert forall|i: int| 0 <= i < p - 1 implies (#[trigger] r[i]).time < t by {
            assert(r[i] == s[i + 1]);
        }
        lemma_pos_before(r, t, p - 1);
        assert(r.update(p - 1, bar) =~= r);
    } else {
        assert(r =~= s);
    }
}


/// A written bar can be read back: after an upsert the store holds the
/// bar, unless the store was full and the bar is older than every stored
/// bar (then it is the oldest and the first to go).
pub proof fn lemma_upsert_keeps_bar(s: Seq<TickVolumeBar>, bar: TickVolumeBar, cap: nat)
    requires
        cap >= 1,
        s.len() <= cap,
        times_increasing(s),
        s.len() < cap || s[0].time <= bar.time,
    ensures
        spec_upsert(s, bar, cap).contains(bar),
{
    lemma_pos_before_props(s, bar.time);
    let p = pos_before(s, bar.time) as int;
    let placed = place_bar(s, bar);
    let r = spec_upsert(s, bar, cap);
    if p < s.len() && s[p].time == bar.time {
        assert(placed[p] == bar);
        assert(r == placed);
        assert(r[p] == bar);
    } else if placed.len() <= cap {
        assert(placed[p] == bar);
        assert(r == placed);
        assert(r[p] == bar);
    } else {
        assert(s.len() == cap);
        assert(p >= 1) by {
            if p == 0 {
                assert(s[0].time >= bar.time);
                assert(s[0].time != bar.time);
            }
        }
        assert(placed[p] == bar);
        assert(r == placed.skip(1));
        assert(r[p - 1] == bar);
    }
}
} // verus!
