//! Liveness of the upstream feeds: each feed's record, how it changes,
//! and the table of all of them.
use vstd::prelude::*;
use dashmap::DashMap;
use crate::text::{chars_of, same_chars};

verus! {

/// State of one feed: its label ("starting" | "connected" | "disconnected"
/// | "error: ..." | "off"), when it last delivered a message, and how many.
#[derive(Debug)]
pub struct FeedState {
    pub state: String,
    pub last_msg: i64,
    pub msgs: u64,
}

impl FeedState {
    /// A feed first mentioned: no label yet, no messages.
    pub fn fresh() -> (s: Self)
        ensures
            s.state@ == Seq::<char>::empty(),
            s.last_msg == 0,
            s.msgs == 0,
    {
        FeedState { state: String::new(), last_msg: 0, msgs: 0 }
    }

    /// Transition to `state`. Returns whether the label changed (only a
    /// change is broadcast); the message counters are untouched.
    pub fn set(&mut self, state: &str) -> (changed: bool)
        ensures
            changed == (old(self).state@ != state@),
            final(self).state@ == state@,
            final(self).last_msg == old(self).last_msg,
            final(self).msgs == old(self).msgs,
    {
        let same = same_chars(&chars_of(self.state.as_str()), &chars_of(state));
        if same {
            return false;
        }
        self.state = state.to_owned();
        true
    }

    /// Record an inbound message at `now_ms`.
    pub fn mark_msg(&mut self, now_ms: i64)
        requires
            old(self).msgs < u64::MAX,
        ensures
            final(self).state == old(self).state,
            final(self).last_msg == now_ms,
            final(self).msgs == old(self).msgs + 1,
    {
        self.last_msg = now_ms;
        self.msgs = self.msgs + 1;
    }
}


#[verifier::external_type_specification]
#[verifier::external_body]
#[verifier::reject_recursive_types(K)]
#[verifier::reject_recursive_types(V)]
#[verifier::reject_recursive_types(S)]
pub struct ExDashMap<K, V, S>(DashMap<K, V, S>);

/// A feed record as plain values: (label, last message time, count).
pub open spec fn record(s: FeedState) -> (Seq<char>, i64, u64) {
    (s.state@, s.last_msg, s.msgs)
}

/// What a feed table holds: each feed name's record.
pub uninterp spec fn feed_records(m: DashMap<String, FeedState>) -> Map<Seq<char>, (Seq<char>, i64, u64)>;

/// Calls `DashMap::new`: an empty table.
#[verifier::external_body]
fn records_new() -> (table: DashMap<String, FeedState>)
    ensures
        feed_records(table).dom() =~= Set::<Seq<char>>::empty(),
{
    DashMap::new()
}

/// Calls `DashMap::get` and copies the record out: the record of `feed`,
/// None when the table has none.
#[verifier::external_body]
fn records_get(m: &DashMap<String, FeedState>, feed: &str) -> (r: Option<FeedState>)
    ensures
        match r {
            Some(s) => feed_records(*m).dom().contains(feed@) && feed_records(*m)[feed@] == record(s),
            None => !feed_records(*m).dom().contains(feed@),
        },
{
    match m.get(feed) {
        Some(e) => Some(FeedState { state: e.state.clone(), last_msg: e.last_msg, msgs: e.msgs }),
        None => None,
    }
}

/// Calls `DashMap::insert`: `feed` now holds `s`, every other record is
/// unchanged.
#[verifier::external_body]
fn records_insert(m: &mut DashMap<String, FeedState>, feed: &str, s: FeedState)
    ensures
        feed_records(*final(m)) == feed_records(*old(m)).insert(feed@, record(s)),
{
    m.insert(feed.to_owned(), s);
}

/// Walks the table with `DashMap::iter`, copying each record out: every
/// feed once, in the table's own (unspecified) order.
#[verifier::external_body]
fn records_all(m: &DashMap<String, FeedState>) -> (v: Vec<(String, FeedState)>)
    ensures
        forall|i: int| 0 <= i < v@.len() ==> #[trigger] feed_records(*m).dom().contains(v@[i].0@)
            && feed_records(*m)[v@[i].0@] == record(v@[i].1),
        forall|k: Seq<char>| #[trigger] feed_records(*m).dom().contains(k) ==> exists|i: int| 0 <= i < v@.len() && #[trigger] v@[i].0@ == k,
        forall|i: int, j: int| 0 <= i < j < v@.len() ==> v@[i].0@ != v@[j].0@,
{
    let mut out = Vec::new();
    for e in m.iter() {
        out.push((e.key().clone(), FeedState { state: e.state.clone(), last_msg: e.last_msg, msgs: e.msgs }));
    }
    out
}

/// The liveness records of all feeds, by feed name.
pub struct FeedTable {
    feeds: DashMap<String, FeedState>,
}

impl View for FeedTable {
    type V = Map<Seq<char>, (Seq<char>, i64, u64)>;

    closed spec fn view(&self) -> Map<Seq<char>, (Seq<char>, i64, u64)> {
        feed_records(self.feeds)
    }
}

/// The record of `feed`, or a fresh one (no label, no messages).
pub open spec fn record_or_fresh(t: Map<Seq<char>, (Seq<char>, i64, u64)>, feed: Seq<char>) -> (Seq<char>, i64, u64) {
    if t.dom().contains(feed) {
        t[feed]
    } else {
        (Seq::empty(), 0, 0)
    }
}

impl FeedTable {
    /// A table with no feeds.
    pub fn new() -> (t: Self)
        ensures
            t@ == Map::<Seq<char>, (Seq<char>, i64, u64)>::empty(),
    {
        FeedTable { feeds: records_new() }
    }

    /// The record of `feed`, if it was ever mentioned.
    pub fn get(&self, feed: &str) -> (r: Option<FeedState>)
        ensures
            match r {
                Some(s) => self@.dom().contains(feed@) && self@[feed@] == record(s),
                None => !self@.dom().contains(feed@),
            },
    {
        records_get(&self.feeds, feed)
    }

    /// Transition `feed` to `state`; a feed first mentioned starts fresh.
    /// Returns whether its label changed (only a change is broadcast); the
    /// message counters are untouched.
    pub fn set(&mut self, feed: &str, state: &str) -> (changed: bool)
        ensures
            changed == (record_or_fresh(old(self)@, feed@).0 != state@),
            final(self)@ == old(self)@.insert(
                feed@,
                (state@, record_or_fresh(old(self)@, feed@).1, record_or_fresh(old(self)@, feed@).2),
            ),
    {
        let mut rec = match records_get(&self.feeds, feed) {
            Some(s) => s,
            None => FeedState::fresh(),
        };
        let changed = rec.set(state);
        records_insert(&mut self.feeds, feed, rec);
        changed
    }

    /// Record an inbound message on `feed` at `now_ms`; a feed never
    /// mentioned is left out.
    pub fn mark_msg(&mut self, feed: &str, now_ms: i64)
        requires
            old(self)@.dom().contains(feed@) ==> old(self)@[feed@].2 < u64::MAX,
        ensures
            old(self)@.dom().contains(feed@) ==> final(self)@ == old(self)@.insert(
                feed@,
                (old(self)@[feed@].0, now_ms, (old(self)@[feed@].2 + 1) as u64),
            ),
            !old(self)@.dom().contains(feed@) ==> final(self)@ == old(self)@,
    {
        match records_get(&self.feeds, feed) {
            Some(mut rec) => {
                rec.mark_msg(now_ms);
                records_insert(&mut self.feeds, feed, rec);
            },
            None => {},
        }
    }

    /// Every feed's record, each feed once, in no particular order.
    pub fn entries(&self) -> (v: Vec<(String, FeedState)>)
        ensures
            forall|i: int| 0 <= i < v@.len() ==> #[trigger] self@.dom().contains(v@[i].0@) && self@[v@[i].0@]
                == record(v@[i].1),
            forall|k: Seq<char>| #[trigger] self@.dom().contains(k) ==> exists|i: int| 0 <= i < v@.len() && #[trigger] v@[i].0@ == k,
            forall|i: int, j: int| 0 <= i < j < v@.len() ==> v@[i].0@ != v@[j].0@,
    {
        records_all(&self.feeds)
    }
}

/// Setting a feed to the label it already has changes nothing and reports
/// no change: a repeated transition is never broadcast twice.
pub proof fn lemma_repeated_set_is_silent(
    t: Map<Seq<char>, (Seq<char>, i64, u64)>,
    feed: Seq<char>,
    state: Seq<char>,
)
    ensures
        ({
            let once = t.insert(feed, (state, record_or_fresh(t, feed).1, record_or_fresh(t, feed).2));
            &&& record_or_fresh(once, feed).0 == state
            &&& once.insert(feed, (state, record_or_fresh(once, feed).1, record_or_fresh(once, feed).2)) == once
        }),
{
    let once = t.insert(feed, (state, record_or_fresh(t, feed).1, record_or_fresh(t, feed).2));
    assert(once.insert(feed, (state, record_or_fresh(once, feed).1, record_or_fresh(once, feed).2)) =~= once);
}
} // verus!
