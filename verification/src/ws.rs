//! Per-connection topic filtering of the dashboard WebSocket.
use vstd::prelude::*;
use crate::text::{chars_of, same_chars};

verus! {

/// The kinds of frame on the broadcast bus.
#[derive(Debug, Clone, Copy, PartialEq, Eq, Structural)]
pub enum FrameKind {
    Levels,
    Candle,
    Bubbles,
    Trades,
    Calendar,
    Status,
    TickVolume,
    Subscribe,
    Heartbeat,
}

/// The subscription topic a frame kind belongs to; heartbeats and
/// subscribe requests belong to none.
pub open spec fn spec_topic(k: FrameKind) -> Option<Seq<char>> {
    match k {
        FrameKind::Levels => Some("levels"@),
        FrameKind::Candle => Some("candle"@),
        FrameKind::Bubbles => Some("bubbles"@),
        FrameKind::Trades => Some("trades"@),
        FrameKind::Calendar => Some("calendar"@),
        FrameKind::Status => Some("status"@),
        FrameKind::TickVolume => Some("tick_volume"@),
        FrameKind::Subscribe => None,
        FrameKind::Heartbeat => None,
    }
}

pub fn topic_of(k: FrameKind) -> (r: Option<&'static str>)
    ensures
        match r {
            Some(t) => spec_topic(k) == Some(t@),
            None => spec_topic(k) is None,
        },
{
    match k {
        FrameKind::Levels => Some("levels"),
        FrameKind::Candle => Some("candle"),
        FrameKind::Bubbles => Some("bubbles"),
        FrameKind::Trades => Some("trades"),
        FrameKind::Calendar => Some("calendar"),
        FrameKind::Status => Some("status"),
        FrameKind::TickVolume => Some("tick_volume"),
        FrameKind::Subscribe => None,
        FrameKind::Heartbeat => None,
    }
}

/// What a new subscription replays from the caches: levels when
/// subscribed to "levels", candles for "candle", the stored tick-volume
/// bars for "tick_volume", the calendar for "calendar", and the feed
/// status always.
#[derive(Debug, Clone, Copy, PartialEq, Eq)]
pub struct Replay {
    pub levels: bool,
    pub candles: bool,
    pub tick_volume: bool,
    pub calendar: bool,
    pub status: bool,
}

/// `k` when `on`, else nothing.
pub open spec fn if_on(on: bool, k: FrameKind) -> Seq<FrameKind> {
    if on { seq![k] } else { Seq::empty() }
}

/// The order of a replay: levels, then candles, then the stored tick-volume
/// bars, then the calendar, then the feed status, each when asked for.
pub open spec fn replay_order(r: Replay) -> Seq<FrameKind> {
    if_on(r.levels, FrameKind::Levels) + if_on(r.candles, FrameKind::Candle) + if_on(
        r.tick_volume,
        FrameKind::TickVolume,
    ) + if_on(r.calendar, FrameKind::Calendar) + if_on(r.status, FrameKind::Status)
}

impl Replay {
    /// The kinds of cached frame to send, in the order they go out (see
    /// `replay_order`).
    pub fn plan(&self) -> (v: Vec<FrameKind>)
        ensures
            v@ == replay_order(*self),
    {
        let mut v: Vec<FrameKind> = Vec::new();
        if self.levels {
            v.push(FrameKind::Levels);
        }
        assert(v@ =~= if_on(self.levels, FrameKind::Levels));
        let ghost a = v@;
        if self.candles {
            v.push(FrameKind::Candle);
        }
        assert(v@ =~= a + if_on(self.candles, FrameKind::Candle));
        let ghost b = v@;
        if self.tick_volume {
            v.push(FrameKind::TickVolume);
        }
        assert(v@ =~= b + if_on(self.tick_volume, FrameKind::TickVolume));
        let ghost c = v@;
        if self.calendar {
            v.push(FrameKind::Calendar);
        }
        assert(v@ =~= c + if_on(self.calendar, FrameKind::Calendar));
        let ghost d = v@;
        if self.status {
            v.push(FrameKind::Status);
        }
        assert(v@ =~= d + if_on(self.status, FrameKind::Status));
        v
    }
}

pub open spec fn topic_views(v: Seq<String>) -> Seq<Seq<char>> {
    v.map_values(|s: String| s@)
}

/// One dashboard connection: whether it has subscribed, and to what.
pub struct WsSession {
    topics: Vec<String>,
    subscribed: bool,
}

impl WsSession {
    pub closed spec fn is_subscribed(&self) -> bool {
        self.subscribed
    }

    pub closed spec fn topic_set(&self) -> Seq<Seq<char>> {
        topic_views(self.topics@)
    }

    /// A connection that has not subscribed yet.
    pub fn new() -> (s: Self)
        ensures
            !s.is_subscribed(),
            s.topic_set() == Seq::<Seq<char>>::empty(),
    {
        WsSession { topics: Vec::new(), subscribed: false }
    }

    fn has_topic(&self, t: &str) -> (r: bool)
        ensures
            r == self.topic_set().contains(t@),
    {
        let tc = chars_of(t);
        for i in 0..self.topics.len()
            invariant
                tc@ == t@,
                forall|j: int| 0 <= j < i ==> #[trigger] self.topic_set()[j] != t@,
        {
            assert(self.topic_set()[i as int] == self.topics@[i as int]@);
            if same_chars(&chars_of(self.topics[i].as_str()), &tc) {
                assert(self.topic_set()[i as int] == t@);
                return true;
            }
        }
        false
    }

    /// Subscribe (replacing any earlier subscription) and say what to
    /// replay.
    pub fn subscribe(&mut self, topics: Vec<String>) -> (r: Replay)
        ensures
            final(self).is_subscribed(),
            final(self).topic_set() == topic_views(topics@),
            r.levels == topic_views(topics@).contains("levels"@),
            r.candles == topic_views(topics@).contains("candle"@),
            r.tick_volume == topic_views(topics@).contains("tick_volume"@),
            r.calendar == topic_views(topics@).contains("calendar"@),
            r.status,
    {
        self.topics = topics;
        self.subscribed = true;
        Replay {
            levels: self.has_topic("levels"),
            candles: self.has_topic("candle"),
            tick_volume: self.has_topic("tick_volume"),
            calendar: self.has_topic("calendar"),
            status: true,
        }
    }

    /// Whether a broadcast frame goes out on this connection: nothing before
    /// a subscription; then heartbeats always, and other frames when their
    /// topic was subscribed to.
    pub fn forwards(&self, kind: FrameKind) -> (r: bool)
        ensures
            r == (self.is_subscribed() && (kind == FrameKind::Heartbeat || (spec_topic(kind) is Some
                && self.topic_set().contains(spec_topic(kind)->0)))),
    {
        if !self.subscribed {
            return false;
        }
        if kind == FrameKind::Heartbeat {
            return true;
        }
        match topic_of(kind) {
            Some(t) => self.has_topic(t),
            None => false,
        }
    }
}

} // verus!
