use xauusd_engine::order_flow::{trade_side, Debouncer, DEBOUNCE_MS};
use xauusd_engine::status::{FeedState, FeedTable};
use xauusd_engine::types::{default_exchange, default_true, AggTrade};
use xauusd_engine::ws::{topic_of, FrameKind, WsSession};

#[test]
fn a_feed_state_reports_only_changes() {
    let mut f = FeedState::fresh();
    assert!(f.set("connecting"));
    assert!(!f.set("connecting"));
    f.mark_msg(1_000);
    f.mark_msg(2_000);
    assert!(f.set("connected"));
    assert_eq!((f.state.as_str(), f.last_msg, f.msgs), ("connected", 2_000, 2));
}

#[test]
fn events_of_one_kind_are_debounced_for_two_seconds() {
    let mut d = Debouncer::new();
    assert!(d.should_emit("BUY_BUBBLE", 10_000));
    assert!(!d.should_emit("BUY_BUBBLE", 10_000 + DEBOUNCE_MS - 1));
    // Other kinds are independent.
    assert!(d.should_emit("ABS_SELL", 10_001));
    assert!(d.should_emit("BUY_BUBBLE", 10_000 + DEBOUNCE_MS));
    assert!(!d.should_emit("BUY_BUBBLE", 11_000 + DEBOUNCE_MS));
}

#[test]
fn events_map_to_trade_sides() {
    assert_eq!(trade_side("BUY_BUBBLE").as_deref(), Some("buy"));
    assert_eq!(trade_side("ABS_BUY").as_deref(), Some("buy"));
    assert_eq!(trade_side("SELL_BUBBLE").as_deref(), Some("sell"));
    assert_eq!(trade_side("ABS_SELL").as_deref(), Some("sell"));
    assert_eq!(trade_side("buy_bubble"), None);
}

#[test]
fn trades_are_normalized_records() {
    let t = AggTrade::new("bybit", "XAUUSDT", "3301.5", "0.2", 42, true, true);
    assert_eq!(t.event_type, "trade");
    assert_eq!((t.event_time, t.trade_time), (42, 42));
    assert!(!t.is_buyer_maker);
    assert_eq!((t.price.as_str(), t.quantity.as_str()), ("3301.5", "0.2"));
    assert_eq!((t.agg_id, t.first_trade_id, t.last_trade_id), (0, 0, 0));
    assert_eq!(t.symbol_type, None);
    assert_eq!(t.exchange, "bybit");
    let q = AggTrade::new("itick", "XAUUSD", "1", "0", 1, false, false);
    assert!(q.is_buyer_maker && !q.has_flow_side);
    assert_eq!(default_exchange(), "binance");
    assert!(default_true());
}

#[test]
fn a_connection_forwards_only_what_it_subscribed_to() {
    let mut s = WsSession::new();
    assert!(!s.forwards(FrameKind::Heartbeat));
    assert!(!s.forwards(FrameKind::Levels));
    let r = s.subscribe(vec!["levels".into(), "tick_volume".into()]);
    assert!(r.levels && !r.candles && r.tick_volume && !r.calendar && r.status);
    assert!(s.forwards(FrameKind::Heartbeat));
    assert!(s.forwards(FrameKind::Levels));
    assert!(s.forwards(FrameKind::TickVolume));
    assert!(!s.forwards(FrameKind::Candle));
    assert!(!s.forwards(FrameKind::Subscribe));
    // A new subscription replaces the old one.
    let r = s.subscribe(vec!["candle".into(), "calendar".into()]);
    assert!(!r.levels && r.candles && !r.tick_volume && r.calendar);
    assert!(!s.forwards(FrameKind::Levels));
    assert!(s.forwards(FrameKind::Candle));
}

#[test]
fn frame_kinds_name_their_topics() {
    assert_eq!(topic_of(FrameKind::TickVolume), Some("tick_volume"));
    assert_eq!(topic_of(FrameKind::Bubbles), Some("bubbles"));
    assert_eq!(topic_of(FrameKind::Heartbeat), None);
    assert_eq!(topic_of(FrameKind::Subscribe), None);
}

#[test]
fn a_feed_table_broadcasts_only_changes_and_counts_messages() {
    let mut t = FeedTable::new();
    assert!(t.get("binance").is_none());
    // A message on a feed never mentioned is not recorded.
    t.mark_msg("binance", 500);
    assert!(t.get("binance").is_none());
    assert!(t.set("binance", "starting"));
    assert!(!t.set("binance", "starting"));
    t.mark_msg("binance", 1_000);
    t.mark_msg("binance", 2_000);
    assert!(t.set("binance", "connected"));
    let b = t.get("binance").unwrap();
    assert_eq!((b.state.as_str(), b.last_msg, b.msgs), ("connected", 2_000, 2));
    assert!(t.set("bybit", "off"));
    let mut names: Vec<String> = t.entries().into_iter().map(|(n, _)| n).collect();
    names.sort();
    assert_eq!(names, vec!["binance".to_string(), "bybit".to_string()]);
}

#[test]
fn an_empty_label_is_no_change_for_a_fresh_feed() {
    let mut t = FeedTable::new();
    assert!(!t.set("okx", ""));
    assert_eq!(t.get("okx").unwrap().state, "");
    assert_eq!(t.entries().len(), 1);
}

#[test]
fn the_debouncer_reports_each_kinds_last_emission() {
    let mut d = Debouncer::new();
    assert_eq!(d.last_emit("ABS_BUY"), None);
    assert!(d.should_emit("ABS_BUY", 5_000));
    assert_eq!(d.last_emit("ABS_BUY"), Some(5_000));
    assert!(!d.should_emit("ABS_BUY", 6_000));
    assert_eq!(d.last_emit("ABS_BUY"), Some(5_000));
    assert_eq!(d.last_emit("SELL_BUBBLE"), None);
}

#[test]
fn a_replay_goes_out_levels_candles_bars_calendar_then_status() {
    let mut s = WsSession::new();
    let r = s.subscribe(vec!["status".into(), "calendar".into(), "tick_volume".into(), "candle".into(), "levels".into()]);
    assert_eq!(
        r.plan(),
        vec![FrameKind::Levels, FrameKind::Candle, FrameKind::TickVolume, FrameKind::Calendar, FrameKind::Status]
    );
    let r = s.subscribe(vec!["trades".into(), "candle".into()]);
    assert_eq!(r.plan(), vec![FrameKind::Candle, FrameKind::Status]);
}
