use xauusd_engine::sifting::{TickDir, TickState, BUCKET_MS};

const M15: i64 = BUCKET_MS;
const T0: i64 = 1_700_000_100_000 - (1_700_000_100_000 % BUCKET_MS);

fn px(p: f64) -> u64 {
    p.to_bits()
}

fn sz(s: Option<f64>) -> Option<u64> {
    s.map(|v| v.to_bits())
}

/// The wire rate: a tenth of the ten-second window, to two decimals.
fn ticks_per_sec(window_ticks: u64) -> f64 {
    let rate = window_ticks as f64 / (10_000f64 / 1000.0);
    (rate * 100.0).round() / 100.0
}

#[test]
fn candle_volume_is_the_tick_count_like_sifting_history() {
    let mut st = TickState::new();
    st.on_tick(px(100.0), T0, sz(Some(5.0)));
    st.on_tick(px(101.0), T0 + 1, sz(Some(7.0)));
    let out = st.on_tick(px(100.5), T0 + 2, sz(Some(9.0))).unwrap();
    let (candle, bar) = out.live;
    // Three price updates, whatever their trade size.
    assert_eq!(candle.volume as f64, 3.0);
    assert_eq!(bar.ticks, 3);
    assert_eq!(f64::from_bits(candle.high_bits), 101.0);
    assert_eq!(f64::from_bits(candle.close_bits), 100.5);
    assert_eq!(bar.close_bits, candle.close_bits);
    assert_eq!(bar.time, candle.time);
}

#[test]
fn tick_rule_splits_up_down_and_flat() {
    let mut st = TickState::new();
    for (i, p) in [100.0, 100.5, 100.5, 100.25, 100.75].iter().enumerate() {
        st.on_tick(px(*p), T0 + i as i64, None);
    }
    let bar = st.on_tick(px(100.0), T0 + 10, None).unwrap().live.1;
    // first=flat, +up, =flat, -down, +up, -down
    assert_eq!((bar.ticks, bar.up_ticks, bar.down_ticks, bar.flat_ticks), (6, 2, 2, 2));
}

#[test]
fn bucket_roll_emits_one_closed_bar_then_a_fresh_live_bar() {
    let mut st = TickState::new();
    st.on_tick(px(100.0), T0, None);
    assert!(st.on_tick(px(100.5), T0 + 1_000, None).unwrap().closed.is_none());

    let out = st.on_tick(px(101.0), T0 + M15, None).unwrap();
    let (closed_candle, closed_bar) = out.closed.expect("bucket must close");
    assert!(closed_bar.closed);
    assert_eq!(closed_bar.time, T0);
    assert_eq!(closed_bar.ticks, 2);
    assert_eq!(closed_candle.volume as f64, 2.0);

    let (live_candle, live_bar) = out.live;
    assert!(!live_bar.closed);
    assert_eq!(live_bar.time, T0 + M15);
    assert_eq!(live_bar.ticks, 1);
    // The tick rule carries across the boundary: 100.5 -> 101.0 is an uptick.
    assert_eq!(live_bar.up_ticks, 1);
    assert_eq!(f64::from_bits(live_candle.open_bits), 101.0);
}

#[test]
fn resubscribe_snapshot_and_late_ticks_are_not_counted() {
    let mut st = TickState::new();
    st.on_tick(px(100.0), T0, sz(Some(1.0)));
    st.on_tick(px(100.5), T0 + M15, sz(Some(2.0)));
    // Sifting replays the last tick from cache on (re)subscribe.
    assert!(st.on_tick(px(100.5), T0 + M15, sz(Some(2.0))).is_none());
    // A straggler from the closed bucket must not roll the bar backwards.
    assert!(st.on_tick(px(99.0), T0 + 5, sz(Some(1.0))).is_none());
    let bar = st.on_tick(px(100.6), T0 + M15 + 1, sz(Some(1.0))).unwrap().live.1;
    assert_eq!(bar.time, T0 + M15);
    assert_eq!(bar.ticks, 2);
}

#[test]
fn rolling_rate_counts_the_last_ten_seconds() {
    let mut st = TickState::new();
    for i in 0..20 {
        st.on_tick(px(100.0 + i as f64 * 0.01), T0 + i * 500, None); // 2 ticks/s
    }
    let bar = st.on_tick(px(101.0), T0 + 20 * 500, None).unwrap().live.1;
    assert_eq!(ticks_per_sec(bar.window_ticks), 2.0);
}

#[test]
fn classification_follows_the_previous_price() {
    assert_eq!(TickDir::classify(None, px(5.0)), TickDir::Flat);
    assert_eq!(TickDir::classify(Some(px(5.0)), px(5.5)), TickDir::Up);
    assert_eq!(TickDir::classify(Some(px(5.5)), px(5.0)), TickDir::Down);
    assert_eq!(TickDir::classify(Some(px(5.0)), px(5.0)), TickDir::Flat);
}

#[test]
fn a_repeat_with_another_size_is_a_new_tick() {
    let mut st = TickState::new();
    st.on_tick(px(100.0), T0, sz(Some(1.0)));
    let out = st.on_tick(px(100.0), T0, sz(Some(2.0))).unwrap();
    assert_eq!(out.live.1.ticks, 2);
    // No size counts as size zero when recognising a repeat.
    st.on_tick(px(100.0), T0 + 1, None);
    assert!(st.on_tick(px(100.0), T0 + 1, sz(Some(0.0))).is_none());
}

#[test]
fn the_closed_bar_carries_the_rate_before_the_new_bucket() {
    let mut st = TickState::new();
    st.on_tick(px(100.0), T0 + M15 - 2_000, None);
    st.on_tick(px(100.0), T0 + M15 - 1_000, None);
    let out = st.on_tick(px(100.0), T0 + M15 + 20_000, None).unwrap();
    let (_, closed_bar) = out.closed.unwrap();
    assert_eq!(closed_bar.window_ticks, 2);
    // The two old ticks left the ten-second window.
    assert_eq!(out.live.1.window_ticks, 1);
    assert_eq!(out.live.1.last_tick, T0 + M15 + 20_000);
}
