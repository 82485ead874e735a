use xauusd_engine::swing::{latest_swing, Extremes, SwingDirection, INF_KEY, NEG_INF_KEY};

/// The order key of a price: the IEEE-754 total-order key, both zeros on 0.
fn key(x: f64) -> Option<i64> {
    if x.is_nan() {
        None
    } else if x == 0.0 {
        Some(0)
    } else {
        let b = x.to_bits() as i64;
        Some(if b < 0 { b ^ i64::MAX } else { b })
    }
}

fn history(prices: &[f64]) -> (Vec<f64>, Vec<f64>, Vec<Extremes>) {
    let highs: Vec<f64> = prices.iter().map(|p| p + 0.5).collect();
    let lows: Vec<f64> = prices.iter().map(|p| p - 0.5).collect();
    let keys = highs
        .iter()
        .zip(lows.iter())
        .map(|(h, l)| Extremes { high: key(*h), low: key(*l) })
        .collect();
    (highs, lows, keys)
}

#[test]
fn keys_order_like_the_prices() {
    assert_eq!(key(f64::INFINITY), Some(INF_KEY));
    assert_eq!(key(f64::NEG_INFINITY), Some(NEG_INF_KEY));
    let xs = [f64::NEG_INFINITY, -3.5, -1.0, -5e-324, 0.0, 5e-324, 1.0, 3300.25, f64::MAX, f64::INFINITY];
    for w in xs.windows(2) {
        assert!(key(w[0]) < key(w[1]), "{} vs {}", w[0], w[1]);
    }
    assert_eq!(key(-0.0), key(0.0));
    assert_eq!(key(f64::NAN), None);
}

#[test]
fn bearish_swing_is_anchored_high_to_low() {
    let prices = [
        100.0, 101.0, 102.0, 103.0, 104.0, 105.0, 104.0, 103.0, 102.0, 101.0, 100.0, 99.0, 98.0,
        97.0, 96.0, 95.0, 96.0, 97.0, 98.0, 99.0, 100.0, 101.0, 102.0, 103.0, 104.0,
    ];
    let (highs, lows, keys) = history(&prices);
    let leg = latest_swing(&keys).expect("bearish swing");
    assert_eq!(leg.direction, SwingDirection::Bearish);
    assert_eq!(leg.direction.label(), "SWING_BEAR");
    assert_eq!(leg.direction.as_str(), "bearish");
    assert_eq!(highs[leg.high_at], 105.5);
    assert_eq!(lows[leg.low_at], 94.5);
    assert!(leg.start_index < leg.end_index);
    assert_eq!((leg.start_index, leg.end_index), (5, 15));
}

#[test]
fn bullish_swing_is_anchored_low_to_high() {
    let prices = [
        105.0, 104.0, 103.0, 102.0, 101.0, 100.0, 101.0, 102.0, 103.0, 104.0, 105.0, 106.0, 107.0,
        108.0, 109.0, 110.0, 109.0, 108.0, 107.0, 106.0, 105.0, 104.0, 103.0, 102.0, 101.0,
    ];
    let (highs, lows, keys) = history(&prices);
    let leg = latest_swing(&keys).expect("bullish swing");
    assert_eq!(leg.direction, SwingDirection::Bullish);
    assert_eq!(leg.direction.label(), "SWING_BULL");
    assert_eq!(leg.direction.as_str(), "bullish");
    assert_eq!(lows[leg.low_at], 99.5);
    assert_eq!(highs[leg.high_at], 110.5);
    assert!(leg.start_index < leg.end_index);
}

#[test]
fn a_short_history_falls_back_to_its_extremes() {
    let (highs, lows, keys) = history(&[100.0, 103.0, 101.0, 99.0, 102.0]);
    let leg = latest_swing(&keys).unwrap();
    // The best high (103.5) comes before the best low (98.5): bearish.
    assert_eq!(leg.direction, SwingDirection::Bearish);
    assert_eq!((leg.start_index, leg.end_index), (1, 3));
    assert_eq!((highs[leg.high_at], lows[leg.low_at]), (103.5, 98.5));
}

#[test]
fn one_candle_or_none_has_no_swing() {
    assert_eq!(latest_swing(&vec![]), None);
    let (_, _, keys) = history(&[100.0]);
    assert_eq!(latest_swing(&keys), None);
    // Ties: the last of the highest highs and the first of the lowest lows.
    let (_, _, keys) = history(&[100.0, 100.0]);
    let leg = latest_swing(&keys).unwrap();
    assert_eq!(leg.direction, SwingDirection::Bullish);
    assert_eq!((leg.start_index, leg.end_index, leg.high_at, leg.low_at), (0, 1, 0, 0));
}

#[test]
fn the_latest_alternating_pivot_pair_wins() {
    // Up to a peak at 10, down to a trough at 25, up again to the end.
    let mut prices = Vec::new();
    for i in 0..=10 {
        prices.push(100.0 + i as f64);
    }
    for i in 1..=15 {
        prices.push(110.0 - i as f64);
    }
    for i in 1..=14 {
        prices.push(95.0 + i as f64);
    }
    let (highs, lows, keys) = history(&prices);
    let leg = latest_swing(&keys).unwrap();
    assert_eq!(leg.direction, SwingDirection::Bearish);
    assert_eq!((leg.start_index, leg.end_index), (10, 25));
    assert_eq!((highs[leg.high_at], lows[leg.low_at]), (110.5, 94.5));
}

#[test]
fn a_swing_leg_holds_its_own_extremes() {
    // Bearish: a high pivot, then a lower low pivot; every key inside the leg
    // lies between the leg's best low and best high.
    let mut keys = Vec::new();
    for i in 0..10 {
        keys.push(Extremes { high: Some(100 + i), low: Some(90 + i) });
    }
    for i in 0..20 {
        keys.push(Extremes { high: Some(105 - i), low: Some(95 - i) });
    }
    for i in 0..10 {
        keys.push(Extremes { high: Some(90 + i), low: Some(80 + i) });
    }
    let leg = latest_swing(&keys).unwrap();
    assert!(leg.start_index < leg.end_index);
    let best_high = keys[leg.high_at].high.unwrap();
    let best_low = keys[leg.low_at].low.unwrap();
    for k in &keys[leg.start_index..=leg.end_index] {
        assert!(k.high.unwrap() <= best_high);
        assert!(k.low.unwrap() >= best_low);
    }
}
