use xauusd_engine::sifting_rest::{
    bar_is_valid, check_bars, HistoryBar, check_history_page, history_url, history_url_from, order_seed, HistoryError,
    SIFTING_HISTORY_CANDLE_LIMIT,
};

#[test]
fn history_request_is_a_single_fixed_two_thousand_bar_page() {
    let now = chrono::Utc::now().timestamp_millis();
    let url = history_url("https://api.sifting.io/", "XAUUSD", now).unwrap();
    assert!(url.starts_with("https://api.sifting.io/v1/hist/commodities/XAUUSD/bars?"));
    assert!(url.contains("interval=15m"));
    assert!(url.contains("order=desc"));
    assert!(url.contains("limit=2000"));
    assert!(url.contains("start="));
    assert!(url.contains("end="));
}

#[test]
fn a_short_response_is_rejected_instead_of_seeding_a_partial_profile() {
    let err = check_history_page(0, None, None, "XAUUSD").unwrap_err().message("XAUUSD");
    assert!(err.contains("exactly 2000"));
}

#[test]
fn the_request_window_is_the_sixty_days_up_to_now() {
    // 2025-06-11T12:00:00Z
    let now = 1_749_643_200_000;
    let url = history_url("https://api.sifting.io//", "XAUUSD", now).unwrap();
    assert_eq!(
        url,
        "https://api.sifting.io/v1/hist/commodities/XAUUSD/bars?start=2025-04-12T12:00:00Z\
         &end=2025-06-11T12:00:00Z&interval=15m&order=desc&limit=2000"
    );
    assert_eq!(history_url("x", "XAUUSD", i64::MIN + 5), None);
}

#[test]
fn page_checks_name_what_the_page_said() {
    let n = SIFTING_HISTORY_CANDLE_LIMIT;
    assert!(check_history_page(n, Some("xauusd"), Some("15m"), "XAUUSD").is_ok());
    assert!(check_history_page(n, None, None, "XAUUSD").is_ok());
    let e = check_history_page(1999, Some("XAGUSD"), None, "XAUUSD").unwrap_err();
    assert!(matches!(e, HistoryError::WrongCount(1999)));
    assert_eq!(e.message("XAUUSD"), "SiftingIO returned 1999 candles; VP requires exactly 2000");
    let e = check_history_page(n, Some("XAGUSD"), Some("1h"), "XAUUSD").unwrap_err();
    assert_eq!(e.message("XAUUSD"), "SiftingIO returned symbol XAGUSD, expected XAUUSD");
    let e = check_history_page(n, Some("XAUUSD"), Some("1h"), "XAUUSD").unwrap_err();
    assert_eq!(e.message("XAUUSD"), "SiftingIO returned interval 1h, expected 15m");
    assert_eq!(
        HistoryError::InvalidBar.message("XAUUSD"),
        "SiftingIO returned an invalid OHLCV bar"
    );
    assert_eq!(
        HistoryError::DuplicateTime.message("XAUUSD"),
        "SiftingIO returned duplicate candle timestamps"
    );
}

#[test]
fn a_page_is_kept_in_time_order_and_duplicates_are_refused() {
    assert_eq!(order_seed(&vec![30, 10, 20]).ok(), Some(vec![1, 2, 0]));
    assert_eq!(order_seed(&vec![]).ok(), Some(vec![]));
    assert!(matches!(order_seed(&vec![5, 9, 5]), Err(HistoryError::DuplicateTime)));
}

#[test]
fn the_request_is_built_from_the_window_texts() {
    assert_eq!(
        history_url_from("https://h/", "XAUUSD", "A", "B"),
        "https://h/v1/hist/commodities/XAUUSD/bars?start=A&end=B&interval=15m&order=desc&limit=2000"
    );
}

fn bar(time: i64, o: f64, h: f64, l: f64, c: f64, v: f64) -> HistoryBar {
    HistoryBar {
        time,
        open_bits: o.to_bits(),
        high_bits: h.to_bits(),
        low_bits: l.to_bits(),
        close_bits: c.to_bits(),
        volume_bits: v.to_bits(),
    }
}

#[test]
fn history_bars_must_be_finite_ordered_and_dated() {
    assert!(bar_is_valid(&bar(1, 3300.0, 3310.0, 3290.0, 3305.0, 12.0)));
    assert!(bar_is_valid(&bar(1, 1.0, 1.0, 1.0, 1.0, 0.0)));
    assert!(bar_is_valid(&bar(1, 1.0, 1.0, 1.0, 1.0, -0.0)));
    assert!(bar_is_valid(&bar(1, -1.0, 0.0, -0.0, -1.0, 1.0)));
    assert!(bar_is_valid(&bar(1, -1.0, -1.0, -2.0, -1.0, 1.0)));
    assert!(!bar_is_valid(&bar(1, -1.0, -2.0, -1.0, -1.0, 1.0)));
    assert!(!bar_is_valid(&bar(1, 3300.0, 3290.0, 3310.0, 3305.0, 12.0)));
    assert!(!bar_is_valid(&bar(1, 3300.0, f64::INFINITY, 3290.0, 3305.0, 12.0)));
    assert!(!bar_is_valid(&bar(1, f64::NAN, 3310.0, 3290.0, 3305.0, 12.0)));
    assert!(!bar_is_valid(&bar(1, 3300.0, 3310.0, 3290.0, 3305.0, -1.0)));
    assert!(!bar_is_valid(&bar(0, 3300.0, 3310.0, 3290.0, 3305.0, 12.0)));
    let good = bar(5, 1.0, 2.0, 1.0, 1.5, 3.0);
    assert!(check_bars(&vec![good, good]).is_ok());
    assert!(matches!(check_bars(&vec![good, bar(6, 1.0, 0.5, 1.0, 1.0, 1.0)]), Err(HistoryError::InvalidBar)));
}
