use chrono::{TimeZone, Utc};
use chrono_tz::America::New_York;
use xauusd_engine::candle_history::{profile_windows, session_rolled, CandleHistory, RETAIN_MS};
use xauusd_engine::swing::{latest_swing, Extremes};
use xauusd_engine::session::{
    back_days, month_days, previous_day, close_from_local, pick_latest_close, pick_week_start, week_bounds_from, last_session_close_utc, most_recent_week_start_utc, ny_close_on, previous_session_close,
    previous_week_bounds_utc,
};

const MIN: i64 = 60_000;
const H: i64 = 60 * MIN;

fn ny(y: i32, m: u32, d: u32, hh: u32, mm: u32) -> i64 {
    New_York
        .with_ymd_and_hms(y, m, d, hh, mm, 0)
        .single()
        .unwrap()
        .with_timezone(&Utc)
        .timestamp_millis()
}

/// A candle's price band: `(low, high)`.
type Band = (f64, f64);

/// Fill a window with 15m candles in a given price band.
fn fill_band(h: &mut CandleHistory<Band>, from: i64, to: i64, low: f64, high: f64) {
    let mut t = from;
    while t < to {
        h.upsert(t, (low, high));
        t += 15 * MIN;
    }
}

/// Every candle in `[start, end)` lies in the band `[lo, hi]` (so does the
/// window's point of control), and there is at least one.
fn window_in_band(h: &CandleHistory<Band>, start: i64, end: i64, lo: f64, hi: f64) -> bool {
    let (a, b) = h.range(start, end);
    a < b && h.entries()[a..b].iter().all(|e| lo <= e.1 .0 && e.1 .1 <= hi)
}

#[test]
fn session_close_is_1700_new_york() {
    // Wed 2025-06-11 20:00 NY -> close is that same day 17:00 NY.
    let now = ny(2025, 6, 11, 20, 0);
    assert_eq!(last_session_close_utc(now), Some(ny(2025, 6, 11, 17, 0)));
    // 16:59 NY is still the *previous* day's session.
    let now = ny(2025, 6, 11, 16, 59);
    assert_eq!(last_session_close_utc(now), Some(ny(2025, 6, 10, 17, 0)));
}

#[test]
fn session_boundary_survives_dst_change() {
    // US DST ends 2025-11-02. 17:00 local on either side must stay 17:00.
    let before = last_session_close_utc(ny(2025, 10, 31, 23, 0));
    let after = last_session_close_utc(ny(2025, 11, 3, 23, 0));
    assert_eq!(before, Some(ny(2025, 10, 31, 17, 0)));
    assert_eq!(after, Some(ny(2025, 11, 3, 17, 0)));
}

#[test]
fn a_close_is_17_00_local_in_summer_and_winter() {
    assert_eq!(ny_close_on(2025, 6, 11), Some(1_749_675_600_000));
    assert_eq!(ny_close_on(2025, 12, 1), Some(ny(2025, 12, 1, 17, 0)));
    assert_eq!(ny_close_on(2025, 2, 30), None);
    // Exactly at the close, that close is the latest.
    assert_eq!(last_session_close_utc(ny(2025, 6, 11, 17, 0)), Some(ny(2025, 6, 11, 17, 0)));
}

#[test]
fn the_previous_close_is_one_local_day_earlier_across_dst() {
    // 2025-11-03 17:00 EST is preceded by 2025-11-02 17:00 EST and the
    // 2025-11-01 17:00 EDT close 25 hours before that.
    let c = ny(2025, 11, 3, 17, 0);
    let p = previous_session_close(c).unwrap();
    assert_eq!(p, ny(2025, 11, 2, 17, 0));
    let pp = previous_session_close(p).unwrap();
    assert_eq!(pp, ny(2025, 11, 1, 17, 0));
    assert_eq!(p - pp, 25 * H);
}

#[test]
fn week_start_is_sunday_18_00_new_york() {
    let now = ny(2025, 6, 11, 12, 0);
    assert_eq!(most_recent_week_start_utc(now), Some(ny(2025, 6, 8, 18, 0)));
    // Sunday before the open belongs to the week before.
    assert_eq!(most_recent_week_start_utc(ny(2025, 6, 8, 17, 59)), Some(ny(2025, 6, 1, 18, 0)));
    assert_eq!(most_recent_week_start_utc(ny(2025, 6, 8, 18, 0)), Some(ny(2025, 6, 8, 18, 0)));
}

#[test]
fn previous_week_runs_sunday_open_to_friday_close() {
    let (start, end) = previous_week_bounds_utc(ny(2025, 6, 11, 12, 0)).unwrap();
    assert_eq!(start, ny(2025, 6, 1, 18, 0));
    assert_eq!(end, ny(2025, 6, 6, 17, 0));
    for day in 9..=13 {
        assert_eq!(previous_week_bounds_utc(ny(2025, 6, day, 12, 0)), Some((start, end)));
    }
}

#[test]
fn upsert_replaces_a_duplicate_time_and_keeps_order() {
    let mut h: CandleHistory<u32> = CandleHistory::new();
    h.upsert(2 * H, 20);
    h.upsert(0, 1);
    h.upsert(H, 10);
    h.upsert(0, 2);
    assert_eq!(h.entries().clone(), vec![(0, 2), (H, 10), (2 * H, 20)]);
    h.retain_from(H);
    assert_eq!(h.entries().clone(), vec![(H, 10), (2 * H, 20)]);
    assert_eq!(h.range_through(H, 2 * H), (0, 2));
    assert_eq!(h.range(H, 2 * H), (0, 1));
}

#[test]
fn candle_interval_is_the_first_positive_gap() {
    let mut h: CandleHistory<u32> = CandleHistory::new();
    assert_eq!(h.candle_interval(0, 0), 900_000);
    h.upsert(0, 0);
    assert_eq!(h.candle_interval(0, 1), 900_000);
    h.upsert(5 * MIN, 0);
    h.upsert(20 * MIN, 0);
    assert_eq!(h.candle_interval(0, 3), 5 * MIN);
    assert_eq!(h.candle_interval(1, 3), 15 * MIN);
}

#[test]
fn profile_windows_keep_the_previous_week() {
    let now = ny(2025, 6, 11, 12, 0);
    let w = profile_windows(now).unwrap();
    assert_eq!(w.week_start, ny(2025, 6, 8, 18, 0));
    assert_eq!((w.pw_start, w.pw_end), (ny(2025, 6, 1, 18, 0), ny(2025, 6, 6, 17, 0)));
    assert_eq!(w.retain_floor, now - RETAIN_MS);
}

#[test]
fn only_the_newest_candles_are_kept() {
    let mut h: CandleHistory<u32> = CandleHistory::new();
    for i in 0..5 {
        h.upsert(i * H, i as u32);
    }
    h.keep_newest(10);
    assert_eq!(h.len(), 5);
    h.keep_newest(2);
    assert_eq!(h.entries().clone(), vec![(3 * H, 3), (4 * H, 4)]);
}

/// The actual bug report: PS must change when a session closes.
#[test]
fn ps_rolls_forward_at_every_session_close() {
    let mut e: CandleHistory<Band> = CandleHistory::new();
    // Session A: Mon 17:00 -> Tue 17:00, price band 3300-3310.
    fill_band(&mut e, ny(2025, 6, 9, 17, 0), ny(2025, 6, 10, 17, 0), 3300.0, 3310.0);
    // Session B: Tue 17:00 -> Wed 17:00, price band 3400-3410.
    fill_band(&mut e, ny(2025, 6, 10, 17, 0), ny(2025, 6, 11, 17, 0), 3400.0, 3410.0);
    // Session C (in progress): Wed 17:00 -> now, band 3500-3510.
    fill_band(&mut e, ny(2025, 6, 11, 17, 0), ny(2025, 6, 12, 10, 0), 3500.0, 3510.0);

    // At Tue 20:00 the last closed session is A.
    let (a_start, a_end) = e.previous_session_window(ny(2025, 6, 10, 20, 0)).expect("PS for session A");
    assert_eq!(a_start, ny(2025, 6, 9, 17, 0));
    assert_eq!(a_end, ny(2025, 6, 10, 17, 0));
    assert!(window_in_band(&e, a_start, a_end, 3300.0, 3310.0), "PS not in A");

    // Nothing has closed yet at Wed 10:00 -> PS must NOT move.
    assert_eq!(session_rolled(Some(a_end), ny(2025, 6, 11, 10, 0)), Some(false));

    // Wed 17:00 close passes -> PS rolls to session B.
    assert_eq!(session_rolled(Some(a_end), ny(2025, 6, 11, 17, 1)), Some(true));
    let (b_start, b_end) = e.previous_session_window(ny(2025, 6, 11, 17, 1)).expect("PS for session B");
    assert_eq!(b_start, ny(2025, 6, 10, 17, 0));
    assert_eq!(b_end, ny(2025, 6, 11, 17, 0));
    assert!(window_in_band(&e, b_start, b_end, 3400.0, 3410.0), "PS not in B");
    assert_ne!(a_start, b_start, "PS was frozen across a session close");

    // Thu 17:00 close passes -> PS rolls to session C.
    assert_eq!(session_rolled(Some(b_end), ny(2025, 6, 12, 17, 1)), Some(true));
    let (c_start, c_end) = e.previous_session_window(ny(2025, 6, 12, 17, 1)).expect("PS for session C");
    assert_eq!(c_start, ny(2025, 6, 11, 17, 0));
    assert!(window_in_band(&e, c_start, c_end, 3500.0, 3510.0), "PS not in C");
}

#[test]
fn ps_skips_the_weekend_gap() {
    let mut e: CandleHistory<Band> = CandleHistory::new();
    // Friday session: Thu 17:00 -> Fri 17:00 (market closes Fri 17:00 NY).
    fill_band(&mut e, ny(2025, 6, 12, 17, 0), ny(2025, 6, 13, 17, 0), 3350.0, 3360.0);
    // Saturday noon: Fri 17:00 -> Sat 17:00 has no data, so PS falls back
    // to the Friday session rather than disappear.
    let (start, end) = e.previous_session_window(ny(2025, 6, 14, 12, 0)).expect("PS over the weekend");
    assert_eq!(start, ny(2025, 6, 12, 17, 0));
    assert_eq!(end, ny(2025, 6, 13, 17, 0));
    assert!(window_in_band(&e, start, end, 3350.0, 3360.0));
    // With no candles at all the last closed session is named, empty.
    let empty: CandleHistory<Band> = CandleHistory::new();
    assert_eq!(
        empty.previous_session_window(ny(2025, 6, 14, 12, 0)),
        Some((ny(2025, 6, 12, 17, 0), ny(2025, 6, 13, 17, 0)))
    );
}

#[test]
fn ingesting_a_candle_after_a_close_refreshes_ps() {
    let mut e: CandleHistory<Band> = CandleHistory::new();
    let now = chrono::Utc::now().timestamp_millis();
    let close = last_session_close_utc(now).unwrap();
    // One candle inside the last closed session.
    e.upsert(close - 2 * H, (3200.0, 3205.0));
    let (_, end) = e.previous_session_window(now).expect("PS after ingest");
    assert_eq!(end, close);
    assert_eq!(session_rolled(Some(end), now), Some(false));
}

#[test]
fn week_windows_do_not_overlap_the_session_window() {
    let mut e: CandleHistory<Band> = CandleHistory::new();
    let now = ny(2025, 6, 11, 12, 0);
    let week_start = most_recent_week_start_utc(now).unwrap();
    fill_band(&mut e, week_start - 6 * 24 * H, week_start - 24 * H, 3100.0, 3110.0);
    fill_band(&mut e, week_start + H, now, 3200.0, 3210.0);
    let w = profile_windows(now).expect("windows");
    // PW ends at the previous Friday 17:00 NY close, not at the Sunday open.
    assert_eq!(w.pw_start, ny(2025, 6, 1, 18, 0));
    assert_eq!(w.pw_end, ny(2025, 6, 6, 17, 0));
    assert_eq!(w.week_start, week_start);
    assert!(window_in_band(&e, w.pw_start, w.pw_end, 3100.0, 3110.0));
    let (a, b) = e.range_through(w.week_start, now);
    assert!(a < b && e.entries()[a..b].iter().all(|c| 3200.0 <= c.1 .0 && c.1 .1 <= 3210.0));
}

#[test]
fn pw_excludes_weekend_candles_and_is_stable_all_week() {
    let mut e: CandleHistory<Band> = CandleHistory::new();
    let (start, end) = previous_week_bounds_utc(ny(2025, 6, 11, 12, 0)).unwrap();
    assert_eq!(start, ny(2025, 6, 1, 18, 0));
    assert_eq!(end, ny(2025, 6, 6, 17, 0));
    fill_band(&mut e, start, end - H, 3100.0, 3110.0);
    // Anything after the Friday close (weekend / Sunday pre-open) must not leak in.
    fill_band(&mut e, end, end + 40 * H, 3500.0, 3510.0);
    for day in 9..=13 {
        let pw = profile_windows(ny(2025, 6, day, 12, 0)).expect("PW");
        assert_eq!((pw.pw_start, pw.pw_end), (start, end));
        assert!(window_in_band(&e, pw.pw_start, pw.pw_end, 3100.0, 3110.0), "{pw:?}");
    }
}

#[test]
fn duplicate_candle_timestamp_is_replaced() {
    let mut e: CandleHistory<Band> = CandleHistory::new();
    let time = chrono::Utc::now().timestamp_millis() - H;
    e.upsert(time, (100.0, 101.0));
    e.upsert(time, (200.0, 201.0));
    assert_eq!(e.len(), 1);
    assert_eq!(e.entries()[0].1, (200.0, 201.0));
    let keys: Vec<Extremes> =
        e.entries().iter().map(|c| Extremes { high: Some(c.1 .1 as i64), low: Some(c.1 .0 as i64) }).collect();
    assert!(latest_swing(&keys).is_none());
}

#[test]
fn clock_decisions_on_given_readings() {
    // 17:00 occurring once is the close; otherwise the earliest 18:00.
    assert_eq!(close_from_local(Some((5, 5)), Some((9, 9))), Some(5));
    assert_eq!(close_from_local(Some((5, 8)), Some((7, 9))), Some(7));
    assert_eq!(close_from_local(None, Some((7, 9))), Some(7));
    assert_eq!(close_from_local(None, None), None);
    // Today's close once it has passed, else the one before.
    assert_eq!(pick_latest_close(100, Some(100), Some(10)), Some(100));
    assert_eq!(pick_latest_close(99, Some(100), Some(10)), Some(10));
    assert_eq!(pick_latest_close(99, None, Some(10)), None);
    // Sunday's open once it has passed, else the one a week before.
    let week = 7 * 86_400_000;
    let prev = Some((3 * week + 3, 3 * week + 3));
    assert_eq!(pick_week_start(5 * week, Some((4 * week, 4 * week)), prev), Some(4 * week));
    assert_eq!(pick_week_start(4 * week - 1, Some((4 * week, 4 * week)), prev), Some(3 * week + 3));
    assert_eq!(pick_week_start(4 * week - 1, Some((4 * week, 4 * week)), None), None);
    assert_eq!(pick_week_start(0, Some((1, 2)), prev), None);
    assert_eq!(week_bounds_from(Some((1, 1)), Some((2, 2))), Some((1, 2)));
    assert_eq!(week_bounds_from(Some((1, 3)), Some((2, 2))), None);
}

#[test]
fn week_start_before_sundays_open_across_the_autumn_change() {
    // DST ended at 02:00 on Sunday 2025-11-02; at noon the week still
    // began at the previous Sunday's 18:00 EDT open, not 19:00.
    assert_eq!(most_recent_week_start_utc(ny(2025, 11, 2, 12, 0)), Some(ny(2025, 10, 26, 18, 0)));
    assert_eq!(most_recent_week_start_utc(ny(2025, 11, 2, 18, 0)), Some(ny(2025, 11, 2, 18, 0)));
    // Spring: DST began 2025-03-09; Monday 00:30 belongs to the week that
    // opened Sunday 18:00 EDT.
    assert_eq!(most_recent_week_start_utc(ny(2025, 3, 10, 0, 30)), Some(ny(2025, 3, 9, 18, 0)));
    assert_eq!(previous_week_bounds_utc(ny(2025, 11, 2, 12, 0)), Some((ny(2025, 10, 19, 18, 0), ny(2025, 10, 24, 17, 0))));
}

#[test]
fn last_close_after_the_spring_change_is_sundays() {
    // Monday 2025-03-10 00:30 EDT: the latest 17:00 New York is Sunday's.
    assert_eq!(last_session_close_utc(ny(2025, 3, 10, 0, 30)), Some(ny(2025, 3, 9, 17, 0)));
    assert_eq!(previous_session_close(ny(2025, 3, 10, 17, 0)), Some(ny(2025, 3, 9, 17, 0)));
}

#[test]
fn civil_days_step_over_month_and_year_ends() {
    assert_eq!(month_days(2024, 2), 29);
    assert_eq!(month_days(1900, 2), 28);
    assert_eq!(month_days(2000, 2), 29);
    assert_eq!(month_days(2025, 4), 30);
    assert_eq!(previous_day((2025, 3, 1)), Some((2025, 2, 28)));
    assert_eq!(previous_day((2025, 1, 1)), Some((2024, 12, 31)));
    assert_eq!(previous_day((i32::MIN, 1, 1)), None);
    assert_eq!(back_days((2025, 3, 2), 7), Some((2025, 2, 23)));
    assert_eq!(back_days((2025, 3, 2), 0), Some((2025, 3, 2)));
}

#[test]
fn a_weekend_recompute_is_not_reported_stale_again() {
    // Saturday noon: the latest close is Friday's; profiles computed now
    // are settled until the next 17:00 New York.
    let now = ny(2025, 6, 14, 12, 0);
    let w = profile_windows(now).unwrap();
    assert_eq!(w.latest_close, ny(2025, 6, 13, 17, 0));
    assert_eq!(session_rolled(Some(w.latest_close), now), Some(false));
    assert_eq!(session_rolled(Some(w.latest_close), ny(2025, 6, 14, 16, 59)), Some(false));
    assert_eq!(session_rolled(Some(w.latest_close), ny(2025, 6, 14, 17, 0)), Some(true));
    assert_eq!(session_rolled(None, now), Some(true));
}
