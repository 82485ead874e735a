use xauusd_engine::tick_volume::TickVolumeStore;
use xauusd_engine::types::TickVolumeBar;

fn bar(time: i64, ticks: u64) -> TickVolumeBar {
    TickVolumeBar {
        time,
        ticks,
        up_ticks: 0,
        down_ticks: 0,
        flat_ticks: ticks,
        close_bits: 1.0f64.to_bits(),
        last_tick: time,
        window_ticks: 0,
        closed: false,
        source: "sifting".into(),
    }
}

fn times(s: &TickVolumeStore) -> Vec<i64> {
    s.snapshot().iter().map(|b| b.time).collect()
}

#[test]
fn upsert_replaces_the_live_bar_and_appends_new_ones() {
    let mut s = TickVolumeStore::new(10);
    s.upsert(bar(0, 1));
    s.upsert(bar(0, 2));
    s.upsert(bar(900_000, 1));
    let snap = s.snapshot();
    assert_eq!(snap.len(), 2);
    assert_eq!(snap[0].ticks, 2);
    assert_eq!(snap[1].time, 900_000);
}

#[test]
fn capacity_is_enforced_oldest_first() {
    let mut s = TickVolumeStore::new(3);
    for i in 0..5 {
        s.upsert(bar(i * 900_000, 1));
    }
    assert_eq!(times(&s), vec![1_800_000, 2_700_000, 3_600_000]);
}

#[test]
fn out_of_order_bars_stay_sorted() {
    let mut s = TickVolumeStore::new(10);
    s.upsert(bar(1_800_000, 1));
    s.upsert(bar(0, 1));
    s.upsert(bar(1_800_000, 5));
    let snap = s.snapshot();
    assert_eq!(snap.iter().map(|b| b.time).collect::<Vec<_>>(), vec![0, 1_800_000]);
    assert_eq!(snap[1].ticks, 5);
}

#[test]
fn zero_capacity_still_keeps_the_live_bar() {
    let mut s = TickVolumeStore::new(0);
    s.upsert(bar(0, 1));
    s.upsert(bar(900_000, 4));
    let snap = s.snapshot();
    assert_eq!(snap.len(), 1);
    assert_eq!((snap[0].time, snap[0].ticks), (900_000, 4));
}

#[test]
fn an_old_bar_in_a_full_store_is_inserted_then_evicted() {
    let mut s = TickVolumeStore::new(2);
    s.upsert(bar(900_000, 1));
    s.upsert(bar(1_800_000, 1));
    s.upsert(bar(0, 9));
    assert_eq!(times(&s), vec![900_000, 1_800_000]);
}

#[test]
fn upserting_the_same_bar_twice_changes_nothing_more() {
    let mut s = TickVolumeStore::new(3);
    s.upsert(bar(0, 1));
    s.upsert(bar(1_800_000, 2));
    s.upsert(bar(900_000, 3));
    let once = times(&s);
    s.upsert(bar(900_000, 3));
    assert_eq!(times(&s), once);
    assert_eq!(once, vec![0, 900_000, 1_800_000]);
    // The newest time stays at the back.
    s.upsert(bar(2_700_000, 1));
    assert_eq!(*times(&s).last().unwrap(), 2_700_000);
}
