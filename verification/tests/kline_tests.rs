use pump_kmonitor::kline::{
    candle_quality_flags, KLineData, KLineManager, KlineError, MintSeries, DEFAULT_SURGE_MULTIPLE,
};

fn add(
    m: &mut KLineManager,
    mint: &str,
    ts: i64,
    price: u128,
    sol: u64,
    tok: u64,
    is_buy: bool,
    now: u64,
) {
    m.add_trade(&mint.to_string(), ts, price, sol, tok, is_buy, now)
        .expect("fold failed");
}

#[test]
fn test_same_minute_one_bucket() {
    let mut m = KLineManager::new(60);
    let t: i64 = 1_700_000_040; // a minute boundary (divisible by 60)
    assert_eq!(t % 60, 0);
    add(&mut m, "mint_a", t, 500, 1_000_000_000, 2_000_000, true, 10);
    add(&mut m, "mint_a", t + 59, 700, 3_000_000_000, 4_000_000, false, 11);
    let ks = m.get_klines_for_mint(&"mint_a".to_string(), None);
    assert_eq!(ks.len(), 1);
    assert_eq!(ks[0].timestamp, t);
}

#[test]
fn test_next_minute_two_buckets() {
    let mut m = KLineManager::new(60);
    let t: i64 = 1_700_000_040;
    add(&mut m, "mint_a", t, 500, 1_000_000_000, 2_000_000, true, 10);
    add(&mut m, "mint_a", t + 60, 700, 3_000_000_000, 4_000_000, true, 11);
    let ks = m.get_klines_for_mint(&"mint_a".to_string(), None);
    assert_eq!(ks.len(), 2);
    assert_eq!(ks[0].timestamp, t);
    assert_eq!(ks[1].timestamp, t + 60);
    assert_eq!(ks[1].timestamp - ks[0].timestamp, 60);
}

#[test]
fn test_fold_updates_candle() {
    let mut m = KLineManager::new(60);
    let t: i64 = 1_700_000_040;
    add(&mut m, "mint_a", t, 500, 10, 20, true, 10);
    add(&mut m, "mint_a", t + 5, 900, 30, 40, false, 11);
    add(&mut m, "mint_a", t + 20, 300, 5, 6, true, 12);
    let ks = m.get_klines_for_mint(&"mint_a".to_string(), None);
    assert_eq!(ks.len(), 1);
    let k = ks[0];
    assert_eq!(k.open, 500);
    assert_eq!(k.high, 900);
    assert_eq!(k.low, 300);
    assert_eq!(k.close, 300);
    assert_eq!(k.volume_sol, 10 + 30 + 5);
    assert_eq!(k.volume_token, 20 + 40 + 6);
    assert_eq!(k.net_flow_sol, 10 - 30 + 5);
    assert_eq!(k.last_update, 12);
    // Invariants: low <= open, close <= high.
    assert!(k.low <= k.open && k.open <= k.high);
    assert!(k.low <= k.close && k.close <= k.high);
}

#[test]
fn test_sorted_read_regardless_of_fold_order() {
    let mut m = KLineManager::new(60);
    let t: i64 = 1_700_000_040;
    // Fold minutes out of order: late-arriving events still target their
    // own past minute.
    add(&mut m, "mint_a", t + 120, 3, 1, 1, true, 1);
    add(&mut m, "mint_a", t, 1, 1, 1, true, 2);
    add(&mut m, "mint_a", t + 60, 2, 1, 1, true, 3);
    let ks = m.get_klines_for_mint(&"mint_a".to_string(), None);
    assert_eq!(ks.len(), 3);
    assert!(ks[0].timestamp < ks[1].timestamp && ks[1].timestamp < ks[2].timestamp);
    assert_eq!(ks[0].close, 1);
    assert_eq!(ks[1].close, 2);
    assert_eq!(ks[2].close, 3);
}

#[test]
fn test_get_klines_limit_returns_latest() {
    let mut m = KLineManager::new(60);
    let t: i64 = 1_700_000_040;
    for i in 0..5u32 {
        add(&mut m, "mint_a", t + 60 * i as i64, (i + 1) as u128, 1, 1, true, i as u64);
    }
    let ks = m.get_klines_for_mint(&"mint_a".to_string(), Some(2));
    assert_eq!(ks.len(), 2);
    assert_eq!(ks[0].timestamp, t + 180);
    assert_eq!(ks[1].timestamp, t + 240);
}

#[test]
fn test_eviction_removes_idle_mint_only() {
    let mut m = KLineManager::new(60);
    let t: i64 = 1_700_000_040;
    add(&mut m, "idle_mint", t, 5, 1, 1, true, 100);
    add(&mut m, "live_mint", t, 5, 1, 1, true, 190);
    // At now = 200: idle_mint's age is 100 > 60, live_mint's age is 10.
    m.cleanup_idle_klines(200);
    assert_eq!(m.get_klines_for_mint(&"idle_mint".to_string(), None).len(), 0);
    assert_eq!(m.get_klines_for_mint(&"live_mint".to_string(), None).len(), 1);
    let active = m.get_active_mints();
    assert_eq!(active.len(), 1);
    assert_eq!(active[0].0, "live_mint");
}

#[test]
fn test_eviction_age_exactly_at_timeout_kept() {
    let mut m = KLineManager::new(60);
    add(&mut m, "edge_mint", 1_700_000_040, 5, 1, 1, true, 100);
    // Age exactly 60 does not exceed the timeout.
    m.cleanup_idle_klines(160);
    assert_eq!(m.get_klines_for_mint(&"edge_mint".to_string(), None).len(), 1);
    m.cleanup_idle_klines(161);
    assert_eq!(m.get_klines_for_mint(&"edge_mint".to_string(), None).len(), 0);
}

#[test]
fn test_get_stats_counts() {
    let mut m = KLineManager::new(60);
    let t: i64 = 1_700_000_040;
    add(&mut m, "mint_a", t, 5, 1, 1, true, 1);
    add(&mut m, "mint_a", t + 60, 5, 1, 1, true, 2);
    add(&mut m, "mint_b", t, 5, 1, 1, true, 3);
    let (mints, klines) = m.get_stats();
    assert_eq!(mints, 2);
    assert_eq!(klines, 3);
}

#[test]
fn test_active_mints_most_recent_first() {
    let mut m = KLineManager::new(60);
    let t: i64 = 1_700_000_040;
    add(&mut m, "older", t, 5, 1, 1, true, 10);
    add(&mut m, "newest", t, 5, 1, 1, true, 30);
    add(&mut m, "middle", t, 5, 1, 1, true, 20);
    let active = m.get_active_mints();
    assert_eq!(active.len(), 3);
    assert_eq!(active[0], ("newest".to_string(), 30));
    assert_eq!(active[1], ("middle".to_string(), 20));
    assert_eq!(active[2], ("older".to_string(), 10));
}

#[test]
fn test_get_latest_klines_per_mint() {
    let mut m = KLineManager::new(60);
    let t: i64 = 1_700_000_040;
    add(&mut m, "mint_a", t, 1, 1, 1, true, 1);
    add(&mut m, "mint_a", t + 60, 2, 1, 1, true, 2);
    add(&mut m, "mint_a", t + 120, 3, 1, 1, true, 3);
    add(&mut m, "mint_b", t, 9, 1, 1, true, 4);
    let latest = m.get_latest_klines(2);
    // mint_a contributes its two most recent candles, most recent first;
    // mint_b its single candle.
    assert_eq!(latest.len(), 3);
    assert_eq!(latest[0].0, "mint_a");
    assert_eq!(latest[0].1.timestamp, t + 120);
    assert_eq!(latest[1].0, "mint_a");
    assert_eq!(latest[1].1.timestamp, t + 60);
    assert_eq!(latest[2].0, "mint_b");
    assert_eq!(latest[2].1.timestamp, t);
}

#[test]
fn test_volume_overflow_reports_error() {
    let mut m = KLineManager::new(60);
    let full = KLineData {
        timestamp: 1_700_000_040,
        open: 5,
        high: 5,
        low: 5,
        close: 5,
        volume_sol: u128::MAX,
        volume_token: 1,
        net_flow_sol: 0,
        last_update: 1,
    };
    m.series.push(MintSeries {
        mint: "full_mint".to_string(),
        last_activity: 1,
        klines: vec![full],
    });
    let r = m.add_trade(&"full_mint".to_string(), 1_700_000_040, 5, 1, 1, true, 2);
    assert_eq!(r, Err(KlineError::VolumeOverflow));
    // Nothing changed.
    let ks = m.get_klines_for_mint(&"full_mint".to_string(), None);
    assert_eq!(ks[0].volume_sol, u128::MAX);
    assert_eq!(ks[0].volume_token, 1);
    // The error comes only from that bucket: the next minute still folds.
    let r2 = m.add_trade(&"full_mint".to_string(), 1_700_000_100, 5, 1, 1, true, 3);
    assert!(r2.is_ok());
    assert_eq!(m.get_klines_for_mint(&"full_mint".to_string(), None).len(), 2);
}

#[test]
fn test_store_keys() {
    assert_eq!(
        KLineManager::get_mint_activity_key("abc"),
        "mint_activity:abc".to_string()
    );
    assert_eq!(
        KLineManager::get_kline_key("abc", 1700000040),
        "kline:abc:1700000040".to_string()
    );
    assert_eq!(KLineManager::get_kline_key("m", -60), "kline:m:-60".to_string());
    assert_eq!(KLineManager::get_mint_pattern("abc"), "kline:abc:*".to_string());
}

#[test]
fn test_candle_quality_flags() {
    let mut k = KLineData {
        timestamp: 0,
        open: 10,
        high: 1_000,
        low: 10,
        close: 1_000,
        volume_sol: 1,
        volume_token: 1,
        net_flow_sol: 1,
        last_update: 1,
    };
    // High rose 99x above open: 1000 - 10 = 990 <= 100 * 10.
    assert_eq!(candle_quality_flags(&k, DEFAULT_SURGE_MULTIPLE), (false, false));
    // High rose more than 100x above open.
    k.high = 1_011;
    k.close = 1_011;
    assert_eq!(candle_quality_flags(&k, DEFAULT_SURGE_MULTIPLE), (false, true));
    // A zero low is flagged.
    k.low = 0;
    k.open = 0;
    assert_eq!(candle_quality_flags(&k, DEFAULT_SURGE_MULTIPLE), (true, false));
}

#[test]
fn test_negative_timestamp_bucketing() {
    let mut m = KLineManager::new(60);
    // -30 lies in the minute starting at -60.
    add(&mut m, "mint_a", -30, 5, 1, 1, true, 1);
    let ks = m.get_klines_for_mint(&"mint_a".to_string(), None);
    assert_eq!(ks[0].timestamp, -60);
}
