use claude_usage::analytics::analytics_from_logs;
use claude_usage::cache::{cache_is_fresh, AnalyticsCache};
use claude_usage::clock::{millis_from_elapsed, now_unix_ms};
use claude_usage::tray::{tray_icon_rgba, TRAY_ICON_SIZE};

fn alpha(rgba: &[u8], x: usize, y: usize) -> u8 {
    rgba[(y * 36 + x) * 4 + 3]
}

#[test]
fn tray_icon_shape() {
    let rgba = tray_icon_rgba();
    assert_eq!(TRAY_ICON_SIZE, 36);
    assert_eq!(rgba.len(), 36 * 36 * 4);
    assert_eq!(alpha(&rgba, 0, 0), 255);
    assert_eq!(alpha(&rgba, 3, 35), 255);
    assert_eq!(alpha(&rgba, 4, 0), 0);
    assert_eq!(alpha(&rgba, 27, 6), 255);
    assert_eq!(alpha(&rgba, 28, 6), 0);
    assert_eq!(alpha(&rgba, 10, 16), 0);
    assert_eq!(alpha(&rgba, 17, 29), 255);
    assert_eq!(alpha(&rgba, 18, 25), 0);
    assert_eq!(alpha(&rgba, 10, 30), 0);
    assert!(rgba.iter().enumerate().all(|(i, b)| i % 4 == 3 || *b == 0));
    let drawn = rgba.iter().enumerate().filter(|(i, b)| i % 4 == 3 && **b == 255).count();
    assert_eq!(drawn, 4 * 36 + 24 * 10 + 14 * 10);
}

#[test]
fn clock_is_after_2020() {
    let (ms, reading) = now_unix_ms();
    assert!(ms > 1_577_836_800_000);
    assert_eq!(ms, millis_from_elapsed(reading));
    let (s, n) = reading.unwrap();
    assert!(n < 1_000_000_000);
    assert_eq!(ms / 1000, s);
}

#[test]
fn cache_freshness() {
    assert!(cache_is_fresh(1000, 1000));
    assert!(cache_is_fresh(1299, 1000));
    assert!(!cache_is_fresh(1300, 1000));
    assert!(cache_is_fresh(10, 1000));
}

#[test]
fn cache_serves_fresh_analytics() {
    let mut cache = AnalyticsCache::new();
    assert!(cache.lookup(30, 0).is_none());
    cache.store(30, analytics_from_logs(&vec![], 0, 30), 1000);
    assert_eq!(cache.lookup(30, 1200).map(|d| d.days), Some(30));
    assert!(cache.lookup(7, 1200).is_none());
    assert!(cache.lookup(30, 1300).is_none());
    cache.store(30, analytics_from_logs(&vec![], 0, 30), 1300);
    assert!(cache.lookup(30, 1300).is_some());
}
