use claude_usage::usage::{
    api_error, limit_info, tray_title, usage_after_poll, usage_from_reply, usage_without_token,
    LimitHeaders, UsageData,
};

fn headers(pct: Option<i32>, reset: Option<i64>, status: &str) -> LimitHeaders {
    LimitHeaders { pct, reset_secs: reset, status: status.to_string() }
}

#[test]
fn title_with_both_percentages() {
    assert_eq!(tray_title(Some(47), Some(70)), "47% (70%)");
}

#[test]
fn title_with_session_only() {
    assert_eq!(tray_title(Some(5), None), " 5%");
}

#[test]
fn title_without_session() {
    assert_eq!(tray_title(None, Some(3)), " –");
    assert_eq!(tray_title(None, None), " –");
}

#[test]
fn title_with_extreme_values() {
    assert_eq!(tray_title(Some(-3), Some(0)), "-3% (0%)");
    assert_eq!(tray_title(Some(i32::MIN), Some(i32::MAX)), "-2147483648% (2147483647%)");
    assert_eq!(tray_title(Some(100), Some(1234)), "100% (1234%)");
}

#[test]
fn error_for_failed_status() {
    assert_eq!(api_error(429), Some("API returned 429".to_string()));
    assert_eq!(api_error(400), Some("API returned 400".to_string()));
    assert_eq!(api_error(503), Some("API returned 503".to_string()));
    assert_eq!(api_error(399), None);
    assert_eq!(api_error(200), None);
}

#[test]
fn limit_defaults_and_reset_time() {
    let l = limit_info(headers(Some(12), Some(0), ""), "normal");
    assert_eq!(l.pct, Some(12));
    assert_eq!(l.reset_at, Some("1970-01-01T00:00:00+00:00".to_string()));
    assert_eq!(l.status, "normal");
    let l = limit_info(headers(None, Some(1_735_689_600), "rejected"), "allowed");
    assert_eq!(l.pct, None);
    assert_eq!(l.reset_at, Some("2025-01-01T00:00:00+00:00".to_string()));
    assert_eq!(l.status, "rejected");
    let l = limit_info(headers(None, None, ""), "allowed");
    assert_eq!(l.reset_at, None);
    assert_eq!(l.status, "allowed");
}

#[test]
fn reset_time_out_of_range() {
    let l = limit_info(headers(None, Some(i64::MAX), ""), "normal");
    assert_eq!(l.reset_at, None);
}

#[test]
fn reply_assembles_usage() {
    let d = usage_from_reply(
        200,
        headers(Some(47), Some(60), ""),
        headers(Some(70), None, "allowed_warning"),
        headers(None, None, ""),
        "available",
        25,
        "now".to_string(),
    );
    assert_eq!(d.session.pct, Some(47));
    assert_eq!(d.session.status, "normal");
    assert_eq!(d.session.reset_at, Some("1970-01-01T00:01:00+00:00".to_string()));
    assert_eq!(d.weekly.status, "allowed_warning");
    assert_eq!(d.overage.status, "allowed");
    assert!(d.fallback.available);
    assert_eq!(d.fallback.pct, 25);
    assert_eq!(d.updated_at, "now");
    assert_eq!(d.error, None);
}

#[test]
fn reply_with_error_status() {
    let d = usage_from_reply(
        401,
        headers(None, None, ""),
        headers(None, None, ""),
        headers(None, None, ""),
        "unavailable",
        0,
        "t".to_string(),
    );
    assert!(!d.fallback.available);
    assert_eq!(d.error, Some("API returned 401".to_string()));
}

#[test]
fn no_token_usage() {
    let d = usage_without_token("t0".to_string());
    assert_eq!(
        d.error,
        Some("No sign-in token found — is the command-line client installed and signed in?".to_string())
    );
    assert_eq!(d.session.pct, None);
    assert_eq!(d.session.status, "normal");
    assert_eq!(d.weekly.status, "normal");
    assert_eq!(d.overage.status, "allowed");
    assert!(!d.fallback.available);
    assert_eq!(d.updated_at, "t0");
}

fn sample() -> UsageData {
    usage_from_reply(
        200,
        headers(Some(10), None, ""),
        headers(Some(20), None, ""),
        headers(None, None, ""),
        "available",
        5,
        "earlier".to_string(),
    )
}

#[test]
fn successful_poll_is_kept() {
    let d = usage_after_poll(Ok(sample()), None, "later".to_string());
    assert_eq!(d.session.pct, Some(10));
    assert_eq!(d.updated_at, "earlier");
    assert_eq!(d.error, None);
}

#[test]
fn failed_poll_keeps_cached_limits() {
    let d = usage_after_poll(Err("timeout".to_string()), Some(sample()), "later".to_string());
    assert_eq!(d.session.pct, Some(10));
    assert_eq!(d.weekly.pct, Some(20));
    assert!(d.fallback.available);
    assert_eq!(d.updated_at, "later");
    assert_eq!(d.error, Some("timeout".to_string()));
}

#[test]
fn failed_poll_without_cache() {
    let d = usage_after_poll(Err("boom".to_string()), None, "later".to_string());
    assert_eq!(d.session.pct, None);
    assert_eq!(d.session.status, "normal");
    assert_eq!(d.overage.status, "allowed");
    assert_eq!(d.updated_at, "later");
    assert_eq!(d.error, Some("boom".to_string()));
}
