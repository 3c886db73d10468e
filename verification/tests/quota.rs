use codex_accounts::json::{Json, JsonNumber};
use codex_accounts::runtime::json as object;
use codex_accounts::model::{AccountQuota, QuotaWindow, Remaining};
use codex_accounts::quota::{parse, usage_response_at, usage_status};

fn json(text: &str) -> Json {
    object(text.as_bytes()).ok().expect("test JSON")
}

fn left(r: &Option<Remaining>) -> Option<f64> {
    r.as_ref().map(|r| match &r.used_percent {
        JsonNumber::PosInt(u) => 100.0 - *u as f64,
        JsonNumber::NegInt(i) => 100.0 - *i as f64,
        JsonNumber::Float(t) => 100.0 - t.parse::<f64>().unwrap(),
    })
}

fn quota(text: &str) -> AccountQuota {
    parse(&json(text)).ok().expect("quota").0
}

fn windows(q: AccountQuota) -> Vec<QuotaWindow> {
    q.windows.expect("windows")
}

#[test]
fn remaining_and_reset() {
    let q = quota(r#"{"rate_limit":{"primary_window":{"used_percent":35,"reset_at":100,"limit_window_seconds":18000},"secondary_window":null}}"#);
    assert_eq!(left(&q.five_hour_remaining), Some(65.));
    assert_eq!(q.five_hour_reset_at, Some(100000));
    assert_eq!(left(&q.weekly_remaining), None);
}

#[test]
fn weekly_only_primary_is_not_five_hour() {
    let q = quota(r#"{"rate_limit": {"primary_window": {"limit_window_seconds": 604800, "used_percent": 13, "reset_at": 100}, "secondary_window": null}}"#);
    assert_eq!(left(&q.five_hour_remaining), None);
    assert_eq!(left(&q.weekly_remaining), Some(87.));
    let windows = windows(q);
    assert_eq!(windows.len(), 1);
    assert_eq!(windows[0].label, "Weekly");
}

#[test]
fn missing_primary_and_secondary_only() {
    let q = quota(r#"{"rate_limit": {"secondary_window": {"limit_window_seconds": 604800, "used_percent": 0, "reset_at": null}}}"#);
    assert_eq!(left(&q.five_hour_remaining), None);
    assert_eq!(left(&q.weekly_remaining), Some(100.));
    assert_eq!(q.weekly_reset_at, None);
}

#[test]
fn reversed_windows_are_classified_by_duration() {
    let q = quota(r#"{"rate_limit": {
        "primary_window": {"limit_window_seconds": 604800, "used_percent": 35},
        "secondary_window": {"limit_window_seconds": 18000, "used_percent": 100}
    }}"#);
    assert_eq!(left(&q.five_hour_remaining), Some(0.));
    assert_eq!(left(&q.weekly_remaining), Some(65.));
    assert_eq!(windows(q)[0].label, "5H");
}

#[test]
fn null_empty_or_absent_windows_are_not_schema_errors() {
    for rate in [
        "null",
        "{}",
        r#"{"primary_window":null}"#,
        r#"{"primary_window":{},"secondary_window":null}"#,
    ] {
        let q = quota(&format!(r#"{{"rate_limit":{rate}}}"#));
        assert_eq!(left(&q.five_hour_remaining), None);
        assert_eq!(left(&q.weekly_remaining), None);
        assert!(windows(q).is_empty());
    }
}

#[test]
fn non_standard_duration_and_missing_usage_remain_visible() {
    let q = quota(r#"{"rate_limit": {"primary_window": {"limit_window_seconds": 86400, "used_percent": null}}}"#);
    assert_eq!(left(&q.five_hour_remaining), None);
    let w = windows(q);
    assert_eq!(w[0].label, "1 天");
    assert_eq!(left(&w[0].remaining), None);
}

#[test]
fn absent_duration_does_not_invent_a_five_hour_limit() {
    let q = quota(r#"{"rate_limit": {"primary_window": {"used_percent": 35}}}"#);
    assert_eq!(left(&q.five_hour_remaining), None);
    assert_eq!(windows(q)[0].label, "主窗口");
}

#[test]
fn schema_drift() {
    assert!(parse(&json(r#"{"rate_limit":{"primary_window":{"used_percent":101}}}"#)).is_err());
    assert!(parse(&json(r#"{}"#)).is_err());
    assert!(parse(&json(r#"{"rate_limit": "wrong"}"#)).is_err());
    assert!(parse(&json(r#"{"rate_limit": {"primary_window": {"used_percent":"35"}}}"#)).is_err());
    assert!(parse(&json(r#"{"rate_limit": {"primary_window": {"unknown_field":true}}}"#)).is_err());
}

#[test]
fn labels_follow_window_length() {
    for (seconds, label) in [(7200, "2H"), (172800, "2 天"), (300, "5 分钟"), (45, "45 秒")] {
        let q = quota(&format!(r#"{{"rate_limit":{{"secondary_window":{{"limit_window_seconds":{seconds}}}}}}}"#));
        let w = windows(q);
        assert_eq!(w[0].label, label);
        assert_eq!(w[0].id, "secondary_window");
    }
    let q = quota(r#"{"rate_limit":{"secondary_window":{"used_percent":1}}}"#);
    assert_eq!(windows(q)[0].label, "次窗口");
}

#[test]
fn fractional_usage_is_a_percentage() {
    let q = quota(r#"{"rate_limit":{"primary_window":{"limit_window_seconds":18000,"used_percent":12.5}}}"#);
    assert_eq!(left(&q.five_hour_remaining), Some(87.5));
    assert!(parse(&json(r#"{"rate_limit":{"primary_window":{"used_percent":100.5}}}"#)).is_err());
    assert!(parse(&json(r#"{"rate_limit":{"primary_window":{"used_percent":-0.5}}}"#)).is_err());
    assert!(parse(&json(r#"{"rate_limit":{"primary_window":{"used_percent":1e-7}}}"#)).is_ok());
    assert!(parse(&json(r#"{"rate_limit":{"primary_window":{"used_percent":1e3}}}"#)).is_err());
}

#[test]
fn reset_times_in_milliseconds() {
    let (q, plan) = usage_response_at(200, br#"{"plan_type":"plus","rate_limit":{"primary_window":{"limit_window_seconds":604800,"reset_after_seconds":60}}}"#, 5_000).ok().unwrap();
    assert_eq!(q.weekly_reset_at, Some(65_000));
    assert_eq!(q.updated_at, 5_000);
    assert_eq!(plan.as_deref(), Some("plus"));
    assert!(parse(&json(r#"{"rate_limit":{"primary_window":{"reset_at":-1}}}"#)).is_err());
    assert!(parse(&json(r#"{"rate_limit":{"primary_window":{"reset_after_seconds":31536000}}}"#)).is_err());
}

#[test]
fn windows_sort_by_length_and_unknown_last() {
    let q = quota(r#"{"rate_limit":{"primary_window":{"used_percent":3},"secondary_window":{"limit_window_seconds":18000,"used_percent":4}}}"#);
    let w = windows(q);
    assert_eq!(w[0].id, "secondary_window");
    assert_eq!(w[1].id, "primary_window");
}

#[test]
fn usage_status_codes() {
    assert_eq!(usage_status(401).unwrap().code, "TOKEN_EXPIRED");
    let e = usage_status(503).unwrap();
    assert_eq!(e.code, "QUOTA_HTTP");
    assert_eq!(e.message, "额度查询失败（HTTP 503）");
    assert!(usage_status(200).is_none());
    assert_eq!(usage_response_at(200, b"not json", 0).err().unwrap().code, "QUOTA_SCHEMA_CHANGED");
    assert_eq!(usage_response_at(429, b"{}", 0).err().unwrap().code, "QUOTA_HTTP");
}
