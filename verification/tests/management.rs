use openrouter_widget::openrouter::management::{
    check_management_key, keys_summary, management_dashboard, management_dashboard_at,
    management_validation,
    remaining_credits,
};
use openrouter_widget::openrouter::models::{
    ActivityRow, CreditsData, CreditsResponse, CurrentKeyData, KeyInfo, KeysResponse,
};
use openrouter_widget::openrouter::standard::{aggregate_activity, key_data_to_dashboard};
use openrouter_widget::error::AppError;

fn make_row(date: &str, usage: f64, requests: i64) -> ActivityRow<f64> {
    ActivityRow {
        date: Some(date.to_string()),
        model: Some("test/model".to_string()),
        provider_name: Some("Test".to_string()),
        endpoint_id: Some("ep-1".to_string()),
        prompt_tokens: Some(1000),
        completion_tokens: Some(500),
        reasoning_tokens: Some(100),
        requests: Some(requests),
        usage: Some(usage),
        byok_usage_inference: Some(0.01),
    }
}

#[test]
fn aggregate_management_activity_groups_by_date() {
    let rows = vec![
        make_row("2026-08-05", 0.25, 10),
        make_row("2026-08-05", 0.15, 5),
        make_row("2026-08-06", 0.30, 15),
    ];
    let points = aggregate_activity(&rows);
    assert_eq!(points.len(), 2);
    assert_eq!(points[0].date_utc, "2026-08-05");
    assert!((points[0].usage - 0.40).abs() < 0.001);
    assert_eq!(points[0].requests, 15);
    assert_eq!(points[1].date_utc, "2026-08-06");
}

#[test]
fn aggregate_management_activity_sorted() {
    let rows = vec![
        make_row("2026-08-10", 1.0, 50),
        make_row("2026-08-01", 0.1, 5),
        make_row("2026-08-05", 0.5, 25),
    ];
    let points = aggregate_activity(&rows);
    assert_eq!(points[0].date_utc, "2026-08-01");
    assert_eq!(points[1].date_utc, "2026-08-05");
    assert_eq!(points[2].date_utc, "2026-08-10");
}

#[test]
fn aggregate_management_empty() {
    let rows: Vec<ActivityRow<f64>> = vec![];
    let points = aggregate_activity(&rows);
    assert!(points.is_empty());
}

fn mgmt_key() -> CurrentKeyData<f64> {
    CurrentKeyData {
        label: Some("mgmt-key".into()),
        limit: None,
        limit_remaining: None,
        limit_reset: None,
        usage: Some(25.75),
        usage_daily: Some(1.25),
        usage_weekly: Some(10.0),
        usage_monthly: Some(25.75),
        byok_usage: None,
        byok_usage_daily: None,
        byok_usage_weekly: None,
        byok_usage_monthly: None,
        is_management_key: Some(true),
        expires_at: None,
    }
}

#[test]
fn dashboard_data_management_mode() {
    let data = mgmt_key();
    let dashboard = key_data_to_dashboard(&data, "management");
    assert_eq!(dashboard.mode, "management");
    assert!(dashboard.account.is_some());
    let account = dashboard.account.as_ref().unwrap();
    assert_eq!(account.total_usage, Some(25.75));
    assert_eq!(dashboard.primary_metric.label, "Credits remaining");
}

#[test]
fn credit_calculation() {
    let total_credits = Some(100.5);
    let total_usage = Some(25.75);
    let remaining = remaining_credits(total_credits, total_usage);
    assert_eq!(remaining, Some(74.75));
}

#[test]
fn credit_calculation_none_values() {
    let total_credits: Option<f64> = None;
    let total_usage: Option<f64> = None;
    let remaining = remaining_credits(total_credits, total_usage);
    assert!(remaining.is_none());
}

fn key_info(usage: Option<f64>) -> KeyInfo<f64> {
    KeyInfo {
        key_hash: None,
        label: None,
        limit: None,
        limit_remaining: None,
        limit_reset: None,
        usage,
        usage_daily: None,
        usage_weekly: None,
        usage_monthly: None,
        created_at: None,
    }
}

#[test]
fn management_dashboard_with_credits_and_keys() {
    let credits = CreditsResponse { data: CreditsData { total_credits: Some(100.5), total_usage: Some(25.75) } };
    let keys = KeysResponse { data: vec![key_info(Some(1.0)), key_info(None), key_info(Some(0.0))] };
    let d = management_dashboard_at(&mgmt_key(), Some(credits), Some(keys), "t".to_string());
    assert_eq!(d.primary_metric.value, Some(74.75));
    assert_eq!(d.primary_metric.label, "Credits remaining");
    let account = d.account.as_ref().unwrap();
    assert_eq!(account.total_credits, Some(100.5));
    assert_eq!(account.remaining_credits, Some(74.75));
    let k = d.keys.as_ref().unwrap();
    assert_eq!((k.total, k.active, k.disabled, k.near_limit), (3, 2, 1, 0));
    assert_eq!(d.status, "live");
}

#[test]
fn management_dashboard_without_credits_has_no_headline_value() {
    let d = management_dashboard(&mgmt_key(), None, None);
    assert_eq!(d.primary_metric.value, None);
    assert_eq!(d.account.as_ref().unwrap().total_usage, Some(25.75));
    assert!(d.keys.is_none());
}

#[test]
fn keys_summary_counts() {
    let s = keys_summary::<f64>(&vec![]);
    assert_eq!((s.total, s.active, s.disabled), (0, 0, 0));
}

#[test]
fn management_key_checks() {
    assert!(check_management_key(&mgmt_key()).is_ok());
    let mut k = mgmt_key();
    k.is_management_key = None;
    match check_management_key(&k) {
        Err(AppError::InvalidInput(m)) => {
            assert_eq!(m, "This key is not a management key. Please use standard mode.")
        }
        _ => panic!("expected InvalidInput"),
    }
    let v = management_validation(&k);
    assert!(!v.valid);
    assert_eq!(v.error.as_deref(), Some("This key is not a management key."));
    let v = management_validation(&mgmt_key());
    assert!(v.valid);
    assert_eq!(v.mode.as_deref(), Some("management"));
    assert_eq!(v.label.as_deref(), Some("mgmt-key"));
}
