use openrouter_widget::openrouter::models::{ActivityRow, CurrentKeyData};
use openrouter_widget::openrouter::standard::{
    aggregate_activity, check_standard_key, dashboard_from_key_data, key_data_to_dashboard,
    set_history, standard_validation, try_aggregate_activity,
};
use openrouter_widget::error::AppError;

fn make_row(
    date: &str,
    usage: f64,
    prompt_tokens: i64,
    completion_tokens: i64,
    requests: i64,
) -> ActivityRow<f64> {
    ActivityRow {
        date: Some(date.to_string()),
        model: Some("test/model".to_string()),
        provider_name: Some("Test".to_string()),
        endpoint_id: Some("ep-1".to_string()),
        prompt_tokens: Some(prompt_tokens),
        completion_tokens: Some(completion_tokens),
        reasoning_tokens: Some(0),
        requests: Some(requests),
        usage: Some(usage),
        byok_usage_inference: Some(0.0),
    }
}

#[test]
fn aggregate_single_date() {
    let rows = vec![
        make_row("2026-08-05", 0.25, 1000, 500, 10),
        make_row("2026-08-05", 0.15, 500, 200, 5),
    ];
    let points = aggregate_activity(&rows);
    assert_eq!(points.len(), 1);
    assert_eq!(points[0].usage, 0.40);
    assert_eq!(points[0].prompt_tokens, 1500);
    assert_eq!(points[0].completion_tokens, 700);
    assert_eq!(points[0].requests, 15);
}

#[test]
fn aggregate_multiple_dates_sorted() {
    let rows = vec![
        make_row("2026-08-07", 0.50, 2000, 1000, 20),
        make_row("2026-08-05", 0.25, 1000, 500, 10),
        make_row("2026-08-06", 0.30, 1500, 700, 15),
    ];
    let points = aggregate_activity(&rows);
    assert_eq!(points.len(), 3);
    assert_eq!(points[0].date_utc, "2026-08-05");
    assert_eq!(points[1].date_utc, "2026-08-06");
    assert_eq!(points[2].date_utc, "2026-08-07");
}

#[test]
fn aggregate_empty_rows() {
    let rows: Vec<ActivityRow<f64>> = vec![];
    let points = aggregate_activity(&rows);
    assert!(points.is_empty());
}

#[test]
fn aggregate_with_none_values() {
    let rows: Vec<ActivityRow<f64>> = vec![ActivityRow {
        date: Some("2026-08-05".to_string()),
        model: None,
        provider_name: None,
        endpoint_id: None,
        prompt_tokens: None,
        completion_tokens: None,
        reasoning_tokens: None,
        requests: None,
        usage: None,
        byok_usage_inference: None,
    }];
    let points = aggregate_activity(&rows);
    assert_eq!(points.len(), 1);
    assert_eq!(points[0].usage, 0.0);
    assert_eq!(points[0].prompt_tokens, 0);
}

#[test]
fn aggregate_with_empty_date() {
    let rows = vec![ActivityRow {
        date: None,
        model: None,
        provider_name: None,
        endpoint_id: None,
        prompt_tokens: Some(100),
        completion_tokens: Some(50),
        reasoning_tokens: None,
        requests: Some(5),
        usage: Some(0.10),
        byok_usage_inference: Some(0.02),
    }];
    let points = aggregate_activity(&rows);
    assert_eq!(points.len(), 1);
    assert_eq!(points[0].date_utc, "");
    assert_eq!(points[0].byok_usage, 0.02);
}

#[test]
fn aggregate_overflow_is_reported() {
    let rows = vec![make_row("2026-08-05", 0.1, i64::MAX, 0, 1), make_row("2026-08-05", 0.1, 1, 0, 1)];
    assert!(try_aggregate_activity(&rows).is_none());
    let rows = vec![make_row("2026-08-05", 0.1, i64::MAX, 0, 1), make_row("2026-08-06", 0.1, 1, 0, 1)];
    assert_eq!(try_aggregate_activity(&rows).unwrap().len(), 2);
}

fn key(label: &str, limit: Option<f64>, remaining: Option<f64>, management: bool) -> CurrentKeyData<f64> {
    CurrentKeyData {
        label: Some(label.into()),
        limit,
        limit_remaining: remaining,
        limit_reset: None,
        usage: Some(25.5),
        usage_daily: Some(1.25),
        usage_weekly: Some(10.0),
        usage_monthly: Some(25.5),
        byok_usage: None,
        byok_usage_daily: Some(0.05),
        byok_usage_weekly: None,
        byok_usage_monthly: None,
        is_management_key: Some(management),
        expires_at: None,
    }
}

#[test]
fn key_data_to_dashboard_standard() {
    let data = CurrentKeyData {
        label: Some("my-key".into()),
        limit: Some(100.0),
        limit_remaining: Some(74.5),
        limit_reset: Some("daily".into()),
        usage: Some(25.5),
        usage_daily: Some(1.25),
        usage_weekly: Some(10.0),
        usage_monthly: Some(25.5),
        byok_usage: None,
        byok_usage_daily: Some(0.05),
        byok_usage_weekly: None,
        byok_usage_monthly: None,
        is_management_key: Some(false),
        expires_at: None,
    };
    let dashboard = key_data_to_dashboard(&data, "standard");
    assert_eq!(dashboard.mode, "standard");
    assert_eq!(dashboard.status, "live");
    assert_eq!(dashboard.primary_metric.label, "Key limit remaining");
    assert_eq!(dashboard.primary_metric.value, Some(74.5));
    assert!(!dashboard.primary_metric.unlimited);
    assert_eq!(dashboard.usage.today, Some(1.25));
    assert_eq!(dashboard.usage.byok_today, Some(0.05));
    assert_eq!(dashboard.usage.total, Some(25.5));
    assert!(dashboard.account.is_none());
}

#[test]
fn key_data_to_dashboard_no_limit() {
    let data = CurrentKeyData {
        label: Some("no-limit".into()),
        limit: None,
        limit_remaining: None,
        limit_reset: None,
        usage: Some(5.0),
        usage_daily: Some(2.0),
        usage_weekly: Some(3.0),
        usage_monthly: Some(5.0),
        byok_usage: None,
        byok_usage_daily: None,
        byok_usage_weekly: None,
        byok_usage_monthly: None,
        is_management_key: Some(false),
        expires_at: None,
    };
    let dashboard = key_data_to_dashboard(&data, "standard");
    assert_eq!(dashboard.primary_metric.label, "Key usage (today)");
    assert_eq!(dashboard.primary_metric.value, Some(2.0));
}

#[test]
fn dashboard_data_management_account() {
    let data = CurrentKeyData {
        label: Some("mgmt".into()),
        limit: None,
        limit_remaining: None,
        limit_reset: None,
        usage: Some(25.0),
        usage_daily: Some(1.5),
        usage_weekly: Some(8.0),
        usage_monthly: Some(25.0),
        byok_usage: None,
        byok_usage_daily: None,
        byok_usage_weekly: None,
        byok_usage_monthly: None,
        is_management_key: Some(true),
        expires_at: None,
    };
    let dashboard = key_data_to_dashboard(&data, "management");
    assert_eq!(dashboard.mode, "management");
    assert!(dashboard.account.is_some());
    let account = dashboard.account.unwrap();
    assert_eq!(account.total_credits, None);
    assert_eq!(account.total_usage, Some(25.0));
    assert_eq!(account.remaining_credits, None);
}

#[test]
fn dashboard_has_fixed_history_and_source() {
    let d = dashboard_from_key_data(&key("k", None, None, false), "standard", "2026-08-05T00:00:00Z".to_string());
    assert_eq!(d.refreshed_at, "2026-08-05T00:00:00Z");
    assert_eq!(d.data_source, "network");
    assert_eq!(d.history.timezone, "UTC");
    assert_eq!(d.history.available_days, 0);
    assert!(d.history.latest.is_empty());
    assert!(d.keys.is_none());
}

#[test]
fn set_history_counts_days() {
    let mut d = dashboard_from_key_data(&key("k", None, None, false), "standard", String::new());
    let rows = vec![make_row("2026-08-05", 0.1, 1, 1, 1), make_row("2026-08-06", 0.1, 1, 1, 1)];
    set_history(&mut d, aggregate_activity(&rows));
    assert_eq!(d.history.available_days, 2);
    assert_eq!(d.history.latest[1].date_utc, "2026-08-06");
}

#[test]
fn standard_key_checks() {
    assert!(check_standard_key(&key("k", None, None, false)).is_ok());
    match check_standard_key(&key("k", None, None, true)) {
        Err(AppError::InvalidInput(m)) => assert_eq!(
            m,
            "This key appears to be a management key. Please use management mode."
        ),
        _ => panic!("expected InvalidInput"),
    }
    let v = standard_validation(&key("lbl", None, None, false));
    assert!(v.valid);
    assert_eq!(v.mode.as_deref(), Some("standard"));
    assert_eq!(v.label.as_deref(), Some("lbl"));
    assert!(v.error.is_none());
    let v = standard_validation(&key("lbl", None, None, true));
    assert!(!v.valid);
    assert_eq!(v.error.as_deref(), Some("This key is a management key, not a standard key."));
}
