use openrouter_widget::commands::{
    cached_dashboard, configured_state, daily_usage_writes, group_rows_by_date, profile_mode,
    retention_window, selected_mode, snapshot_of, startup_plan, tray_action, unconfigured_state,
    update_check_due, update_check_due_after, CachedSnapshot, KeyMode, TrayAction,
};
use openrouter_widget::error::AppError;
use openrouter_widget::openrouter::models::{ActivityRow, CurrentKeyData};
use openrouter_widget::openrouter::standard::{aggregate_activity, dashboard_from_key_data, set_history};

fn key(management: bool) -> CurrentKeyData<f64> {
    CurrentKeyData {
        label: Some("k".into()),
        limit: None,
        limit_remaining: None,
        limit_reset: None,
        usage: Some(9.0),
        usage_daily: Some(1.5),
        usage_weekly: Some(3.0),
        usage_monthly: Some(9.0),
        byok_usage: None,
        byok_usage_daily: None,
        byok_usage_weekly: None,
        byok_usage_monthly: None,
        is_management_key: Some(management),
        expires_at: None,
    }
}

fn row(date: Option<&str>, model: &str, requests: i64) -> ActivityRow<f64> {
    ActivityRow {
        date: date.map(|d| d.to_string()),
        model: Some(model.to_string()),
        provider_name: None,
        endpoint_id: None,
        prompt_tokens: Some(10),
        completion_tokens: Some(5),
        reasoning_tokens: None,
        requests: Some(requests),
        usage: Some(0.5),
        byok_usage_inference: None,
    }
}

#[test]
fn app_state_from_profile_or_store() {
    let s = configured_state((1, "management".to_string(), "fp".to_string(), Some("lbl".to_string())));
    assert!(s.configured);
    assert_eq!(s.key_mode.as_deref(), Some("management"));
    assert_eq!(s.key_label.as_deref(), Some("lbl"));
    let s = unconfigured_state(true);
    assert!(s.configured);
    assert!(s.key_mode.is_none());
    assert!(!unconfigured_state(false).configured);
}

#[test]
fn modes_are_read_from_names() {
    assert_eq!(selected_mode("standard").unwrap(), KeyMode::Standard);
    assert_eq!(selected_mode("management").unwrap(), KeyMode::Management);
    match selected_mode("other") {
        Err(AppError::InvalidInput(m)) => {
            assert_eq!(m, "Invalid mode: other. Must be 'standard' or 'management'.")
        }
        _ => panic!("expected InvalidInput"),
    }
    match profile_mode("legacy") {
        Err(AppError::StorageError(m)) => assert_eq!(m, "Unknown credential mode: legacy"),
        _ => panic!("expected StorageError"),
    }
    assert_eq!(profile_mode("management").unwrap(), KeyMode::Management);
}

#[test]
fn snapshot_takes_usage_and_account() {
    let d = dashboard_from_key_data(&key(true), "management", String::new());
    let s = snapshot_of(&d);
    assert_eq!(s.total_usage, Some(9.0));
    assert_eq!(s.total_credits, None);
    assert_eq!(s.usage_daily, Some(1.5));
    assert_eq!(s.usage_all_time, Some(9.0));
    assert!(s.key_limit.is_none());
    assert!(s.request_succeeded);
    let d = dashboard_from_key_data(&key(false), "standard", String::new());
    assert_eq!(snapshot_of(&d).total_usage, None);
}

#[test]
fn standard_refresh_adds_today_once() {
    let mut d = dashboard_from_key_data(&key(false), "standard", String::new());
    let w = daily_usage_writes(KeyMode::Standard, &d, "2026-08-05", 0.0);
    assert_eq!(w.len(), 1);
    assert_eq!(w[0].date_utc, "2026-08-05");
    assert_eq!(w[0].usage, 1.5);
    assert_eq!(w[0].byok_usage, 0.0);
    assert_eq!(w[0].source, "standard_key_snapshot");
    assert_eq!(w[0].finality, "last_seen");
    set_history(&mut d, aggregate_activity(&[row(Some("2026-08-05"), "m", 2)]));
    let w = daily_usage_writes(KeyMode::Standard, &d, "2026-08-05", 0.0);
    assert_eq!(w.len(), 1);
    assert_eq!(w[0].requests, 2);
}

#[test]
fn management_refresh_writes_history_only() {
    let mut d = dashboard_from_key_data(&key(true), "management", String::new());
    set_history(
        &mut d,
        aggregate_activity(&[row(Some("2026-08-04"), "a", 1), row(Some("2026-08-03"), "b", 2)]),
    );
    let w = daily_usage_writes(KeyMode::Management, &d, "2026-08-05", 0.0);
    assert_eq!(w.len(), 2);
    assert_eq!(w[0].date_utc, "2026-08-03");
    assert_eq!(w[0].source, "openrouter_activity");
    assert_eq!(w[0].finality, "authoritative");
}

#[test]
fn rows_are_grouped_by_first_occurrence() {
    let rows = vec![
        row(Some("2026-08-05"), "a", 1),
        row(None, "b", 1),
        row(Some("2026-08-04"), "c", 1),
        row(Some("2026-08-05"), "d", 1),
    ];
    let groups = group_rows_by_date(&rows);
    assert_eq!(groups.len(), 3);
    assert_eq!(groups[0].0, "2026-08-05");
    assert_eq!(groups[0].1, vec![0, 3]);
    assert_eq!(groups[1].0, "");
    assert_eq!(groups[1].1, vec![1]);
    assert_eq!(groups[2].1, vec![2]);
}

#[test]
fn retention_window_for_settings() {
    assert_eq!(retention_window(365), Some(365));
    assert_eq!(retention_window(0), None);
    assert_eq!(retention_window(-5), None);
}

fn snapshot() -> CachedSnapshot<f64> {
    CachedSnapshot {
        tracking_date_utc: Some("2026-08-05T10:00:00Z".to_string()),
        total_credits: Some(100.0),
        total_usage: Some(30.0),
        credits_remaining: Some(70.0),
        key_limit: None,
        key_limit_remaining: None,
        usage_daily: Some(2.0),
        usage_weekly: Some(5.0),
        usage_monthly: Some(30.0),
        usage_all_time: Some(30.0),
        byok_usage_daily: None,
    }
}

#[test]
fn cached_dashboard_from_snapshot() {
    assert!(cached_dashboard::<f64>("standard".to_string(), vec![], None).is_none());
    let d = cached_dashboard("management".to_string(), vec![], Some(snapshot())).unwrap();
    assert_eq!(d.status, "cached");
    assert_eq!(d.data_source, "cache");
    assert_eq!(d.primary_metric.label, "Credits remaining");
    assert_eq!(d.primary_metric.value, Some(70.0));
    assert_eq!(d.account.as_ref().unwrap().total_credits, Some(100.0));
    assert_eq!(d.refreshed_at, "2026-08-05T10:00:00Z");
    let points = aggregate_activity(&[row(Some("2026-08-05"), "a", 1)]);
    let d = cached_dashboard("standard".to_string(), points, Some(snapshot())).unwrap();
    assert_eq!(d.primary_metric.label, "Key usage (today)");
    assert_eq!(d.primary_metric.value, Some(2.0));
    assert!(d.account.is_none());
    assert_eq!(d.history.available_days, 1);
}

#[test]
fn tray_menu_actions() {
    assert_eq!(tray_action("open_widget"), TrayAction::OpenWidget);
    assert_eq!(tray_action("refresh"), TrayAction::Refresh);
    assert_eq!(tray_action("always_on_top"), TrayAction::ToggleAlwaysOnTop);
    assert_eq!(tray_action("settings"), TrayAction::OpenSettings);
    assert_eq!(tray_action("quit"), TrayAction::Quit);
    assert_eq!(tray_action("unknown"), TrayAction::Nothing);
}

#[test]
fn startup_plan_hides_taskbar_entry() {
    let p = startup_plan(true, false, true, false);
    assert!(p.show_window);
    assert!(p.enable_autostart);
    assert!(p.reset_taskbar_setting);
    assert!(!p.always_on_top);
    assert!(p.skip_taskbar);
    let p = startup_plan(false, true, false, false);
    assert!(!p.enable_autostart);
    assert!(!p.reset_taskbar_setting);
    assert!(p.skip_taskbar);
}

#[test]
fn start_minimized_keeps_the_widget_in_the_tray() {
    let p = startup_plan(true, true, false, true);
    assert!(!p.show_window);
    assert!(p.always_on_top);
    assert!(p.skip_taskbar);
}

#[test]
fn update_checks_are_due_after_fifteen_days() {
    let now = "2026-01-16T00:00:00Z";
    assert!(update_check_due(None, now));
    assert!(update_check_due(Some("yesterday"), now));
    assert!(!update_check_due_after(14));
    assert!(update_check_due_after(15));
    assert!(update_check_due(Some("2000-01-01T00:00:00Z"), now));
    assert!(update_check_due(Some("2026-01-01T00:00:00Z"), now));
    assert!(!update_check_due(Some("2026-01-01T00:00:01Z"), now));
    assert!(!update_check_due(Some("2026-01-10T09:30:00+02:00"), now));
    assert!(!update_check_due(Some("2026-02-01T00:00:00Z"), now));
    assert!(update_check_due(Some("2026-01-01T00:00:00Z"), "not a time"));
}
