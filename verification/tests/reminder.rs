use quotadock::reminder::{evaluate_reminders, ReminderState, Settings, UsageSnapshot};

fn settings() -> Settings {
    Settings {
        stale_after_minutes: 60,
        notify_below_percent: vec![20, 10],
        clipboard_monitoring: false,
        notifications_enabled: true,
    }
}

fn snapshot(percent: Option<u8>, parsed_at: &str) -> UsageSnapshot {
    UsageSnapshot {
        id: "snapshot-1".to_string(),
        parsed_at: parsed_at.to_string(),
        remaining_percent: percent,
    }
}

#[test]
fn emits_low_balance_for_nearest_threshold() {
    let reminders = evaluate_reminders(Some(&snapshot(Some(8), "unix:1000")), &settings(), 1020);

    assert_eq!(reminders.len(), 1);
    assert!(reminders[0].key.ends_with(":10"));
    assert!(reminders[0].body.contains("8%"));
}

#[test]
fn emits_stale_snapshot_reminder() {
    let reminders = evaluate_reminders(Some(&snapshot(Some(80), "unix:1000")), &settings(), 5_000);

    assert_eq!(reminders.len(), 1);
    assert!(reminders[0].key.starts_with("stale:"));
}

#[test]
fn notifications_can_be_disabled() {
    let mut settings = settings();
    settings.notifications_enabled = false;

    let reminders = evaluate_reminders(Some(&snapshot(Some(1), "unix:1000")), &settings, 5_000);

    assert!(reminders.is_empty());
}

#[test]
fn reminder_state_deduplicates_keys() {
    let mut state = ReminderState::default();
    let reminders = evaluate_reminders(Some(&snapshot(Some(9), "unix:1000")), &settings(), 1020);

    assert_eq!(state.take_new(reminders.clone()).len(), 1);
    assert!(state.take_new(reminders).is_empty());
}

#[test]
fn no_snapshot_gives_no_reminder() {
    assert!(evaluate_reminders(None, &settings(), 5_000).is_empty());
}
