use quotadock::commands::{
    adaptive_refresh_interval, auto_refresh_wait_timeout, codex_prompt_ready,
    codex_status_output_ready, codex_update_prompt_visible, failure_backoff_interval,
    imminent_reset_refresh_interval_at, is_cmd_shim_extension, legacy_codex_result,
    low_quota_notification, next_auto_refresh_schedule, next_provider_auto_schedule,
    probe_log_summary, should_send_status_command, status_output_ready_after_settle,
    AUTO_BASE_REFRESH_INTERVAL, AUTO_BUSY_RETRY_INTERVAL, AUTO_LOW_USAGE_REFRESH_INTERVAL,
    AUTO_POST_RESET_REFRESH_DELAY, AUTO_REFRESH_STOP_POLL_INTERVAL, AUTO_RESET_WATCH_WINDOW,
    STATUS_OUTPUT_SETTLE_DELAY,
};
use quotadock::models::{
    AppSettings, AppState, ProviderErrorCategory, ProviderHealth, ProviderId,
    ProviderRefreshOutcome, ProviderRefreshResult, ProviderSnapshot, ProviderStates, QuotaReading,
    QuotaSnapshot, RefreshProvidersResult, RefreshUsageResult, SnapshotSource, StorageStatus,
    STATE_VERSION,
};

fn app_state(snapshot: QuotaSnapshot) -> AppState {
    let mut providers = ProviderStates::default();
    providers.codex.last_attempt_at = Some(snapshot.captured_at.clone());
    providers.codex.latest_snapshot = Some(ProviderSnapshot::Codex(snapshot.clone()));
    providers.codex.health = ProviderHealth::Fresh;
    AppState {
        version: STATE_VERSION,
        revision: 1,
        providers,
        latest_snapshot: Some(snapshot),
        storage_status: StorageStatus::Ready,
        storage_path: None,
        backup_path: None,
        status_message: "已通过 Codex CLI 更新额度。".to_string(),
        history: Vec::new(),
        settings: AppSettings::default(),
        recovery_notice: None,
    }
}

fn refresh_result(snapshot: QuotaSnapshot) -> RefreshUsageResult {
    RefreshUsageResult {
        app_state: app_state(snapshot),
        updated: true,
        message: "已通过 Codex CLI 更新额度。".to_string(),
    }
}

fn snapshot(weekly_percent: u8, reset_countdown_seconds: Option<i64>) -> QuotaSnapshot {
    QuotaSnapshot {
        id: "snap-1".to_string(),
        source: SnapshotSource::CodexCli,
        captured_at: "unix:1000".to_string(),
        weekly: QuotaReading {
            remaining_percent: Some(weekly_percent),
            reset_at: None,
            reset_countdown_seconds,
        },
        plan_type: None,
        credits_balance: None,
        reset_credits_available: None,
        raw_text: String::new(),
        status_message: "已通过 Codex CLI 更新额度。".to_string(),
        warnings: Vec::new(),
    }
}

fn provider_result(
    provider_id: ProviderId,
    outcome: ProviderRefreshOutcome,
    message: &str,
    error_category: Option<ProviderErrorCategory>,
) -> ProviderRefreshResult {
    ProviderRefreshResult {
        provider_id,
        outcome,
        message: message.to_string(),
        error_category,
    }
}

#[test]
fn probe_log_summary_never_persists_terminal_contents() {
    let terminal_output = "Authorization: Bearer fake-secret\n1 周剩余 42%\n充值余额 100.00";
    let summary = probe_log_summary(terminal_output);

    assert!(summary.contains(&format!("captured_bytes={}", terminal_output.len())));
    assert!(summary.contains("raw_output=redacted"));
    assert!(!summary.contains("fake-secret"));
    assert!(!summary.contains("42%"));
    assert!(!summary.contains("100.00"));
}

#[test]
fn auto_refresh_scheduler_checks_for_shutdown_within_one_second() {
    assert_eq!(
        auto_refresh_wait_timeout(5 * 60 * 1000),
        AUTO_REFRESH_STOP_POLL_INTERVAL
    );
    assert_eq!(auto_refresh_wait_timeout(250), 250);
}

#[test]
fn detects_windows_cmd_shims() {
    let extension = |name: &'static str| {
        std::path::Path::new(name)
            .extension()
            .and_then(|value| value.to_str())
    };
    assert!(is_cmd_shim_extension(extension("codex.cmd")));
    assert!(is_cmd_shim_extension(extension("codex.bat")));
    assert!(!is_cmd_shim_extension(extension("codex.exe")));
}

#[test]
fn recognizes_interactive_status_output() {
    let output = "Weekly limit: [======] 59% left (resets 07:00 on 25 Jun)";

    assert!(codex_status_output_ready(output));
}

#[test]
fn recognizes_weekly_only_interactive_status_output() {
    let output = "Weekly limit: [===================░] 93% left\n                              (resets 13:21 on 22 Jul)\nGPT-5.3-Codex-Spark Weekly limit: [====================] 100% left";

    assert!(codex_status_output_ready(output));
}

#[test]
fn waits_for_status_output_to_settle_before_accepting_it() {
    let partial = "Weekly limit: [======] 44% left (resets 22:04)";

    assert!(!status_output_ready_after_settle(
        partial,
        STATUS_OUTPUT_SETTLE_DELAY - 1,
    ));
    assert!(status_output_ready_after_settle(
        partial,
        STATUS_OUTPUT_SETTLE_DELAY,
    ));
}

#[test]
fn waits_for_the_codex_prompt_before_typing_status() {
    let started_elapsed = 15_000;

    assert!(!should_send_status_command(
        "Update available!\nPress enter to continue",
        started_elapsed,
        started_elapsed,
        0,
        false,
    ));
    assert!(should_send_status_command(
        "model: gpt-5\ndirectory: ~\n› Use /skills to list available skills",
        started_elapsed,
        started_elapsed,
        0,
        false,
    ));
    assert!(codex_update_prompt_visible(
        "Update available!\nPress enter to continue"
    ));
}

#[test]
fn auto_refresh_keeps_base_interval_for_healthy_usage() {
    let state = app_state(snapshot(64, Some(3600)));

    assert_eq!(adaptive_refresh_interval(&state), AUTO_BASE_REFRESH_INTERVAL);
}

#[test]
fn auto_refresh_accelerates_when_usage_is_low() {
    let outcome = Ok(refresh_result(snapshot(20, Some(3600))));

    let schedule = next_auto_refresh_schedule(&outcome, 2);

    assert_eq!(schedule.delay, AUTO_LOW_USAGE_REFRESH_INTERVAL);
    assert_eq!(schedule.consecutive_failures, 0);
}

#[test]
fn auto_refresh_schedules_after_imminent_reset() {
    let reset_in_seconds: u64 = 42;
    let state = app_state(snapshot(64, Some(reset_in_seconds as i64)));

    assert_eq!(
        adaptive_refresh_interval(&state),
        reset_in_seconds * 1000 + AUTO_POST_RESET_REFRESH_DELAY
    );
}

#[test]
fn auto_refresh_ignores_distant_reset_countdown() {
    let reset_after_watch_window = AUTO_RESET_WATCH_WINDOW + 1000;
    let state = app_state(snapshot(64, Some((reset_after_watch_window / 1000) as i64)));

    assert_eq!(adaptive_refresh_interval(&state), AUTO_BASE_REFRESH_INTERVAL);
}

#[test]
fn auto_refresh_uses_structured_absolute_reset_time() {
    let mut value = snapshot(64, None);
    value.weekly.reset_at = Some("unix:1042".to_string());

    assert_eq!(
        imminent_reset_refresh_interval_at(&value, 1000),
        Some(42_000 + AUTO_POST_RESET_REFRESH_DELAY)
    );
}

#[test]
fn auto_refresh_ignores_long_expired_absolute_reset_time() {
    let mut value = snapshot(64, None);
    value.weekly.reset_at = Some("unix:1000".to_string());

    assert_eq!(imminent_reset_refresh_interval_at(&value, 2000), None);
}

#[test]
fn low_quota_notification_reports_the_weekly_threshold_crossing() {
    let previous = snapshot(21, None);
    let current = snapshot(20, None);

    assert_eq!(
        low_quota_notification(Some(&previous), &current).as_deref(),
        Some("1 周剩余 20%")
    );
    assert!(low_quota_notification(Some(&current), &current).is_none());
}

#[test]
fn auto_refresh_uses_failure_backoff_for_unsuccessful_results() {
    let mut state = app_state(snapshot(64, Some(30)));
    state.status_message = "Codex CLI 额度查询失败，请稍后重试。".to_string();
    let outcome = Ok(RefreshUsageResult {
        app_state: state,
        updated: false,
        message: "Codex CLI 额度查询失败，请稍后重试。".to_string(),
    });

    let schedule = next_auto_refresh_schedule(&outcome, 1);

    assert_eq!(schedule.delay, 10 * 60 * 1000);
    assert_eq!(schedule.consecutive_failures, 2);
}

#[test]
fn failure_backoff_caps_at_thirty_minutes() {
    assert_eq!(failure_backoff_interval(1), 5 * 60 * 1000);
    assert_eq!(failure_backoff_interval(2), 10 * 60 * 1000);
    assert_eq!(failure_backoff_interval(3), 20 * 60 * 1000);
    assert_eq!(failure_backoff_interval(4), 30 * 60 * 1000);
    assert_eq!(failure_backoff_interval(8), 30 * 60 * 1000);
}

#[test]
fn provider_backoff_is_independent_and_codex_adaptive_rules_do_not_touch_balances() {
    let state = app_state(snapshot(20, Some(3600)));
    let failed = provider_result(
        ProviderId::DeepSeek,
        ProviderRefreshOutcome::Failed,
        "failed",
        Some(ProviderErrorCategory::Network),
    );
    let codex_updated = provider_result(
        ProviderId::Codex,
        ProviderRefreshOutcome::Updated,
        "updated",
        None,
    );
    let deepseek_updated = provider_result(
        ProviderId::DeepSeek,
        ProviderRefreshOutcome::Updated,
        "updated",
        None,
    );
    let skipped = provider_result(
        ProviderId::Kimi,
        ProviderRefreshOutcome::Skipped,
        "not configured",
        Some(ProviderErrorCategory::NotConfigured),
    );
    let busy = provider_result(
        ProviderId::Kimi,
        ProviderRefreshOutcome::Skipped,
        "busy",
        Some(ProviderErrorCategory::Busy),
    );

    assert_eq!(
        next_provider_auto_schedule(ProviderId::DeepSeek, &failed, &state, 1),
        (10 * 60 * 1000, 2)
    );
    assert_eq!(
        next_provider_auto_schedule(ProviderId::Codex, &codex_updated, &state, 3),
        (AUTO_LOW_USAGE_REFRESH_INTERVAL, 0)
    );
    assert_eq!(
        next_provider_auto_schedule(ProviderId::DeepSeek, &deepseek_updated, &state, 3),
        (AUTO_BASE_REFRESH_INTERVAL, 0)
    );
    assert_eq!(
        next_provider_auto_schedule(ProviderId::Kimi, &skipped, &state, 3),
        (AUTO_BASE_REFRESH_INTERVAL, 0)
    );
    assert_eq!(
        next_provider_auto_schedule(ProviderId::Kimi, &busy, &state, 3),
        (AUTO_BUSY_RETRY_INTERVAL, 3)
    );
}

#[test]
fn legacy_refresh_projection_only_uses_the_codex_outcome() {
    let mut state = app_state(snapshot(50, None));
    state.revision = 8;
    let deepseek_only = legacy_codex_result(RefreshProvidersResult {
        app_state: state.clone(),
        provider_results: vec![provider_result(
            ProviderId::DeepSeek,
            ProviderRefreshOutcome::Updated,
            "DeepSeek updated",
            None,
        )],
        any_updated: true,
        message: "updated".to_string(),
    });
    assert!(!deepseek_only.updated);
    assert_eq!(deepseek_only.message, "Codex 查询未执行。");

    let codex_failure = legacy_codex_result(RefreshProvidersResult {
        app_state: state,
        provider_results: vec![
            provider_result(
                ProviderId::Codex,
                ProviderRefreshOutcome::Failed,
                "Codex failed",
                Some(ProviderErrorCategory::InvalidResponse),
            ),
            provider_result(
                ProviderId::DeepSeek,
                ProviderRefreshOutcome::Updated,
                "DeepSeek updated",
                None,
            ),
        ],
        any_updated: true,
        message: "partial".to_string(),
    });
    assert!(!codex_failure.updated);
    assert_eq!(codex_failure.message, "Codex failed");
}

#[test]
fn prompt_is_recognized_by_model_and_directory_lines() {
    assert!(codex_prompt_ready("Model: gpt-5\nDirectory: ~/work"));
    assert!(codex_prompt_ready("Implement {feature}"));
    assert!(!codex_prompt_ready("Loading..."));
}

#[test]
fn status_command_is_retried_after_three_seconds_and_at_most_six_times() {
    assert!(!should_send_status_command("", 60_000, 2_999, 1, true));
    assert!(should_send_status_command("", 60_000, 3_000, 1, true));
    assert!(!should_send_status_command("model: x directory: y", 60_000, 60_000, 6, true));
    assert!(!should_send_status_command("model: x directory: y", 14_999, 14_999, 0, true));
}
