use quotadock::models::{
    AppSettings, DeepSeekSnapshot, ParseWarning, ProviderErrorCategory, ProviderHealth,
    ProviderId, ProviderSnapshot, QuotaReading, QuotaSnapshot, SettingsPatch, SnapshotSource,
    StorageStatus, StoredState, UsageHistoryPoint, STATE_VERSION,
};
use quotadock::usage_store::{
    backup_reason, load_plan, migrate_previous_state, version_handling, LegacyQuotaSnapshot,
    LegacyStoredState, LoadPlan,
    ProviderRefreshMutation, ProviderRefreshMutationKind, UsageStore, VersionHandling,
};

fn snapshot(percent: u8) -> QuotaSnapshot {
    QuotaSnapshot {
        id: "snap-1".to_string(),
        source: SnapshotSource::PastedStatus,
        captured_at: "unix:1000".to_string(),
        weekly: QuotaReading {
            remaining_percent: Some(percent),
            reset_at: Some("2026-06-23T09:00:00Z".to_string()),
            reset_countdown_seconds: None,
        },
        plan_type: None,
        credits_balance: None,
        reset_credits_available: None,
        raw_text: "status".to_string(),
        status_message: "已更新 1 周额度。".to_string(),
        warnings: Vec::new(),
    }
}

fn legacy_snapshot(percent: Option<u8>) -> LegacyQuotaSnapshot {
    LegacyQuotaSnapshot {
        id: "legacy".to_string(),
        source: SnapshotSource::CodexCli,
        captured_at: "unix:1000".to_string(),
        weekly: QuotaReading {
            remaining_percent: percent,
            reset_at: None,
            reset_countdown_seconds: None,
        },
        plan_type: None,
        credits_balance: None,
        reset_credits_available: None,
        raw_text: "legacy terminal output".to_string(),
        status_message: "legacy status".to_string(),
        warnings: vec![ParseWarning {
            code: "removed-capability".to_string(),
            message: "legacy warning".to_string(),
        }],
    }
}

fn store() -> UsageStore {
    UsageStore::new("state.json".to_string())
}

#[test]
fn missing_file_loads_default_state_without_creating_file() {
    let outcome = store().missing();

    assert_eq!(outcome.status, StorageStatus::Missing);
    assert_eq!(outcome.state.version, STATE_VERSION);
    assert_eq!(outcome.state.revision, 0);
    assert!(outcome.state.providers.codex_snapshot().is_none());
    assert!(outcome.state.history.is_empty());
    assert!(outcome.state.recovery_notice.is_none());
    assert!(outcome.backup_path.is_none());
    assert_eq!(outcome.path, "state.json");
}

#[test]
fn previous_state_versions_are_migrated_without_losing_weekly_usage() {
    for version in [2, 3] {
        assert_eq!(version_handling(version), VersionHandling::Migrate);
        let state = migrate_previous_state(LegacyStoredState {
            version,
            latest_snapshot: Some(legacy_snapshot(Some(45))),
            history: Vec::new(),
            settings: AppSettings::default(),
            recovery_notice: None,
        });

        assert_eq!(state.version, STATE_VERSION);
        let migrated = state.providers.codex_snapshot().unwrap();
        assert_eq!(migrated.weekly.remaining_percent, Some(45));
        assert_eq!(migrated.status_message, "已更新 1 周额度。");
        assert!(migrated.raw_text.is_empty());
        assert!(migrated.warnings.is_empty());
    }
}

#[test]
fn migration_drops_snapshots_and_history_without_weekly_usage() {
    let state = migrate_previous_state(LegacyStoredState {
        version: 3,
        latest_snapshot: Some(legacy_snapshot(None)),
        history: vec![UsageHistoryPoint {
            captured_at: "unix:1000".to_string(),
            weekly_remaining_percent: None,
        }],
        settings: AppSettings::default(),
        recovery_notice: None,
    });

    assert_eq!(state.version, STATE_VERSION);
    assert!(state.providers.codex_snapshot().is_none());
    assert!(state.history.is_empty());
}

#[test]
fn v4_migration_preserves_complete_codex_snapshot_sparse_history_and_settings() {
    assert_eq!(version_handling(4), VersionHandling::Migrate);
    let state = migrate_previous_state(LegacyStoredState {
        version: 4,
        latest_snapshot: Some(LegacyQuotaSnapshot {
            id: "v4-snapshot".to_string(),
            source: SnapshotSource::CodexAppServer,
            captured_at: "unix:4242".to_string(),
            weekly: QuotaReading {
                remaining_percent: Some(37),
                reset_at: Some("unix:9000".to_string()),
                reset_countdown_seconds: Some(4758),
            },
            plan_type: Some("plus".to_string()),
            credits_balance: Some("12.3400".to_string()),
            reset_credits_available: Some(7),
            raw_text: "v4 raw payload".to_string(),
            status_message: "v4 exact status".to_string(),
            warnings: vec![ParseWarning {
                code: "v4-warning".to_string(),
                message: "keep me".to_string(),
            }],
        }),
        history: vec![
            UsageHistoryPoint {
                captured_at: "unix:1000".to_string(),
                weekly_remaining_percent: None,
            },
            UsageHistoryPoint {
                captured_at: "unix:2000".to_string(),
                weekly_remaining_percent: Some(38),
            },
        ],
        settings: AppSettings {
            automatic_update_checks: false,
            low_quota_notifications: true,
            ..AppSettings::default()
        },
        recovery_notice: None,
    });
    // Loading repairs the migrated state, which empties the raw text.
    let (outcome, save) = store().finish_load(state, true);
    let migrated = outcome.state.providers.codex_snapshot().unwrap();

    assert!(save);
    assert_eq!(outcome.status, StorageStatus::Ready);
    assert_eq!(outcome.state.version, STATE_VERSION);
    assert_eq!(migrated.id, "v4-snapshot");
    assert_eq!(migrated.weekly.remaining_percent, Some(37));
    assert_eq!(migrated.plan_type.as_deref(), Some("plus"));
    assert_eq!(migrated.credits_balance.as_deref(), Some("12.3400"));
    assert_eq!(migrated.reset_credits_available, Some(7));
    assert!(migrated.raw_text.is_empty());
    assert_eq!(migrated.status_message, "v4 exact status");
    assert_eq!(migrated.warnings[0].code, "v4-warning");
    assert_eq!(outcome.state.history.len(), 2);
    assert_eq!(outcome.state.history[0].weekly_remaining_percent, None);
    assert!(!outcome.state.settings.automatic_update_checks);
    assert!(outcome.state.settings.low_quota_notifications);
    assert_eq!(outcome.state.settings.floating_provider_ids, [ProviderId::Codex]);
    assert!(!outcome.state.providers.deepseek.configured);
    assert!(!outcome.state.providers.kimi.configured);
}

#[test]
fn v4_empty_state_migrates_to_three_provider_states() {
    let state = migrate_previous_state(LegacyStoredState {
        version: 4,
        latest_snapshot: None,
        history: Vec::new(),
        settings: AppSettings::default(),
        recovery_notice: None,
    });

    assert!(state.providers.codex.configured);
    assert_eq!(state.providers.codex.health, ProviderHealth::Idle);
    assert!(!state.providers.deepseek.configured);
    assert_eq!(state.providers.deepseek.health, ProviderHealth::NotConfigured);
    assert!(!state.providers.kimi.configured);
    assert_eq!(state.settings.floating_provider_ids, [ProviderId::Codex]);
}

#[test]
fn malformed_v5_provider_tag_is_cleared_with_stale_metadata() {
    let mut state = StoredState::default();
    state.providers.codex.configured = false;
    state.providers.codex.latest_snapshot = Some(ProviderSnapshot::DeepSeek(DeepSeekSnapshot {
        id: "wrong-provider".to_string(),
        captured_at: "unix:1000".to_string(),
        is_available: true,
        balances: Vec::new(),
    }));
    state.providers.codex.last_attempt_at = Some("unix:1001".to_string());
    state.providers.codex.health = ProviderHealth::Fresh;
    state.providers.codex.error_category = Some(ProviderErrorCategory::Unauthorized);
    assert_eq!(version_handling(state.version), VersionHandling::Current);

    let (outcome, save) = store().finish_load(state, false);

    assert!(save);
    assert!(outcome.state.providers.codex.configured);
    assert!(outcome.state.providers.codex.latest_snapshot.is_none());
    assert!(outcome.state.providers.codex.last_attempt_at.is_none());
    assert_eq!(outcome.state.providers.codex.health, ProviderHealth::Idle);
    assert!(outcome.state.providers.codex.error_category.is_none());
}

#[test]
fn corrupt_json_is_backed_up_and_recovered_to_default() {
    let outcome = store().recovered(StorageStatus::Recovered, "state.json.bak".to_string());

    assert_eq!(outcome.status, StorageStatus::Recovered);
    assert_eq!(outcome.backup_path.as_deref(), Some("state.json.bak"));
    assert!(outcome.state.providers.codex_snapshot().is_none());
    let notice = outcome.state.recovery_notice.as_ref().unwrap();
    assert_eq!(notice.status, StorageStatus::Recovered);
    assert_eq!(notice.backup_path, "state.json.bak");

    // A saved recovered state keeps its notice when read again.
    let (still_visible, save) = store().finish_load(outcome.state, false);
    assert!(!save);
    assert_eq!(still_visible.status, StorageStatus::Recovered);
    assert!(still_visible.state.recovery_notice.is_some());
}

#[test]
fn unsupported_version_is_backed_up_and_reset() {
    assert_eq!(version_handling(1), VersionHandling::Unsupported);
    let outcome = store().recovered(StorageStatus::UnsupportedVersion, "state.json.bak".to_string());

    assert_eq!(outcome.status, StorageStatus::UnsupportedVersion);
    assert!(outcome.backup_path.is_some());
    assert!(outcome.state.providers.codex_snapshot().is_none());
    assert_eq!(
        outcome.state.recovery_notice.as_ref().unwrap().status,
        StorageStatus::UnsupportedVersion
    );
}

#[test]
fn save_and_clear_snapshot() {
    let store = store();

    let saved = store.save_snapshot(store.missing(), snapshot(88));
    assert_eq!(saved.status, StorageStatus::Ready);
    assert!(saved.state.providers.codex_snapshot().is_some());
    assert!(saved.state.providers.codex_snapshot().unwrap().raw_text.is_empty());
    assert_eq!(saved.state.providers.codex.health, ProviderHealth::Fresh);

    let cleared = store.clear_snapshot(saved);
    assert!(cleared.state.providers.codex_snapshot().is_none());
    assert!(cleared.state.history.is_empty());
}

#[test]
fn settings_and_recovery_acknowledgement_are_persisted() {
    let store = store();
    let loaded = store.recovered(StorageStatus::Recovered, "state.json.bak".to_string());

    let updated = store.update_settings(
        loaded,
        SettingsPatch {
            automatic_update_checks: Some(false),
            low_quota_notifications: Some(true),
            floating_provider_ids: None,
        },
    );
    assert!(!updated.state.settings.automatic_update_checks);
    assert!(updated.state.settings.low_quota_notifications);
    assert!(updated.state.recovery_notice.is_some());

    let normalized = store.update_settings(
        updated,
        SettingsPatch {
            automatic_update_checks: None,
            low_quota_notifications: None,
            floating_provider_ids: Some(vec![ProviderId::Kimi, ProviderId::Kimi]),
        },
    );
    assert_eq!(normalized.state.settings.floating_provider_ids, [ProviderId::Codex]);

    let acknowledged = store.acknowledge_recovery(normalized);
    assert_eq!(acknowledged.status, StorageStatus::Ready);
    assert!(acknowledged.state.recovery_notice.is_none());
    assert!(!acknowledged.state.settings.automatic_update_checks);
    assert!(acknowledged.state.settings.low_quota_notifications);

    let (reloaded, _) = store.finish_load(acknowledged.state, false);
    assert_eq!(reloaded.status, StorageStatus::Ready);
    assert!(!reloaded.state.settings.automatic_update_checks);
    assert!(reloaded.state.settings.low_quota_notifications);
    assert!(reloaded.state.recovery_notice.is_none());
}

#[test]
fn a_state_file_is_read_by_its_version() {
    assert_eq!(load_plan(Some(STATE_VERSION)), LoadPlan::ReadCurrent);
    for version in [2, 3, 4] {
        assert_eq!(load_plan(Some(version)), LoadPlan::Migrate);
    }
    assert_eq!(load_plan(Some(1)), LoadPlan::Recover(StorageStatus::UnsupportedVersion));
    assert_eq!(load_plan(None), LoadPlan::Recover(StorageStatus::Recovered));
    assert_eq!(backup_reason(StorageStatus::UnsupportedVersion), "unsupported");
    assert_eq!(backup_reason(StorageStatus::Recovered), "corrupt");
}

#[test]
fn history_samples_changes_and_periodic_unchanged_values() {
    let store = store();

    let outcome = store.save_snapshot(store.missing(), snapshot(72));
    let unchanged_too_soon = QuotaSnapshot {
        id: "snap-2".to_string(),
        captured_at: "unix:1500".to_string(),
        ..snapshot(72)
    };
    let outcome = store.save_snapshot(outcome, unchanged_too_soon);
    let changed = QuotaSnapshot {
        id: "snap-3".to_string(),
        captured_at: "unix:1600".to_string(),
        ..snapshot(71)
    };
    let outcome = store.save_snapshot(outcome, changed);
    let periodic = QuotaSnapshot {
        id: "snap-4".to_string(),
        captured_at: "unix:2500".to_string(),
        ..snapshot(71)
    };
    let outcome = store.save_snapshot(outcome, periodic);

    assert_eq!(outcome.state.history.len(), 3);
    assert_eq!(outcome.state.history[1].weekly_remaining_percent, Some(71));
}

#[test]
fn setting_a_provider_configured_with_an_old_snapshot_marks_it_stale() {
    let store = store();
    let mut state = StoredState::default();
    state.providers.deepseek.latest_snapshot = Some(ProviderSnapshot::DeepSeek(DeepSeekSnapshot {
        id: "old".to_string(),
        captured_at: "unix:10".to_string(),
        is_available: true,
        balances: Vec::new(),
    }));
    let (loaded, _) = store.finish_load(state, false);
    let revision = loaded.state.revision;

    let configured = store.set_provider_configured(loaded, ProviderId::DeepSeek, true);
    assert!(configured.state.providers.deepseek.configured);
    assert_eq!(configured.state.providers.deepseek.health, ProviderHealth::Stale);
    assert_eq!(configured.state.revision, revision + 1);

    let removed = store.set_provider_configured(configured, ProviderId::DeepSeek, false);
    assert!(!removed.state.providers.deepseek.configured);
    assert_eq!(removed.state.providers.deepseek.health, ProviderHealth::NotConfigured);

    // Codex is always configured.
    let codex = store.set_provider_configured(removed, ProviderId::Codex, false);
    assert!(codex.state.providers.codex.configured);
}

#[test]
fn a_failed_refresh_keeps_the_last_snapshot_and_marks_it_stale() {
    let store = store();
    let saved = store.save_snapshot(store.missing(), snapshot(60));

    let refreshed = store.apply_provider_refreshes(
        saved,
        vec![
            ProviderRefreshMutation {
                provider_id: ProviderId::Codex,
                attempted_at: "unix:2000".to_string(),
                kind: ProviderRefreshMutationKind::Failed {
                    category: ProviderErrorCategory::Network,
                    configured: None,
                },
            },
            ProviderRefreshMutation {
                provider_id: ProviderId::DeepSeek,
                attempted_at: "unix:2000".to_string(),
                kind: ProviderRefreshMutationKind::Updated(ProviderSnapshot::DeepSeek(
                    DeepSeekSnapshot {
                        id: "ds-1".to_string(),
                        captured_at: "unix:2000".to_string(),
                        is_available: true,
                        balances: Vec::new(),
                    },
                )),
            },
        ],
    );

    let codex = &refreshed.state.providers.codex;
    assert_eq!(codex.health, ProviderHealth::Stale);
    assert_eq!(codex.error_category, Some(ProviderErrorCategory::Network));
    assert_eq!(
        refreshed.state.providers.codex_snapshot().unwrap().weekly.remaining_percent,
        Some(60)
    );
    assert_eq!(refreshed.state.history.len(), 1);
    assert_eq!(refreshed.state.providers.deepseek.health, ProviderHealth::Fresh);
    assert!(refreshed.state.providers.deepseek.latest_snapshot.is_some());
}
