use quotadock::models::{
    AppSettings, DeepSeekSnapshot, ProviderErrorCategory, ProviderHealth, ProviderId,
    ProviderSnapshot, ProviderStates, StoredState, STATE_VERSION,
};

#[test]
fn default_state_contains_all_providers_and_only_codex_floats() {
    let state = StoredState::default();

    assert_eq!(state.version, STATE_VERSION);
    assert!(state.providers.codex.configured);
    assert_eq!(state.providers.codex.health, ProviderHealth::Idle);
    assert!(!state.providers.deepseek.configured);
    assert_eq!(state.providers.deepseek.health, ProviderHealth::NotConfigured);
    assert!(!state.providers.kimi.configured);
    assert_eq!(state.settings.floating_provider_ids, [ProviderId::Codex]);
}

#[test]
fn normalization_resets_metadata_when_a_snapshot_tag_is_mismatched() {
    let mut providers = ProviderStates::default();
    providers.codex.configured = false;
    providers.codex.latest_snapshot = Some(ProviderSnapshot::DeepSeek(DeepSeekSnapshot {
        id: "wrong-provider".to_string(),
        captured_at: "unix:10".to_string(),
        is_available: true,
        balances: Vec::new(),
    }));
    providers.codex.last_attempt_at = Some("unix:11".to_string());
    providers.codex.health = ProviderHealth::Fresh;
    providers.codex.error_category = Some(ProviderErrorCategory::Unauthorized);

    providers.normalize();

    assert!(providers.codex.configured);
    assert!(providers.codex.latest_snapshot.is_none());
    assert!(providers.codex.last_attempt_at.is_none());
    assert_eq!(providers.codex.health, ProviderHealth::Idle);
    assert!(providers.codex.error_category.is_none());
}

#[test]
fn floating_provider_ids_are_deduplicated_canonically_and_require_configuration() {
    let mut providers = ProviderStates::default();
    providers.deepseek.configured = true;
    providers.deepseek.health = ProviderHealth::Idle;
    let mut settings = AppSettings {
        floating_provider_ids: vec![
            ProviderId::DeepSeek,
            ProviderId::Codex,
            ProviderId::DeepSeek,
            ProviderId::Kimi,
        ],
        ..AppSettings::default()
    };

    settings.normalize_floating_provider_ids(&providers);

    assert_eq!(
        settings.floating_provider_ids,
        [ProviderId::Codex, ProviderId::DeepSeek]
    );
}

#[test]
fn floating_provider_ids_fall_back_to_codex() {
    let providers = ProviderStates::default();
    let mut settings = AppSettings {
        floating_provider_ids: vec![ProviderId::Kimi],
        ..AppSettings::default()
    };

    settings.normalize_floating_provider_ids(&providers);

    assert_eq!(settings.floating_provider_ids, [ProviderId::Codex]);
}

#[test]
fn normalizing_twice_changes_nothing_more() {
    let mut providers = ProviderStates::default();
    providers.kimi.configured = true;
    providers.kimi.health = ProviderHealth::NotConfigured;
    providers.normalize();
    let once = providers.clone();
    providers.normalize();
    assert!(providers.equals(&once));
}
