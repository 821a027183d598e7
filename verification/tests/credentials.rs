use quotadock::commands::{previous_credential, stage_credential_deletion, stage_provider_credential};
use quotadock::credentials::{
    delete_provider_credential_with_store, load_provider_credential,
    provider_credential_status_with_store, set_provider_credential_with_store,
    CredentialAvailability, CredentialStore, CredentialStoreError, CredentialStoreErrorKind,
    CredentialTarget, DEEPSEEK_ACCOUNT, KIMI_CHINA_ACCOUNT,
};
use quotadock::models::{KimiRegion, ProviderId};
use std::collections::HashMap;
use std::sync::Mutex;

#[derive(Default)]
struct MemoryCredentialStore {
    entries: Mutex<HashMap<&'static str, String>>,
    failure: Mutex<Option<CredentialStoreErrorKind>>,
}

impl MemoryCredentialStore {
    fn fail_with(&self, kind: CredentialStoreErrorKind) {
        *self.failure.lock().unwrap() = Some(kind);
    }

    fn maybe_fail(&self) -> Result<(), CredentialStoreError> {
        match *self.failure.lock().unwrap() {
            Some(kind) => Err(CredentialStoreError::new(kind)),
            None => Ok(()),
        }
    }
}

impl CredentialStore for MemoryCredentialStore {
    fn set_password(&self, account: &'static str, secret: &str) -> Result<(), CredentialStoreError> {
        self.maybe_fail()?;
        self.entries
            .lock()
            .unwrap()
            .insert(account, secret.to_string());
        Ok(())
    }

    fn get_password(&self, account: &'static str) -> Result<String, CredentialStoreError> {
        self.maybe_fail()?;
        self.entries
            .lock()
            .unwrap()
            .get(account)
            .cloned()
            .ok_or_else(|| CredentialStoreError::new(CredentialStoreErrorKind::NotFound))
    }

    fn delete_credential(&self, account: &'static str) -> Result<(), CredentialStoreError> {
        self.maybe_fail()?;
        self.entries
            .lock()
            .unwrap()
            .remove(account)
            .map(|_| ())
            .ok_or_else(|| CredentialStoreError::new(CredentialStoreErrorKind::NotFound))
    }
}

#[test]
fn fixed_accounts_are_distinct() {
    assert_eq!(
        CredentialTarget::resolve(ProviderId::DeepSeek, None)
            .unwrap()
            .account,
        DEEPSEEK_ACCOUNT
    );
    assert_eq!(
        CredentialTarget::resolve(ProviderId::Kimi, Some(KimiRegion::China))
            .unwrap()
            .account,
        KIMI_CHINA_ACCOUNT
    );
    assert_ne!(DEEPSEEK_ACCOUNT, KIMI_CHINA_ACCOUNT);
}

#[test]
fn memory_store_sets_replaces_and_deletes_without_cross_provider_access() {
    let store = MemoryCredentialStore::default();

    set_provider_credential_with_store(&store, ProviderId::DeepSeek, None, " ds-one ").unwrap();
    set_provider_credential_with_store(&store, ProviderId::Kimi, Some(KimiRegion::China), "kimi-one")
        .unwrap();
    set_provider_credential_with_store(&store, ProviderId::DeepSeek, None, "ds-two").unwrap();

    assert_eq!(
        load_provider_credential(&store, ProviderId::DeepSeek, None).unwrap(),
        "ds-two"
    );
    assert_eq!(
        load_provider_credential(&store, ProviderId::Kimi, Some(KimiRegion::China)).unwrap(),
        "kimi-one"
    );

    delete_provider_credential_with_store(&store, ProviderId::DeepSeek, None).unwrap();
    assert!(load_provider_credential(&store, ProviderId::DeepSeek, None).is_err());
    assert_eq!(
        load_provider_credential(&store, ProviderId::Kimi, Some(KimiRegion::China)).unwrap(),
        "kimi-one"
    );
}

#[test]
fn statuses_only_expose_configuration_state() {
    let store = MemoryCredentialStore::default();
    let secret = "secret-that-must-not-escape";
    set_provider_credential_with_store(&store, ProviderId::DeepSeek, None, secret).unwrap();

    let statuses = provider_credential_status_with_store(&store);
    let debug = format!("{statuses:?}");

    assert_eq!(statuses.len(), 2);
    assert_eq!(statuses[0].availability, CredentialAvailability::Configured);
    assert_eq!(statuses[1].availability, CredentialAvailability::NotConfigured);
    assert!(!debug.contains(secret));
}

#[test]
fn unavailable_store_is_reported_without_platform_details() {
    let store = MemoryCredentialStore::default();
    store.fail_with(CredentialStoreErrorKind::Unavailable);

    let statuses = provider_credential_status_with_store(&store);
    let error =
        set_provider_credential_with_store(&store, ProviderId::DeepSeek, None, "never-print-me")
            .unwrap_err();

    assert!(statuses
        .iter()
        .all(|status| status.availability == CredentialAvailability::Unavailable));
    assert_eq!(error, "系统凭据存储当前不可用。");
    assert!(!error.contains("never-print-me"));
}

#[test]
fn deleting_a_missing_entry_returns_a_sanitized_error() {
    let store = MemoryCredentialStore::default();

    let error =
        delete_provider_credential_with_store(&store, ProviderId::DeepSeek, None).unwrap_err();

    assert_eq!(error, "未找到已保存的凭据。");
}

#[test]
fn invalid_targets_and_empty_secrets_never_reach_the_store() {
    let store = MemoryCredentialStore::default();

    assert!(set_provider_credential_with_store(&store, ProviderId::Codex, None, "secret").is_err());
    assert!(set_provider_credential_with_store(&store, ProviderId::DeepSeek, None, "  ").is_err());
    assert!(set_provider_credential_with_store(&store, ProviderId::Kimi, None, "secret").is_err());
    assert!(store.entries.lock().unwrap().is_empty());
}

#[test]
fn credential_store_errors_have_fixed_messages() {
    assert_eq!(
        CredentialStoreError::new(CredentialStoreErrorKind::OperationFailed).to_string(),
        "系统凭据存储操作失败。"
    );
    assert_eq!(
        CredentialTarget::resolve(ProviderId::DeepSeek, Some(KimiRegion::China))
            .unwrap_err(),
        "DeepSeek 凭据不接受区域参数。"
    );
}

#[test]
fn staging_a_key_reports_the_key_it_replaces() {
    let store = MemoryCredentialStore::default();

    let (status, previous) =
        stage_provider_credential(&store, ProviderId::DeepSeek, None, " first ").unwrap();
    assert_eq!(status.availability, CredentialAvailability::Configured);
    assert_eq!(previous, None);
    let (_, previous) =
        stage_provider_credential(&store, ProviderId::DeepSeek, None, "second").unwrap();
    assert_eq!(previous.as_deref(), Some("first"));

    assert_eq!(
        stage_provider_credential(&store, ProviderId::Codex, None, "key").unwrap_err(),
        "系统凭据存储操作失败。"
    );
    assert_eq!(
        stage_provider_credential(&store, ProviderId::DeepSeek, None, "  ").unwrap_err(),
        "API Key 不能为空。"
    );

    let (status, previous) = stage_credential_deletion(&store, ProviderId::DeepSeek, None).unwrap();
    assert_eq!(status.availability, CredentialAvailability::NotConfigured);
    assert_eq!(previous, "second");
    assert_eq!(
        stage_credential_deletion(&store, ProviderId::DeepSeek, None).unwrap_err(),
        "未找到已保存的凭据。"
    );

    store.fail_with(CredentialStoreErrorKind::Unavailable);
    assert_eq!(
        stage_provider_credential(&store, ProviderId::DeepSeek, None, "third").unwrap_err(),
        "系统凭据存储当前不可用。"
    );

    assert_eq!(previous_credential(Ok("kept".to_string())), Ok(Some("kept".to_string())));
    assert_eq!(
        previous_credential(Err(CredentialStoreError::new(CredentialStoreErrorKind::NotFound))),
        Ok(None)
    );
    assert_eq!(
        previous_credential(Err(CredentialStoreError::new(CredentialStoreErrorKind::OperationFailed))),
        Err("系统凭据存储操作失败。".to_string())
    );
}
