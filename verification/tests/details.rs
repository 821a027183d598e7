use quotadock::details::{
    open_failure_message, provider_portal, shell_open_succeeded, DEEPSEEK_BALANCE_URL,
    KIMI_ACCOUNT_URL, OFFICIAL_USAGE_URL,
};
use quotadock::models::ProviderId;

#[test]
fn provider_portals_are_fixed_https_urls() {
    for url in [OFFICIAL_USAGE_URL, DEEPSEEK_BALANCE_URL, KIMI_ACCOUNT_URL] {
        assert!(url.starts_with("https://"));
        assert!(!url.contains(['\r', '\n']));
    }
}

#[test]
fn each_provider_opens_its_own_portal() {
    assert_eq!(provider_portal(ProviderId::Kimi).0, KIMI_ACCOUNT_URL);
    assert_eq!(provider_portal(ProviderId::DeepSeek).0, DEEPSEEK_BALANCE_URL);
    assert_eq!(provider_portal(ProviderId::Codex).0, OFFICIAL_USAGE_URL);
}

#[test]
fn shell_open_results_above_thirty_two_succeed() {
    assert!(shell_open_succeeded(33));
    assert!(!shell_open_succeeded(32));
    assert!(!open_failure_message("打开网页", 2).is_empty());
}
