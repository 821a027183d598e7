use quotadock::official_links::{official_links, USAGE_DASHBOARD_URL};

#[test]
fn usage_dashboard_link_is_centralized() {
    let links = official_links();

    assert_eq!(links.usage_dashboard, USAGE_DASHBOARD_URL);
    assert!(links.usage_dashboard.starts_with("https://chatgpt.com/"));
    assert!(links.codex_help.starts_with("https://help.openai.com/"));
    assert!(links.flexible_credits_help.starts_with("https://help.openai.com/"));
}
