use quotadock::redaction::redact_diagnostic;

#[test]
fn redacts_windows_user_paths_and_tokens() {
    let redacted = redact_diagnostic(
        r#"C:\Users\Ruping.Liu\.codex\auth.json token sk-proj-secret email user@example.com"#,
    );

    assert!(!redacted.contains("Ruping.Liu"));
    assert!(!redacted.contains("sk-proj-secret"));
    assert!(!redacted.contains("user@example.com"));
    assert!(redacted.contains("C:\\Users\\<user>"));
    assert!(redacted.contains("sk-<redacted>"));
}

#[test]
fn redacts_embedded_env_json_tokens_and_account_ids() {
    let redacted = redact_diagnostic(
        r#"OPENAI_API_KEY=sk-proj-secret {"token":"sk-proj-json","account_id":"acct_123456"}"#,
    );

    assert!(!redacted.contains("sk-proj-secret"));
    assert!(!redacted.contains("sk-proj-json"));
    assert!(!redacted.contains("acct_123456"));
    assert!(redacted.contains("OPENAI_API_KEY=<redacted>"));
    assert!(redacted.contains("\"token\":\"<redacted>\""));
    assert!(redacted.contains("\"account_id\":\"<redacted>\""));
}

#[test]
fn redacts_json_token_values_with_whitespace() {
    let redacted = redact_diagnostic(r#"{"token": "non_sk_secret", "account_id": "acct_789"}"#);

    assert!(!redacted.contains("non_sk_secret"));
    assert!(!redacted.contains("acct_789"));
    assert!(redacted.contains("\"token\": \"<redacted>\""));
    assert!(redacted.contains("\"account_id\": \"<redacted>\""));
}

#[test]
fn whitespace_runs_collapse_and_plain_text_is_kept() {
    assert_eq!(redact_diagnostic("  codex   doctor\tok \n"), "codex doctor ok");
    assert_eq!(redact_diagnostic(""), "");
}

#[test]
fn forward_slash_profile_paths_are_redacted() {
    assert_eq!(
        redact_diagnostic("C:/Users/alice/AppData"),
        "C:\\Users\\<user>\\AppData"
    );
    assert_eq!(redact_diagnostic("C:\\Users\\bob"), "C:\\Users\\<user>");
}

#[test]
fn inline_secrets_inside_words_are_redacted() {
    assert_eq!(redact_diagnostic("key=abc-sk-12_3!x"), "key=abc-sk-<redacted>!x");
    assert_eq!(redact_diagnostic("sk_live_1"), "sk-<redacted>");
}
