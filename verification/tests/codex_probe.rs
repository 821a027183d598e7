use quotadock::codex_probe::{
    is_allowlisted, probe_codex_with_runner, CodexProbeStatus, CommandError, CommandRunner,
    MockCommandRunner,
};
use std::time::Duration;

#[test]
fn reports_codex_missing_when_version_command_not_found() {
    let runner = MockCommandRunner::new().not_found("codex", &["--version"]);

    let health = probe_codex_with_runner(&runner, Duration::from_secs(1));

    assert_eq!(health.status, CodexProbeStatus::Unavailable);
    assert!(!health.available);
    assert!(health
        .diagnostics
        .iter()
        .any(|line| line.contains("not found")));
}

#[test]
fn reports_signed_in_success_with_doctor_json() {
    let runner = MockCommandRunner::new()
        .success("codex", &["--version"], "codex-cli 1.2.3", "")
        .success(
            "codex",
            &["login", "status"],
            "Signed in as user@example.com",
            "",
        )
        .success("codex", &["doctor", "--json"], r#"{"status":"ok"}"#, "");

    let health = probe_codex_with_runner(&runner, Duration::from_secs(1));

    assert_eq!(health.status, CodexProbeStatus::Healthy);
    assert!(health.available);
    assert_eq!(health.authenticated, Some(true));
    assert_eq!(health.version.as_deref(), Some("codex-cli 1.2.3"));
    assert_eq!(health.doctor_status.as_deref(), Some("ok"));
    assert!(!health.diagnostics.join("\n").contains("user@example.com"));
}

#[test]
fn reports_not_authenticated_from_login_status() {
    let runner = MockCommandRunner::new()
        .success("codex", &["--version"], "codex-cli 1.2.3", "")
        .failure("codex", &["login", "status"], 1, "", "not logged in")
        .success("codex", &["doctor", "--json"], r#"{"status":"ok"}"#, "");

    let health = probe_codex_with_runner(&runner, Duration::from_secs(1));

    assert_eq!(health.status, CodexProbeStatus::NotAuthenticated);
    assert_eq!(health.authenticated, Some(false));
}

#[test]
fn reports_warning_when_login_status_times_out() {
    let runner = MockCommandRunner::new()
        .success("codex", &["--version"], "codex-cli 1.2.3", "")
        .timeout("codex", &["login", "status"])
        .success("codex", &["doctor", "--json"], r#"{"status":"ok"}"#, "");

    let health = probe_codex_with_runner(&runner, Duration::from_secs(1));

    assert_eq!(health.status, CodexProbeStatus::Warning);
    assert_eq!(health.authenticated, None);
    assert!(health
        .diagnostics
        .iter()
        .any(|line| line.contains("login status") && line.contains("timed out")));
}

#[test]
fn reports_warning_for_ambiguous_login_status_failure() {
    let runner = MockCommandRunner::new()
        .success("codex", &["--version"], "codex-cli 1.2.3", "")
        .failure("codex", &["login", "status"], 2, "", "network error")
        .success("codex", &["doctor", "--json"], r#"{"status":"ok"}"#, "");

    let health = probe_codex_with_runner(&runner, Duration::from_secs(1));

    assert_eq!(health.status, CodexProbeStatus::Warning);
    assert_eq!(health.authenticated, None);
}

#[test]
fn reports_warning_from_doctor_warning_json() {
    let runner = MockCommandRunner::new()
        .success("codex", &["--version"], "codex-cli 1.2.3", "")
        .success("codex", &["login", "status"], "Signed in", "")
        .success(
            "codex",
            &["doctor", "--json"],
            r#"{"status":"warning"}"#,
            "",
        );

    let health = probe_codex_with_runner(&runner, Duration::from_secs(1));

    assert_eq!(health.status, CodexProbeStatus::Warning);
    assert_eq!(health.doctor_status.as_deref(), Some("warning"));
}

#[test]
fn reports_warning_for_invalid_doctor_json() {
    let runner = MockCommandRunner::new()
        .success("codex", &["--version"], "codex-cli 1.2.3", "")
        .success("codex", &["login", "status"], "Signed in", "")
        .success("codex", &["doctor", "--json"], "not json", "");

    let health = probe_codex_with_runner(&runner, Duration::from_secs(1));

    assert_eq!(health.status, CodexProbeStatus::Warning);
    assert!(health
        .diagnostics
        .iter()
        .any(|line| line.contains("doctor returned invalid JSON")));
}

#[test]
fn reports_warning_for_doctor_command_failure() {
    let runner = MockCommandRunner::new()
        .success("codex", &["--version"], "codex-cli 1.2.3", "")
        .success("codex", &["login", "status"], "Signed in", "")
        .failure("codex", &["doctor", "--json"], 2, "", "doctor failed");

    let health = probe_codex_with_runner(&runner, Duration::from_secs(1));

    assert_eq!(health.status, CodexProbeStatus::Warning);
    assert!(health
        .diagnostics
        .iter()
        .any(|line| line.contains("doctor failed")));
}

#[test]
fn reports_timeout_without_hanging() {
    let runner = MockCommandRunner::new().timeout("codex", &["--version"]);

    let health = probe_codex_with_runner(&runner, Duration::from_millis(1));

    assert_eq!(health.status, CodexProbeStatus::Unavailable);
    assert!(health
        .diagnostics
        .iter()
        .any(|line| line.contains("timed out")));
}

#[test]
fn rejects_non_allowlisted_commands_in_runner() {
    let runner = MockCommandRunner::new().success("codex", &["auth", "token"], "secret", "");

    let result = runner.run("codex", &["auth", "token"], Duration::from_secs(1));

    assert_eq!(result, Err(CommandError::Rejected));
}

#[test]
fn version_failure_reports_the_exit_code() {
    let runner = MockCommandRunner::new().failure("codex", &["--version"], -3, "", "boom");

    let health = probe_codex_with_runner(&runner, Duration::from_secs(1));

    assert_eq!(health.status, CodexProbeStatus::Unavailable);
    assert_eq!(
        health.diagnostics,
        vec!["codex --version: exited with status Some(-3) boom".to_string()]
    );
    assert!(health.checked_at.as_deref().unwrap().starts_with("unix:"));
}

#[test]
fn allowlist_accepts_only_the_three_probe_commands() {
    assert!(is_allowlisted("codex", &["--version"]));
    assert!(is_allowlisted("codex", &["login", "status"]));
    assert!(is_allowlisted("codex", &["doctor", "--json"]));
    assert!(!is_allowlisted("codex", &["doctor"]));
    assert!(!is_allowlisted("bash", &["--version"]));
}

#[test]
fn later_scripted_responses_replace_earlier_ones() {
    let runner = MockCommandRunner::new()
        .timeout("codex", &["--version"])
        .success("codex", &["--version"], "codex-cli 2.0.0", "");

    let output = runner
        .run("codex", &["--version"], Duration::from_secs(1))
        .unwrap();
    assert_eq!(output.stdout(), "codex-cli 2.0.0");
    assert_eq!(output.status_code(), Some(0));
    assert_eq!(
        runner.run("codex", &["login", "status"], Duration::from_secs(1)),
        Err(CommandError::NotFound)
    );
}
