use quotadock::models::SnapshotSource;
use quotadock::status_parser::{
    cli_fallback_failure, cli_status_outcome, parse_status_text, ParseClock, ParseResult,
};

const CAPTURED_AT: &str = "2026-06-18T08:00:00Z";

fn parse(raw: &str) -> ParseResult {
    parse_status_text(raw, ParseClock::fixed(CAPTURED_AT))
}

#[test]
fn parses_weekly_status_with_countdown() {
    let result = parse("Codex status\nWeekly limit\nRemaining: 46%\nResets in: 2h 15m");

    assert_eq!(result.snapshot.weekly.remaining_percent, Some(46));
    assert_eq!(result.snapshot.weekly.reset_countdown_seconds, Some(8_100));
    assert!(result.snapshot.warnings.is_empty());
}

#[test]
fn parses_chinese_inline_status() {
    let result = parse("1周额度：剩余 62%，更新：周一 09:00");

    assert_eq!(result.snapshot.weekly.remaining_percent, Some(62));
    assert_eq!(
        result.snapshot.weekly.reset_at.as_deref(),
        Some("周一 09:00")
    );
}

#[test]
fn picks_remaining_percent_when_used_is_also_present() {
    let result = parse("1w usage: 54% used, 46% remaining");

    assert_eq!(result.snapshot.weekly.remaining_percent, Some(46));
}

#[test]
fn keeps_current_model_limits_before_spark_limits() {
    let result = parse(
        "Weekly limit: [======] 59% left (resets 07:00 on 25 Jun)\nGPT-5.3-Codex-Spark limit:\nWeekly limit: [======] 100% left (resets 21:51 on 25 Jun)",
    );

    assert_eq!(result.snapshot.weekly.remaining_percent, Some(59));
    assert_eq!(
        result.snapshot.weekly.reset_at.as_deref(),
        Some("07:00 on 25 Jun")
    );
}

#[test]
fn does_not_fill_missing_current_fields_from_spark_limits() {
    let result = parse(
        "Weekly limit: [======] 59% left\nGPT-5.3-Codex-Spark limit:\nWeekly limit: [======] 100% left (resets 21:51 on 25 Jun)",
    );

    assert_eq!(result.snapshot.weekly.remaining_percent, Some(59));
    assert!(result.snapshot.weekly.reset_at.is_none());
}

#[test]
fn parses_wrapped_weekly_reset_from_current_status_panel() {
    let result = parse(
        "Weekly limit:                [████░░░░░░░░░░░░░░░░] 22% left\n                              (resets 10:22 on 28 Jun)\nGPT-5.3-Codex-Spark limit:\nWeekly limit:                [████████████████████] 100% left\n                              (resets 14:40 on 2 Jul)",
    );

    assert_eq!(result.snapshot.weekly.remaining_percent, Some(22));
    assert_eq!(
        result.snapshot.weekly.reset_at.as_deref(),
        Some("10:22 on 28 Jun")
    );
}

#[test]
fn parses_terminal_output_with_ansi_sequences() {
    let result =
        parse("\u{1b}[35mWeekly limit:\u{1b}[0m [====] 59% left (resets 07:00 on 25 Jun)");

    assert_eq!(result.snapshot.weekly.remaining_percent, Some(59));
}

#[test]
fn a_new_non_weekly_quota_section_clears_the_active_section() {
    let result = parse("Weekly limit: 59% left\nDaily quota:\nResets in 10m");

    assert_eq!(result.snapshot.weekly.remaining_percent, Some(59));
    assert!(result.snapshot.weekly.reset_at.is_none());
    assert!(result.snapshot.weekly.reset_countdown_seconds.is_none());
}

#[test]
fn accepts_current_weekly_status() {
    let result = parse(
        "Weekly limit: [███████████████████░] 93% left\n                              (resets 13:21 on 22 Jul)\nGPT-5.3-Codex-Spark Weekly limit: [████████████████████] 100% left",
    );

    assert_eq!(result.snapshot.weekly.remaining_percent, Some(93));
    assert_eq!(
        result.snapshot.weekly.reset_at.as_deref(),
        Some("13:21 on 22 Jul")
    );
    assert!(result.snapshot.has_usage());
    assert!(result.snapshot.warnings.is_empty());
    assert_eq!(result.snapshot.status_message, "已更新 1 周额度。");
}

#[test]
fn reports_unknown_format() {
    let result = parse("all systems nominal");

    assert!(!result.snapshot.has_usage());
    assert!(result
        .snapshot
        .warnings
        .iter()
        .any(|warning| warning.code == "no-quota-fields"));
}

#[test]
fn snapshot_carries_clock_source_and_raw_text() {
    let result = parse("Weekly limit: 59% left");

    assert_eq!(result.snapshot.id, CAPTURED_AT);
    assert_eq!(result.snapshot.captured_at, CAPTURED_AT);
    assert_eq!(result.snapshot.raw_text, "Weekly limit: 59% left");
    assert!(result.snapshot.plan_type.is_none());
}

#[test]
fn unrecognised_lines_beside_a_reading_give_a_warning() {
    let result = parse("Weekly limit: 59% left\nsomething odd here");

    assert_eq!(result.snapshot.weekly.remaining_percent, Some(59));
    assert_eq!(result.snapshot.warnings.len(), 1);
    assert_eq!(result.snapshot.warnings[0].code, "unknown-lines");
    assert_eq!(result.snapshot.status_message, "已更新 1 周额度，部分内容未识别。");
}

#[test]
fn iso_reset_timestamps_are_normalised() {
    let result = parse("Weekly limit: 40% left, resets 2026-06-23 09:00 UTC");
    assert_eq!(result.snapshot.weekly.remaining_percent, Some(40));

    let result = parse("Weekly limit: 40% left, resets at 2026-06-23T09:00:00Z.");
    assert_eq!(
        result.snapshot.weekly.reset_at.as_deref(),
        Some("2026-06-23T09:00:00Z")
    );
}

#[test]
fn used_only_percentages_are_not_read_as_remaining() {
    let result = parse("Weekly limit: 30% used");

    assert!(result.snapshot.weekly.remaining_percent.is_none());
    assert_eq!(
        result.snapshot.status_message,
        "没有识别到 1 周额度，请检查 /status 内容。"
    );
}

#[test]
fn chinese_countdown_units_are_summed() {
    let result = parse("1周额度 剩余 10%，重置 1天2小时后");

    assert_eq!(result.snapshot.weekly.remaining_percent, Some(10));
    assert_eq!(result.snapshot.weekly.reset_countdown_seconds, Some(93_600));
}

#[test]
fn clock_stamps_are_unix_text() {
    let clock = ParseClock::now();
    let result = parse_status_text("Weekly limit: 1% left", clock);

    assert!(result.snapshot.captured_at.starts_with("unix:"));
    assert_eq!(quotadock::status_parser::unix_timestamp_string(42), "unix:42");
}

#[test]
fn a_countdown_too_large_for_the_clock_gives_none() {
    let result = parse("Codex status\nWeekly limit\nRemaining: 46%\nResets in: 999999999999999d");
    assert_eq!(result.snapshot.weekly.remaining_percent, Some(46));
    assert!(result.snapshot.weekly.reset_countdown_seconds.is_none());
}

#[test]
fn the_cli_reading_marks_its_source_and_keeps_no_raw_output() {
    let snapshot = cli_status_outcome(
        "Codex status\nWeekly limit\nRemaining: 46%\nResets in: 2h 15m",
        ParseClock::fixed(CAPTURED_AT),
    )
    .unwrap();
    assert_eq!(snapshot.source, SnapshotSource::CodexCli);
    assert_eq!(snapshot.weekly.remaining_percent, Some(46));
    assert!(snapshot.raw_text.is_empty());
    assert_eq!(snapshot.status_message, "已通过 Codex CLI /status 兼容模式更新额度。");

    assert_eq!(
        cli_status_outcome("nothing here", ParseClock::fixed(CAPTURED_AT)).unwrap_err(),
        "Codex CLI 没有返回可识别的额度，请稍后重试。"
    );
    assert_eq!(
        cli_fallback_failure("a", "b"),
        "结构化查询失败：a；兼容查询也失败：b"
    );
}
