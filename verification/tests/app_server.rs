use quotadock::app_server::{classify_rpc_line, parse_rate_limits_value, RateLimitBucket, RateLimitWindow, RateLimitsResult};
use quotadock::models::SnapshotSource;

fn window(remaining_percent: u8, window_duration_mins: i64, resets_at: i64) -> RateLimitWindow {
    RateLimitWindow {
        remaining_percent,
        window_duration_mins,
        resets_at,
    }
}

#[test]
fn maps_structured_rate_limits_by_window_duration() {
    let snapshot = parse_rate_limits_value(
        RateLimitsResult {
            rate_limits: Some(RateLimitBucket {
                limit_id: "codex".to_string(),
                primary: Some(window(75, 300, 1_800_000_000)),
                secondary: Some(window(32, 10_080, 1_800_100_000)),
                credits_balance: Some("12.5".to_string()),
                plan_type: Some("pro".to_string()),
            }),
            rate_limits_by_limit_id: Vec::new(),
            reset_credits_available: Some(2),
        },
        "unix:1000".to_string(),
    )
    .unwrap();
    let five_hour = snapshot.five_hour;
    let snapshot = snapshot.snapshot;

    assert_eq!(snapshot.source, SnapshotSource::CodexAppServer);
    assert_eq!(five_hour.remaining_percent, Some(75));
    assert_eq!(five_hour.reset_at.as_deref(), Some("unix:1800000000"));
    assert_eq!(snapshot.weekly.remaining_percent, Some(32));
    assert_eq!(snapshot.weekly.reset_at.as_deref(), Some("unix:1800100000"));
    assert_eq!(snapshot.plan_type.as_deref(), Some("pro"));
    assert_eq!(snapshot.credits_balance.as_deref(), Some("12.5"));
    assert_eq!(snapshot.reset_credits_available, Some(2));
    assert!(snapshot.warnings.is_empty());
    assert_eq!(snapshot.status_message, "已通过 Codex app-server 更新全部额度。");
}

#[test]
fn accepts_accounts_with_only_a_weekly_window() {
    let snapshot = parse_rate_limits_value(
        RateLimitsResult {
            rate_limits: Some(RateLimitBucket {
                limit_id: "codex".to_string(),
                primary: Some(window(32, 10_080, 1_800_100_000)),
                secondary: None,
                credits_balance: None,
                plan_type: Some("prolite".to_string()),
            }),
            rate_limits_by_limit_id: Vec::new(),
            reset_credits_available: None,
        },
        "unix:1000".to_string(),
    )
    .unwrap();
    let five_hour = snapshot.five_hour;
    let snapshot = snapshot.snapshot;

    assert_eq!(five_hour.remaining_percent, None);
    assert_eq!(snapshot.weekly.remaining_percent, Some(32));
    assert!(snapshot
        .warnings
        .iter()
        .any(|warning| warning.code == "missing-five-hour"));
}

#[test]
fn the_codex_bucket_is_preferred_and_missing_data_is_an_error() {
    let snapshot = parse_rate_limits_value(
        RateLimitsResult {
            rate_limits: None,
            rate_limits_by_limit_id: vec![
                (
                    "other".to_string(),
                    RateLimitBucket {
                        limit_id: "other".to_string(),
                        primary: Some(window(1, 10_080, 5)),
                        secondary: None,
                        credits_balance: None,
                        plan_type: None,
                    },
                ),
                (
                    "codex".to_string(),
                    RateLimitBucket {
                        limit_id: "codex".to_string(),
                        primary: Some(window(60, 10_000, -5)),
                        secondary: None,
                        credits_balance: None,
                        plan_type: None,
                    },
                ),
            ],
            reset_credits_available: None,
        },
        "unix:7".to_string(),
    )
    .unwrap();
    let five_hour = snapshot.five_hour;
    let snapshot = snapshot.snapshot;
    assert_eq!(five_hour.remaining_percent, None);
    assert_eq!(snapshot.weekly.remaining_percent, Some(60));
    assert_eq!(snapshot.weekly.reset_at.as_deref(), Some("unix:-5"));
    assert_eq!(snapshot.id, "unix:7");

    let none = parse_rate_limits_value(
        RateLimitsResult {
            rate_limits: None,
            rate_limits_by_limit_id: Vec::new(),
            reset_credits_available: None,
        },
        "unix:7".to_string(),
    );
    assert_eq!(none.unwrap_err(), "Codex app-server 没有返回 codex 额度桶。");

    let empty = parse_rate_limits_value(
        RateLimitsResult {
            rate_limits: Some(RateLimitBucket {
                limit_id: "codex".to_string(),
                primary: None,
                secondary: None,
                credits_balance: None,
                plan_type: None,
            }),
            rate_limits_by_limit_id: Vec::new(),
            reset_credits_available: None,
        },
        "unix:7".to_string(),
    );
    assert_eq!(empty.unwrap_err(), "Codex app-server 没有返回可用的额度百分比。");
}

#[test]
fn reply_lines_are_read_by_request_id() {
    assert_eq!(classify_rpc_line(r#"{"id":1,"result":{}}"#, 2), Ok(None));
    assert_eq!(classify_rpc_line(r#"{"method":"note"}"#, 2), Ok(None));
    assert_eq!(
        classify_rpc_line(r#"{"id":2,"result":{"a":1}}"#, 2),
        Ok(Some(r#"{"a":1}"#.to_string()))
    );
    assert_eq!(
        classify_rpc_line(r#"{"id":2,"error":{"message":"denied"}}"#, 2).unwrap_err(),
        "Codex app-server 请求失败：denied"
    );
    assert_eq!(
        classify_rpc_line(r#"{"id":2,"error":{}}"#, 2).unwrap_err(),
        "Codex app-server 请求失败：未知错误"
    );
    assert_eq!(
        classify_rpc_line(r#"{"id":2}"#, 2).unwrap_err(),
        "Codex app-server 响应缺少 result。"
    );
    assert!(classify_rpc_line("not json", 2)
        .unwrap_err()
        .starts_with("Codex app-server 返回了无效 JSON："));
}
