use quotadock::http_client::OfficialEndpoint;
use quotadock::models::{KimiRegion, ProviderErrorCategory, ProviderSnapshot};
use quotadock::providers::deepseek::{self, BalanceInfo, Currency};
use quotadock::providers::kimi::{self, number_is_non_negative, BalanceData};
use quotadock::providers::ProviderError;

fn deepseek_balance(currency: Currency, total: &str, granted: &str, topped_up: &str) -> BalanceInfo {
    BalanceInfo {
        currency,
        total_balance: total.to_string(),
        granted_balance: granted.to_string(),
        topped_up_balance: topped_up.to_string(),
    }
}

fn deepseek_reply(is_available: bool, balance_infos: Vec<BalanceInfo>) -> deepseek::BalanceResponse {
    deepseek::BalanceResponse {
        is_available,
        balance_infos,
    }
}

fn kimi_reply(code: i64, status: bool, available: &str, voucher: &str, cash: &str) -> kimi::BalanceResponse {
    kimi::BalanceResponse {
        code,
        data: BalanceData {
            available_balance: available.to_string(),
            voucher_balance: voucher.to_string(),
            cash_balance: cash.to_string(),
        },
        scode: "0x0".to_string(),
        status,
    }
}

#[test]
fn official_endpoints_are_fixed_https_hosts_and_paths() {
    assert_eq!(
        OfficialEndpoint::DeepSeekBalance.url(),
        "https://api.deepseek.com/user/balance"
    );
    assert_eq!(
        OfficialEndpoint::KimiBalance.url(),
        "https://api.moonshot.cn/v1/users/me/balance"
    );
    for endpoint in [OfficialEndpoint::DeepSeekBalance, OfficialEndpoint::KimiBalance] {
        let url = reqwest::Url::parse(endpoint.url()).unwrap();
        assert_eq!(url.scheme(), "https");
        assert!(matches!(
            url.host_str(),
            Some("api.deepseek.com" | "api.moonshot.cn")
        ));
    }
}

#[test]
fn parses_single_currency_string_amounts() {
    let snapshot = deepseek::parse_response(
        200,
        Some(deepseek_reply(
            true,
            vec![deepseek_balance(Currency::Cny, "110.00", "10.00", "100.00")],
        )),
        "unix:1000".to_string(),
    )
    .unwrap();
    let ProviderSnapshot::DeepSeek(snapshot) = snapshot else {
        panic!("expected DeepSeek snapshot");
    };

    assert!(snapshot.is_available);
    assert_eq!(snapshot.balances.len(), 1);
    assert_eq!(snapshot.balances[0].currency, "CNY");
    assert_eq!(snapshot.balances[0].topped_up_balance, "100.00");
}

#[test]
fn preserves_multiple_currencies_and_decimal_text() {
    let snapshot = deepseek::parse_response(
        200,
        Some(deepseek_reply(
            true,
            vec![
                deepseek_balance(Currency::Cny, "0.000000000000000001", "0", "0.000000000000000001"),
                deepseek_balance(Currency::Usd, "5.6700", "2.3400", "3.3300"),
            ],
        )),
        "unix:1001".to_string(),
    )
    .unwrap();
    let ProviderSnapshot::DeepSeek(snapshot) = snapshot else {
        panic!("expected DeepSeek snapshot");
    };

    assert_eq!(snapshot.balances.len(), 2);
    assert_eq!(snapshot.balances[0].total_balance, "0.000000000000000001");
    assert_eq!(snapshot.balances[1].currency, "USD");
    assert_eq!(snapshot.balances[1].granted_balance, "2.3400");
}

#[test]
fn accepts_zero_balances_and_unknown_fields() {
    let snapshot = deepseek::parse_response(
        200,
        Some(deepseek_reply(
            false,
            vec![deepseek_balance(Currency::Cny, "0.00", "0.00", "0.00")],
        )),
        "unix:1002".to_string(),
    )
    .unwrap();
    let ProviderSnapshot::DeepSeek(snapshot) = snapshot else {
        panic!("expected DeepSeek snapshot");
    };

    assert!(!snapshot.is_available);
    assert_eq!(snapshot.balances[0].total_balance, "0.00");
}

#[test]
fn rejects_non_json_missing_fields_unknown_currency_and_non_decimal_strings() {
    // A body that is not JSON, lacks a field or names an unknown currency
    // gives no payload at all; a non-decimal amount reaches the check.
    for payload in [
        None,
        Some(deepseek_reply(
            true,
            vec![deepseek_balance(Currency::Cny, "NaN", "0", "1")],
        )),
    ] {
        let error = deepseek::parse_response(200, payload, "unix:1003".to_string()).unwrap_err();
        assert_eq!(error.category(), ProviderErrorCategory::InvalidResponse);
    }
}

#[test]
fn maps_http_error_statuses_without_reading_error_bodies() {
    for (status, category) in [
        (401, ProviderErrorCategory::Unauthorized),
        (429, ProviderErrorCategory::RateLimited),
        (500, ProviderErrorCategory::Server),
        (503, ProviderErrorCategory::Server),
    ] {
        let error = deepseek::parse_response(status, None, "unix:1004".to_string()).unwrap_err();
        assert_eq!(error.category(), category);
        assert!(!format!("{error:?}").contains("body must not escape"));
    }
}

#[test]
fn parses_normal_balance_and_assigns_china_currency() {
    let snapshot = kimi::parse_response(
        200,
        Some(kimi_reply(0, true, "49.58894", "46.58893", "3.00001")),
        "unix:2000".to_string(),
    )
    .unwrap();
    let ProviderSnapshot::Kimi(snapshot) = snapshot else {
        panic!("expected Kimi snapshot");
    };

    assert_eq!(snapshot.region, KimiRegion::China);
    assert_eq!(snapshot.currency, "CNY");
    assert_eq!(snapshot.available_balance, "49.58894");
    assert_eq!(snapshot.voucher_balance, "46.58893");
    assert_eq!(snapshot.cash_balance, "3.00001");
}

#[test]
fn preserves_zero_and_negative_cash_without_recomputing_available_balance() {
    let zero = kimi::parse_response(
        200,
        Some(kimi_reply(0, true, "0.0000", "0.0000", "0.0000")),
        "unix:2001".to_string(),
    )
    .unwrap();
    let negative = kimi::parse_response(
        200,
        Some(kimi_reply(0, true, "50.0000", "50.0000", "-0.4100")),
        "unix:2002".to_string(),
    )
    .unwrap();
    let ProviderSnapshot::Kimi(zero) = zero else {
        panic!("expected Kimi snapshot");
    };
    let ProviderSnapshot::Kimi(negative) = negative else {
        panic!("expected Kimi snapshot");
    };

    assert_eq!(zero.available_balance, "0.0000");
    assert_eq!(negative.available_balance, "50.0000");
    assert_eq!(negative.cash_balance, "-0.4100");
    assert_eq!(negative.voucher_balance, "50.0000");
}

#[test]
fn arbitrary_precision_json_numbers_are_not_routed_through_f64() {
    let snapshot = kimi::parse_response(
        200,
        Some(kimi_reply(
            0,
            true,
            "12345678901234567890.12345678901234567890",
            "0",
            "-0.00000000000000000001",
        )),
        "unix:2003".to_string(),
    )
    .unwrap();
    let ProviderSnapshot::Kimi(snapshot) = snapshot else {
        panic!("expected Kimi snapshot");
    };

    assert_eq!(
        snapshot.available_balance,
        "12345678901234567890.12345678901234567890"
    );
    assert_eq!(snapshot.cash_balance, "-0.00000000000000000001");
}

#[test]
fn rejects_nonzero_code_false_status_non_json_and_missing_fields() {
    for payload in [
        Some(kimi_reply(1, true, "1", "0", "1")),
        Some(kimi_reply(0, false, "1", "0", "1")),
        None,
    ] {
        let error = kimi::parse_response(200, payload, "unix:2005".to_string()).unwrap_err();
        assert_eq!(error.category(), ProviderErrorCategory::InvalidResponse);
    }
}

#[test]
fn rejects_string_amounts_because_official_contract_requires_numbers() {
    // String amounts do not read as the reply's numbers, so no payload comes.
    let error = kimi::parse_response(200, None, "unix:2006".to_string()).unwrap_err();

    assert_eq!(error.category(), ProviderErrorCategory::InvalidResponse);
}

#[test]
fn rejects_negative_voucher_balance_without_float_conversion() {
    let error = kimi::parse_response(
        200,
        Some(kimi_reply(0, true, "1", "-1.5", "2.5")),
        "unix:2007".to_string(),
    )
    .unwrap_err();

    assert_eq!(error.category(), ProviderErrorCategory::InvalidResponse);
    assert!(number_is_non_negative("-0.000e100"));
}

#[test]
fn maps_http_error_statuses_without_exposing_error_body() {
    for (status, category) in [
        (401, ProviderErrorCategory::Unauthorized),
        (429, ProviderErrorCategory::RateLimited),
        (500, ProviderErrorCategory::Server),
        (503, ProviderErrorCategory::Server),
    ] {
        let error = kimi::parse_response(status, None, "unix:2008".to_string()).unwrap_err();
        assert_eq!(error.category(), category);
        assert!(!format!("{error:?}").contains("must not escape"));
    }
}

#[test]
fn status_codes_map_to_stable_provider_categories() {
    assert_eq!(
        ProviderError::from_status(401).category(),
        ProviderErrorCategory::Unauthorized
    );
    assert_eq!(
        ProviderError::from_status(402).category(),
        ProviderErrorCategory::InsufficientBalance
    );
    assert_eq!(
        ProviderError::from_status(429).category(),
        ProviderErrorCategory::RateLimited
    );
    for status in [500, 503] {
        assert_eq!(
            ProviderError::from_status(status).category(),
            ProviderErrorCategory::Server
        );
    }
    assert_eq!(
        ProviderError::from_status(302).category(),
        ProviderErrorCategory::InvalidResponse
    );
}

#[test]
fn provider_error_never_contains_upstream_body_or_secret() {
    let secret = "never-display-this-key";
    let error = ProviderError::from_status(401);
    let debug = format!("{error:?}");
    let display = error.to_string();

    assert!(!debug.contains(secret));
    assert!(!display.contains(secret));
    assert!(!debug.contains("upstream"));
}
