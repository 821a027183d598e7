use quotadock::updates::{
    check_cached_package, check_installer_product_version, check_request_failure,
    decode_base64_text, frame_update_cache, menu_status_for, parse_numeric_release_version,
    parse_windows_proxy_server, ready_notification_action, split_update_cache, status_after_check,
    verify_installer_product_version, verify_package_signature, CachedUpdateMetadata, CheckOrigin,
    update_check_step, verify_package_identity, CacheSaveFailure, DownloadProgress,
    UpdateCheckEffect, UpdateCheckEvent, UpdateCheckState, InstallerVersionReading, NumericReleaseVersion, ReadyNotificationAction, UpdateFailure, UpdatePhase,
    UpdateStatus, UpdateTrustState, AUTO_CHECK_INTERVAL, MAX_CACHE_METADATA_BYTES,
    MAX_NOTIFIED_VERSIONS,
};
use base64::Engine;
use std::time::Duration;

#[test]
fn parses_common_windows_proxy_formats() {
    assert_eq!(
        parse_windows_proxy_server("127.0.0.1:7897").unwrap(),
        "http://127.0.0.1:7897/"
    );
    assert_eq!(
        parse_windows_proxy_server("http=proxy.local:8080;https=secure.local:8443").unwrap(),
        "http://secure.local:8443/"
    );
    assert_eq!(
        parse_windows_proxy_server("https://proxy.local:9443").unwrap(),
        "https://proxy.local:9443/"
    );
    assert!(parse_windows_proxy_server("socks=127.0.0.1:1080").is_none());
    assert!(parse_windows_proxy_server("not a proxy").is_none());
}

#[test]
fn network_failure_has_recovery_copy_without_exposing_url_in_menu() {
    let failure = check_request_failure(
        "error sending request for url (https://example.invalid/latest.json)",
    );
    let status = failure.into_status();
    assert_eq!(status.phase, UpdatePhase::Error);
    assert!(status.message.contains("代理"));
    assert!(status
        .technical_detail
        .as_deref()
        .is_some_and(|detail| detail.contains("latest.json")));
    assert!(!menu_status_for(&status).contains("http"));
}

#[test]
fn other_request_failures_ask_to_retry_later() {
    let failure = check_request_failure("manifest was not valid JSON");
    assert_eq!(failure.message, "无法读取更新信息，请稍后重试。");
    assert_eq!(
        failure.technical_detail,
        "获取签名更新清单失败：manifest was not valid JSON"
    );
}

#[test]
fn menu_update_statuses_stay_compact() {
    let status = UpdateStatus::error(
        "暂时无法连接更新服务，请检查网络或代理后重试。",
        "https://example.invalid/a/very/long/path/latest.json",
    );
    let menu = menu_status_for(&status);
    assert!(menu.chars().count() <= 16);
    assert!(!menu.contains("http"));
}

#[test]
fn lifecycle_has_six_hour_interval_and_explicit_ready_state() {
    assert_eq!(
        Duration::from_millis(AUTO_CHECK_INTERVAL),
        Duration::from_secs(6 * 60 * 60)
    );
    let ready = UpdateStatus::ready("9.9.9");
    assert_eq!(ready.phase, UpdatePhase::Ready);
    assert_eq!(ready.progress_percent, Some(100));
    assert!(ready.message.contains("签名"));
    let retained = UpdateStatus::ready_after_check_failure("9.9.9", "network unavailable");
    assert_eq!(retained.phase, UpdatePhase::Ready);
    assert!(retained
        .technical_detail
        .as_deref()
        .is_some_and(|detail| detail.contains("network")));
    assert_eq!(
        ready_notification_action(CheckOrigin::Automatic, false),
        ReadyNotificationAction::Notify
    );
    assert_eq!(
        ready_notification_action(CheckOrigin::Automatic, true),
        ReadyNotificationAction::Skip
    );
    assert_eq!(
        ready_notification_action(CheckOrigin::Manual, false),
        ReadyNotificationAction::MarkOnly
    );
    assert_eq!(
        menu_status_for(&UpdateStatus::installing("9.9.9")),
        "正在启动更新安装…"
    );
}

#[test]
fn statuses_carry_version_progress_and_time() {
    let downloading = UpdateStatus::downloading("1.2.3", Some(45));
    assert_eq!(downloading.message, "正在下载签名更新 v1.2.3（45%）…");
    assert_eq!(downloading.available_version.as_deref(), Some("1.2.3"));
    assert!(downloading.checked_at.as_deref().is_some_and(|t| t.starts_with("unix:")));
    assert_eq!(
        UpdateStatus::downloading("1.2.3", None).message,
        "正在下载签名更新 v1.2.3…"
    );
    assert_eq!(UpdateStatus::idle().checked_at, None);
    assert_eq!(UpdateStatus::idle().current_version, "0.6.0");
    assert_eq!(UpdateStatus::up_to_date().message, "已是最新版本 v0.6.0。");
    assert_eq!(menu_status_for(&UpdateStatus::up_to_date()), "已是最新版 v0.6.0");
    assert_eq!(menu_status_for(&UpdateStatus::ready("2.0.0")), "更新 v2.0.0 已准备");
    assert_eq!(UpdateStatus::verifying("2.0.0").progress_percent, Some(100));
}

#[test]
fn a_failed_recheck_keeps_a_prepared_update_ready() {
    let kept = status_after_check(Err(UpdateFailure::new("m", "d")), Some("3.0.0"));
    assert_eq!(kept.phase, UpdatePhase::Ready);
    assert_eq!(kept.technical_detail.as_deref(), Some("d"));
    let failed = status_after_check(Err(UpdateFailure::new("m", "d")), None);
    assert_eq!(failed.phase, UpdatePhase::Error);
    assert_eq!(failed.message, "m");
    let passed = status_after_check(Ok(UpdateStatus::idle()), Some("3.0.0"));
    assert_eq!(passed.phase, UpdatePhase::Idle);
}

#[test]
fn cached_metadata_matches_only_the_same_release() {
    let actual = CachedUpdateMetadata {
        version: "9.9.9".to_string(),
        signature: "signed-manifest-value".to_string(),
        download_url: "https://example.invalid/update.exe".to_string(),
    };
    assert!(actual.matches_release(
        "9.9.9",
        "signed-manifest-value",
        "https://example.invalid/update.exe"
    ));
    assert!(!actual.matches_release(
        "9.9.8",
        "signed-manifest-value",
        "https://example.invalid/update.exe"
    ));
}

#[test]
fn cache_framing_round_trips_and_rejects_damage() {
    let framed = frame_update_cache(b"{\"version\":\"9.9.9\"}", b"verified-package").unwrap();
    let (metadata, package) = split_update_cache(&framed).unwrap();
    assert_eq!(metadata, b"{\"version\":\"9.9.9\"}");
    assert_eq!(package, b"verified-package");
    assert!(check_cached_package(&package).is_ok());

    assert!(split_update_cache(&framed[..23]).is_err());
    let mut wrong_marker = framed.clone();
    wrong_marker[0] = b'X';
    assert_eq!(split_update_cache(&wrong_marker).unwrap_err(), "更新缓存格式无效。");
    let mut oversized = framed[..23].to_vec();
    oversized.extend_from_slice(&((MAX_CACHE_METADATA_BYTES + 1) as u32).to_le_bytes());
    oversized.extend_from_slice(b"package");
    assert_eq!(
        split_update_cache(&oversized).unwrap_err(),
        "更新缓存元数据长度超出限制。"
    );
    let mut incomplete = framed[..23].to_vec();
    incomplete.extend_from_slice(&100u32.to_le_bytes());
    assert_eq!(split_update_cache(&incomplete).unwrap_err(), "更新缓存元数据不完整。");
    assert!(frame_update_cache(b"{}", b"").is_err());
    assert_eq!(check_cached_package(b"").unwrap_err(), "更新缓存包为空。");
}

#[test]
fn update_trust_state_is_bounded_and_refuses_rollback() {
    let mut state = UpdateTrustState::new();
    for i in 0..40 {
        state.mark_notified(&format!("1.0.{i}"));
    }
    assert_eq!(state.notified_versions.len(), MAX_NOTIFIED_VERSIONS);
    assert!(state.was_version_notified("1.0.39"));
    assert!(!state.was_version_notified("1.0.0"));
    state.mark_notified("1.0.39");
    assert_eq!(state.notified_versions.len(), MAX_NOTIFIED_VERSIONS);

    assert_eq!(state.record_highest_trusted_version("9.9.9"), Ok(true));
    assert_eq!(state.record_highest_trusted_version("9.9.8"), Ok(false));
    assert_eq!(state.highest_trusted_version.as_deref(), Some("9.9.9"));
    assert!(state.check_not_rollback("9.9.9").is_ok());
    assert!(state.check_not_rollback("9.10.0").is_ok());
    assert_eq!(
        state.check_not_rollback("9.9.8").unwrap_err(),
        "更新清单版本 v9.9.8 低于本机已验证的 v9.9.9，已拒绝覆盖。"
    );
}

#[test]
fn numeric_release_versions_are_strict_and_ordered() {
    assert_eq!(
        parse_numeric_release_version("0.5.4").unwrap(),
        NumericReleaseVersion {
            major: 0,
            minor: 5,
            patch: 4,
        }
    );
    assert!(
        parse_numeric_release_version("0.5.5").unwrap()
            > parse_numeric_release_version("0.5.4").unwrap()
    );
    for invalid in ["v0.5.4", "0.5", "0.5.4.0", "0.05.4", "0.5.4-beta", "65536.0.0"] {
        assert!(parse_numeric_release_version(invalid).is_err(), "{invalid}");
    }
    assert_eq!(
        parse_numeric_release_version("65536.0.0").unwrap_err(),
        "版本号 65536.0.0 超出 Windows 产品版本范围。"
    );
    assert_eq!(
        parse_numeric_release_version("0.5").unwrap_err(),
        "版本号必须使用 x.y.z 格式。"
    );
    let a = parse_numeric_release_version("1.2.3").unwrap();
    let b = parse_numeric_release_version("1.10.0").unwrap();
    assert!(a.is_before(&b));
    assert!(!b.is_before(&a));
}

#[test]
fn installer_product_version_must_match_the_release() {
    assert!(check_installer_product_version(0x0005_0004, 0x0003_0000, "5.4.3").is_ok());
    assert_eq!(
        check_installer_product_version(0x0005_0004, 0x0003_0001, "5.4.3").unwrap_err(),
        "安装包内嵌产品版本 5.4.3.1 与更新清单 v5.4.3 不一致。"
    );
    let words = |_: &[u8]| InstallerVersionReading::Words(0x0005_0004, 0x0003_0000);
    assert!(verify_installer_product_version(b"installer", "5.4.3", &words).is_ok());
    assert_eq!(
        verify_installer_product_version(b"installer", "5.4.4", &words).unwrap_err(),
        "安装包内嵌产品版本 5.4.3.0 与更新清单 v5.4.4 不一致。"
    );
    assert!(verify_installer_product_version(b"installer", "not-a-version", &words).is_err());
    let not_offered = |_: &[u8]| InstallerVersionReading::NotOffered;
    assert!(verify_installer_product_version(b"installer", "5.4.3", &not_offered).is_ok());
}

// Windows reports bytes that are no executable as having no version
// information; the reader hands that failure to the check.
#[test]
fn installer_product_version_rejects_non_executable_bytes() {
    let windows_reading = |data: &[u8]| {
        assert_eq!(data, b"not-an-installer");
        InstallerVersionReading::Failed("读取安装包产品版本大小失败：找不到资源类型。".to_string())
    };
    assert!(verify_installer_product_version(b"not-an-installer", "0.5.4", &windows_reading).is_err());
}

const TEST_PUBLIC_KEY: &str = "untrusted comment: minisign public key E7620F1842B4E81F
RWQf6LRCGA9i53mlYecO4IzT51TGPpvWucNSCh1CBM0QTaLn73Y7GFO3";

const TEST_SIGNATURE: &str = "untrusted comment: signature from minisign secret key
RWQf6LRCGA9i59SLOFxz6NxvASXDJeRtuZykwQepbDEGt87ig1BNpWaVWuNrm73YiIiJbq71Wi+dP9eKL8OC351vwIasSSbXxwA=
trusted comment: timestamp:1555779966\tfile:test
QtKMXWyYcwdpZAlPF7tE2ENJkRd1ujvKjlj1m9RtHTBnZPa5WKU5uWRs5GoP5M/VqE81QFuMKI5k/SfNQUaOAA==";

fn b64(text: &str) -> String {
    base64::engine::general_purpose::STANDARD.encode(text.as_bytes())
}

#[test]
fn a_signed_package_verifies_and_a_changed_one_does_not() {
    let key = b64(TEST_PUBLIC_KEY);
    let signature = b64(TEST_SIGNATURE);
    assert!(verify_package_signature(b"test", &signature, &key).is_ok());
    let error = verify_package_signature(b"Test", &signature, &key).unwrap_err();
    assert!(error.starts_with("更新缓存签名验证失败："), "{error}");

    let words = |_: &[u8]| InstallerVersionReading::Words(0x0000_0005, 0x0004_0000);
    assert!(verify_package_identity(b"test", &signature, &key, "0.5.4", &words).is_ok());
    let never_read = |_: &[u8]| -> InstallerVersionReading { panic!("read before the signature held") };
    assert!(verify_package_identity(b"Test", &signature, &key, "0.5.4", &never_read).is_err());
    assert_eq!(
        verify_package_identity(b"test", &signature, &key, "0.5.5", &words).unwrap_err(),
        "安装包内嵌产品版本 0.5.4.0 与更新清单 v0.5.5 不一致。"
    );
}

#[test]
fn cached_package_signature_must_be_decodable_and_valid() {
    assert!(verify_package_signature(b"package", "not-base64", "not-base64").is_err());
}

#[test]
fn base64_text_decoding_names_what_failed() {
    assert_eq!(decode_base64_text("aGVsbG8=", "更新公钥").unwrap(), "hello");
    assert!(decode_base64_text("not-base64", "更新公钥")
        .unwrap_err()
        .starts_with("解码更新公钥失败："));
    assert!(decode_base64_text("/w==", "更新签名")
        .unwrap_err()
        .starts_with("更新签名不是有效文本："));
}

#[test]
fn download_progress_reports_every_five_points_and_completion() {
    let mut progress = DownloadProgress::new();
    assert_eq!(progress.record_chunk(10, None), None);
    assert_eq!(progress.record_chunk(10, Some(1000)), None);
    assert_eq!(progress.record_chunk(30, Some(1000)), Some(5));
    assert_eq!(progress.record_chunk(40, Some(1000)), None);
    assert_eq!(progress.record_chunk(10, Some(1000)), Some(10));
    assert_eq!(progress.record_chunk(900, Some(1000)), Some(100));
    assert_eq!(progress.record_chunk(1, Some(1000)), Some(100));
}

#[test]
fn an_update_check_downloads_verifies_records_and_saves_before_ready() {
    let steps = [
        (UpdateCheckEvent::Permit(true), UpdateCheckEffect::ShowCheckingAndBuild),
        (UpdateCheckEvent::UpdaterBuilt(Ok(())), UpdateCheckEffect::Check),
        (UpdateCheckEvent::Checked(Ok(Some("9.9.9".to_string()))), UpdateCheckEffect::CheckRollback),
        (UpdateCheckEvent::RollbackChecked(Ok(())), UpdateCheckEffect::MatchPrepared),
        (UpdateCheckEvent::PreparedMatches(false), UpdateCheckEffect::LoadCache),
        (UpdateCheckEvent::CacheLoaded(Err("damaged".to_string())), UpdateCheckEffect::DiscardCacheAndDownload),
        (UpdateCheckEvent::Downloaded(Ok(())), UpdateCheckEffect::VerifyPackage),
        (UpdateCheckEvent::PackageVerified(Ok(())), UpdateCheckEffect::ClearPreparedAndRecord),
        (UpdateCheckEvent::VersionRecorded(Ok(())), UpdateCheckEffect::SaveCache),
        (UpdateCheckEvent::CacheSaved(Ok(())), UpdateCheckEffect::PrepareDownloadedAndShowReady),
    ];
    let mut state = UpdateCheckState::Waiting;
    for (event, expected) in steps {
        let (next, effect) = update_check_step(state, event);
        assert_eq!(effect, expected);
        state = next;
    }
    assert!(matches!(state, UpdateCheckState::Ready(ref v) if v == "9.9.9"));
}

#[test]
fn an_update_check_stops_at_each_failure_with_its_message() {
    let (state, effect) = update_check_step(UpdateCheckState::Waiting, UpdateCheckEvent::Permit(false));
    assert!(matches!(state, UpdateCheckState::Skipped));
    assert_eq!(effect, UpdateCheckEffect::ReportCurrent);

    let (state, effect) = update_check_step(
        UpdateCheckState::Checking,
        UpdateCheckEvent::Checked(Ok(None)),
    );
    assert!(matches!(state, UpdateCheckState::UpToDate));
    assert_eq!(effect, UpdateCheckEffect::ClearAndShowUpToDate);

    let (state, effect) = update_check_step(
        UpdateCheckState::Building,
        UpdateCheckEvent::UpdaterBuilt(Err("no key".to_string())),
    );
    assert_eq!(effect, UpdateCheckEffect::ShowFailure);
    match state {
        UpdateCheckState::Failed(failure) => {
            assert_eq!(failure.message, "更新服务初始化失败，请稍后重试。");
            assert_eq!(failure.technical_detail, "初始化签名更新器失败：no key");
        }
        _ => panic!("expected a failure"),
    }

    let (state, _) = update_check_step(
        UpdateCheckState::Saving("9.9.9".to_string()),
        UpdateCheckEvent::CacheSaved(Err(CacheSaveFailure::Write("disk full".to_string()))),
    );
    match state {
        UpdateCheckState::Failed(failure) => {
            assert_eq!(failure.message, "更新已下载并验证，但无法保存安装包，请检查磁盘空间后重试。");
            assert_eq!(failure.technical_detail, "保存已验签更新缓存失败：disk full");
        }
        _ => panic!("expected a failure"),
    }

    let (state, effect) = update_check_step(
        UpdateCheckState::PreparedCheck("9.9.9".to_string()),
        UpdateCheckEvent::PreparedMatches(true),
    );
    assert!(matches!(state, UpdateCheckState::Ready(ref v) if v == "9.9.9"));
    assert_eq!(effect, UpdateCheckEffect::ShowReady);

    let (state, effect) = update_check_step(UpdateCheckState::UpToDate, UpdateCheckEvent::Permit(true));
    assert!(matches!(state, UpdateCheckState::UpToDate));
    assert_eq!(effect, UpdateCheckEffect::Ignore);
}
