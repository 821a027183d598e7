//! Software updates: the status shown at each step of a check, its compact tray
//! text, strict `x.y.z` release versions, the trust record that refuses a
//! rollback and remembers which versions were announced, download progress, and
//! the framing of the verified-package cache file. Durations are in milliseconds.
use crate::status_parser::{unix_now_seconds, unix_timestamp_string, unix_timestamp_text};
use crate::text::{
    all_digits, chars_of, contains_any, contains_any_of, decimal, decimal_chars, digits_value,
    extend_chars, is_all_digits, lower, opt_text, parse_digits_up_to,
    split_fields, split_on, string_of, to_lower, views,
};
use vstd::prelude::*;

verus! {

broadcast use vstd::string::group_string_axioms;

pub const APP_VERSION: &'static str = "0.6.0";

pub const AUTO_FIRST_CHECK_DELAY: u64 = 30_000;

pub const AUTO_CHECK_INTERVAL: u64 = 6 * 60 * 60 * 1000;

pub const UPDATE_CONNECT_TIMEOUT: u64 = 30_000;

pub const UPDATE_READ_TIMEOUT: u64 = 60_000;

pub const UPDATE_STATUS_EVENT: &'static str = "quotadock:update-status";

pub const UPDATE_CACHE_DIR: &'static str = "pending-update";

pub const UPDATE_CACHE_FILE: &'static str = "verified-update.cache";

pub const LEGACY_UPDATE_CACHE_PACKAGE: &'static str = "package.bin";

pub const LEGACY_UPDATE_CACHE_METADATA: &'static str = "metadata.json";

pub const UPDATE_TRUST_STATE_FILE: &'static str = "update-trust-state.json";

pub const MAX_NOTIFIED_VERSIONS: usize = 32;

pub const MAX_TRUST_STATE_BYTES: u64 = 8 * 1024;

pub const MAX_CACHE_METADATA_BYTES: u64 = 64 * 1024;

pub const MAX_CACHE_PACKAGE_BYTES: u64 = 512 * 1024 * 1024;

pub const MAX_CACHE_FILE_BYTES: u64 = MAX_CACHE_PACKAGE_BYTES + MAX_CACHE_METADATA_BYTES + 128;

/// `a`, `b` and `c` one after another.
fn text3(a: &str, b: &str, c: &str) -> (r: String)
    ensures
        r@ == a@ + b@ + c@,
{
    let mut t = chars_of(a);
    extend_chars(&mut t, &chars_of(b));
    extend_chars(&mut t, &chars_of(c));
    string_of(&t)
}

/// The current time as an update-status time marker.
fn now_marker() -> (r: String)
    ensures
        exists|seconds: u64| r@ == unix_timestamp_text(seconds),
{
    unix_timestamp_string(unix_now_seconds())
}

// ---------------------------------------------------------------------------
// Status
// ---------------------------------------------------------------------------

#[derive(Clone, Copy, Debug, PartialEq, Eq, Structural)]
pub enum UpdatePhase {
    Idle,
    Checking,
    UpToDate,
    Downloading,
    Ready,
    Installing,
    Error,
}

#[derive(Clone, Debug)]
pub struct UpdateStatus {
    pub current_version: String,
    pub phase: UpdatePhase,
    pub message: String,
    pub technical_detail: Option<String>,
    pub available_version: Option<String>,
    pub progress_percent: Option<u8>,
    pub checked_at: Option<String>,
}

/// Whether an optional time marker is present and is a Unix time marker.
pub open spec fn is_time_marker(t: Option<String>) -> bool {
    exists|seconds: u64| opt_text(t) == Some(unix_timestamp_text(seconds))
}

impl UpdateStatus {
    /// The status has these fields, the running version, and a time marker
    /// exactly when `timed`.
    pub open spec fn has(
        &self,
        phase: UpdatePhase,
        message: Seq<char>,
        technical_detail: Option<Seq<char>>,
        available_version: Option<Seq<char>>,
        progress_percent: Option<u8>,
        timed: bool,
    ) -> bool {
        &&& self.current_version@ == APP_VERSION@
        &&& self.phase == phase
        &&& self.message@ == message
        &&& opt_text(self.technical_detail) == technical_detail
        &&& opt_text(self.available_version) == available_version
        &&& self.progress_percent == progress_percent
        &&& if timed {
            is_time_marker(self.checked_at)
        } else {
            self.checked_at is None
        }
    }

    fn with(
        phase: UpdatePhase,
        message: String,
        technical_detail: Option<String>,
        available_version: Option<String>,
        progress_percent: Option<u8>,
        timed: bool,
    ) -> (r: UpdateStatus)
        ensures
            r.has(
                phase,
                message@,
                opt_text(technical_detail),
                opt_text(available_version),
                progress_percent,
                timed,
            ),
    {
        let checked_at = if timed {
            Some(now_marker())
        } else {
            None
        };
        UpdateStatus {
            current_version: APP_VERSION.to_string(),
            phase,
            message,
            technical_detail,
            available_version,
            progress_percent,
            checked_at,
        }
    }

    /// No check has been made yet.
    pub fn idle() -> (r: UpdateStatus)
        ensures
            r.has(UpdatePhase::Idle, "尚未检查软件更新。"@, None, None, None, false),
    {
        UpdateStatus::with(UpdatePhase::Idle, "尚未检查软件更新。".to_string(), None, None, None, false)
    }

    /// A check is connecting to the update service.
    pub fn checking() -> (r: UpdateStatus)
        ensures
            r.has(UpdatePhase::Checking, "正在连接更新服务…"@, None, None, None, true),
    {
        UpdateStatus::with(UpdatePhase::Checking, "正在连接更新服务…".to_string(), None, None, None, true)
    }

    /// The running version is the newest.
    pub fn up_to_date() -> (r: UpdateStatus)
        ensures
            r.has(UpdatePhase::UpToDate, up_to_date_message(), None, None, None, true),
    {
        UpdateStatus::with(
            UpdatePhase::UpToDate,
            text3("已是最新版本 v", APP_VERSION, "。"),
            None,
            None,
            None,
            true,
        )
    }

    /// A signed update is being downloaded, with its progress when known.
    pub fn downloading(version: &str, progress_percent: Option<u8>) -> (r: UpdateStatus)
        ensures
            r.has(
                UpdatePhase::Downloading,
                downloading_message(version@, progress_percent),
                None,
                Some(version@),
                progress_percent,
                true,
            ),
    {
        let message = match progress_percent {
            None => text3("正在下载签名更新 v", version, "…"),
            Some(progress) => {
                let mut t = chars_of("正在下载签名更新 v");
                extend_chars(&mut t, &chars_of(version));
                extend_chars(&mut t, &chars_of("（"));
                extend_chars(&mut t, &decimal_chars(progress as u64));
                extend_chars(&mut t, &chars_of("%）…"));
                string_of(&t)
            },
        };
        UpdateStatus::with(
            UpdatePhase::Downloading,
            message,
            None,
            Some(version.to_string()),
            progress_percent,
            true,
        )
    }

    /// The download is complete and its release signature is being checked.
    pub fn verifying(version: &str) -> (r: UpdateStatus)
        ensures
            r.has(
                UpdatePhase::Downloading,
                "下载完成，正在验证 v"@ + version@ + " 的发布签名…"@,
                None,
                Some(version@),
                Some(100u8),
                true,
            ),
    {
        UpdateStatus::with(
            UpdatePhase::Downloading,
            text3("下载完成，正在验证 v", version, " 的发布签名…"),
            None,
            Some(version.to_string()),
            Some(100),
            true,
        )
    }

    /// A verified update is ready to install.
    pub fn ready(version: &str) -> (r: UpdateStatus)
        ensures
            r.has(UpdatePhase::Ready, ready_message(version@), None, Some(version@), Some(100u8), true),
    {
        UpdateStatus::with(
            UpdatePhase::Ready,
            text3("更新 v", version, " 已下载并通过发布签名验证，可随时安装。"),
            None,
            Some(version.to_string()),
            Some(100),
            true,
        )
    }

    /// A verified update stays ready although the latest re-check failed.
    pub fn ready_after_check_failure(version: &str, technical_detail: &str) -> (r: UpdateStatus)
        ensures
            r.has(
                UpdatePhase::Ready,
                "更新 v"@ + version@ + " 仍已准备；本次后台复查失败，不影响安装。"@,
                Some(technical_detail@),
                Some(version@),
                Some(100u8),
                true,
            ),
    {
        UpdateStatus::with(
            UpdatePhase::Ready,
            text3("更新 v", version, " 仍已准备；本次后台复查失败，不影响安装。"),
            Some(technical_detail.to_string()),
            Some(version.to_string()),
            Some(100),
            true,
        )
    }

    /// The installer is being started.
    pub fn installing(version: &str) -> (r: UpdateStatus)
        ensures
            r.has(
                UpdatePhase::Installing,
                "正在安装 v"@ + version@ + "，应用即将重新启动…"@,
                None,
                Some(version@),
                Some(100u8),
                true,
            ),
    {
        UpdateStatus::with(
            UpdatePhase::Installing,
            text3("正在安装 v", version, "，应用即将重新启动…"),
            None,
            Some(version.to_string()),
            Some(100),
            true,
        )
    }

    /// A step failed: a message for people and the technical detail.
    pub fn error(message: &str, technical_detail: &str) -> (r: UpdateStatus)
        ensures
            r.has(UpdatePhase::Error, message@, Some(technical_detail@), None, None, true),
    {
        UpdateStatus::with(
            UpdatePhase::Error,
            message.to_string(),
            Some(technical_detail.to_string()),
            None,
            None,
            true,
        )
    }
}

pub open spec fn up_to_date_message() -> Seq<char> {
    "已是最新版本 v"@ + APP_VERSION@ + "。"@
}

pub open spec fn downloading_message(version: Seq<char>, progress_percent: Option<u8>) -> Seq<char> {
    match progress_percent {
        None => "正在下载签名更新 v"@ + version + "…"@,
        Some(p) => "正在下载签名更新 v"@ + version + "（"@ + decimal(p as nat) + "%）…"@,
    }
}

pub open spec fn ready_message(version: Seq<char>) -> Seq<char> {
    "更新 v"@ + version + " 已下载并通过发布签名验证，可随时安装。"@
}

/// The short text that the tray menu shows for a status: it names a version
/// only when one is up to date or ready, and never shows a message or detail.
pub open spec fn menu_status_text(status: UpdateStatus) -> Seq<char> {
    match status.phase {
        UpdatePhase::Idle => "更新：尚未检查"@,
        UpdatePhase::Checking => "正在检查更新…"@,
        UpdatePhase::UpToDate => "已是最新版 v"@ + status.current_version@,
        UpdatePhase::Downloading => "正在下载并验证更新…"@,
        UpdatePhase::Ready => match status.available_version {
            Some(version) => "更新 v"@ + version@ + " 已准备"@,
            None => "更新已准备"@,
        },
        UpdatePhase::Installing => "正在启动更新安装…"@,
        UpdatePhase::Error => "更新检查失败，请查看详情"@,
    }
}

pub fn menu_status_for(status: &UpdateStatus) -> (r: String)
    ensures
        r@ == menu_status_text(*status),
{
    proof {
        reveal_strlit("");
    }
    match status.phase {
        UpdatePhase::Idle => "更新：尚未检查".to_string(),
        UpdatePhase::Checking => "正在检查更新…".to_string(),
        UpdatePhase::UpToDate => text3("已是最新版 v", status.current_version.as_str(), ""),
        UpdatePhase::Downloading => "正在下载并验证更新…".to_string(),
        UpdatePhase::Ready => match &status.available_version {
            Some(version) => text3("更新 v", version.as_str(), " 已准备"),
            None => "更新已准备".to_string(),
        },
        UpdatePhase::Installing => "正在启动更新安装…".to_string(),
        UpdatePhase::Error => "更新检查失败，请查看详情".to_string(),
    }
}

/// Whatever an error status says in its message and detail (a URL, a path),
/// the tray shows the same short fixed text for it, twelve characters long.
pub proof fn lemma_error_menu_text_hides_details(a: UpdateStatus, b: UpdateStatus)
    requires
        a.phase == UpdatePhase::Error,
        b.phase == UpdatePhase::Error,
    ensures
        menu_status_text(a) == menu_status_text(b),
        menu_status_text(a).len() == 12,
{
    reveal_strlit("更新检查失败，请查看详情");
}

// ---------------------------------------------------------------------------
// Failures
// ---------------------------------------------------------------------------

#[derive(Debug)]
pub struct UpdateFailure {
    pub message: String,
    pub technical_detail: String,
}

impl UpdateFailure {
    pub fn new(message: &str, technical_detail: &str) -> (r: UpdateFailure)
        ensures
            r.message@ == message@,
            r.technical_detail@ == technical_detail@,
    {
        UpdateFailure { message: message.to_string(), technical_detail: technical_detail.to_string() }
    }

    /// The error status that reports this failure.
    pub fn into_status(self) -> (r: UpdateStatus)
        ensures
            r.has(
                UpdatePhase::Error,
                self.message@,
                Some(self.technical_detail@),
                None,
                None,
                true,
            ),
    {
        UpdateStatus::error(self.message.as_str(), self.technical_detail.as_str())
    }
}

/// Words by which a failed manifest request shows a network problem.
pub open spec fn network_failure_words() -> Seq<Seq<char>> {
    seq!["error sending request"@, "timed out"@, "timeout"@, "connect"@, "dns"@, "network"@]
}

pub open spec fn request_failure_detail(error_text: Seq<char>) -> Seq<char> {
    "获取签名更新清单失败："@ + error_text
}

pub open spec fn request_failure_message(error_text: Seq<char>) -> Seq<char> {
    if contains_any(lower(request_failure_detail(error_text)), network_failure_words()) {
        "暂时无法连接更新服务，请检查网络或代理后重试。"@
    } else {
        "无法读取更新信息，请稍后重试。"@
    }
}

/// The failure for a manifest request that failed with the given error text:
/// network trouble gets advice about the network or proxy, and the detail keeps
/// the error text.
pub fn check_request_failure(error_text: &str) -> (r: UpdateFailure)
    ensures
        r.message@ == request_failure_message(error_text@),
        r.technical_detail@ == request_failure_detail(error_text@),
{
    let detail = text3("获取签名更新清单失败：", error_text, "");
    let words: [&str; 6] = ["error sending request", "timed out", "timeout", "connect", "dns", "network"];
    proof {
        reveal_strlit("");
        assert(views(words@) =~= network_failure_words());
        assert(detail@ =~= request_failure_detail(error_text@));
    }
    let network = contains_any_of(&to_lower(&chars_of(detail.as_str())), &words);
    let message = if network {
        "暂时无法连接更新服务，请检查网络或代理后重试。"
    } else {
        "无法读取更新信息，请稍后重试。"
    };
    UpdateFailure::new(message, detail.as_str())
}

/// The status that a check ends in: its own result, or for a failure, the
/// ready status kept for a prepared update when there is one, else the error.
pub open spec fn check_outcome_holds(
    r: UpdateStatus,
    result: Result<UpdateStatus, UpdateFailure>,
    prepared_version: Option<Seq<char>>,
) -> bool {
    match result {
        Ok(status) => r == status,
        Err(failure) => match prepared_version {
            Some(version) => r.has(
                UpdatePhase::Ready,
                "更新 v"@ + version + " 仍已准备；本次后台复查失败，不影响安装。"@,
                Some(failure.technical_detail@),
                Some(version),
                Some(100u8),
                true,
            ),
            None => r.has(
                UpdatePhase::Error,
                failure.message@,
                Some(failure.technical_detail@),
                None,
                None,
                true,
            ),
        },
    }
}

pub fn status_after_check(
    result: Result<UpdateStatus, UpdateFailure>,
    prepared_version: Option<&str>,
) -> (r: UpdateStatus)
    ensures
        check_outcome_holds(r, result, match prepared_version {
            Some(v) => Some(v@),
            None => None,
        }),
{
    match result {
        Ok(status) => status,
        Err(failure) => match prepared_version {
            Some(version) => UpdateStatus::ready_after_check_failure(
                version,
                failure.technical_detail.as_str(),
            ),
            None => failure.into_status(),
        },
    }
}

#[derive(Clone, Copy, Debug, PartialEq, Eq, Structural)]
pub enum CheckOrigin {
    Manual,
    Automatic,
}

/// What a check started while another runs is told.
pub fn concurrent_check_message(origin: CheckOrigin) -> (r: String)
    ensures
        r@ == match origin {
            CheckOrigin::Manual => "已有更新检查正在进行。"@,
            CheckOrigin::Automatic => "已有更新检查正在进行，跳过本次自动检查。"@,
        },
{
    match origin {
        CheckOrigin::Manual => "已有更新检查正在进行。".to_string(),
        CheckOrigin::Automatic => "已有更新检查正在进行，跳过本次自动检查。".to_string(),
    }
}

#[derive(Clone, Copy, Debug, PartialEq, Eq, Structural)]
pub enum ReadyNotificationAction {
    Skip,
    MarkOnly,
    Notify,
}

/// What to do about the ready notice: nothing once it was sent; a manual check
/// only records it (the user is looking); an automatic one shows it.
pub fn ready_notification_action(origin: CheckOrigin, notification_sent: bool) -> (r:
    ReadyNotificationAction)
    ensures
        r == if notification_sent {
            ReadyNotificationAction::Skip
        } else if origin == CheckOrigin::Manual {
            ReadyNotificationAction::MarkOnly
        } else {
            ReadyNotificationAction::Notify
        },
{
    if notification_sent {
        ReadyNotificationAction::Skip
    } else if origin == CheckOrigin::Manual {
        ReadyNotificationAction::MarkOnly
    } else {
        ReadyNotificationAction::Notify
    }
}

// ---------------------------------------------------------------------------
// Release versions
// ---------------------------------------------------------------------------

/// A release version `major.minor.patch`, each part within Windows' product
/// version range. The derived order is the order of the three parts.
#[derive(Clone, Copy, Debug, PartialEq, Eq, PartialOrd, Ord, Hash, Structural)]
pub struct NumericReleaseVersion {
    pub major: u16,
    pub minor: u16,
    pub patch: u16,
}

/// `a` comes before `b`: by major, then minor, then patch.
pub open spec fn version_before(a: NumericReleaseVersion, b: NumericReleaseVersion) -> bool {
    a.major < b.major || (a.major == b.major && (a.minor < b.minor || (a.minor == b.minor
        && a.patch < b.patch)))
}

impl NumericReleaseVersion {
    pub fn is_before(&self, other: &NumericReleaseVersion) -> (r: bool)
        ensures
            r == version_before(*self, *other),
    {
        self.major < other.major || (self.major == other.major && (self.minor < other.minor || (
        self.minor == other.minor && self.patch < other.patch)))
    }
}

/// A result with its error taken as text.
pub open spec fn text_result<T>(r: Result<T, String>) -> Result<T, Seq<char>> {
    match r {
        Ok(v) => Ok(v),
        Err(e) => Err(e@),
    }
}

pub open spec fn noncanonical_version_message(value: Seq<char>) -> Seq<char> {
    "版本号 "@ + value + " 不是规范的数字 x.y.z 格式。"@
}

pub open spec fn out_of_range_version_message(value: Seq<char>) -> Seq<char> {
    "版本号 "@ + value + " 超出 Windows 产品版本范围。"@
}

/// One part of a version: ASCII digits without a leading zero, at most 65535.
pub open spec fn component_result(value: Seq<char>, part: Seq<char>) -> Result<u16, Seq<char>> {
    if part.len() == 0 || !all_digits(part) || (part.len() > 1 && part[0] == '0') {
        Err(noncanonical_version_message(value))
    } else if digits_value(part) > 65535 {
        Err(out_of_range_version_message(value))
    } else {
        Ok(digits_value(part) as u16)
    }
}

pub open spec fn field_result(value: Seq<char>, fields: Seq<Seq<char>>, i: int) -> Result<
    u16,
    Seq<char>,
> {
    if i < fields.len() {
        component_result(value, fields[i])
    } else {
        Err("版本号必须使用 x.y.z 格式。"@)
    }
}

/// A version text read as exactly three dot-separated parts; the first part
/// that fails decides the error.
pub open spec fn release_version_result(value: Seq<char>) -> Result<NumericReleaseVersion, Seq<char>> {
    let fields = split_fields(value, '.');
    match field_result(value, fields, 0) {
        Err(e) => Err(e),
        Ok(major) => match field_result(value, fields, 1) {
            Err(e) => Err(e),
            Ok(minor) => match field_result(value, fields, 2) {
                Err(e) => Err(e),
                Ok(patch) => if fields.len() > 3 {
                    Err(noncanonical_version_message(value))
                } else {
                    Ok(NumericReleaseVersion { major, minor, patch })
                },
            },
        },
    }
}

fn parse_field(value: &str, fields: &Vec<Vec<char>>, i: usize) -> (r: Result<u16, String>)
    ensures
        text_result(r) == field_result(value@, crate::text::char_views(fields@), i as int),
{
    if i >= fields.len() {
        return Err("版本号必须使用 x.y.z 格式。".to_string());
    }
    let part = &fields[i];
    proof {
        assert(crate::text::char_views(fields@)[i as int] == part@);
    }
    if part.len() == 0 || !is_all_digits(part) || (part.len() > 1 && part[0] == '0') {
        return Err(text3("版本号 ", value, " 不是规范的数字 x.y.z 格式。"));
    }
    match parse_digits_up_to(part, 65535) {
        Some(v) => Ok(v as u16),
        None => Err(text3("版本号 ", value, " 超出 Windows 产品版本范围。")),
    }
}

/// Reads a release version of the strict form `x.y.z`.
pub fn parse_numeric_release_version(value: &str) -> (r: Result<NumericReleaseVersion, String>)
    ensures
        text_result(r) == release_version_result(value@),
{
    let chars = chars_of(value);
    let fields = split_on(&chars, '.');
    let major = match parse_field(value, &fields, 0) {
        Ok(v) => v,
        Err(e) => return Err(e),
    };
    let minor = match parse_field(value, &fields, 1) {
        Ok(v) => v,
        Err(e) => return Err(e),
    };
    let patch = match parse_field(value, &fields, 2) {
        Ok(v) => v,
        Err(e) => return Err(e),
    };
    if fields.len() > 3 {
        return Err(text3("版本号 ", value, " 不是规范的数字 x.y.z 格式。"));
    }
    Ok(NumericReleaseVersion { major, minor, patch })
}

// ---------------------------------------------------------------------------
// Cached release identity
// ---------------------------------------------------------------------------

#[derive(Clone, Debug)]
pub struct CachedUpdateMetadata {
    pub version: String,
    pub signature: String,
    pub download_url: String,
}

impl CachedUpdateMetadata {
    /// Whether this cached package belongs to the given release: the same
    /// version, manifest signature and download URL.
    pub fn matches_release(&self, version: &str, signature: &str, download_url: &str) -> (r: bool)
        ensures
            r == (self.version@ == version@ && self.signature@ == signature@ && self.download_url@
                == download_url@),
    {
        self.version == version.to_string() && self.signature == signature.to_string()
            && self.download_url == download_url.to_string()
    }
}

/// The four parts of a Windows product version, read from its two words.
pub open spec fn product_version_parts(ms: u32, ls: u32) -> (u16, u16, u16, u16) {
    ((ms / 65536) as u16, (ms % 65536) as u16, (ls / 65536) as u16, (ls % 65536) as u16)
}

pub open spec fn product_version_mismatch_message(ms: u32, ls: u32, expected: Seq<char>) -> Seq<char> {
    let (a, b, c, d) = product_version_parts(ms, ls);
    "安装包内嵌产品版本 "@ + decimal(a as nat) + "."@ + decimal(b as nat) + "."@ + decimal(c as nat)
        + "."@ + decimal(d as nat) + " 与更新清单 v"@ + expected + " 不一致。"@
}

/// The outcome of comparing an installer's embedded product version words with
/// the release version `expected`.
pub open spec fn product_version_outcome(ms: u32, ls: u32, expected_version: Seq<char>) -> Result<(), Seq<char>> {
    match release_version_result(expected_version) {
        Err(e) => Err(e),
        Ok(expected) => {
            let (a, b, c, d) = product_version_parts(ms, ls);
            if a == expected.major && b == expected.minor && c == expected.patch && d == 0 {
                Ok(())
            } else {
                Err(product_version_mismatch_message(ms, ls, expected_version))
            }
        },
    }
}

/// Compares an installer's embedded product version (the two words of its
/// fixed version information) with the release it claims to be: the three
/// parts must match and the fourth must be zero.
pub fn check_installer_product_version(
    product_version_ms: u32,
    product_version_ls: u32,
    expected_version: &str,
) -> (r: Result<(), String>)
    ensures
        text_result(r) == product_version_outcome(product_version_ms, product_version_ls, expected_version@),
{
    let expected = match parse_numeric_release_version(expected_version) {
        Ok(v) => v,
        Err(e) => return Err(e),
    };
    let a = (product_version_ms / 65536) as u16;
    let b = (product_version_ms % 65536) as u16;
    let c = (product_version_ls / 65536) as u16;
    let d = (product_version_ls % 65536) as u16;
    if a == expected.major && b == expected.minor && c == expected.patch && d == 0 {
        Ok(())
    } else {
        let mut t = chars_of("安装包内嵌产品版本 ");
        extend_chars(&mut t, &decimal_chars(a as u64));
        extend_chars(&mut t, &chars_of("."));
        extend_chars(&mut t, &decimal_chars(b as u64));
        extend_chars(&mut t, &chars_of("."));
        extend_chars(&mut t, &decimal_chars(c as u64));
        extend_chars(&mut t, &chars_of("."));
        extend_chars(&mut t, &decimal_chars(d as u64));
        extend_chars(&mut t, &chars_of(" 与更新清单 v"));
        extend_chars(&mut t, &chars_of(expected_version));
        extend_chars(&mut t, &chars_of(" 不一致。"));
        Err(string_of(&t))
    }
}

// ---------------------------------------------------------------------------
// Trust record
// ---------------------------------------------------------------------------

/// What the app remembers across runs about updates: the versions whose ready
/// notice was already handled (the most recent ones) and the highest version
/// it has verified, below which no update is accepted.
#[derive(Clone, Debug)]
pub struct UpdateTrustState {
    pub notified_versions: Vec<String>,
    pub highest_trusted_version: Option<String>,
}

/// The notified list after `version` is marked: added when absent, then only
/// the most recent entries kept.
pub open spec fn marked_versions(list: Seq<Seq<char>>, version: Seq<char>) -> Seq<Seq<char>> {
    let pushed = if list.contains(version) {
        list
    } else {
        list.push(version)
    };
    if pushed.len() > MAX_NOTIFIED_VERSIONS {
        pushed.skip(pushed.len() - MAX_NOTIFIED_VERSIONS)
    } else {
        pushed
    }
}

/// The check that refuses a release below the highest verified one.
pub open spec fn rollback_check(highest: Option<Seq<char>>, version: Seq<char>) -> Result<(), Seq<char>> {
    match release_version_result(version) {
        Err(e) => Err(e),
        Ok(candidate) => match highest {
            None => Ok(()),
            Some(h) => match release_version_result(h) {
                Err(e) => Err(e),
                Ok(highest_version) => if version_before(candidate, highest_version) {
                    Err("更新清单版本 v"@ + version + " 低于本机已验证的 v"@ + h + "，已拒绝覆盖。"@)
                } else {
                    Ok(())
                },
            },
        },
    }
}

/// Whether recording `version` raises the highest verified version (`Ok(true)`),
/// leaves it (`Ok(false)`), or fails on a version that does not read.
pub open spec fn record_result(highest: Option<Seq<char>>, version: Seq<char>) -> Result<bool, Seq<char>> {
    match release_version_result(version) {
        Err(e) => Err(e),
        Ok(candidate) => match highest {
            None => Ok(true),
            Some(h) => match release_version_result(h) {
                Err(e) => Err(e),
                Ok(highest_version) => Ok(version_before(highest_version, candidate)),
            },
        },
    }
}

/// The highest verified version after recording `version`.
pub open spec fn recorded_highest(highest: Option<Seq<char>>, version: Seq<char>) -> Option<Seq<char>> {
    if record_result(highest, version) == Ok::<bool, Seq<char>>(true) {
        Some(version)
    } else {
        highest
    }
}

/// Release versions are ordered by major, then minor, then patch: a lower
/// major part comes first whatever the rest, and so on down; the order is
/// strict and total.
pub proof fn lemma_release_order_is_lexicographic(a: NumericReleaseVersion, b: NumericReleaseVersion)
    ensures
        a.major < b.major ==> version_before(a, b),
        a.major == b.major && a.minor < b.minor ==> version_before(a, b),
        a.major == b.major && a.minor == b.minor && a.patch < b.patch ==> version_before(a, b),
        version_before(a, b) ==> a.major <= b.major,
        !version_before(a, a),
        version_before(a, b) ==> !version_before(b, a),
        a != b ==> version_before(a, b) || version_before(b, a),
{
}

/// A release newer than the highest verified version (by major, then minor,
/// then patch) passes the rollback guard and becomes the highest verified one;
/// an older one is refused and leaves the record as it was.
pub proof fn lemma_newer_release_is_accepted_older_refused(highest: Seq<char>, version: Seq<char>)
    requires
        release_version_result(highest) is Ok,
        release_version_result(version) is Ok,
    ensures
        ({
            let h = release_version_result(highest)->Ok_0;
            let c = release_version_result(version)->Ok_0;
            (h.major < c.major || (h.major == c.major && (h.minor < c.minor || (h.minor == c.minor
                && h.patch < c.patch)))) ==> {
                &&& rollback_check(Some(highest), version) is Ok
                &&& record_result(Some(highest), version) == Ok::<bool, Seq<char>>(true)
                &&& recorded_highest(Some(highest), version) == Some(version)
            }
        }),
        ({
            let h = release_version_result(highest)->Ok_0;
            let c = release_version_result(version)->Ok_0;
            (c.major < h.major || (c.major == h.major && (c.minor < h.minor || (c.minor == h.minor
                && c.patch < h.patch)))) ==> {
                &&& rollback_check(Some(highest), version) is Err
                &&& record_result(Some(highest), version) == Ok::<bool, Seq<char>>(false)
                &&& recorded_highest(Some(highest), version) == Some(highest)
            }
        }),
{
    let h = release_version_result(highest)->Ok_0;
    let c = release_version_result(version)->Ok_0;
    lemma_release_order_is_lexicographic(h, c);
    lemma_release_order_is_lexicographic(c, h);
}

impl UpdateTrustState {
    pub open spec fn notified_view(&self) -> Seq<Seq<char>> {
        crate::codex_probe::string_views(self.notified_versions@)
    }

    pub open spec fn highest_view(&self) -> Option<Seq<char>> {
        opt_text(self.highest_trusted_version)
    }

    /// Nothing notified and nothing verified yet.
    pub fn new() -> (r: UpdateTrustState)
        ensures
            r.notified_view() == Seq::<Seq<char>>::empty(),
            r.highest_view() is None,
    {
        let r = UpdateTrustState { notified_versions: Vec::new(), highest_trusted_version: None };
        proof {
            assert(r.notified_view() =~= Seq::<Seq<char>>::empty());
        }
        r
    }

    /// Whether the ready notice for `version` was already handled.
    pub fn was_version_notified(&self, version: &str) -> (r: bool)
        ensures
            r == self.notified_view().contains(version@),
    {
        let mut i: usize = 0;
        while i < self.notified_versions.len()
            invariant
                i <= self.notified_versions@.len(),
                forall|j: int| 0 <= j < i ==> (#[trigger] self.notified_versions@[j])@ != version@,
            decreases self.notified_versions.len() - i,
        {
            if self.notified_versions[i] == version.to_string() {
                proof {
                    assert(self.notified_view()[i as int] == version@);
                }
                return true;
            }
            i += 1;
        }
        proof {
            if self.notified_view().contains(version@) {
                let k = choose|k: int| 0 <= k < self.notified_view().len() && self.notified_view()[k]
                    == version@;
                assert(self.notified_versions@[k]@ == version@);
            }
        }
        false
    }

    /// Records that the ready notice for `version` was handled.
    pub fn mark_notified(&mut self, version: &str)
        ensures
            final(self).notified_view() == marked_versions(old(self).notified_view(), version@),
            final(self).highest_view() == old(self).highest_view(),
    {
        let ghost list = old(self).notified_view();
        if !self.was_version_notified(version) {
            self.notified_versions.push(version.to_string());
            proof {
                assert(self.notified_view() =~= list.push(version@));
            }
        }
        let ghost pushed = self.notified_view();
        let len = self.notified_versions.len();
        if len > MAX_NOTIFIED_VERSIONS {
            let excess = len - MAX_NOTIFIED_VERSIONS;
            let mut kept: Vec<String> = Vec::new();
            let mut i = excess;
            while i < len
                invariant
                    excess <= i <= len,
                    len == self.notified_versions@.len(),
                    pushed == self.notified_view(),
                    crate::codex_probe::string_views(kept@) == pushed.subrange(excess as int, i as int),
                decreases len - i,
            {
                let item = self.notified_versions[i].clone();
                proof {
                    assert(item@ == pushed[i as int]);
                }
                let ghost before = kept@;
                kept.push(item);
                proof {
                    assert(kept@ == before.push(item));
                    assert(crate::codex_probe::string_views(kept@) =~= crate::codex_probe::string_views(
                        before,
                    ).push(item@));
                    assert(crate::codex_probe::string_views(kept@) =~= pushed.subrange(
                        excess as int,
                        i as int + 1,
                    ));
                }
                i += 1;
            }
            self.notified_versions = kept;
            proof {
                assert(self.notified_view() =~= pushed.skip(pushed.len() - MAX_NOTIFIED_VERSIONS));
            }
        }
    }

    /// Refuses `version` when it is below the highest verified version
    /// (`reject_trusted_version_rollback`).
    pub fn check_not_rollback(&self, version: &str) -> (r: Result<(), String>)
        ensures
            text_result(r) == rollback_check(self.highest_view(), version@),
    {
        let candidate = match parse_numeric_release_version(version) {
            Ok(v) => v,
            Err(e) => return Err(e),
        };
        match &self.highest_trusted_version {
            None => Ok(()),
            Some(highest) => {
                let highest_version = match parse_numeric_release_version(highest.as_str()) {
                    Ok(v) => v,
                    Err(e) => return Err(e),
                };
                if candidate.is_before(&highest_version) {
                    let mut t = chars_of("更新清单版本 v");
                    extend_chars(&mut t, &chars_of(version));
                    extend_chars(&mut t, &chars_of(" 低于本机已验证的 v"));
                    extend_chars(&mut t, &chars_of(highest.as_str()));
                    extend_chars(&mut t, &chars_of("，已拒绝覆盖。"));
                    Err(string_of(&t))
                } else {
                    Ok(())
                }
            },
        }
    }

    /// Raises the highest verified version to `version` when it is higher;
    /// says whether the record changed (and so must be saved).
    pub fn record_highest_trusted_version(&mut self, version: &str) -> (r: Result<bool, String>)
        ensures
            text_result(r) == record_result(old(self).highest_view(), version@),
            final(self).highest_view() == recorded_highest(old(self).highest_view(), version@),
            final(self).notified_view() == old(self).notified_view(),
    {
        let candidate = match parse_numeric_release_version(version) {
            Ok(v) => v,
            Err(e) => return Err(e),
        };
        let should_update = match &self.highest_trusted_version {
            Some(highest) => match parse_numeric_release_version(highest.as_str()) {
                Ok(highest_version) => highest_version.is_before(&candidate),
                Err(e) => return Err(e),
            },
            None => true,
        };
        if should_update {
            self.highest_trusted_version = Some(version.to_string());
        }
        Ok(should_update)
    }
}

/// Once a version is recorded as verified, every release that reads below it
/// is refused: the highest verified version never moves down.
pub proof fn lemma_recorded_version_refuses_older(
    highest: Option<Seq<char>>,
    version: Seq<char>,
    older: Seq<char>,
)
    requires
        record_result(highest, version) is Ok,
        release_version_result(older) is Ok,
        version_before(release_version_result(older)->Ok_0, release_version_result(version)->Ok_0),
    ensures
        rollback_check(recorded_highest(highest, version), older) is Err,
{
}

/// Marking a version leaves it marked and keeps the list within its bound.
pub proof fn lemma_marked_versions_bounded(list: Seq<Seq<char>>, version: Seq<char>)
    requires
        list.len() <= MAX_NOTIFIED_VERSIONS,
    ensures
        marked_versions(list, version).contains(version),
        marked_versions(list, version).len() <= MAX_NOTIFIED_VERSIONS,
{
    let pushed = if list.contains(version) {
        list
    } else {
        list.push(version)
    };
    if list.contains(version) {
        let k = choose|k: int| 0 <= k < list.len() && list[k] == version;
        assert(marked_versions(list, version)[k] == version);
    } else {
        assert(pushed[pushed.len() - 1] == version);
        if pushed.len() > MAX_NOTIFIED_VERSIONS {
            let kept = pushed.skip(pushed.len() - MAX_NOTIFIED_VERSIONS);
            assert(kept[kept.len() - 1] == version);
        } else {
            assert(marked_versions(list, version)[pushed.len() - 1] == version);
        }
    }
}

// ---------------------------------------------------------------------------
// Download progress
// ---------------------------------------------------------------------------

/// The bytes received so far and the last percentage reported.
pub struct DownloadProgress {
    downloaded_bytes: u64,
    last_reported_percent: u8,
}

/// `a + b`, held at `u64::MAX`.
pub open spec fn saturating_sum(a: u64, b: u64) -> u64 {
    if a + b > u64::MAX {
        u64::MAX
    } else {
        (a + b) as u64
    }
}

/// The whole percentage of `total` that `downloaded` is, at most 100, the
/// product held at `u64::MAX` as the original arithmetic does.
pub open spec fn progress_percent(downloaded: u64, total: u64) -> u8 {
    let scaled = if downloaded * 100 > u64::MAX {
        u64::MAX as int
    } else {
        downloaded * 100
    };
    if scaled / (total as int) > 100 {
        100
    } else {
        (scaled / (total as int)) as u8
    }
}

impl DownloadProgress {
    #[verifier::type_invariant]
    spec fn reported_within_range(&self) -> bool {
        self.last_reported_percent <= 100
    }

    pub closed spec fn downloaded(&self) -> u64 {
        self.downloaded_bytes
    }

    pub closed spec fn last_reported(&self) -> u8 {
        self.last_reported_percent
    }

    /// Nothing received and nothing reported.
    pub fn new() -> (r: DownloadProgress)
        ensures
            r.downloaded() == 0,
            r.last_reported() == 0,
    {
        DownloadProgress { downloaded_bytes: 0, last_reported_percent: 0 }
    }

    /// Counts a received chunk; returns the percentage to report, when the
    /// total is known and the download is complete or has moved on by at least
    /// five points since the last report.
    pub fn record_chunk(&mut self, chunk_length: u64, total_length: Option<u64>) -> (r: Option<u8>)
        ensures
            final(self).downloaded() == saturating_sum(old(self).downloaded(), chunk_length),
            ({
                let downloaded = final(self).downloaded();
                let last = old(self).last_reported();
                match total_length {
                    Some(total) if total > 0 => {
                        let percent = progress_percent(downloaded, total);
                        if percent == 100 || percent >= last + 5 {
                            r == Some(percent) && final(self).last_reported() == percent
                        } else {
                            r is None && final(self).last_reported() == last
                        }
                    },
                    _ => r is None && final(self).last_reported() == last,
                }
            }),
            r matches Some(p) ==> old(self).last_reported() <= p <= 100,
    {
        proof {
            use_type_invariant(&*self);
        }
        let downloaded = if self.downloaded_bytes > u64::MAX - chunk_length {
            u64::MAX
        } else {
            self.downloaded_bytes + chunk_length
        };
        self.downloaded_bytes = downloaded;
        let total: u64 = match total_length {
            Some(total) => total,
            None => 0,
        };
        if total == 0 {
            return None;
        }
        let scaled = if downloaded > u64::MAX / 100 {
            u64::MAX
        } else {
            downloaded * 100
        };
        proof {
            assert(downloaded > u64::MAX / 100 <==> downloaded * 100 > u64::MAX) by (nonlinear_arith);
        }
        let ratio = scaled / total;
        let percent: u8 = if ratio > 100 {
            100
        } else {
            ratio as u8
        };
        let threshold: u8 = if self.last_reported_percent > 250 {
            255
        } else {
            self.last_reported_percent + 5
        };
        if percent == 100 || percent >= threshold {
            self.last_reported_percent = percent;
            Some(percent)
        } else {
            None
        }
    }
}

// ---------------------------------------------------------------------------
// Cache file framing
// ---------------------------------------------------------------------------

/// The marker at the start of a cache file: `QuotaDockUpdateCacheV1` and a
/// zero byte.
pub open spec fn cache_magic() -> Seq<u8> {
    seq![
        81u8, 117u8, 111u8, 116u8, 97u8, 68u8, 111u8, 99u8, 107u8, 85u8, 112u8, 100u8, 97u8,
        116u8, 101u8, 67u8, 97u8, 99u8, 104u8, 101u8, 86u8, 49u8, 0u8,
    ]
}

pub fn update_cache_magic() -> (r: Vec<u8>)
    ensures
        r@ == cache_magic(),
{
    let r = vec![
        81u8, 117u8, 111u8, 116u8, 97u8, 68u8, 111u8, 99u8, 107u8, 85u8, 112u8, 100u8, 97u8,
        116u8, 101u8, 67u8, 97u8, 99u8, 104u8, 101u8, 86u8, 49u8, 0u8,
    ];
    proof {
        assert(r@ =~= cache_magic());
    }
    r
}

/// The header length: the marker and a four-byte length.
pub open spec fn cache_header_len() -> int {
    27
}

/// A 32-bit length as four little-endian bytes.
pub open spec fn le32_bytes(n: u32) -> Seq<u8> {
    seq![(n & 0xff) as u8, ((n >> 8u32) & 0xff) as u8, ((n >> 16u32) & 0xff) as u8, ((n >> 24u32)
        & 0xff) as u8]
}

/// The 32-bit value of four little-endian bytes.
pub open spec fn le32_value(b0: u8, b1: u8, b2: u8, b3: u8) -> u32 {
    (b0 as u32) | ((b1 as u32) << 8u32) | ((b2 as u32) << 16u32) | ((b3 as u32) << 24u32)
}

pub proof fn lemma_le32_round_trip(n: u32)
    ensures
        le32_value(le32_bytes(n)[0], le32_bytes(n)[1], le32_bytes(n)[2], le32_bytes(n)[3]) == n,
{
    let b0 = (n & 0xff) as u8;
    let b1 = ((n >> 8u32) & 0xff) as u8;
    let b2 = ((n >> 16u32) & 0xff) as u8;
    let b3 = ((n >> 24u32) & 0xff) as u8;
    assert((b0 as u32) | ((b1 as u32) << 8u32) | ((b2 as u32) << 16u32) | ((b3 as u32) << 24u32)
        == n) by (bit_vector)
        requires
            b0 == (n & 0xff) as u8,
            b1 == ((n >> 8u32) & 0xff) as u8,
            b2 == ((n >> 16u32) & 0xff) as u8,
            b3 == ((n >> 24u32) & 0xff) as u8,
    ;
}

/// A cache file: the marker, the metadata's length, the metadata, the package.
pub open spec fn framed_cache(metadata: Seq<u8>, package: Seq<u8>) -> Seq<u8> {
    cache_magic() + le32_bytes(metadata.len() as u32) + metadata + package
}

/// Writing a cache: refused for an empty or oversized package, or oversized
/// metadata.
pub open spec fn frame_result(metadata: Seq<u8>, package: Seq<u8>) -> Result<Seq<u8>, Seq<char>> {
    if package.len() == 0 || package.len() > MAX_CACHE_PACKAGE_BYTES {
        Err("已验证的更新包大小超出安全缓存限制。"@)
    } else if metadata.len() > MAX_CACHE_METADATA_BYTES {
        Err("更新缓存元数据超过允许大小。"@)
    } else {
        Ok(framed_cache(metadata, package))
    }
}

/// Reading a cache: the marker, a metadata length within bounds and complete
/// metadata; the rest is the package.
pub open spec fn split_result(cache: Seq<u8>) -> Result<(Seq<u8>, Seq<u8>), Seq<char>> {
    if cache.len() < cache_header_len() || cache.take(23) != cache_magic() {
        Err("更新缓存格式无效。"@)
    } else {
        let n = le32_value(cache[23], cache[24], cache[25], cache[26]);
        if n == 0 || n > MAX_CACHE_METADATA_BYTES {
            Err("更新缓存元数据长度超出限制。"@)
        } else if cache_header_len() + n > cache.len() {
            Err("更新缓存元数据不完整。"@)
        } else {
            Ok((cache.subrange(27, 27 + n), cache.skip(27 + n)))
        }
    }
}

pub open spec fn bytes_result(r: Result<Vec<u8>, String>) -> Result<Seq<u8>, Seq<char>> {
    match r {
        Ok(v) => Ok(v@),
        Err(e) => Err(e@),
    }
}

pub open spec fn pair_result(r: Result<(Vec<u8>, Vec<u8>), String>) -> Result<(Seq<u8>, Seq<u8>), Seq<char>> {
    match r {
        Ok((a, b)) => Ok((a@, b@)),
        Err(e) => Err(e@),
    }
}

/// Appends a copy of `extra` to `v`.
fn extend_bytes(v: &mut Vec<u8>, extra: &[u8])
    ensures
        final(v)@ == old(v)@ + extra@,
{
    let mut i: usize = 0;
    while i < extra.len()
        invariant
            i <= extra.len(),
            v@ == old(v)@ + extra@.take(i as int),
        decreases extra.len() - i,
    {
        v.push(extra[i]);
        proof {
            assert(extra@.take(i as int + 1) == extra@.take(i as int).push(extra@[i as int]));
        }
        i += 1;
    }
    proof {
        assert(extra@.take(extra.len() as int) == extra@);
    }
}

/// A copy of `s[from..to]`.
fn copy_bytes(s: &[u8], from: usize, to: usize) -> (r: Vec<u8>)
    requires
        from <= to <= s@.len(),
    ensures
        r@ == s@.subrange(from as int, to as int),
{
    let mut r: Vec<u8> = Vec::new();
    let mut i = from;
    while i < to
        invariant
            from <= i <= to,
            to <= s@.len(),
            r@ == s@.subrange(from as int, i as int),
        decreases to - i,
    {
        r.push(s[i]);
        proof {
            assert(s@.subrange(from as int, i as int + 1) == s@.subrange(from as int, i as int).push(
                s@[i as int],
            ));
        }
        i += 1;
    }
    r
}

/// The bytes of a cache file holding the encoded metadata and the package.
pub fn frame_update_cache(metadata_json: &[u8], package: &[u8]) -> (r: Result<Vec<u8>, String>)
    ensures
        bytes_result(r) == frame_result(metadata_json@, package@),
{
    if package.len() == 0 || package.len() as u64 > MAX_CACHE_PACKAGE_BYTES {
        return Err("已验证的更新包大小超出安全缓存限制。".to_string());
    }
    if metadata_json.len() as u64 > MAX_CACHE_METADATA_BYTES {
        return Err("更新缓存元数据超过允许大小。".to_string());
    }
    let n = metadata_json.len() as u32;
    let mut out = update_cache_magic();
    out.push((n & 0xff) as u8);
    out.push(((n >> 8u32) & 0xff) as u8);
    out.push(((n >> 16u32) & 0xff) as u8);
    out.push(((n >> 24u32) & 0xff) as u8);
    proof {
        assert(out@ =~= cache_magic() + le32_bytes(metadata_json@.len() as u32));
    }
    extend_bytes(&mut out, metadata_json);
    extend_bytes(&mut out, package);
    Ok(out)
}

/// The metadata and package of a cache file, after its framing is checked.
pub fn split_update_cache(cache: &[u8]) -> (r: Result<(Vec<u8>, Vec<u8>), String>)
    ensures
        pair_result(r) == split_result(cache@),
{
    if cache.len() < 27 {
        return Err("更新缓存格式无效。".to_string());
    }
    let magic = update_cache_magic();
    let mut i: usize = 0;
    while i < 23
        invariant
            i <= 23,
            cache@.len() >= 27,
            magic@ == cache_magic(),
            forall|j: int| 0 <= j < i ==> cache@[j] == cache_magic()[j],
        decreases 23 - i,
    {
        if cache[i] != magic[i] {
            proof {
                assert(cache@.take(23)[i as int] != cache_magic()[i as int]);
            }
            return Err("更新缓存格式无效。".to_string());
        }
        i += 1;
    }
    proof {
        assert(cache@.take(23) =~= cache_magic());
    }
    let n: u32 = (cache[23] as u32) | ((cache[24] as u32) << 8u32) | ((cache[25] as u32) << 16u32)
        | ((cache[26] as u32) << 24u32);
    if n == 0 || n as u64 > MAX_CACHE_METADATA_BYTES {
        return Err("更新缓存元数据长度超出限制。".to_string());
    }
    let end = 27 + n as usize;
    if end > cache.len() {
        return Err("更新缓存元数据不完整。".to_string());
    }
    let metadata = copy_bytes(cache, 27, end);
    let package = copy_bytes(cache, end, cache.len());
    proof {
        assert(cache@.subrange(end as int, cache@.len() as int) =~= cache@.skip(end as int));
    }
    Ok((metadata, package))
}

/// The package taken from a cache file must be non-empty and within the limit.
pub fn check_cached_package(package: &[u8]) -> (r: Result<(), String>)
    ensures
        text_result(r) == if package@.len() == 0 {
            Err("更新缓存包为空。"@)
        } else if package@.len() > MAX_CACHE_PACKAGE_BYTES {
            Err("更新缓存包超过允许大小。"@)
        } else {
            Ok(())
        },
{
    if package.len() == 0 {
        return Err("更新缓存包为空。".to_string());
    }
    if package.len() as u64 > MAX_CACHE_PACKAGE_BYTES {
        return Err("更新缓存包超过允许大小。".to_string());
    }
    Ok(())
}

/// Reading back what was written gives the same metadata and package, for
/// every write that succeeds with non-empty metadata.
pub proof fn lemma_cache_round_trip(metadata: Seq<u8>, package: Seq<u8>)
    requires
        frame_result(metadata, package) is Ok,
        metadata.len() > 0,
    ensures
        split_result(frame_result(metadata, package)->Ok_0) == Ok::<(Seq<u8>, Seq<u8>), Seq<char>>(
            (metadata, package),
        ),
{
    let framed = framed_cache(metadata, package);
    let n = metadata.len() as u32;
    lemma_le32_round_trip(n);
    assert(framed.take(23) =~= cache_magic());
    assert(framed[23] == le32_bytes(n)[0]);
    assert(framed[24] == le32_bytes(n)[1]);
    assert(framed[25] == le32_bytes(n)[2]);
    assert(framed[26] == le32_bytes(n)[3]);
    assert(framed.subrange(27, 27 + metadata.len() as int) =~= metadata);
    assert(framed.skip(27 + metadata.len() as int) =~= package);
}

// ---------------------------------------------------------------------------
// Release signatures
// ---------------------------------------------------------------------------

#[verifier::external_type_specification]
#[verifier::external_body]
pub struct ExMinisignPublicKey(minisign_verify::PublicKey);

#[verifier::external_type_specification]
#[verifier::external_body]
pub struct ExMinisignSignature(minisign_verify::Signature);

/// What decoding `value` as standard padded base64 gives: the bytes, or the
/// text of the decoding error.
pub uninterp spec fn base64_standard_decode_result(value: Seq<char>) -> Result<Seq<u8>, Seq<char>>;

/// What reading `bytes` as UTF-8 gives: the text, or the text of the error.
pub uninterp spec fn utf8_decode_result(bytes: Seq<u8>) -> Result<Seq<char>, Seq<char>>;

/// Whether a minisign public key in the `minisign.pub` form fails to read, and
/// the text of the error when it does.
pub uninterp spec fn public_key_decode_error(text: Seq<char>) -> Option<Seq<char>>;

/// Whether a minisign signature file fails to read, and the text of the error
/// when it does.
pub uninterp spec fn signature_decode_error(text: Seq<char>) -> Option<Seq<char>>;

pub open spec fn bytes_or_text(r: Result<Vec<u8>, String>) -> Result<Seq<u8>, Seq<char>> {
    match r {
        Ok(v) => Ok(v@),
        Err(e) => Err(e@),
    }
}

pub open spec fn string_or_text(r: Result<String, String>) -> Result<Seq<char>, Seq<char>> {
    match r {
        Ok(v) => Ok(v@),
        Err(e) => Err(e@),
    }
}

/// `Engine::decode` of the `base64` crate with its `STANDARD` engine (the
/// standard alphabet, padding required); an error is given as its text.
#[verifier::external_body]
fn base64_standard_decode(value: &str) -> (r: Result<Vec<u8>, String>)
    ensures
        bytes_or_text(r) == base64_standard_decode_result(value@),
{
    match base64::Engine::decode(&base64::engine::general_purpose::STANDARD, value) {
        Ok(bytes) => Ok(bytes),
        Err(error) => Err(error.to_string()),
    }
}

/// `String::from_utf8`: the bytes as text when they are valid UTF-8; an error
/// is given as its text.
#[verifier::external_body]
fn utf8_text(bytes: Vec<u8>) -> (r: Result<String, String>)
    ensures
        string_or_text(r) == utf8_decode_result(bytes@),
{
    match String::from_utf8(bytes) {
        Ok(text) => Ok(text),
        Err(error) => Err(error.to_string()),
    }
}

/// `PublicKey::decode` of `minisign-verify`: a public key read from its
/// `minisign.pub` form (a comment line, then the base64 key); an error is
/// given as its text.
#[verifier::external_body]
fn decode_public_key(text: &str) -> (r: Result<minisign_verify::PublicKey, String>)
    ensures
        match r {
            Ok(_) => public_key_decode_error(text@) is None,
            Err(e) => public_key_decode_error(text@) == Some(e@),
        },
{
    match minisign_verify::PublicKey::decode(text) {
        Ok(key) => Ok(key),
        Err(error) => Err(error.to_string()),
    }
}

/// `Signature::decode` of `minisign-verify`: a signature read from its file
/// form (comments and base64 lines); an error is given as its text.
#[verifier::external_body]
fn decode_signature(text: &str) -> (r: Result<minisign_verify::Signature, String>)
    ensures
        match r {
            Ok(_) => signature_decode_error(text@) is None,
            Err(e) => signature_decode_error(text@) == Some(e@),
        },
{
    match minisign_verify::Signature::decode(text) {
        Ok(signature) => Ok(signature),
        Err(error) => Err(error.to_string()),
    }
}

/// What `PublicKey::verify` of `minisign-verify` gives for the key read from
/// `key_text`, the signature read from `signature_text`, `data` and
/// `allow_legacy`: success, or the text of its error.
pub uninterp spec fn minisign_verify_result(
    key_text: Seq<char>,
    data: Seq<u8>,
    signature_text: Seq<char>,
    allow_legacy: bool,
) -> Result<(), Seq<char>>;

/// `PublicKey::verify` of `minisign-verify`: whether the signature read from
/// `signature_text` signs `data` under the key read from `key_text`; an error
/// is given as its text. The key and signature are read from their texts
/// (`PublicKey::decode`, `Signature::decode`) to hand them to the call; both
/// texts are known to read.
#[verifier::external_body]
fn verify_signature(key_text: &str, data: &[u8], signature_text: &str, allow_legacy: bool) -> (r:
    Result<(), String>)
    requires
        public_key_decode_error(key_text@) is None,
        signature_decode_error(signature_text@) is None,
    ensures
        text_result(r) == minisign_verify_result(key_text@, data@, signature_text@, allow_legacy),
{
    match (minisign_verify::PublicKey::decode(key_text), minisign_verify::Signature::decode(signature_text)) {
        (Ok(key), Ok(signature)) => key.verify(data, &signature, allow_legacy).map_err(|e| e.to_string()),
        (Err(error), _) | (_, Err(error)) => Err(error.to_string()),
    }
}

/// Base64 that decodes to UTF-8 text; the errors name what was decoded.
pub open spec fn base64_text_result(value: Seq<char>, label: Seq<char>) -> Result<Seq<char>, Seq<char>> {
    match base64_standard_decode_result(value) {
        Err(e) => Err("解码"@ + label + "失败："@ + e),
        Ok(bytes) => match utf8_decode_result(bytes) {
            Err(e) => Err(label + "不是有效文本："@ + e),
            Ok(text) => Ok(text),
        },
    }
}

pub fn decode_base64_text(value: &str, label: &str) -> (r: Result<String, String>)
    ensures
        string_or_text(r) == base64_text_result(value@, label@),
{
    let decoded = match base64_standard_decode(value) {
        Ok(bytes) => bytes,
        Err(e) => {
            let mut t = chars_of("解码");
            extend_chars(&mut t, &chars_of(label));
            extend_chars(&mut t, &chars_of("失败："));
            extend_chars(&mut t, &chars_of(e.as_str()));
            return Err(string_of(&t));
        },
    };
    match utf8_text(decoded) {
        Ok(text) => Ok(text),
        Err(e) => Err(text3(label, "不是有效文本：", e.as_str())),
    }
}

/// The outcome of checking a package against its signature: reading the
/// base64 key, the key, the base64 signature and the signature, in that order,
/// each failure given with what failed; then the verification itself, which
/// accepts prehashed and legacy signatures.
pub open spec fn signature_outcome(data: Seq<u8>, signature: Seq<char>, public_key: Seq<char>) -> Result<
    (),
    Seq<char>,
> {
    match base64_text_result(public_key, "更新公钥"@) {
        Err(e) => Err(e),
        Ok(key_text) => match public_key_decode_error(key_text) {
            Some(e) => Err("解析更新公钥失败："@ + e),
            None => match base64_text_result(signature, "更新签名"@) {
                Err(e) => Err(e),
                Ok(signature_text) => match signature_decode_error(signature_text) {
                    Some(e) => Err("解析更新签名失败："@ + e),
                    None => match minisign_verify_result(key_text, data, signature_text, true) {
                        Ok(()) => Ok(()),
                        Err(t) => Err("更新缓存签名验证失败："@ + t),
                    },
                },
            },
        },
    }
}

/// Checks a package against its base64-wrapped minisign signature and the
/// base64-wrapped public key, accepting prehashed and legacy signatures.
pub fn verify_package_signature(data: &[u8], signature: &str, public_key: &str) -> (r: Result<
    (),
    String,
>)
    ensures
        text_result(r) == signature_outcome(data@, signature@, public_key@),
{
    proof {
        reveal_strlit("");
    }
    let key_text = match decode_base64_text(public_key, "更新公钥") {
        Ok(t) => t,
        Err(e) => return Err(e),
    };
    match decode_public_key(key_text.as_str()) {
        Ok(_) => {},
        Err(e) => return Err(text3("解析更新公钥失败：", e.as_str(), "")),
    };
    let signature_text = match decode_base64_text(signature, "更新签名") {
        Ok(t) => t,
        Err(e) => return Err(e),
    };
    match decode_signature(signature_text.as_str()) {
        Ok(_) => {},
        Err(e) => return Err(text3("解析更新签名失败：", e.as_str(), "")),
    };
    match verify_signature(key_text.as_str(), data, signature_text.as_str(), true) {
        Ok(()) => Ok(()),
        Err(e) => {
            let message = text3("更新缓存签名验证失败：", e.as_str(), "");
            proof {
                assert(message@ == "更新缓存签名验证失败："@ + e@);
            }
            Err(message)
        },
    }
}

/// What reading an installer's embedded product version gave.
#[derive(Debug)]
pub enum InstallerVersionReading {
    /// The platform offers no such reading (only Windows does).
    NotOffered,
    /// The reading failed; the message says how.
    Failed(String),
    /// The two words of the installer's fixed version information.
    Words(u32, u32),
}

/// The outcome of checking an installer's embedded product version against
/// the release version it must carry, from what reading it gave.
pub open spec fn installer_version_outcome(reading: InstallerVersionReading, expected: Seq<char>) -> Result<
    (),
    Seq<char>,
> {
    match release_version_result(expected) {
        Err(e) => Err(e),
        Ok(_) => match reading {
            InstallerVersionReading::NotOffered => Ok(()),
            InstallerVersionReading::Failed(m) => Err(m@),
            InstallerVersionReading::Words(ms, ls) => product_version_outcome(ms, ls, expected),
        },
    }
}

/// Checks an installer's embedded product version against the release it
/// claims to be: the expected version must be a release version; then the
/// version is read from `data` by `read_version` and its three parts must match
/// with a zero fourth part. A reading the platform does not offer passes; a
/// failed reading fails with its message.
pub fn verify_installer_product_version<F: Fn(&[u8]) -> InstallerVersionReading>(
    data: &[u8],
    expected_version: &str,
    read_version: &F,
) -> (r: Result<(), String>)
    requires
        forall|bytes: &[u8]| #[trigger] read_version.requires((bytes,)),
    ensures
        release_version_result(expected_version@) matches Err(e) ==> text_result(r) == Err::<
            (),
            Seq<char>,
        >(e),
        release_version_result(expected_version@) is Ok ==> exists|reading: InstallerVersionReading|
            #[trigger] read_version.ensures((data,), reading) && text_result(r)
                == installer_version_outcome(reading, expected_version@),
{
    match parse_numeric_release_version(expected_version) {
        Ok(_) => {},
        Err(e) => return Err(e),
    }
    let reading = read_version(data);
    let ghost seen = reading;
    let r = match reading {
        InstallerVersionReading::NotOffered => Ok(()),
        InstallerVersionReading::Failed(message) => Err(message),
        InstallerVersionReading::Words(ms, ls) => check_installer_product_version(
            ms,
            ls,
            expected_version,
        ),
    };
    proof {
        assert(read_version.ensures((data,), seen));
        assert(text_result(r) == installer_version_outcome(seen, expected_version@));
    }
    r
}

/// Checks a package's signature and then, only once the signature holds, the
/// product version embedded in the installer, read by `read_version`.
pub fn verify_package_identity<F: Fn(&[u8]) -> InstallerVersionReading>(
    data: &[u8],
    signature: &str,
    public_key: &str,
    expected_version: &str,
    read_version: &F,
) -> (r: Result<(), String>)
    requires
        forall|bytes: &[u8]| #[trigger] read_version.requires((bytes,)),
    ensures
        signature_outcome(data@, signature@, public_key@) matches Err(e) ==> text_result(r) == Err::<
            (),
            Seq<char>,
        >(e),
        signature_outcome(data@, signature@, public_key@) is Ok ==> match release_version_result(
            expected_version@,
        ) {
            Err(e) => text_result(r) == Err::<(), Seq<char>>(e),
            Ok(_) => exists|reading: InstallerVersionReading|
                #[trigger] read_version.ensures((data,), reading) && text_result(r)
                    == installer_version_outcome(reading, expected_version@),
        },
{
    match verify_package_signature(data, signature, public_key) {
        Ok(()) => {},
        Err(e) => return Err(e),
    }
    verify_installer_product_version(data, expected_version, read_version)
}

// ---------------------------------------------------------------------------
// The course of one update check
// ---------------------------------------------------------------------------

/// Where one check for updates stands.
#[derive(Debug)]
pub enum UpdateCheckState {
    /// Waiting for leave to run: only one check runs at a time.
    Waiting,
    /// Building the signed updater.
    Building,
    /// Asking for the signed manifest.
    Checking,
    /// The release with this version is offered; it is held against the
    /// highest verified version.
    RollbackCheck(String),
    /// Looking whether the update already prepared is this release.
    PreparedCheck(String),
    /// Looking for this release in the verified-package cache.
    CacheCheck(String),
    /// Recording the cached release as the highest verified version.
    RecordingCached(String),
    /// Downloading the release.
    Downloading(String),
    /// Checking the downloaded package's signature and product version.
    Verifying(String),
    /// Recording the downloaded release as the highest verified version.
    RecordingDownloaded(String),
    /// Saving the verified package to the cache.
    Saving(String),
    /// Another check was under way; the status shown stays.
    Skipped,
    /// There is no newer release.
    UpToDate,
    /// The release with this version is ready to install.
    Ready(String),
    /// The check failed.
    Failed(UpdateFailure),
}

/// Why saving a verified package to the cache failed.
#[derive(Debug)]
pub enum CacheSaveFailure {
    /// The cache's place could not be found.
    Location(String),
    /// The file could not be written.
    Write(String),
}

/// What the outside work of a check answered.
#[derive(Debug)]
pub enum UpdateCheckEvent {
    /// Whether the check may run.
    Permit(bool),
    UpdaterBuilt(Result<(), String>),
    /// The version offered by the manifest, none when there is no newer one.
    Checked(Result<Option<String>, String>),
    RollbackChecked(Result<(), String>),
    PreparedMatches(bool),
    /// Whether the cache holds a verified package of the release.
    CacheLoaded(Result<bool, String>),
    VersionRecorded(Result<(), String>),
    Downloaded(Result<(), String>),
    /// The package's identity: the public key, the signature and the product version.
    PackageVerified(Result<(), String>),
    CacheSaved(Result<(), CacheSaveFailure>),
}

/// The outside work a step of the check asks for.
#[derive(Debug, Clone, Copy, PartialEq, Eq, Structural)]
pub enum UpdateCheckEffect {
    /// Nothing: the answer was not awaited.
    Ignore,
    /// Report the status shown now.
    ReportCurrent,
    /// Show "checking" and build the updater.
    ShowCheckingAndBuild,
    /// Ask the updater for the manifest.
    Check,
    /// Forget the prepared update and the cache, and show "up to date".
    ClearAndShowUpToDate,
    /// Hold the offered version against the trust record.
    CheckRollback,
    /// Compare the prepared update with the offered release.
    MatchPrepared,
    /// Show the release as ready and announce it once.
    ShowReady,
    /// Read the verified-package cache for the release.
    LoadCache,
    /// Forget the prepared update and record the release as the highest verified.
    ClearPreparedAndRecord,
    /// Prepare the cached package, show the release as ready and announce it once.
    PrepareCachedAndShowReady,
    /// Discard the unusable cache, show "downloading" and download.
    DiscardCacheAndDownload,
    /// Show "downloading" and download.
    ShowDownloadingAndDownload,
    /// Check the downloaded package's identity.
    VerifyPackage,
    /// Save the verified package to the cache.
    SaveCache,
    /// Prepare the downloaded package, show the release as ready and announce it once.
    PrepareDownloadedAndShowReady,
    /// Show the failure.
    ShowFailure,
}

/// `state` is the failure with this message and detail.
pub open spec fn failed_with(state: UpdateCheckState, message: Seq<char>, detail: Seq<char>) -> bool {
    state matches UpdateCheckState::Failed(f) && f.message@ == message && f.technical_detail@ == detail
}

/// One step of a check: from where it stands and what the last outside work
/// answered, where it stands next and what it asks for. A verified cached
/// package or a verified download is only ready once its version is recorded
/// as the highest verified; every failure names what failed.
pub open spec fn update_check_step_holds(
    state: UpdateCheckState,
    event: UpdateCheckEvent,
    next: UpdateCheckState,
    effect: UpdateCheckEffect,
) -> bool {
    match (state, event) {
        (UpdateCheckState::Waiting, UpdateCheckEvent::Permit(true)) => next
            == UpdateCheckState::Building && effect == UpdateCheckEffect::ShowCheckingAndBuild,
        (UpdateCheckState::Waiting, UpdateCheckEvent::Permit(false)) => next
            == UpdateCheckState::Skipped && effect == UpdateCheckEffect::ReportCurrent,
        (UpdateCheckState::Building, UpdateCheckEvent::UpdaterBuilt(Ok(()))) => next
            == UpdateCheckState::Checking && effect == UpdateCheckEffect::Check,
        (UpdateCheckState::Building, UpdateCheckEvent::UpdaterBuilt(Err(e))) => failed_with(
            next,
            "更新服务初始化失败，请稍后重试。"@,
            "初始化签名更新器失败："@ + e@,
        ) && effect == UpdateCheckEffect::ShowFailure,
        (UpdateCheckState::Checking, UpdateCheckEvent::Checked(Ok(None))) => next
            == UpdateCheckState::UpToDate && effect == UpdateCheckEffect::ClearAndShowUpToDate,
        (UpdateCheckState::Checking, UpdateCheckEvent::Checked(Ok(Some(v)))) => next
            == UpdateCheckState::RollbackCheck(v) && effect == UpdateCheckEffect::CheckRollback,
        (UpdateCheckState::Checking, UpdateCheckEvent::Checked(Err(e))) => failed_with(
            next,
            request_failure_message(e@),
            request_failure_detail(e@),
        ) && effect == UpdateCheckEffect::ShowFailure,
        (UpdateCheckState::RollbackCheck(v), UpdateCheckEvent::RollbackChecked(Ok(()))) => next
            == UpdateCheckState::PreparedCheck(v) && effect == UpdateCheckEffect::MatchPrepared,
        (UpdateCheckState::RollbackCheck(_), UpdateCheckEvent::RollbackChecked(Err(e))) => failed_with(
            next,
            "更新服务返回了低于已验证版本的安装包，已停止自动处理。"@,
            e@,
        ) && effect == UpdateCheckEffect::ShowFailure,
        (UpdateCheckState::PreparedCheck(v), UpdateCheckEvent::PreparedMatches(true)) => next
            == UpdateCheckState::Ready(v) && effect == UpdateCheckEffect::ShowReady,
        (UpdateCheckState::PreparedCheck(v), UpdateCheckEvent::PreparedMatches(false)) => next
            == UpdateCheckState::CacheCheck(v) && effect == UpdateCheckEffect::LoadCache,
        (UpdateCheckState::CacheCheck(v), UpdateCheckEvent::CacheLoaded(Ok(true))) => next
            == UpdateCheckState::RecordingCached(v) && effect
            == UpdateCheckEffect::ClearPreparedAndRecord,
        (UpdateCheckState::CacheCheck(v), UpdateCheckEvent::CacheLoaded(Ok(false))) => next
            == UpdateCheckState::Downloading(v) && effect
            == UpdateCheckEffect::ShowDownloadingAndDownload,
        (UpdateCheckState::CacheCheck(v), UpdateCheckEvent::CacheLoaded(Err(_))) => next
            == UpdateCheckState::Downloading(v) && effect == UpdateCheckEffect::DiscardCacheAndDownload,
        (UpdateCheckState::RecordingCached(v), UpdateCheckEvent::VersionRecorded(Ok(()))) => next
            == UpdateCheckState::Ready(v) && effect == UpdateCheckEffect::PrepareCachedAndShowReady,
        (UpdateCheckState::RecordingCached(_), UpdateCheckEvent::VersionRecorded(Err(e))) => failed_with(
            next,
            "已验证更新包，但无法保存版本安全记录，请检查磁盘后重试。"@,
            e@,
        ) && effect == UpdateCheckEffect::ShowFailure,
        (UpdateCheckState::Downloading(v), UpdateCheckEvent::Downloaded(Ok(()))) => next
            == UpdateCheckState::Verifying(v) && effect == UpdateCheckEffect::VerifyPackage,
        (UpdateCheckState::Downloading(_), UpdateCheckEvent::Downloaded(Err(e))) => failed_with(
            next,
            "更新下载或签名验证失败，未缓存安装包。"@,
            "下载或签名验证失败："@ + e@,
        ) && effect == UpdateCheckEffect::ShowFailure,
        (UpdateCheckState::Verifying(v), UpdateCheckEvent::PackageVerified(Ok(()))) => next
            == UpdateCheckState::RecordingDownloaded(v) && effect
            == UpdateCheckEffect::ClearPreparedAndRecord,
        (UpdateCheckState::Verifying(_), UpdateCheckEvent::PackageVerified(Err(e))) => failed_with(
            next,
            "更新包安全校验失败，未缓存安装包。"@,
            e@,
        ) && effect == UpdateCheckEffect::ShowFailure,
        (UpdateCheckState::RecordingDownloaded(v), UpdateCheckEvent::VersionRecorded(Ok(()))) => next
            == UpdateCheckState::Saving(v) && effect == UpdateCheckEffect::SaveCache,
        (
            UpdateCheckState::RecordingDownloaded(_),
            UpdateCheckEvent::VersionRecorded(Err(e)),
        ) => failed_with(
            next,
            "更新已下载并验证，但无法保存版本安全记录，请检查磁盘后重试。"@,
            e@,
        ) && effect == UpdateCheckEffect::ShowFailure,
        (UpdateCheckState::Saving(v), UpdateCheckEvent::CacheSaved(Ok(()))) => next
            == UpdateCheckState::Ready(v) && effect == UpdateCheckEffect::PrepareDownloadedAndShowReady,
        (
            UpdateCheckState::Saving(_),
            UpdateCheckEvent::CacheSaved(Err(CacheSaveFailure::Location(e))),
        ) => failed_with(next, "更新已下载并验证，但无法确定缓存位置，请稍后重试。"@, e@) && effect
            == UpdateCheckEffect::ShowFailure,
        (
            UpdateCheckState::Saving(_),
            UpdateCheckEvent::CacheSaved(Err(CacheSaveFailure::Write(e))),
        ) => failed_with(
            next,
            "更新已下载并验证，但无法保存安装包，请检查磁盘空间后重试。"@,
            "保存已验签更新缓存失败："@ + e@,
        ) && effect == UpdateCheckEffect::ShowFailure,
        (s, _) => next == s && effect == UpdateCheckEffect::Ignore,
    }
}

fn failure(message: &str, prefix: &str, detail: &str) -> (r: UpdateCheckState)
    ensures
        failed_with(r, message@, prefix@ + detail@),
{
    let technical_detail = text3(prefix, detail, "");
    proof {
        reveal_strlit("");
        assert(technical_detail@ =~= prefix@ + detail@);
    }
    UpdateCheckState::Failed(UpdateFailure { message: message.to_string(), technical_detail })
}

/// Takes one step of an update check (see `update_check_step_holds`).
pub fn update_check_step(state: UpdateCheckState, event: UpdateCheckEvent) -> (r: (
    UpdateCheckState,
    UpdateCheckEffect,
))
    ensures
        update_check_step_holds(state, event, r.0, r.1),
{
    proof {
        reveal_strlit("");
        assert forall|t: Seq<char>| #![auto] ""@ + t == t by {
            assert(""@ + t =~= t);
        }
    }
    match (state, event) {
        (UpdateCheckState::Waiting, UpdateCheckEvent::Permit(true)) => (
            UpdateCheckState::Building,
            UpdateCheckEffect::ShowCheckingAndBuild,
        ),
        (UpdateCheckState::Waiting, UpdateCheckEvent::Permit(false)) => (
            UpdateCheckState::Skipped,
            UpdateCheckEffect::ReportCurrent,
        ),
        (UpdateCheckState::Building, UpdateCheckEvent::UpdaterBuilt(Ok(()))) => (
            UpdateCheckState::Checking,
            UpdateCheckEffect::Check,
        ),
        (UpdateCheckState::Building, UpdateCheckEvent::UpdaterBuilt(Err(e))) => (
            failure("更新服务初始化失败，请稍后重试。", "初始化签名更新器失败：", e.as_str()),
            UpdateCheckEffect::ShowFailure,
        ),
        (UpdateCheckState::Checking, UpdateCheckEvent::Checked(Ok(None))) => (
            UpdateCheckState::UpToDate,
            UpdateCheckEffect::ClearAndShowUpToDate,
        ),
        (UpdateCheckState::Checking, UpdateCheckEvent::Checked(Ok(Some(v)))) => (
            UpdateCheckState::RollbackCheck(v),
            UpdateCheckEffect::CheckRollback,
        ),
        (UpdateCheckState::Checking, UpdateCheckEvent::Checked(Err(e))) => (
            UpdateCheckState::Failed(check_request_failure(e.as_str())),
            UpdateCheckEffect::ShowFailure,
        ),
        (UpdateCheckState::RollbackCheck(v), UpdateCheckEvent::RollbackChecked(Ok(()))) => (
            UpdateCheckState::PreparedCheck(v),
            UpdateCheckEffect::MatchPrepared,
        ),
        (UpdateCheckState::RollbackCheck(_), UpdateCheckEvent::RollbackChecked(Err(e))) => (
            failure("更新服务返回了低于已验证版本的安装包，已停止自动处理。", "", e.as_str()),
            UpdateCheckEffect::ShowFailure,
        ),
        (UpdateCheckState::PreparedCheck(v), UpdateCheckEvent::PreparedMatches(matches)) => if matches {
            (UpdateCheckState::Ready(v), UpdateCheckEffect::ShowReady)
        } else {
            (UpdateCheckState::CacheCheck(v), UpdateCheckEffect::LoadCache)
        },
        (UpdateCheckState::CacheCheck(v), UpdateCheckEvent::CacheLoaded(loaded)) => match loaded {
            Ok(true) => (UpdateCheckState::RecordingCached(v), UpdateCheckEffect::ClearPreparedAndRecord),
            Ok(false) => (UpdateCheckState::Downloading(v), UpdateCheckEffect::ShowDownloadingAndDownload),
            Err(_) => (UpdateCheckState::Downloading(v), UpdateCheckEffect::DiscardCacheAndDownload),
        },
        (UpdateCheckState::RecordingCached(v), UpdateCheckEvent::VersionRecorded(recorded)) => match recorded {
            Ok(()) => (UpdateCheckState::Ready(v), UpdateCheckEffect::PrepareCachedAndShowReady),
            Err(e) => (
                failure("已验证更新包，但无法保存版本安全记录，请检查磁盘后重试。", "", e.as_str()),
                UpdateCheckEffect::ShowFailure,
            ),
        },
        (UpdateCheckState::Downloading(v), UpdateCheckEvent::Downloaded(downloaded)) => match downloaded {
            Ok(()) => (UpdateCheckState::Verifying(v), UpdateCheckEffect::VerifyPackage),
            Err(e) => (
                failure("更新下载或签名验证失败，未缓存安装包。", "下载或签名验证失败：", e.as_str()),
                UpdateCheckEffect::ShowFailure,
            ),
        },
        (UpdateCheckState::Verifying(v), UpdateCheckEvent::PackageVerified(verified)) => match verified {
            Ok(()) => (UpdateCheckState::RecordingDownloaded(v), UpdateCheckEffect::ClearPreparedAndRecord),
            Err(e) => (
                failure("更新包安全校验失败，未缓存安装包。", "", e.as_str()),
                UpdateCheckEffect::ShowFailure,
            ),
        },
        (UpdateCheckState::RecordingDownloaded(v), UpdateCheckEvent::VersionRecorded(recorded)) => match recorded {
            Ok(()) => (UpdateCheckState::Saving(v), UpdateCheckEffect::SaveCache),
            Err(e) => (
                failure("更新已下载并验证，但无法保存版本安全记录，请检查磁盘后重试。", "", e.as_str()),
                UpdateCheckEffect::ShowFailure,
            ),
        },
        (UpdateCheckState::Saving(v), UpdateCheckEvent::CacheSaved(saved)) => match saved {
            Ok(()) => (UpdateCheckState::Ready(v), UpdateCheckEffect::PrepareDownloadedAndShowReady),
            Err(CacheSaveFailure::Location(e)) => (
                failure("更新已下载并验证，但无法确定缓存位置，请稍后重试。", "", e.as_str()),
                UpdateCheckEffect::ShowFailure,
            ),
            Err(CacheSaveFailure::Write(e)) => (
                failure(
                    "更新已下载并验证，但无法保存安装包，请检查磁盘空间后重试。",
                    "保存已验签更新缓存失败：",
                    e.as_str(),
                ),
                UpdateCheckEffect::ShowFailure,
            ),
        },
        (s, _) => (s, UpdateCheckEffect::Ignore),
    }
}

/// A release is shown as ready only when it was already prepared, or once its
/// version is recorded as the highest verified: a cached package right after
/// the record, a download after the record and the save that follows it.
pub proof fn lemma_ready_only_after_recording(
    state: UpdateCheckState,
    event: UpdateCheckEvent,
    next: UpdateCheckState,
    effect: UpdateCheckEffect,
)
    requires
        update_check_step_holds(state, event, next, effect),
    ensures
        next is Ready && !(state is Ready) ==> state is PreparedCheck || (state is RecordingCached
            && event matches UpdateCheckEvent::VersionRecorded(Ok(_))) || (state is Saving
            && event matches UpdateCheckEvent::CacheSaved(Ok(_))),
        next is Saving && !(state is Saving) ==> state is RecordingDownloaded
            && event matches UpdateCheckEvent::VersionRecorded(Ok(_)),
        next is RecordingDownloaded && !(state is RecordingDownloaded) ==> state is Verifying
            && event matches UpdateCheckEvent::PackageVerified(Ok(_)),
{
}

// ---------------------------------------------------------------------------
// Proxy from the Windows internet settings
// ---------------------------------------------------------------------------

/// The addresses found so far in a proxy setting: the first one without a
/// protocol, and the last ones given for `http` and `https`.
pub struct ProxyChoices {
    pub generic: Option<Seq<char>>,
    pub http: Option<Seq<char>>,
    pub https: Option<Seq<char>>,
}

/// Takes one `;`-separated entry of a proxy setting into account.
pub open spec fn proxy_step(st: ProxyChoices, entry: Seq<char>) -> ProxyChoices {
    let e = crate::text::trim(entry);
    if e.len() == 0 {
        st
    } else {
        match crate::text::find_char_from(e, '=', 0) {
            Some(k) => {
                let address = crate::text::trim(e.skip(k + 1));
                let protocol = lower(crate::text::trim(e.take(k)));
                if address.len() == 0 {
                    st
                } else if protocol == "https"@ {
                    ProxyChoices { https: Some(address), ..st }
                } else if protocol == "http"@ {
                    ProxyChoices { http: Some(address), ..st }
                } else {
                    st
                }
            },
            None => if st.generic is None {
                ProxyChoices { generic: Some(e), ..st }
            } else {
                st
            },
        }
    }
}

pub open spec fn proxy_scan(entries: Seq<Seq<char>>) -> ProxyChoices
    decreases entries.len(),
{
    if entries.len() == 0 {
        ProxyChoices { generic: None, http: None, https: None }
    } else {
        proxy_step(proxy_scan(entries.drop_last()), entries.last())
    }
}

/// The proxy address to use, preferring `https`, then `http`, then one without
/// a protocol, written as a URL (`http://` added when it has no scheme).
pub open spec fn proxy_candidate(raw: Seq<char>) -> Option<Seq<char>> {
    let st = proxy_scan(split_fields(raw, ';'));
    let selected = if st.https is Some {
        st.https
    } else if st.http is Some {
        st.http
    } else {
        st.generic
    };
    match selected {
        None => None,
        Some(address) => Some(
            if crate::text::contains(address, "://"@) {
                address
            } else {
                "http://"@ + address
            },
        ),
    }
}

/// What parsing `text` as a URL gives: its scheme and its serialization, or
/// nothing when it is not a URL.
pub uninterp spec fn url_parse_result(text: Seq<char>) -> Option<(Seq<char>, Seq<char>)>;

pub open spec fn url_parts_view(r: Option<(String, String)>) -> Option<(Seq<char>, Seq<char>)> {
    match r {
        Some((scheme, serialization)) => Some((scheme@, serialization@)),
        None => None,
    }
}

/// `Url::parse` (the `url` crate's URL type as `reqwest` exposes it): the
/// parsed URL's scheme and serialization, or nothing when it does not parse.
#[verifier::external_body]
fn parse_url(text: &str) -> (r: Option<(String, String)>)
    ensures
        url_parts_view(r) == url_parse_result(text@),
{
    match reqwest::Url::parse(text) {
        Ok(url) => Some((url.scheme().to_string(), url.as_str().to_string())),
        Err(_) => None,
    }
}

/// The proxy URL that a parsed candidate gives: an `http` or `https` URL only.
pub open spec fn proxy_from_parsed(parsed: Option<(Seq<char>, Seq<char>)>) -> Option<Seq<char>> {
    match parsed {
        Some((scheme, serialization)) => if scheme == "http"@ || scheme == "https"@ {
            Some(serialization)
        } else {
            None
        },
        None => None,
    }
}

pub fn proxy_url_from_parsed(parsed: Option<(String, String)>) -> (r: Option<String>)
    ensures
        opt_text(r) == proxy_from_parsed(url_parts_view(parsed)),
{
    match parsed {
        Some((scheme, serialization)) => {
            let c = chars_of(scheme.as_str());
            if crate::text::same_chars(&c, &chars_of("http")) || crate::text::same_chars(
                &c,
                &chars_of("https"),
            ) {
                Some(serialization)
            } else {
                None
            }
        },
        None => None,
    }
}

/// The address chosen from a Windows `ProxyServer` setting, as URL text.
pub fn proxy_candidate_of(raw: &str) -> (r: Option<String>)
    ensures
        opt_text(r) == proxy_candidate(raw@),
{
    let chars = chars_of(raw);
    let entries = split_on(&chars, ';');
    let ghost views = crate::text::char_views(entries@);
    let mut generic: Option<Vec<char>> = None;
    let mut http: Option<Vec<char>> = None;
    let mut https: Option<Vec<char>> = None;
    let mut i: usize = 0;
    while i < entries.len()
        invariant
            i <= entries@.len(),
            views == crate::text::char_views(entries@),
            proxy_scan(views.take(i as int)) == (ProxyChoices {
                generic: crate::text::opt_view(generic),
                http: crate::text::opt_view(http),
                https: crate::text::opt_view(https),
            }),
        decreases entries.len() - i,
    {
        proof {
            assert(views.take(i as int + 1).drop_last() =~= views.take(i as int));
            assert(views.take(i as int + 1).last() == entries@[i as int]@);
        }
        let e = crate::text::trim_ws(&entries[i]);
        if e.len() > 0 {
            match crate::text::find_char(&e, '=') {
                Some(k) => {
                    let address = crate::text::trim_ws(&crate::text::slice_vec(&e, k + 1, e.len()));
                    let protocol = to_lower(
                        &crate::text::trim_ws(&crate::text::slice_vec(&e, 0, k)),
                    );
                    proof {
                        assert(e@.subrange(k as int + 1, e@.len() as int) =~= e@.skip(k as int + 1));
                        assert(e@.subrange(0, k as int) =~= e@.take(k as int));
                    }
                    if address.len() > 0 {
                        if crate::text::same_chars(&protocol, &chars_of("https")) {
                            https = Some(address);
                        } else if crate::text::same_chars(&protocol, &chars_of("http")) {
                            http = Some(address);
                        }
                    }
                },
                None => {
                    if generic.is_none() {
                        generic = Some(e);
                    }
                },
            }
        }
        i += 1;
    }
    proof {
        assert(views.take(entries@.len() as int) =~= views);
    }
    let selected = if https.is_some() {
        https
    } else if http.is_some() {
        http
    } else {
        generic
    };
    match selected {
        None => None,
        Some(address) => {
            let marker = chars_of("://");
            if crate::text::find_chars(&address, &marker).is_some() {
                Some(string_of(&address))
            } else {
                let mut t = chars_of("http://");
                extend_chars(&mut t, &address);
                Some(string_of(&t))
            }
        },
    }
}

/// The proxy URL in a Windows `ProxyServer` setting: the chosen address when
/// it parses as an `http` or `https` URL, given as the URL's text.
pub fn parse_windows_proxy_server(raw: &str) -> (r: Option<String>)
    ensures
        opt_text(r) == match proxy_candidate(raw@) {
            None => None,
            Some(candidate) => proxy_from_parsed(url_parse_result(candidate)),
        },
{
    match proxy_candidate_of(raw) {
        None => None,
        Some(candidate) => proxy_url_from_parsed(parse_url(candidate.as_str())),
    }
}

} // verus!
