//! The external pages the details window opens, one fixed HTTPS URL each.
use crate::models::ProviderId;
use vstd::prelude::*;

verus! {

broadcast use vstd::string::group_string_axioms;

pub const OFFICIAL_USAGE_URL: &'static str = "https://chatgpt.com/codex/settings/usage";

pub const LATEST_RELEASE_URL: &'static str = "https://github.com/RupingLiu/QuotaDock/releases/latest";

pub const DEEPSEEK_BALANCE_URL: &'static str = "https://platform.deepseek.com/usage";

pub const KIMI_ACCOUNT_URL: &'static str = "https://platform.moonshot.cn/console/account";

/// The official page of a provider, and the name of the operation that opens it.
pub open spec fn provider_portal_spec(provider: ProviderId) -> (Seq<char>, Seq<char>) {
    match provider {
        ProviderId::Codex => (OFFICIAL_USAGE_URL@, "打开 Codex 官方用量页面"@),
        ProviderId::DeepSeek => (DEEPSEEK_BALANCE_URL@, "打开 DeepSeek 官方余额页面"@),
        ProviderId::Kimi => (KIMI_ACCOUNT_URL@, "打开 Kimi 官方账户页面"@),
    }
}

pub fn provider_portal(provider: ProviderId) -> (r: (&'static str, &'static str))
    ensures
        (r.0@, r.1@) == provider_portal_spec(provider),
{
    match provider {
        ProviderId::Codex => (OFFICIAL_USAGE_URL, "打开 Codex 官方用量页面"),
        ProviderId::DeepSeek => (DEEPSEEK_BALANCE_URL, "打开 DeepSeek 官方余额页面"),
        ProviderId::Kimi => (KIMI_ACCOUNT_URL, "打开 Kimi 官方账户页面"),
    }
}

/// The message for a failed attempt to open a page: the operation and the
/// code the shell returned.
pub fn open_failure_message(operation_name: &str, code: i64) -> (r: String)
    ensures
        r@ == operation_name@ + "失败：ShellExecuteW 返回 "@ + crate::codex_probe::int_text(code as int),
{
    let mut text = crate::text::chars_of(operation_name);
    crate::text::extend_chars(&mut text, &crate::text::chars_of("失败：ShellExecuteW 返回 "));
    if code < 0 {
        text.push('-');
        let magnitude: u64 = if code == i64::MIN {
            0x8000_0000_0000_0000u64
        } else {
            (0i64 - code) as u64
        };
        crate::text::extend_chars(&mut text, &crate::text::decimal_chars(magnitude));
    } else {
        crate::text::extend_chars(&mut text, &crate::text::decimal_chars(code as u64));
    }
    proof {
        assert(text@ =~= operation_name@ + "失败：ShellExecuteW 返回 "@ + crate::codex_probe::int_text(
            code as int,
        ));
    }
    crate::text::string_of(&text)
}

/// Whether the code the shell returned for an open request means success.
pub fn shell_open_succeeded(code: i64) -> (r: bool)
    ensures
        r == (code > 32),
{
    code > 32
}

} // verus!
