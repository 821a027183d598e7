//! Provider balance services: the errors they report and the readers of their replies.
pub mod deepseek;
pub mod kimi;

use crate::http_client::{HttpError, HttpErrorKind};
use crate::models::ProviderErrorCategory;
use crate::status_parser::{unix_now_seconds, unix_timestamp_string, unix_timestamp_text};
use vstd::prelude::*;

verus! {

broadcast use vstd::string::group_string_axioms;

/// A provider failure: a stable category and a fixed message that never
/// carries an upstream body or a secret.
#[derive(Debug)]
pub struct ProviderError {
    category: ProviderErrorCategory,
    message: &'static str,
}

impl Clone for ProviderError {
    fn clone(&self) -> (r: Self)
        ensures
            r == *self,
    {
        ProviderError { category: self.category, message: self.message }
    }
}

/// The category and message of the error for an HTTP status other than 200.
pub open spec fn status_error(status: u16) -> (ProviderErrorCategory, Seq<char>) {
    if status == 401 || status == 403 {
        (ProviderErrorCategory::Unauthorized, "API Key 无效、已失效或不属于当前平台。"@)
    } else if status == 402 {
        (ProviderErrorCategory::InsufficientBalance, "账户额度或余额不足，服务拒绝了请求。"@)
    } else if status == 429 {
        (ProviderErrorCategory::RateLimited, "额度查询过于频繁，请稍后重试。"@)
    } else if 500 <= status && status <= 599 {
        (ProviderErrorCategory::Server, "额度服务暂时不可用，请稍后重试。"@)
    } else {
        invalid_response_error()
    }
}

pub open spec fn invalid_response_error() -> (ProviderErrorCategory, Seq<char>) {
    (ProviderErrorCategory::InvalidResponse, "额度服务返回了无法识别的响应。"@)
}

/// The category and message of the error for an HTTP failure.
pub open spec fn http_failure_error(kind: HttpErrorKind) -> (ProviderErrorCategory, Seq<char>) {
    match kind {
        HttpErrorKind::Timeout => (ProviderErrorCategory::Timeout, "额度查询超时，请稍后重试。"@),
        HttpErrorKind::Network => (ProviderErrorCategory::Network, "无法连接额度服务，请检查网络或代理。"@),
        HttpErrorKind::InvalidResponse => invalid_response_error(),
    }
}

impl ProviderError {
    /// The category and message of the error.
    pub closed spec fn parts(self) -> (ProviderErrorCategory, Seq<char>) {
        (self.category, self.message@)
    }

    pub fn new(category: ProviderErrorCategory, message: &'static str) -> (r: ProviderError)
        ensures
            r.parts() == (category, message@),
    {
        ProviderError { category, message }
    }

    pub fn category(&self) -> (r: ProviderErrorCategory)
        ensures
            r == self.parts().0,
    {
        self.category
    }

    pub fn message(&self) -> (r: &'static str)
        ensures
            r@ == self.parts().1,
    {
        self.message
    }

    /// The message of the error.
    pub fn to_string(&self) -> (r: String)
        ensures
            r@ == self.parts().1,
    {
        crate::text::lit(self.message)
    }

    pub fn invalid_response() -> (r: ProviderError)
        ensures
            r.parts() == invalid_response_error(),
    {
        ProviderError::new(ProviderErrorCategory::InvalidResponse, "额度服务返回了无法识别的响应。")
    }

    /// The error for an HTTP status that is not a success.
    pub fn from_status(status: u16) -> (r: ProviderError)
        ensures
            r.parts() == status_error(status),
    {
        if status == 401 || status == 403 {
            ProviderError::new(
                ProviderErrorCategory::Unauthorized,
                "API Key 无效、已失效或不属于当前平台。",
            )
        } else if status == 402 {
            ProviderError::new(
                ProviderErrorCategory::InsufficientBalance,
                "账户额度或余额不足，服务拒绝了请求。",
            )
        } else if status == 429 {
            ProviderError::new(ProviderErrorCategory::RateLimited, "额度查询过于频繁，请稍后重试。")
        } else if 500 <= status && status <= 599 {
            ProviderError::new(ProviderErrorCategory::Server, "额度服务暂时不可用，请稍后重试。")
        } else {
            ProviderError::invalid_response()
        }
    }

    /// The error for an HTTP failure.
    pub fn from_http_error(error: HttpError) -> (r: ProviderError)
        ensures
            r.parts() == http_failure_error(error.kind_spec()),
    {
        match error.kind() {
            HttpErrorKind::Timeout => ProviderError::new(
                ProviderErrorCategory::Timeout,
                "额度查询超时，请稍后重试。",
            ),
            HttpErrorKind::Network => ProviderError::new(
                ProviderErrorCategory::Network,
                "无法连接额度服务，请检查网络或代理。",
            ),
            HttpErrorKind::InvalidResponse => ProviderError::invalid_response(),
        }
    }
}

/// The capture time of a provider snapshot: the current Unix time as `unix:SECONDS`.
pub fn captured_at_now() -> (r: String)
    ensures
        exists|seconds: u64| r@ == unix_timestamp_text(seconds),
{
    unix_timestamp_string(unix_now_seconds())
}

} // verus!
