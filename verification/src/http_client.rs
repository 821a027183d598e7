//! The fixed HTTPS endpoints of the provider APIs, and the kinds of HTTP failure.
use crate::text::lit;
use vstd::prelude::*;

verus! {

broadcast use vstd::string::group_string_axioms;

/// The largest response body, in bytes, that is read from a provider.
pub const MAX_RESPONSE_BODY_BYTES: usize = 65536;

#[derive(Debug, Clone, Copy, PartialEq, Eq, Structural)]
pub enum OfficialEndpoint {
    DeepSeekBalance,
    KimiBalance,
}

pub open spec fn endpoint_url(endpoint: OfficialEndpoint) -> Seq<char> {
    match endpoint {
        OfficialEndpoint::DeepSeekBalance => "https://api.deepseek.com/user/balance"@,
        OfficialEndpoint::KimiBalance => "https://api.moonshot.cn/v1/users/me/balance"@,
    }
}

impl OfficialEndpoint {
    /// The endpoint's fixed URL.
    pub fn url(self) -> (r: &'static str)
        ensures
            r@ == endpoint_url(self),
    {
        match self {
            OfficialEndpoint::DeepSeekBalance => "https://api.deepseek.com/user/balance",
            OfficialEndpoint::KimiBalance => "https://api.moonshot.cn/v1/users/me/balance",
        }
    }
}

#[derive(Debug, Clone, Copy, PartialEq, Eq, Structural)]
pub enum HttpErrorKind {
    Timeout,
    Network,
    InvalidResponse,
}

/// An HTTP failure, by kind only: it never carries a URL, header or body.
#[derive(Debug, Clone, Copy, PartialEq, Eq, Structural)]
pub struct HttpError {
    kind: HttpErrorKind,
}

pub open spec fn http_error_message(kind: HttpErrorKind) -> Seq<char> {
    match kind {
        HttpErrorKind::Timeout => "请求超时。"@,
        HttpErrorKind::Network => "网络请求失败。"@,
        HttpErrorKind::InvalidResponse => "服务返回了无效响应。"@,
    }
}

impl HttpError {
    pub closed spec fn kind_spec(self) -> HttpErrorKind {
        self.kind
    }

    pub fn new(kind: HttpErrorKind) -> (r: HttpError)
        ensures
            r.kind_spec() == kind,
    {
        HttpError { kind }
    }

    pub fn kind(self) -> (r: HttpErrorKind)
        ensures
            r == self.kind_spec(),
    {
        self.kind
    }

    /// The message of the error.
    pub fn to_string(&self) -> (r: String)
        ensures
            r@ == http_error_message(self.kind_spec()),
    {
        match self.kind {
            HttpErrorKind::Timeout => lit("请求超时。"),
            HttpErrorKind::Network => lit("网络请求失败。"),
            HttpErrorKind::InvalidResponse => lit("服务返回了无效响应。"),
        }
    }
}

/// Whether a response of `length` bytes is too large to read.
pub fn body_exceeds_limit(length: u64) -> (r: bool)
    ensures
        r == (length > MAX_RESPONSE_BODY_BYTES),
{
    length > 65536
}

} // verus!
