//! Provider API keys: which fixed credential account each provider uses, and
//! the operations on a credential store that never expose a secret.
use crate::models::{KimiRegion, ProviderId};
use crate::text::{chars_of, lit, string_of, trim, trim_ws};
use vstd::prelude::*;

verus! {

broadcast use vstd::string::group_string_axioms;

pub const CREDENTIAL_SERVICE: &'static str = "com.rupingliu.quotadock";

pub const DEEPSEEK_ACCOUNT: &'static str = "deepseek-api-key";

pub const KIMI_CHINA_ACCOUNT: &'static str = "kimi-cn-api-key";

#[derive(Debug, Clone, Copy, PartialEq, Eq, Structural)]
pub enum CredentialStoreErrorKind {
    NotFound,
    Unavailable,
    OperationFailed,
}

/// A credential-store failure, by kind only: it never carries platform details.
#[derive(Debug, Clone, Copy, PartialEq, Eq, Structural)]
pub struct CredentialStoreError {
    kind: CredentialStoreErrorKind,
}

/// The message shown for a credential-store failure.
pub open spec fn store_error_message(kind: CredentialStoreErrorKind) -> Seq<char> {
    match kind {
        CredentialStoreErrorKind::NotFound => "未找到已保存的凭据。"@,
        CredentialStoreErrorKind::Unavailable => "系统凭据存储当前不可用。"@,
        CredentialStoreErrorKind::OperationFailed => "系统凭据存储操作失败。"@,
    }
}

impl CredentialStoreError {
    pub closed spec fn kind_spec(self) -> CredentialStoreErrorKind {
        self.kind
    }

    pub fn new(kind: CredentialStoreErrorKind) -> (r: CredentialStoreError)
        ensures
            r.kind_spec() == kind,
    {
        CredentialStoreError { kind }
    }

    pub fn kind(self) -> (r: CredentialStoreErrorKind)
        ensures
            r == self.kind_spec(),
    {
        self.kind
    }

    /// The message of the error.
    pub fn to_string(&self) -> (r: String)
        ensures
            r@ == store_error_message(self.kind_spec()),
    {
        match self.kind {
            CredentialStoreErrorKind::NotFound => lit("未找到已保存的凭据。"),
            CredentialStoreErrorKind::Unavailable => lit("系统凭据存储当前不可用。"),
            CredentialStoreErrorKind::OperationFailed => lit("系统凭据存储操作失败。"),
        }
    }
}

/// Narrow backend-only interface. Implementations receive a fixed account name,
/// never a user-controlled service or account identifier.
pub trait CredentialStore: Send + Sync {
    /// Whether `result` is an answer this store may give to setting `account`
    /// to `secret`. A store that describes nothing of its answers admits each.
    open spec fn set_answers(
        &self,
        account: Seq<char>,
        secret: Seq<char>,
        result: Result<(), CredentialStoreError>,
    ) -> bool {
        true
    }

    /// Whether `result` (the key read, by its text) is an answer this store may
    /// give to reading `account`.
    open spec fn get_answers(&self, account: Seq<char>, result: Result<Seq<char>, CredentialStoreError>) -> bool {
        true
    }

    /// Whether `result` is an answer this store may give to deleting `account`.
    open spec fn delete_answers(&self, account: Seq<char>, result: Result<(), CredentialStoreError>) -> bool {
        true
    }

    fn set_password(&self, account: &'static str, secret: &str) -> (r: Result<(), CredentialStoreError>)
        ensures
            self.set_answers(account@, secret@, r),
    ;

    fn get_password(&self, account: &'static str) -> (r: Result<String, CredentialStoreError>)
        ensures
            self.get_answers(account@, read_view(r)),
    ;

    fn delete_credential(&self, account: &'static str) -> (r: Result<(), CredentialStoreError>)
        ensures
            self.delete_answers(account@, r),
    ;
}

/// A store's answer to reading a key, with the key by its text.
pub open spec fn read_view(read: Result<String, CredentialStoreError>) -> Result<Seq<char>, CredentialStoreError> {
    match read {
        Ok(secret) => Ok(secret@),
        Err(e) => Err(e),
    }
}

/// The result of a change of a key from the store's answer: the status on
/// success, else the message of the store's failure.
pub open spec fn change_outcome(
    answer: Result<(), CredentialStoreError>,
    provider_id: ProviderId,
    region: Option<KimiRegion>,
    availability: CredentialAvailability,
) -> Result<CredentialStatus, Seq<char>> {
    match answer {
        Ok(()) => Ok(CredentialStatus { provider_id, region, availability }),
        Err(e) => Err(store_error_message(e.kind_spec())),
    }
}

pub open spec fn status_result_view(r: Result<CredentialStatus, String>) -> Result<CredentialStatus, Seq<char>> {
    match r {
        Ok(s) => Ok(s),
        Err(m) => Err(m@),
    }
}

#[derive(Debug, Clone, Copy, PartialEq, Eq, Structural)]
pub enum CredentialAvailability {
    Configured,
    NotConfigured,
    Unavailable,
}

/// Whether a provider's credential is configured; the secret itself is never part of it.
#[derive(Debug, Clone, Copy, PartialEq, Eq, Structural)]
pub struct CredentialStatus {
    pub provider_id: ProviderId,
    pub region: Option<KimiRegion>,
    pub availability: CredentialAvailability,
}

pub type ProviderCredentialStatus = CredentialStatus;

/// A provider, its region, and the fixed account its key is kept under.
#[derive(Debug, Clone, Copy)]
pub struct CredentialTarget {
    pub provider_id: ProviderId,
    pub region: Option<KimiRegion>,
    pub account: &'static str,
}

/// The account of a provider's key, or the reason there is none.
pub open spec fn resolve_spec(provider_id: ProviderId, region: Option<KimiRegion>) -> Result<
    (Option<KimiRegion>, Seq<char>),
    Seq<char>,
> {
    match (provider_id, region) {
        (ProviderId::DeepSeek, None) => Ok((None, DEEPSEEK_ACCOUNT@)),
        (ProviderId::Kimi, Some(KimiRegion::China)) => Ok(
            (Some(KimiRegion::China), KIMI_CHINA_ACCOUNT@),
        ),
        (ProviderId::Kimi, None) => Err("Kimi 凭据必须指定国内区域。"@),
        (ProviderId::DeepSeek, Some(_)) => Err("DeepSeek 凭据不接受区域参数。"@),
        (ProviderId::Codex, _) => Err("Codex 不使用 API Key 凭据。"@),
    }
}

impl CredentialTarget {
    pub fn deepseek() -> (r: CredentialTarget)
        ensures
            r.provider_id == ProviderId::DeepSeek,
            r.region is None,
            r.account@ == DEEPSEEK_ACCOUNT@,
    {
        CredentialTarget { provider_id: ProviderId::DeepSeek, region: None, account: DEEPSEEK_ACCOUNT }
    }

    pub fn kimi_china() -> (r: CredentialTarget)
        ensures
            r.provider_id == ProviderId::Kimi,
            r.region == Some(KimiRegion::China),
            r.account@ == KIMI_CHINA_ACCOUNT@,
    {
        CredentialTarget {
            provider_id: ProviderId::Kimi,
            region: Some(KimiRegion::China),
            account: KIMI_CHINA_ACCOUNT,
        }
    }

    pub fn resolve(provider_id: ProviderId, region: Option<KimiRegion>) -> (r: Result<
        CredentialTarget,
        String,
    >)
        ensures
            match (r, resolve_spec(provider_id, region)) {
                (Ok(t), Ok((reg, account))) => t.provider_id == provider_id && t.region == reg
                    && t.account@ == account,
                (Err(m), Err(message)) => m@ == message,
                _ => false,
            },
    {
        match (provider_id, region) {
            (ProviderId::DeepSeek, None) => Ok(CredentialTarget::deepseek()),
            (ProviderId::Kimi, Some(KimiRegion::China)) => Ok(CredentialTarget::kimi_china()),
            (ProviderId::Kimi, None) => Err(lit("Kimi 凭据必须指定国内区域。")),
            (ProviderId::DeepSeek, Some(_)) => Err(lit("DeepSeek 凭据不接受区域参数。")),
            (ProviderId::Codex, _) => Err(lit("Codex 不使用 API Key 凭据。")),
        }
    }

    pub fn status(self, availability: CredentialAvailability) -> (r: CredentialStatus)
        ensures
            r == (CredentialStatus { provider_id: self.provider_id, region: self.region, availability }),
    {
        CredentialStatus { provider_id: self.provider_id, region: self.region, availability }
    }
}

/// The messages a failing store operation can give.
pub open spec fn is_store_error_message(m: Seq<char>) -> bool {
    m == store_error_message(CredentialStoreErrorKind::NotFound) || m == store_error_message(
        CredentialStoreErrorKind::Unavailable,
    ) || m == store_error_message(CredentialStoreErrorKind::OperationFailed)
}

/// Saves a provider's API key (trimmed) under its fixed account. An invalid
/// provider/region pair or a blank key is refused before the store is touched;
/// otherwise the store decides, and its failure is reported without details.
pub fn set_provider_credential_with_store<S: CredentialStore>(
    store: &S,
    provider_id: ProviderId,
    region: Option<KimiRegion>,
    secret: &str,
) -> (r: Result<CredentialStatus, String>)
    ensures
        resolve_spec(provider_id, region) matches Err(m) ==> r matches Err(e) && e@ == m,
        resolve_spec(provider_id, region) is Ok && trim(secret@).len() == 0 ==> (r matches Err(e)
            && e@ == "API Key 不能为空。"@),
        match resolve_spec(provider_id, region) {
            Ok((reg, account)) => trim(secret@).len() > 0 ==> exists|
                answer: Result<(), CredentialStoreError>,
            |
                store.set_answers(account, trim(secret@), answer) && status_result_view(r)
                    == change_outcome(answer, provider_id, reg, CredentialAvailability::Configured),
            Err(_) => true,
        },
{
    let target = match CredentialTarget::resolve(provider_id, region) {
        Ok(target) => target,
        Err(message) => return Err(message),
    };
    let trimmed = trim_ws(&chars_of(secret));
    if trimmed.len() == 0 {
        return Err(lit("API Key 不能为空。"));
    }
    let secret_text = string_of(&trimmed);
    let answer = store.set_password(target.account, secret_text.as_str());
    let r = match answer {
        Ok(()) => Ok(target.status(CredentialAvailability::Configured)),
        Err(error) => Err(error.to_string()),
    };
    proof {
        assert(secret_text@ == trim(secret@));
        assert(store.set_answers(target.account@, trim(secret@), answer));
        assert(status_result_view(r) == change_outcome(
            answer,
            provider_id,
            target.region,
            CredentialAvailability::Configured,
        ));
    }
    r
}

/// Deletes a provider's API key from its fixed account.
pub fn delete_provider_credential_with_store<S: CredentialStore>(
    store: &S,
    provider_id: ProviderId,
    region: Option<KimiRegion>,
) -> (r: Result<CredentialStatus, String>)
    ensures
        resolve_spec(provider_id, region) matches Err(m) ==> r matches Err(e) && e@ == m,
        resolve_spec(provider_id, region) matches Ok((reg, account)) ==> exists|
            answer: Result<(), CredentialStoreError>,
        |
            store.delete_answers(account, answer) && status_result_view(r) == change_outcome(
                answer,
                provider_id,
                reg,
                CredentialAvailability::NotConfigured,
            ),
{
    let target = match CredentialTarget::resolve(provider_id, region) {
        Ok(target) => target,
        Err(message) => return Err(message),
    };
    match store.delete_credential(target.account) {
        Ok(()) => Ok(target.status(CredentialAvailability::NotConfigured)),
        Err(error) => Err(error.to_string()),
    }
}

/// How a store's answer to reading a key reads as availability.
pub open spec fn availability_of(read: Result<String, CredentialStoreError>) -> CredentialAvailability {
    availability_of_answer(read_view(read))
}

pub open spec fn availability_of_answer(read: Result<Seq<char>, CredentialStoreError>) -> CredentialAvailability {
    match read {
        Ok(_) => CredentialAvailability::Configured,
        Err(e) => if e.kind_spec() == CredentialStoreErrorKind::NotFound {
            CredentialAvailability::NotConfigured
        } else {
            CredentialAvailability::Unavailable
        },
    }
}

pub fn availability_from(read: Result<String, CredentialStoreError>) -> (r: CredentialAvailability)
    ensures
        r == availability_of(read),
{
    match read {
        Ok(_) => CredentialAvailability::Configured,
        Err(error) => if error.kind() == CredentialStoreErrorKind::NotFound {
            CredentialAvailability::NotConfigured
        } else {
            CredentialAvailability::Unavailable
        },
    }
}

/// The configuration state of DeepSeek's and Kimi's keys, in that order.
pub fn provider_credential_status_with_store<S: CredentialStore>(store: &S) -> (r: Vec<
    ProviderCredentialStatus,
>)
    ensures
        r@.len() == 2,
        r@[0].provider_id == ProviderId::DeepSeek && r@[0].region is None,
        r@[1].provider_id == ProviderId::Kimi && r@[1].region == Some(KimiRegion::China),
        exists|a: Result<Seq<char>, CredentialStoreError>|
            store.get_answers(DEEPSEEK_ACCOUNT@, a) && r@[0].availability == availability_of_answer(a),
        exists|a: Result<Seq<char>, CredentialStoreError>|
            store.get_answers(KIMI_CHINA_ACCOUNT@, a) && r@[1].availability == availability_of_answer(a),
{
    let deepseek = CredentialTarget::deepseek();
    let kimi = CredentialTarget::kimi_china();
    let mut statuses: Vec<ProviderCredentialStatus> = Vec::new();
    statuses.push(deepseek.status(availability_from(store.get_password(deepseek.account))));
    statuses.push(kimi.status(availability_from(store.get_password(kimi.account))));
    statuses
}

/// Reads a provider's API key; an invalid provider/region pair is an operation failure.
pub fn load_provider_credential<S: CredentialStore>(
    store: &S,
    provider_id: ProviderId,
    region: Option<KimiRegion>,
) -> (r: Result<String, CredentialStoreError>)
    ensures
        resolve_spec(provider_id, region) is Err ==> (r matches Err(e) && e.kind_spec()
            == CredentialStoreErrorKind::OperationFailed),
        resolve_spec(provider_id, region) matches Ok((_, account)) ==> store.get_answers(
            account,
            read_view(r),
        ),
{
    let target = match CredentialTarget::resolve(provider_id, region) {
        Ok(target) => target,
        Err(_) => return Err(CredentialStoreError::new(CredentialStoreErrorKind::OperationFailed)),
    };
    store.get_password(target.account)
}

} // verus!
