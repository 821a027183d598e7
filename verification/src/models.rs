use crate::text::lit;
use vstd::prelude::*;

verus! {

broadcast use vstd::string::group_string_axioms;

pub const STATE_VERSION: u32 = 5;

pub const DEFAULT_STATUS_MESSAGE: &'static str = "尚未获取额度。可通过托盘刷新，后台也会自动查询。";

#[derive(Debug, Clone, Copy, PartialEq, Eq, Structural, PartialOrd, Ord, Hash)]
pub enum ProviderId {
    Codex,
    DeepSeek,
    Kimi,
}

pub const PROVIDER_ORDER: [ProviderId; 3] = [ProviderId::Codex, ProviderId::DeepSeek, ProviderId::Kimi];

/// The providers in their fixed display order.
pub open spec fn provider_order() -> Seq<ProviderId> {
    seq![ProviderId::Codex, ProviderId::DeepSeek, ProviderId::Kimi]
}

/// The index of a provider in the fixed display order.
pub open spec fn provider_rank(id: ProviderId) -> int {
    match id {
        ProviderId::Codex => 0,
        ProviderId::DeepSeek => 1,
        ProviderId::Kimi => 2,
    }
}

#[derive(Debug, Clone, Copy, PartialEq, Eq, Structural)]
pub enum SnapshotSource {
    PastedStatus,
    CodexCli,
    CodexAppServer,
}

#[derive(Debug)]
pub struct ParseWarning {
    pub code: String,
    pub message: String,
}

impl Clone for ParseWarning {
    fn clone(&self) -> (r: Self)
        ensures
            r == *self,
    {
        ParseWarning { code: self.code.clone(), message: self.message.clone() }
    }
}

impl ParseWarning {
    /// Equal as values: the same code and message text.
    pub open spec fn same_as(&self, other: &ParseWarning) -> bool {
        self.code@ == other.code@ && self.message@ == other.message@
    }

    pub fn equals(&self, other: &ParseWarning) -> (r: bool)
        ensures
            r == self.same_as(other),
    {
        self.code == other.code && self.message == other.message
    }
}

/// Two optional strings holding the same text (or both absent).
pub open spec fn same_opt_text(a: Option<String>, b: Option<String>) -> bool {
    match (a, b) {
        (Some(x), Some(y)) => x@ == y@,
        (None, None) => true,
        _ => false,
    }
}

pub fn equals_opt_text(a: &Option<String>, b: &Option<String>) -> (r: bool)
    ensures
        r == same_opt_text(*a, *b),
{
    match (a, b) {
        (Some(x), Some(y)) => *x == *y,
        (None, None) => true,
        _ => false,
    }
}

/// Two warning lists equal element by element.
pub open spec fn same_warnings(a: Seq<ParseWarning>, b: Seq<ParseWarning>) -> bool {
    a.len() == b.len() && forall|i: int| 0 <= i < a.len() ==> (#[trigger] a[i]).same_as(&b[i])
}

pub fn equals_warnings(a: &Vec<ParseWarning>, b: &Vec<ParseWarning>) -> (r: bool)
    ensures
        r == same_warnings(a@, b@),
{
    if a.len() != b.len() {
        return false;
    }
    let mut i: usize = 0;
    while i < a.len()
        invariant
            i <= a.len(),
            a.len() == b.len(),
            forall|j: int| 0 <= j < i ==> (#[trigger] a@[j]).same_as(&b@[j]),
        decreases a.len() - i,
    {
        if !a[i].equals(&b[i]) {
            return false;
        }
        i += 1;
    }
    true
}

#[derive(Debug)]
pub struct QuotaReading {
    pub remaining_percent: Option<u8>,
    pub reset_at: Option<String>,
    pub reset_countdown_seconds: Option<i64>,
}

impl Clone for QuotaReading {
    fn clone(&self) -> (r: Self)
        ensures
            r == *self,
    {
        QuotaReading {
            remaining_percent: self.remaining_percent,
            reset_at: clone_opt_string(&self.reset_at),
            reset_countdown_seconds: self.reset_countdown_seconds,
        }
    }
}

impl QuotaReading {
    /// A reading with no field known.
    pub open spec fn empty_spec() -> QuotaReading {
        QuotaReading { remaining_percent: None, reset_at: None, reset_countdown_seconds: None }
    }

    pub fn empty() -> (r: QuotaReading)
        ensures
            r == QuotaReading::empty_spec(),
    {
        QuotaReading { remaining_percent: None, reset_at: None, reset_countdown_seconds: None }
    }

    /// Equal as values.
    pub open spec fn same_as(&self, other: &QuotaReading) -> bool {
        &&& self.remaining_percent == other.remaining_percent
        &&& same_opt_text(self.reset_at, other.reset_at)
        &&& self.reset_countdown_seconds == other.reset_countdown_seconds
    }

    pub fn equals(&self, other: &QuotaReading) -> (r: bool)
        ensures
            r == self.same_as(other),
    {
        self.remaining_percent == other.remaining_percent && equals_opt_text(
            &self.reset_at,
            &other.reset_at,
        ) && self.reset_countdown_seconds == other.reset_countdown_seconds
    }

    pub open spec fn has_usage_spec(&self) -> bool {
        self.remaining_percent is Some
    }

    #[verifier::when_used_as_spec(has_usage_spec)]
    pub fn has_usage(&self) -> (r: bool)
        ensures
            r == self.has_usage_spec(),
    {
        self.remaining_percent.is_some()
    }
}

/// Clones an optional string, keeping it equal to the original.
pub fn clone_opt_string(value: &Option<String>) -> (r: Option<String>)
    ensures
        r == *value,
{
    match value {
        Some(s) => Some(s.clone()),
        None => None,
    }
}

/// Clones a list of warnings, keeping it equal to the original.
pub fn clone_warnings(warnings: &Vec<ParseWarning>) -> (r: Vec<ParseWarning>)
    ensures
        r@ == warnings@,
{
    let mut r: Vec<ParseWarning> = Vec::new();
    let mut i: usize = 0;
    while i < warnings.len()
        invariant
            i <= warnings.len(),
            r@ == warnings@.take(i as int),
        decreases warnings.len() - i,
    {
        r.push(warnings[i].clone());
        proof {
            assert(warnings@.take(i as int + 1) == warnings@.take(i as int).push(warnings@[i as int]));
        }
        i += 1;
    }
    proof {
        assert(warnings@.take(warnings.len() as int) == warnings@);
    }
    r
}

#[derive(Debug)]
pub struct CodexSnapshot {
    pub id: String,
    pub source: SnapshotSource,
    pub captured_at: String,
    pub weekly: QuotaReading,
    pub plan_type: Option<String>,
    pub credits_balance: Option<String>,
    pub reset_credits_available: Option<u32>,
    pub raw_text: String,
    pub status_message: String,
    pub warnings: Vec<ParseWarning>,
}

/// The name under which the Codex snapshot type is also known.
pub type QuotaSnapshot = CodexSnapshot;

impl Clone for CodexSnapshot {
    fn clone(&self) -> (r: Self)
        ensures
            r.same_as(self),
    {
        CodexSnapshot {
            id: self.id.clone(),
            source: self.source,
            captured_at: self.captured_at.clone(),
            weekly: self.weekly.clone(),
            plan_type: clone_opt_string(&self.plan_type),
            credits_balance: clone_opt_string(&self.credits_balance),
            reset_credits_available: self.reset_credits_available,
            raw_text: self.raw_text.clone(),
            status_message: self.status_message.clone(),
            warnings: clone_warnings(&self.warnings),
        }
    }
}

impl CodexSnapshot {
    /// Equal as values.
    pub open spec fn same_as(&self, other: &CodexSnapshot) -> bool {
        &&& self.id@ == other.id@
        &&& self.source == other.source
        &&& self.captured_at@ == other.captured_at@
        &&& self.weekly.same_as(&other.weekly)
        &&& same_opt_text(self.plan_type, other.plan_type)
        &&& same_opt_text(self.credits_balance, other.credits_balance)
        &&& self.reset_credits_available == other.reset_credits_available
        &&& self.raw_text@ == other.raw_text@
        &&& self.status_message@ == other.status_message@
        &&& same_warnings(self.warnings@, other.warnings@)
    }

    pub fn equals(&self, other: &CodexSnapshot) -> (r: bool)
        ensures
            r == self.same_as(other),
    {
        self.id == other.id && self.source == other.source && self.captured_at == other.captured_at
            && self.weekly.equals(&other.weekly) && equals_opt_text(
            &self.plan_type,
            &other.plan_type,
        ) && equals_opt_text(&self.credits_balance, &other.credits_balance)
            && self.reset_credits_available == other.reset_credits_available && self.raw_text
            == other.raw_text && self.status_message == other.status_message && equals_warnings(
            &self.warnings,
            &other.warnings,
        )
    }

    pub open spec fn has_usage_spec(&self) -> bool {
        self.weekly.remaining_percent is Some
    }

    #[verifier::when_used_as_spec(has_usage_spec)]
    pub fn has_usage(&self) -> (r: bool)
        ensures
            r == self.has_usage_spec(),
    {
        self.weekly.has_usage()
    }
}

#[derive(Debug)]
pub struct DeepSeekBalance {
    pub currency: String,
    pub total_balance: String,
    pub granted_balance: String,
    pub topped_up_balance: String,
}

impl Clone for DeepSeekBalance {
    fn clone(&self) -> (r: Self)
        ensures
            r == *self,
    {
        DeepSeekBalance {
            currency: self.currency.clone(),
            total_balance: self.total_balance.clone(),
            granted_balance: self.granted_balance.clone(),
            topped_up_balance: self.topped_up_balance.clone(),
        }
    }
}

impl DeepSeekBalance {
    /// Equal as values.
    pub open spec fn same_as(&self, other: &DeepSeekBalance) -> bool {
        &&& self.currency@ == other.currency@
        &&& self.total_balance@ == other.total_balance@
        &&& self.granted_balance@ == other.granted_balance@
        &&& self.topped_up_balance@ == other.topped_up_balance@
    }

    pub fn equals(&self, other: &DeepSeekBalance) -> (r: bool)
        ensures
            r == self.same_as(other),
    {
        self.currency == other.currency && self.total_balance == other.total_balance
            && self.granted_balance == other.granted_balance && self.topped_up_balance
            == other.topped_up_balance
    }
}

#[derive(Debug)]
pub struct DeepSeekSnapshot {
    pub id: String,
    pub captured_at: String,
    pub is_available: bool,
    pub balances: Vec<DeepSeekBalance>,
}

impl Clone for DeepSeekSnapshot {
    fn clone(&self) -> (r: Self)
        ensures
            r.same_as(self),
    {
        let mut balances: Vec<DeepSeekBalance> = Vec::new();
        let mut i: usize = 0;
        while i < self.balances.len()
            invariant
                i <= self.balances.len(),
                balances@ == self.balances@.take(i as int),
            decreases self.balances.len() - i,
        {
            balances.push(self.balances[i].clone());
            proof {
                assert(self.balances@.take(i as int + 1) == self.balances@.take(i as int).push(
                    self.balances@[i as int],
                ));
            }
            i += 1;
        }
        proof {
            assert(self.balances@.take(self.balances.len() as int) == self.balances@);
        }
        DeepSeekSnapshot {
            id: self.id.clone(),
            captured_at: self.captured_at.clone(),
            is_available: self.is_available,
            balances,
        }
    }
}

impl DeepSeekSnapshot {
    /// Equal as values: every field, the balance list element by element.
    pub open spec fn same_as(&self, other: &DeepSeekSnapshot) -> bool {
        &&& self.id@ == other.id@
        &&& self.captured_at@ == other.captured_at@
        &&& self.is_available == other.is_available
        &&& self.balances.len() == other.balances.len()
        &&& forall|i: int|
            0 <= i < self.balances.len() ==> (#[trigger] self.balances@[i]).same_as(
                &other.balances@[i],
            )
    }

    pub fn equals(&self, other: &DeepSeekSnapshot) -> (r: bool)
        ensures
            r == self.same_as(other),
    {
        if !(self.id == other.id && self.captured_at == other.captured_at && self.is_available
            == other.is_available && self.balances.len() == other.balances.len()) {
            return false;
        }
        let mut i: usize = 0;
        while i < self.balances.len()
            invariant
                i <= self.balances.len(),
                self.balances.len() == other.balances.len(),
                forall|j: int| 0 <= j < i ==> (#[trigger] self.balances@[j]).same_as(&other.balances@[j]),
            decreases self.balances.len() - i,
        {
            if !self.balances[i].equals(&other.balances[i]) {
                return false;
            }
            i += 1;
        }
        true
    }
}

#[derive(Debug, Clone, Copy, PartialEq, Eq, Structural)]
pub enum KimiRegion {
    China,
}

#[derive(Debug)]
pub struct KimiSnapshot {
    pub id: String,
    pub captured_at: String,
    pub region: KimiRegion,
    pub currency: String,
    pub available_balance: String,
    pub cash_balance: String,
    pub voucher_balance: String,
}

impl Clone for KimiSnapshot {
    fn clone(&self) -> (r: Self)
        ensures
            r == *self,
    {
        KimiSnapshot {
            id: self.id.clone(),
            captured_at: self.captured_at.clone(),
            region: self.region,
            currency: self.currency.clone(),
            available_balance: self.available_balance.clone(),
            cash_balance: self.cash_balance.clone(),
            voucher_balance: self.voucher_balance.clone(),
        }
    }
}

impl KimiSnapshot {
    /// Equal as values.
    pub open spec fn same_as(&self, other: &KimiSnapshot) -> bool {
        &&& self.id@ == other.id@
        &&& self.captured_at@ == other.captured_at@
        &&& self.region == other.region
        &&& self.currency@ == other.currency@
        &&& self.available_balance@ == other.available_balance@
        &&& self.cash_balance@ == other.cash_balance@
        &&& self.voucher_balance@ == other.voucher_balance@
    }

    pub fn equals(&self, other: &KimiSnapshot) -> (r: bool)
        ensures
            r == self.same_as(other),
    {
        self.id == other.id && self.captured_at == other.captured_at && self.region == other.region
            && self.currency == other.currency && self.available_balance == other.available_balance
            && self.cash_balance == other.cash_balance && self.voucher_balance
            == other.voucher_balance
    }
}

#[derive(Debug)]
pub enum ProviderSnapshot {
    Codex(CodexSnapshot),
    DeepSeek(DeepSeekSnapshot),
    Kimi(KimiSnapshot),
}

impl Clone for ProviderSnapshot {
    fn clone(&self) -> (r: Self)
        ensures
            r.same_as(self),
    {
        match self {
            ProviderSnapshot::Codex(s) => ProviderSnapshot::Codex(s.clone()),
            ProviderSnapshot::DeepSeek(s) => ProviderSnapshot::DeepSeek(s.clone()),
            ProviderSnapshot::Kimi(s) => ProviderSnapshot::Kimi(s.clone()),
        }
    }
}

impl ProviderSnapshot {
    /// Equal as values.
    pub open spec fn same_as(&self, other: &ProviderSnapshot) -> bool {
        match (self, other) {
            (ProviderSnapshot::Codex(a), ProviderSnapshot::Codex(b)) => a.same_as(b),
            (ProviderSnapshot::DeepSeek(a), ProviderSnapshot::DeepSeek(b)) => a.same_as(b),
            (ProviderSnapshot::Kimi(a), ProviderSnapshot::Kimi(b)) => a.same_as(b),
            _ => false,
        }
    }

    pub fn equals(&self, other: &ProviderSnapshot) -> (r: bool)
        ensures
            r == self.same_as(other),
    {
        match (self, other) {
            (ProviderSnapshot::Codex(a), ProviderSnapshot::Codex(b)) => a.equals(b),
            (ProviderSnapshot::DeepSeek(a), ProviderSnapshot::DeepSeek(b)) => a.equals(b),
            (ProviderSnapshot::Kimi(a), ProviderSnapshot::Kimi(b)) => a.equals(b),
            _ => false,
        }
    }

    pub open spec fn provider_id_spec(&self) -> ProviderId {
        match self {
            ProviderSnapshot::Codex(_) => ProviderId::Codex,
            ProviderSnapshot::DeepSeek(_) => ProviderId::DeepSeek,
            ProviderSnapshot::Kimi(_) => ProviderId::Kimi,
        }
    }

    #[verifier::when_used_as_spec(provider_id_spec)]
    pub fn provider_id(&self) -> (r: ProviderId)
        ensures
            r == self.provider_id_spec(),
    {
        match self {
            ProviderSnapshot::Codex(_) => ProviderId::Codex,
            ProviderSnapshot::DeepSeek(_) => ProviderId::DeepSeek,
            ProviderSnapshot::Kimi(_) => ProviderId::Kimi,
        }
    }

    /// The capture time of the snapshot, whichever provider it belongs to.
    pub open spec fn captured_at_spec(&self) -> String {
        match self {
            ProviderSnapshot::Codex(s) => s.captured_at,
            ProviderSnapshot::DeepSeek(s) => s.captured_at,
            ProviderSnapshot::Kimi(s) => s.captured_at,
        }
    }

    pub fn captured_at(&self) -> (r: &str)
        ensures
            r@ == self.captured_at_spec()@,
    {
        match self {
            ProviderSnapshot::Codex(s) => s.captured_at.as_str(),
            ProviderSnapshot::DeepSeek(s) => s.captured_at.as_str(),
            ProviderSnapshot::Kimi(s) => s.captured_at.as_str(),
        }
    }

    /// A copy of the capture time of the snapshot.
    pub fn captured_at_string(&self) -> (r: String)
        ensures
            r == self.captured_at_spec(),
    {
        match self {
            ProviderSnapshot::Codex(s) => s.captured_at.clone(),
            ProviderSnapshot::DeepSeek(s) => s.captured_at.clone(),
            ProviderSnapshot::Kimi(s) => s.captured_at.clone(),
        }
    }

    pub open spec fn as_codex_spec(&self) -> Option<CodexSnapshot> {
        match self {
            ProviderSnapshot::Codex(s) => Some(*s),
            _ => None,
        }
    }

    pub fn as_codex(&self) -> (r: Option<&CodexSnapshot>)
        ensures
            r matches Some(s) ==> self.as_codex_spec() == Some(*s),
            r is None ==> self.as_codex_spec() is None,
    {
        match self {
            ProviderSnapshot::Codex(s) => Some(s),
            ProviderSnapshot::DeepSeek(_) => None,
            ProviderSnapshot::Kimi(_) => None,
        }
    }
}

/// Two optional snapshots equal as values (or both absent).
pub open spec fn same_opt_snapshot(a: Option<ProviderSnapshot>, b: Option<ProviderSnapshot>) -> bool {
    match (a, b) {
        (Some(x), Some(y)) => x.same_as(&y),
        (None, None) => true,
        _ => false,
    }
}

/// Two optional Codex snapshots equal as values (or both absent).
pub open spec fn same_opt_codex(a: Option<CodexSnapshot>, b: Option<CodexSnapshot>) -> bool {
    match (a, b) {
        (Some(x), Some(y)) => x.same_as(&y),
        (None, None) => true,
        _ => false,
    }
}

#[derive(Debug, Clone, Copy, PartialEq, Eq, Structural)]
pub enum ProviderHealth {
    NotConfigured,
    Idle,
    Fresh,
    Refreshing,
    Stale,
    Error,
}

#[derive(Debug, Clone, Copy, PartialEq, Eq, Structural)]
pub enum ProviderErrorCategory {
    NotConfigured,
    Busy,
    Unauthorized,
    InsufficientBalance,
    RateLimited,
    Timeout,
    Network,
    Server,
    InvalidResponse,
    CredentialStore,
}

#[derive(Debug)]
pub struct ProviderState {
    pub configured: bool,
    pub latest_snapshot: Option<ProviderSnapshot>,
    pub last_attempt_at: Option<String>,
    pub health: ProviderHealth,
    pub error_category: Option<ProviderErrorCategory>,
}

impl Clone for ProviderState {
    fn clone(&self) -> (r: Self)
        ensures
            r.same_as(self),
    {
        ProviderState {
            configured: self.configured,
            latest_snapshot: match &self.latest_snapshot {
                Some(s) => Some(s.clone()),
                None => None,
            },
            last_attempt_at: clone_opt_string(&self.last_attempt_at),
            health: self.health,
            error_category: self.error_category,
        }
    }
}

impl ProviderState {
    /// Equal as values.
    pub open spec fn same_as(&self, other: &ProviderState) -> bool {
        &&& self.configured == other.configured
        &&& same_opt_snapshot(self.latest_snapshot, other.latest_snapshot)
        &&& same_opt_text(self.last_attempt_at, other.last_attempt_at)
        &&& self.health == other.health
        &&& self.error_category == other.error_category
    }

    pub fn equals(&self, other: &ProviderState) -> (r: bool)
        ensures
            r == self.same_as(other),
    {
        let snapshots = match (&self.latest_snapshot, &other.latest_snapshot) {
            (Some(a), Some(b)) => a.equals(b),
            (None, None) => true,
            _ => false,
        };
        self.configured == other.configured && snapshots && equals_opt_text(
            &self.last_attempt_at,
            &other.last_attempt_at,
        ) && self.health == other.health && self.error_category == other.error_category
    }

    /// A configured provider with nothing known yet.
    pub open spec fn configured_spec() -> ProviderState {
        ProviderState {
            configured: true,
            latest_snapshot: None,
            last_attempt_at: None,
            health: ProviderHealth::Idle,
            error_category: None,
        }
    }

    /// A provider without a connection.
    pub open spec fn not_configured_spec() -> ProviderState {
        ProviderState {
            configured: false,
            latest_snapshot: None,
            last_attempt_at: None,
            health: ProviderHealth::NotConfigured,
            error_category: None,
        }
    }

    pub fn configured() -> (r: ProviderState)
        ensures
            r == ProviderState::configured_spec(),
    {
        ProviderState {
            configured: true,
            latest_snapshot: None,
            last_attempt_at: None,
            health: ProviderHealth::Idle,
            error_category: None,
        }
    }

    pub fn not_configured() -> (r: ProviderState)
        ensures
            r == ProviderState::not_configured_spec(),
    {
        ProviderState {
            configured: false,
            latest_snapshot: None,
            last_attempt_at: None,
            health: ProviderHealth::NotConfigured,
            error_category: None,
        }
    }

    /// The state after the consistency repair applied on every load: a snapshot
    /// filed under the wrong provider is dropped with its metadata, a missing
    /// attempt time is taken from the snapshot, and the health is made to agree
    /// with the configuration.
    pub open spec fn normalized_spec(self, provider_id: ProviderId) -> ProviderState {
        let s1 = match self.latest_snapshot {
            Some(snapshot) => if snapshot.provider_id_spec() != provider_id {
                ProviderState {
                    latest_snapshot: None,
                    last_attempt_at: None,
                    error_category: None,
                    health: if self.configured {
                        ProviderHealth::Idle
                    } else {
                        ProviderHealth::NotConfigured
                    },
                    ..self
                }
            } else {
                self
            },
            None => self,
        };
        let s2 = if s1.last_attempt_at is None {
            ProviderState {
                last_attempt_at: match s1.latest_snapshot {
                    Some(snapshot) => Some(snapshot.captured_at_spec()),
                    None => None,
                },
                ..s1
            }
        } else {
            s1
        };
        if !s2.configured {
            if s2.error_category == Some(ProviderErrorCategory::CredentialStore) {
                ProviderState {
                    health: if s2.latest_snapshot is Some {
                        ProviderHealth::Stale
                    } else {
                        ProviderHealth::Error
                    },
                    ..s2
                }
            } else {
                ProviderState {
                    health: ProviderHealth::NotConfigured,
                    error_category: None,
                    ..s2
                }
            }
        } else if s2.health == ProviderHealth::NotConfigured {
            ProviderState {
                health: if s2.latest_snapshot is Some {
                    ProviderHealth::Fresh
                } else {
                    ProviderHealth::Idle
                },
                ..s2
            }
        } else {
            s2
        }
    }

    fn normalize_for(&mut self, provider_id: ProviderId)
        ensures
            *final(self) == old(self).normalized_spec(provider_id),
    {
        let mismatched = match &self.latest_snapshot {
            Some(snapshot) => snapshot.provider_id() != provider_id,
            None => false,
        };
        if mismatched {
            self.latest_snapshot = None;
            self.last_attempt_at = None;
            self.error_category = None;
            self.health = if self.configured {
                ProviderHealth::Idle
            } else {
                ProviderHealth::NotConfigured
            };
        }
        if self.last_attempt_at.is_none() {
            self.last_attempt_at = match &self.latest_snapshot {
                Some(snapshot) => Some(snapshot.captured_at_string()),
                None => None,
            };
        }
        if !self.configured {
            if self.error_category == Some(ProviderErrorCategory::CredentialStore) {
                self.health = if self.latest_snapshot.is_some() {
                    ProviderHealth::Stale
                } else {
                    ProviderHealth::Error
                };
            } else {
                self.health = ProviderHealth::NotConfigured;
                self.error_category = None;
            }
        } else if self.health == ProviderHealth::NotConfigured {
            self.health = if self.latest_snapshot.is_some() {
                ProviderHealth::Fresh
            } else {
                ProviderHealth::Idle
            };
        }
    }
}

#[derive(Debug)]
pub struct ProviderStates {
    pub codex: ProviderState,
    pub deepseek: ProviderState,
    pub kimi: ProviderState,
}

impl Clone for ProviderStates {
    fn clone(&self) -> (r: Self)
        ensures
            r.same_as(self),
    {
        ProviderStates {
            codex: self.codex.clone(),
            deepseek: self.deepseek.clone(),
            kimi: self.kimi.clone(),
        }
    }
}

impl Default for ProviderStates {
    fn default() -> (r: Self)
        ensures
            r == ProviderStates::default_spec(),
    {
        ProviderStates {
            codex: ProviderState::configured(),
            deepseek: ProviderState::not_configured(),
            kimi: ProviderState::not_configured(),
        }
    }
}

impl ProviderStates {
    /// Equal as values.
    pub open spec fn same_as(&self, other: &ProviderStates) -> bool {
        &&& self.codex.same_as(&other.codex)
        &&& self.deepseek.same_as(&other.deepseek)
        &&& self.kimi.same_as(&other.kimi)
    }

    pub fn equals(&self, other: &ProviderStates) -> (r: bool)
        ensures
            r == self.same_as(other),
    {
        self.codex.equals(&other.codex) && self.deepseek.equals(&other.deepseek) && self.kimi.equals(
            &other.kimi,
        )
    }

    /// Codex configured, the balance providers not configured, nothing known yet.
    pub open spec fn default_spec() -> ProviderStates {
        ProviderStates {
            codex: ProviderState::configured_spec(),
            deepseek: ProviderState::not_configured_spec(),
            kimi: ProviderState::not_configured_spec(),
        }
    }

    pub open spec fn get_spec(&self, provider_id: ProviderId) -> ProviderState {
        match provider_id {
            ProviderId::Codex => self.codex,
            ProviderId::DeepSeek => self.deepseek,
            ProviderId::Kimi => self.kimi,
        }
    }

    /// The same states with the state of one provider replaced.
    pub open spec fn with_spec(&self, provider_id: ProviderId, state: ProviderState) -> ProviderStates {
        match provider_id {
            ProviderId::Codex => ProviderStates { codex: state, ..*self },
            ProviderId::DeepSeek => ProviderStates { deepseek: state, ..*self },
            ProviderId::Kimi => ProviderStates { kimi: state, ..*self },
        }
    }

    pub fn get(&self, provider_id: ProviderId) -> (r: &ProviderState)
        ensures
            *r == self.get_spec(provider_id),
    {
        match provider_id {
            ProviderId::Codex => &self.codex,
            ProviderId::DeepSeek => &self.deepseek,
            ProviderId::Kimi => &self.kimi,
        }
    }

    pub fn get_mut(&mut self, provider_id: ProviderId) -> (r: &mut ProviderState)
        ensures
            *r == old(self).get_spec(provider_id),
            *final(self) == old(self).with_spec(provider_id, *final(r)),
    {
        match provider_id {
            ProviderId::Codex => &mut self.codex,
            ProviderId::DeepSeek => &mut self.deepseek,
            ProviderId::Kimi => &mut self.kimi,
        }
    }

    pub open spec fn codex_snapshot_spec(&self) -> Option<CodexSnapshot> {
        match self.codex.latest_snapshot {
            Some(ProviderSnapshot::Codex(s)) => Some(s),
            _ => None,
        }
    }

    pub fn codex_snapshot(&self) -> (r: Option<&CodexSnapshot>)
        ensures
            r matches Some(s) ==> self.codex_snapshot_spec() == Some(*s),
            r is None ==> self.codex_snapshot_spec() is None,
    {
        match &self.codex.latest_snapshot {
            Some(snapshot) => snapshot.as_codex(),
            None => None,
        }
    }

    /// The states after the consistency repair: Codex is always configured, and
    /// every provider is repaired on its own (`ProviderState::normalized_spec`).
    pub open spec fn normalized_spec(self) -> ProviderStates {
        ProviderStates {
            codex: ProviderState { configured: true, ..self.codex }.normalized_spec(ProviderId::Codex),
            deepseek: self.deepseek.normalized_spec(ProviderId::DeepSeek),
            kimi: self.kimi.normalized_spec(ProviderId::Kimi),
        }
    }

    pub fn normalize(&mut self)
        ensures
            *final(self) == old(self).normalized_spec(),
    {
        self.codex.configured = true;
        self.codex.normalize_for(ProviderId::Codex);
        self.deepseek.normalize_for(ProviderId::DeepSeek);
        self.kimi.normalize_for(ProviderId::Kimi);
    }
}

#[derive(Debug, Clone, Copy, PartialEq, Eq, Structural)]
pub enum StorageStatus {
    Ready,
    Missing,
    Recovered,
    UnsupportedVersion,
}

#[derive(Debug)]
pub struct UsageHistoryPoint {
    pub captured_at: String,
    pub weekly_remaining_percent: Option<u8>,
}

impl Clone for UsageHistoryPoint {
    fn clone(&self) -> (r: Self)
        ensures
            r == *self,
    {
        UsageHistoryPoint {
            captured_at: self.captured_at.clone(),
            weekly_remaining_percent: self.weekly_remaining_percent,
        }
    }
}

impl UsageHistoryPoint {
    /// Equal as values.
    pub open spec fn same_as(&self, other: &UsageHistoryPoint) -> bool {
        self.captured_at@ == other.captured_at@ && self.weekly_remaining_percent
            == other.weekly_remaining_percent
    }

    pub fn equals(&self, other: &UsageHistoryPoint) -> (r: bool)
        ensures
            r == self.same_as(other),
    {
        self.captured_at == other.captured_at && self.weekly_remaining_percent
            == other.weekly_remaining_percent
    }

    /// The history point that a Codex snapshot yields.
    pub open spec fn from_snapshot_spec(snapshot: CodexSnapshot) -> UsageHistoryPoint {
        UsageHistoryPoint {
            captured_at: snapshot.captured_at,
            weekly_remaining_percent: snapshot.weekly.remaining_percent,
        }
    }

    pub fn from_snapshot(snapshot: &CodexSnapshot) -> (r: UsageHistoryPoint)
        ensures
            r == UsageHistoryPoint::from_snapshot_spec(*snapshot),
    {
        UsageHistoryPoint {
            captured_at: snapshot.captured_at.clone(),
            weekly_remaining_percent: snapshot.weekly.remaining_percent,
        }
    }
}

/// Two histories equal point by point.
pub open spec fn same_history(a: Seq<UsageHistoryPoint>, b: Seq<UsageHistoryPoint>) -> bool {
    a.len() == b.len() && forall|i: int| 0 <= i < a.len() ==> (#[trigger] a[i]).same_as(&b[i])
}

pub fn equals_history(a: &Vec<UsageHistoryPoint>, b: &Vec<UsageHistoryPoint>) -> (r: bool)
    ensures
        r == same_history(a@, b@),
{
    if a.len() != b.len() {
        return false;
    }
    let mut i: usize = 0;
    while i < a.len()
        invariant
            i <= a.len(),
            a.len() == b.len(),
            forall|j: int| 0 <= j < i ==> (#[trigger] a@[j]).same_as(&b@[j]),
        decreases a.len() - i,
    {
        if !a[i].equals(&b[i]) {
            return false;
        }
        i += 1;
    }
    true
}

/// Whether a provider occurs in a list.
pub fn contains_provider(ids: &Vec<ProviderId>, id: ProviderId) -> (r: bool)
    ensures
        r == ids@.contains(id),
{
    let mut i: usize = 0;
    while i < ids.len()
        invariant
            i <= ids.len(),
            forall|j: int| 0 <= j < i ==> ids@[j] != id,
        decreases ids.len() - i,
    {
        if ids[i] == id {
            proof {
                assert(ids@[i as int] == id);
            }
            return true;
        }
        i += 1;
    }
    false
}

/// Whether two provider lists hold the same providers in the same order.
pub fn equals_provider_ids(a: &Vec<ProviderId>, b: &Vec<ProviderId>) -> (r: bool)
    ensures
        r == (a@ == b@),
{
    if a.len() != b.len() {
        return false;
    }
    let mut i: usize = 0;
    while i < a.len()
        invariant
            i <= a.len(),
            a.len() == b.len(),
            forall|j: int| 0 <= j < i ==> a@[j] == b@[j],
        decreases a.len() - i,
    {
        if a[i] != b[i] {
            return false;
        }
        i += 1;
    }
    proof {
        assert(a@ =~= b@);
    }
    true
}

/// The provider as a one-element list when it is selected and configured, else nothing.
pub open spec fn floating_entry(id: ProviderId, selected: Seq<ProviderId>, providers: ProviderStates) -> Seq<ProviderId> {
    if selected.contains(id) && providers.get_spec(id).configured {
        seq![id]
    } else {
        seq![]
    }
}

/// The floating-bar selection after normalization: the selected and configured
/// providers, each once, in the fixed order; Codex alone when none remains.
pub open spec fn floating_selection(selected: Seq<ProviderId>, providers: ProviderStates) -> Seq<ProviderId> {
    let chosen = floating_entry(ProviderId::Codex, selected, providers) + floating_entry(
        ProviderId::DeepSeek,
        selected,
        providers,
    ) + floating_entry(ProviderId::Kimi, selected, providers);
    if chosen.len() == 0 {
        seq![ProviderId::Codex]
    } else {
        chosen
    }
}

#[derive(Debug)]
pub struct AppSettings {
    pub automatic_update_checks: bool,
    pub low_quota_notifications: bool,
    pub floating_provider_ids: Vec<ProviderId>,
}

impl Clone for AppSettings {
    fn clone(&self) -> (r: Self)
        ensures
            r.same_as(self),
    {
        AppSettings {
            automatic_update_checks: self.automatic_update_checks,
            low_quota_notifications: self.low_quota_notifications,
            floating_provider_ids: self.floating_provider_ids.clone(),
        }
    }
}

impl Default for AppSettings {
    fn default() -> (r: Self)
        ensures
            r.automatic_update_checks,
            !r.low_quota_notifications,
            r.floating_provider_ids@ == seq![ProviderId::Codex],
    {
        let mut ids: Vec<ProviderId> = Vec::new();
        ids.push(ProviderId::Codex);
        AppSettings {
            automatic_update_checks: true,
            low_quota_notifications: false,
            floating_provider_ids: ids,
        }
    }
}

impl AppSettings {
    /// Equal as values.
    pub open spec fn same_as(&self, other: &AppSettings) -> bool {
        &&& self.automatic_update_checks == other.automatic_update_checks
        &&& self.low_quota_notifications == other.low_quota_notifications
        &&& self.floating_provider_ids@ == other.floating_provider_ids@
    }

    pub fn equals(&self, other: &AppSettings) -> (r: bool)
        ensures
            r == self.same_as(other),
    {
        self.automatic_update_checks == other.automatic_update_checks
            && self.low_quota_notifications == other.low_quota_notifications
            && equals_provider_ids(&self.floating_provider_ids, &other.floating_provider_ids)
    }

    /// Whether these are the default settings.
    pub open spec fn is_default(&self) -> bool {
        &&& self.automatic_update_checks
        &&& !self.low_quota_notifications
        &&& self.floating_provider_ids@ == seq![ProviderId::Codex]
    }

    pub fn normalize_floating_provider_ids(&mut self, providers: &ProviderStates)
        ensures
            final(self).floating_provider_ids@ == floating_selection(
                old(self).floating_provider_ids@,
                *providers,
            ),
            final(self).automatic_update_checks == old(self).automatic_update_checks,
            final(self).low_quota_notifications == old(self).low_quota_notifications,
    {
        let mut chosen: Vec<ProviderId> = Vec::new();
        let ghost selected = self.floating_provider_ids@;
        if contains_provider(&self.floating_provider_ids, ProviderId::Codex)
            && providers.get(ProviderId::Codex).configured {
            chosen.push(ProviderId::Codex);
        }
        proof {
            assert(chosen@ =~= floating_entry(ProviderId::Codex, selected, *providers));
        }
        if contains_provider(&self.floating_provider_ids, ProviderId::DeepSeek)
            && providers.get(ProviderId::DeepSeek).configured {
            chosen.push(ProviderId::DeepSeek);
        }
        proof {
            assert(chosen@ =~= floating_entry(ProviderId::Codex, selected, *providers)
                + floating_entry(ProviderId::DeepSeek, selected, *providers));
        }
        if contains_provider(&self.floating_provider_ids, ProviderId::Kimi)
            && providers.get(ProviderId::Kimi).configured {
            chosen.push(ProviderId::Kimi);
        }
        proof {
            assert(chosen@ =~= floating_entry(ProviderId::Codex, selected, *providers)
                + floating_entry(ProviderId::DeepSeek, selected, *providers) + floating_entry(
                ProviderId::Kimi,
                selected,
                *providers,
            ));
        }
        if chosen.len() == 0 {
            chosen.push(ProviderId::Codex);
            proof {
                assert(chosen@ =~= seq![ProviderId::Codex]);
            }
        }
        self.floating_provider_ids = chosen;
    }
}

#[derive(Debug)]
pub struct RecoveryNotice {
    pub status: StorageStatus,
    pub message: String,
    pub backup_path: String,
}

impl Clone for RecoveryNotice {
    fn clone(&self) -> (r: Self)
        ensures
            r == *self,
    {
        RecoveryNotice {
            status: self.status,
            message: self.message.clone(),
            backup_path: self.backup_path.clone(),
        }
    }
}

impl RecoveryNotice {
    /// Equal as values.
    pub open spec fn same_as(&self, other: &RecoveryNotice) -> bool {
        self.status == other.status && self.message@ == other.message@ && self.backup_path@
            == other.backup_path@
    }

    pub fn equals(&self, other: &RecoveryNotice) -> (r: bool)
        ensures
            r == self.same_as(other),
    {
        self.status == other.status && self.message == other.message && self.backup_path
            == other.backup_path
    }
}

/// Two optional recovery notices equal as values (or both absent).
pub open spec fn same_opt_notice(a: Option<RecoveryNotice>, b: Option<RecoveryNotice>) -> bool {
    match (a, b) {
        (Some(x), Some(y)) => x.same_as(&y),
        (None, None) => true,
        _ => false,
    }
}

#[derive(Debug)]
pub struct StoredState {
    pub version: u32,
    pub revision: u64,
    pub providers: ProviderStates,
    pub history: Vec<UsageHistoryPoint>,
    pub settings: AppSettings,
    pub recovery_notice: Option<RecoveryNotice>,
}

impl Clone for StoredState {
    fn clone(&self) -> (r: Self)
        ensures
            r.same_as(self),
    {
        let mut history: Vec<UsageHistoryPoint> = Vec::new();
        let mut i: usize = 0;
        while i < self.history.len()
            invariant
                i <= self.history.len(),
                history@ == self.history@.take(i as int),
            decreases self.history.len() - i,
        {
            history.push(self.history[i].clone());
            proof {
                assert(self.history@.take(i as int + 1) == self.history@.take(i as int).push(
                    self.history@[i as int],
                ));
            }
            i += 1;
        }
        proof {
            assert(self.history@.take(self.history.len() as int) == self.history@);
        }
        StoredState {
            version: self.version,
            revision: self.revision,
            providers: self.providers.clone(),
            history,
            settings: self.settings.clone(),
            recovery_notice: match &self.recovery_notice {
                Some(n) => Some(n.clone()),
                None => None,
            },
        }
    }
}

impl Default for StoredState {
    fn default() -> (r: Self)
        ensures
            r.is_default_spec(),
    {
        StoredState {
            version: STATE_VERSION,
            revision: 0,
            providers: ProviderStates::default(),
            history: Vec::new(),
            settings: AppSettings::default(),
            recovery_notice: None,
        }
    }
}

impl StoredState {
    /// Equal as values.
    pub open spec fn same_as(&self, other: &StoredState) -> bool {
        &&& self.version == other.version
        &&& self.revision == other.revision
        &&& self.providers.same_as(&other.providers)
        &&& same_history(self.history@, other.history@)
        &&& self.settings.same_as(&other.settings)
        &&& same_opt_notice(self.recovery_notice, other.recovery_notice)
    }

    pub fn equals(&self, other: &StoredState) -> (r: bool)
        ensures
            r == self.same_as(other),
    {
        let notices = match (&self.recovery_notice, &other.recovery_notice) {
            (Some(a), Some(b)) => a.equals(b),
            (None, None) => true,
            _ => false,
        };
        self.version == other.version && self.revision == other.revision && self.providers.equals(
            &other.providers,
        ) && equals_history(&self.history, &other.history) && self.settings.equals(&other.settings)
            && notices
    }

    /// The state of a fresh installation: current version, revision 0, default
    /// providers, no history, default settings, no recovery notice.
    pub open spec fn is_default_spec(&self) -> bool {
        &&& self.version == STATE_VERSION
        &&& self.revision == 0
        &&& self.providers == ProviderStates::default_spec()
        &&& self.history@.len() == 0
        &&& self.settings.is_default()
        &&& self.recovery_notice is None
    }
}

#[derive(Debug)]
pub struct AppState {
    pub version: u32,
    pub revision: u64,
    pub providers: ProviderStates,
    pub latest_snapshot: Option<CodexSnapshot>,
    pub storage_status: StorageStatus,
    pub storage_path: Option<String>,
    pub backup_path: Option<String>,
    pub status_message: String,
    pub history: Vec<UsageHistoryPoint>,
    pub settings: AppSettings,
    pub recovery_notice: Option<RecoveryNotice>,
}

impl Clone for AppState {
    fn clone(&self) -> (r: Self)
        ensures
            r.same_as(self),
    {
        let stored = StoredState {
            version: self.version,
            revision: self.revision,
            providers: self.providers.clone(),
            history: Vec::new(),
            settings: self.settings.clone(),
            recovery_notice: None,
        };
        let mut history: Vec<UsageHistoryPoint> = Vec::new();
        let mut i: usize = 0;
        while i < self.history.len()
            invariant
                i <= self.history.len(),
                history@ == self.history@.take(i as int),
            decreases self.history.len() - i,
        {
            history.push(self.history[i].clone());
            proof {
                assert(self.history@.take(i as int + 1) == self.history@.take(i as int).push(
                    self.history@[i as int],
                ));
            }
            i += 1;
        }
        proof {
            assert(self.history@.take(self.history.len() as int) == self.history@);
        }
        AppState {
            version: self.version,
            revision: self.revision,
            providers: stored.providers,
            latest_snapshot: match &self.latest_snapshot {
                Some(s) => Some(s.clone()),
                None => None,
            },
            storage_status: self.storage_status,
            storage_path: clone_opt_string(&self.storage_path),
            backup_path: clone_opt_string(&self.backup_path),
            status_message: self.status_message.clone(),
            history,
            settings: stored.settings,
            recovery_notice: match &self.recovery_notice {
                Some(n) => Some(n.clone()),
                None => None,
            },
        }
    }
}

impl AppState {
    /// Equal as values.
    pub open spec fn same_as(&self, other: &AppState) -> bool {
        &&& self.version == other.version
        &&& self.revision == other.revision
        &&& self.providers.same_as(&other.providers)
        &&& same_opt_codex(self.latest_snapshot, other.latest_snapshot)
        &&& self.storage_status == other.storage_status
        &&& same_opt_text(self.storage_path, other.storage_path)
        &&& same_opt_text(self.backup_path, other.backup_path)
        &&& self.status_message@ == other.status_message@
        &&& same_history(self.history@, other.history@)
        &&& self.settings.same_as(&other.settings)
        &&& same_opt_notice(self.recovery_notice, other.recovery_notice)
    }

    /// The text of the status line: the recovery notice's message when there is
    /// one, else the Codex snapshot's status message, else the default message.
    pub open spec fn status_message_spec(notice: Option<RecoveryNotice>, latest: Option<CodexSnapshot>) -> Seq<char> {
        match notice {
            Some(n) => n.message@,
            None => match latest {
                Some(s) => s.status_message@,
                None => DEFAULT_STATUS_MESSAGE@,
            },
        }
    }

    /// Whether `r` is the view of `stored` that the front end gets: the stored
    /// state with its providers and floating selection normalized, a copy of the
    /// Codex snapshot, the status line, and the backup path of the recovery
    /// notice (or the given one when there is no notice).
    pub open spec fn is_view_of(
        r: AppState,
        stored: StoredState,
        storage_status: StorageStatus,
        storage_path: Option<String>,
        backup_path: Option<String>,
    ) -> bool {
        &&& r.version == stored.version
        &&& r.revision == stored.revision
        &&& r.providers == stored.providers.normalized_spec()
        &&& same_opt_codex(r.latest_snapshot, r.providers.codex_snapshot_spec())
        &&& r.storage_status == storage_status
        &&& r.storage_path == storage_path
        &&& r.backup_path == match stored.recovery_notice {
            Some(n) => Some(n.backup_path),
            None => backup_path,
        }
        &&& r.status_message@ == AppState::status_message_spec(
            stored.recovery_notice,
            r.providers.codex_snapshot_spec(),
        )
        &&& r.history == stored.history
        &&& r.settings.automatic_update_checks == stored.settings.automatic_update_checks
        &&& r.settings.low_quota_notifications == stored.settings.low_quota_notifications
        &&& r.settings.floating_provider_ids@ == floating_selection(
            stored.settings.floating_provider_ids@,
            r.providers,
        )
        &&& r.recovery_notice == stored.recovery_notice
    }

    /// The view of a stored state that the front end gets: the stored state with
    /// its providers and floating selection normalized, a copy of the Codex
    /// snapshot, the status line, and the backup path of the recovery notice
    /// (or the given one when there is no notice).
    pub fn from_stored(
        stored: StoredState,
        storage_status: StorageStatus,
        storage_path: Option<String>,
        backup_path: Option<String>,
    ) -> (r: AppState)
        ensures
            AppState::is_view_of(r, stored, storage_status, storage_path, backup_path),
    {
        let mut stored = stored;
        stored.providers.normalize();
        stored.settings.normalize_floating_provider_ids(&stored.providers);
        let latest_snapshot = match stored.providers.codex_snapshot() {
            Some(s) => Some(s.clone()),
            None => None,
        };
        let status_message = match &stored.recovery_notice {
            Some(notice) => notice.message.clone(),
            None => match &latest_snapshot {
                Some(snapshot) => snapshot.status_message.clone(),
                None => lit(DEFAULT_STATUS_MESSAGE),
            },
        };
        let backup_path = match &stored.recovery_notice {
            Some(notice) => Some(notice.backup_path.clone()),
            None => backup_path,
        };
        AppState {
            version: stored.version,
            revision: stored.revision,
            providers: stored.providers,
            latest_snapshot,
            storage_status,
            storage_path,
            backup_path,
            status_message,
            history: stored.history,
            settings: stored.settings,
            recovery_notice: stored.recovery_notice,
        }
    }
}

#[derive(Debug)]
pub struct RefreshUsageResult {
    pub app_state: AppState,
    pub updated: bool,
    pub message: String,
}

#[derive(Debug, Clone, Copy, PartialEq, Eq, Structural)]
pub enum ProviderRefreshOutcome {
    Updated,
    Unchanged,
    Skipped,
    Failed,
}

#[derive(Debug)]
pub struct ProviderRefreshResult {
    pub provider_id: ProviderId,
    pub outcome: ProviderRefreshOutcome,
    pub message: String,
    pub error_category: Option<ProviderErrorCategory>,
}

impl Clone for ProviderRefreshResult {
    fn clone(&self) -> (r: Self)
        ensures
            r == *self,
    {
        ProviderRefreshResult {
            provider_id: self.provider_id,
            outcome: self.outcome,
            message: self.message.clone(),
            error_category: self.error_category,
        }
    }
}

#[derive(Debug)]
pub struct RefreshProvidersResult {
    pub app_state: AppState,
    pub provider_results: Vec<ProviderRefreshResult>,
    pub any_updated: bool,
    pub message: String,
}

#[derive(Debug)]
pub struct SettingsPatch {
    pub automatic_update_checks: Option<bool>,
    pub low_quota_notifications: Option<bool>,
    pub floating_provider_ids: Option<Vec<ProviderId>>,
}

impl Default for SettingsPatch {
    fn default() -> (r: Self)
        ensures
            r.automatic_update_checks is None,
            r.low_quota_notifications is None,
            r.floating_provider_ids is None,
    {
        SettingsPatch {
            automatic_update_checks: None,
            low_quota_notifications: None,
            floating_provider_ids: None,
        }
    }
}

#[derive(Debug)]
pub struct AppDiagnostics {
    pub app_version: String,
    pub codex_path: Option<String>,
    pub codex_version: Option<String>,
    pub latest_source: Option<SnapshotSource>,
    pub latest_success_at: Option<String>,
    pub storage_path: Option<String>,
    pub storage_status: StorageStatus,
    pub startup_enabled: bool,
    pub signed_updates_enabled: bool,
}

} // verus!
