//! The persisted state: how it is loaded, migrated, repaired and changed. Reading
//! and writing the file is left to the caller; every decision about the state is here.
use crate::models::{
    AppSettings, AppState, CodexSnapshot, ParseWarning, ProviderErrorCategory, ProviderHealth,
    ProviderId, ProviderSnapshot, ProviderState, ProviderStates, QuotaReading, QuotaSnapshot,
    RecoveryNotice, SettingsPatch, SnapshotSource, StorageStatus, StoredState, UsageHistoryPoint,
    STATE_VERSION, floating_entry, floating_selection,
};
use crate::text::{
    all_digits, chars_of, digits_value, lit, parse_digits_up_to, slice_vec, starts_with,
    starts_with_chars, trim, trim_ws,
};
use vstd::prelude::*;

verus! {

broadcast use vstd::string::group_string_axioms;

/// The state versions that are migrated on load.
pub const PREVIOUS_STATE_VERSIONS: [u32; 3] = [2, 3, 4];

/// The most history points kept.
pub const MAX_HISTORY_POINTS: usize = 672;

/// The shortest interval, in seconds, between two history points with the same value.
pub const HISTORY_SAMPLE_INTERVAL_SECONDS: i64 = 900;

/// The most backup files kept beside the state file.
pub const MAX_BACKUP_FILES: usize = 3;

/// A failure to load or save the state, with its message.
#[derive(Debug)]
pub struct StoreError {
    message: String,
}

impl StoreError {
    pub closed spec fn message_spec(&self) -> Seq<char> {
        self.message@
    }

    pub fn new(message: String) -> (r: StoreError)
        ensures
            r.message_spec() == message@,
    {
        StoreError { message }
    }

    pub fn to_string(&self) -> (r: String)
        ensures
            r@ == self.message_spec(),
    {
        self.message.clone()
    }
}

// ---------------------------------------------------------------------------
// Numbers in stamps
// ---------------------------------------------------------------------------

/// `i64::from_str`: an optional sign, then decimal digits whose value fits.
pub open spec fn parse_i64_spec(s: Seq<char>) -> Option<i64> {
    let negative = s.len() > 0 && s[0] == '-';
    let digits = if s.len() > 0 && (s[0] == '+' || s[0] == '-') {
        s.skip(1)
    } else {
        s
    };
    if digits.len() == 0 || !all_digits(digits) {
        None
    } else if negative {
        if digits_value(digits) <= 0x8000_0000_0000_0000 {
            Some((-(digits_value(digits) as int)) as i64)
        } else {
            None
        }
    } else if digits_value(digits) <= 0x7fff_ffff_ffff_ffff {
        Some(digits_value(digits) as i64)
    } else {
        None
    }
}

pub fn parse_i64_text(s: &[char]) -> (r: Option<i64>)
    ensures
        r == parse_i64_spec(s@),
{
    let negative = s.len() > 0 && s[0] == '-';
    let digits = if s.len() > 0 && (s[0] == '+' || s[0] == '-') {
        slice_vec(s, 1, s.len())
    } else {
        slice_vec(s, 0, s.len())
    };
    proof {
        if s@.len() > 0 && (s@[0] == '+' || s@[0] == '-') {
            assert(digits@ =~= s@.skip(1));
        } else {
            assert(digits@ =~= s@);
        }
    }
    let mut i: usize = 0;
    while i < digits.len()
        invariant
            i <= digits@.len(),
            digits@ == (if s@.len() > 0 && (s@[0] == '+' || s@[0] == '-') {
                s@.skip(1)
            } else {
                s@
            }),
            forall|j: int| 0 <= j < i ==> crate::text::is_ascii_digit(#[trigger] digits@[j]),
        decreases digits.len() - i,
    {
        if !crate::text::ascii_digit(digits[i]) {
            proof {
                assert(!crate::text::is_ascii_digit(digits@[i as int]));
                assert(!all_digits(digits@));
            }
            return None;
        }
        i += 1;
    }
    if digits.len() == 0 {
        return None;
    }
    if negative {
        match parse_digits_up_to(&digits, 0x8000_0000_0000_0000) {
            Some(v) => {
                if v == 0x8000_0000_0000_0000 {
                    Some(i64::MIN)
                } else {
                    Some(0i64 - (v as i64))
                }
            },
            None => None,
        }
    } else {
        match parse_digits_up_to(&digits, 0x7fff_ffff_ffff_ffff) {
            Some(v) => Some(v as i64),
            None => None,
        }
    }
}

/// The seconds of a `unix:SECONDS` stamp (the number may be padded with whitespace).
pub open spec fn unix_seconds_spec(value: Seq<char>) -> Option<i64> {
    if starts_with(value, "unix:"@) {
        parse_i64_spec(trim(value.skip("unix:"@.len() as int)))
    } else {
        None
    }
}

pub fn unix_seconds(value: &str) -> (r: Option<i64>)
    ensures
        r == unix_seconds_spec(value@),
{
    let text = chars_of(value);
    let prefix = chars_of("unix:");
    if !starts_with_chars(&text, &prefix) {
        return None;
    }
    let rest = slice_vec(&text, prefix.len(), text.len());
    proof {
        assert(rest@ =~= value@.skip("unix:"@.len() as int));
    }
    parse_i64_text(&trim_ws(&rest))
}

// ---------------------------------------------------------------------------
// History
// ---------------------------------------------------------------------------

/// Whether a new history point is kept after `previous`: its value changed, or
/// at least the sampling interval passed (by `unix:` stamps, with 64-bit
/// wrap-around), or, for other stamps, the stamp changed.
pub open spec fn should_record_history_spec(previous: UsageHistoryPoint, next: UsageHistoryPoint) -> bool {
    if previous.weekly_remaining_percent != next.weekly_remaining_percent {
        true
    } else {
        match (unix_seconds_spec(previous.captured_at@), unix_seconds_spec(next.captured_at@)) {
            (Some(p), Some(n)) => n.wrapping_sub(p) >= HISTORY_SAMPLE_INTERVAL_SECONDS,
            _ => previous.captured_at@ != next.captured_at@,
        }
    }
}

pub fn should_record_history(previous: &UsageHistoryPoint, next: &UsageHistoryPoint) -> (r: bool)
    ensures
        r == should_record_history_spec(*previous, *next),
{
    if previous.weekly_remaining_percent != next.weekly_remaining_percent {
        return true;
    }
    match (unix_seconds(previous.captured_at.as_str()), unix_seconds(next.captured_at.as_str())) {
        (Some(p), Some(n)) => n.wrapping_sub(p) >= HISTORY_SAMPLE_INTERVAL_SECONDS,
        _ => previous.captured_at != next.captured_at,
    }
}

/// The history after a Codex snapshot: a snapshot with a reading adds its
/// point when `should_record_history_spec` allows, and only the newest
/// `MAX_HISTORY_POINTS` points are kept.
pub open spec fn append_history_spec(history: Seq<UsageHistoryPoint>, snapshot: CodexSnapshot) -> Seq<
    UsageHistoryPoint,
> {
    let next = UsageHistoryPoint::from_snapshot_spec(snapshot);
    if !snapshot.has_usage_spec() {
        history
    } else if history.len() > 0 && !should_record_history_spec(history.last(), next) {
        history
    } else {
        let h = history.push(next);
        if h.len() > MAX_HISTORY_POINTS {
            h.skip(h.len() - MAX_HISTORY_POINTS)
        } else {
            h
        }
    }
}

pub fn append_history(history: &mut Vec<UsageHistoryPoint>, snapshot: &CodexSnapshot)
    ensures
        final(history)@ == append_history_spec(old(history)@, *snapshot),
{
    if !snapshot.has_usage() {
        return;
    }
    let next = UsageHistoryPoint::from_snapshot(snapshot);
    if history.len() > 0 && !should_record_history(&history[history.len() - 1], &next) {
        return;
    }
    history.push(next);
    if history.len() > MAX_HISTORY_POINTS {
        let excess = history.len() - MAX_HISTORY_POINTS;
        let mut kept: Vec<UsageHistoryPoint> = Vec::new();
        let mut i: usize = excess;
        while i < history.len()
            invariant
                excess <= i <= history@.len(),
                kept@ == history@.subrange(excess as int, i as int),
            decreases history.len() - i,
        {
            kept.push(history[i].clone());
            proof {
                assert(history@.subrange(excess as int, i + 1) =~= history@.subrange(
                    excess as int,
                    i as int,
                ).push(history@[i as int]));
            }
            i += 1;
        }
        proof {
            assert(kept@ =~= history@.skip(excess as int));
        }
        *history = kept;
    }
}

/// Appending keeps a history within `MAX_HISTORY_POINTS` points.
pub proof fn lemma_history_stays_bounded(history: Seq<UsageHistoryPoint>, snapshot: CodexSnapshot)
    requires
        history.len() <= MAX_HISTORY_POINTS,
    ensures
        append_history_spec(history, snapshot).len() <= MAX_HISTORY_POINTS,
{
}

/// A recorded point ends the history.
pub proof fn lemma_recorded_point_is_last(history: Seq<UsageHistoryPoint>, snapshot: CodexSnapshot)
    requires
        snapshot.has_usage_spec(),
        history.len() == 0 || should_record_history_spec(
            history.last(),
            UsageHistoryPoint::from_snapshot_spec(snapshot),
        ),
    ensures
        append_history_spec(history, snapshot).len() > 0,
        append_history_spec(history, snapshot).last() == UsageHistoryPoint::from_snapshot_spec(
            snapshot,
        ),
{
}

// ---------------------------------------------------------------------------
// Small transitions
// ---------------------------------------------------------------------------

pub open spec fn status_after_mutation_spec(status: StorageStatus) -> StorageStatus {
    match status {
        StorageStatus::Recovered => StorageStatus::Recovered,
        StorageStatus::UnsupportedVersion => StorageStatus::UnsupportedVersion,
        StorageStatus::Ready | StorageStatus::Missing => StorageStatus::Ready,
    }
}

/// The storage status after a change was saved: a recovery stays visible,
/// a missing file becomes ready.
pub fn status_after_mutation(status: StorageStatus) -> (r: StorageStatus)
    ensures
        r == status_after_mutation_spec(status),
{
    match status {
        StorageStatus::Recovered => StorageStatus::Recovered,
        StorageStatus::UnsupportedVersion => StorageStatus::UnsupportedVersion,
        StorageStatus::Ready | StorageStatus::Missing => StorageStatus::Ready,
    }
}

/// Counts a change of the state (saturating at the largest revision).
pub fn bump_revision(state: &mut StoredState)
    ensures
        final(state).revision == old(state).revision.saturating_add(1),
        final(state).version == old(state).version,
        final(state).providers == old(state).providers,
        final(state).history == old(state).history,
        final(state).settings == old(state).settings,
        final(state).recovery_notice == old(state).recovery_notice,
{
    state.revision = state.revision.saturating_add(1);
}

/// The message of the notice for a recovery of the given kind.
pub open spec fn recovery_message(status: StorageStatus) -> Seq<char> {
    match status {
        StorageStatus::Recovered => "本地状态文件损坏，已备份并恢复默认状态。"@,
        StorageStatus::UnsupportedVersion => "本地状态版本不兼容，已备份并重建状态。"@,
        StorageStatus::Ready | StorageStatus::Missing => "本地状态已恢复。"@,
    }
}

/// The default state with a notice that the file was set aside as `backup_path`.
pub fn recovered_state(status: StorageStatus, backup_path: &str) -> (r: StoredState)
    ensures
        r.version == STATE_VERSION,
        r.revision == 0,
        r.providers == ProviderStates::default_spec(),
        r.history@.len() == 0,
        r.settings.is_default(),
        r.recovery_notice matches Some(n) && n.status == status && n.message@ == recovery_message(
            status,
        ) && n.backup_path@ == backup_path@,
{
    let message = match status {
        StorageStatus::Recovered => lit("本地状态文件损坏，已备份并恢复默认状态。"),
        StorageStatus::UnsupportedVersion => lit("本地状态版本不兼容，已备份并重建状态。"),
        StorageStatus::Ready | StorageStatus::Missing => lit("本地状态已恢复。"),
    };
    let mut state = StoredState::default();
    state.recovery_notice = Some(RecoveryNotice { status, message, backup_path: lit(backup_path) });
    state
}

/// How a state file's version is handled.
#[derive(Debug, Clone, Copy, PartialEq, Eq, Structural)]
pub enum VersionHandling {
    Current,
    Migrate,
    Unsupported,
}

pub open spec fn version_handling_spec(version: u32) -> VersionHandling {
    if version == STATE_VERSION {
        VersionHandling::Current
    } else if version == 2 || version == 3 || version == 4 {
        VersionHandling::Migrate
    } else {
        VersionHandling::Unsupported
    }
}

/// The handling of a state file's version: the current one is read as is, the
/// previous ones are migrated, any other is unsupported.
pub fn version_handling(version: u32) -> (r: VersionHandling)
    ensures
        r == version_handling_spec(version),
{
    if version == STATE_VERSION {
        return VersionHandling::Current;
    }
    let mut i: usize = 0;
    while i < 3
        invariant
            i <= 3,
            PREVIOUS_STATE_VERSIONS@ == seq![2u32, 3u32, 4u32],
            forall|j: int| 0 <= j < i ==> PREVIOUS_STATE_VERSIONS@[j] != version,
        decreases 3 - i,
    {
        if PREVIOUS_STATE_VERSIONS[i] == version {
            return VersionHandling::Migrate;
        }
        i += 1;
    }
    VersionHandling::Unsupported
}


/// How a state file is read, from the version found in it: the current
/// version as is, a previous one by migration, and anything else (no version
/// found, the text unreadable, or an unknown version) by setting the file
/// aside and starting over with a notice.
#[derive(Debug, Clone, Copy, PartialEq, Eq, Structural)]
pub enum LoadPlan {
    ReadCurrent,
    Migrate,
    Recover(StorageStatus),
}

pub open spec fn load_plan_spec(version: Option<u32>) -> LoadPlan {
    match version {
        None => LoadPlan::Recover(StorageStatus::Recovered),
        Some(v) => match version_handling_spec(v) {
            VersionHandling::Current => LoadPlan::ReadCurrent,
            VersionHandling::Migrate => LoadPlan::Migrate,
            VersionHandling::Unsupported => LoadPlan::Recover(StorageStatus::UnsupportedVersion),
        },
    }
}

/// The plan for reading a state file whose version was found (`None` when the
/// file is not text or names no version).
pub fn load_plan(version: Option<u32>) -> (r: LoadPlan)
    ensures
        r == load_plan_spec(version),
{
    match version {
        None => LoadPlan::Recover(StorageStatus::Recovered),
        Some(v) => match version_handling(v) {
            VersionHandling::Current => LoadPlan::ReadCurrent,
            VersionHandling::Migrate => LoadPlan::Migrate,
            VersionHandling::Unsupported => LoadPlan::Recover(StorageStatus::UnsupportedVersion),
        },
    }
}

/// The word naming why a state file was set aside, used in its backup's name.
pub fn backup_reason(status: StorageStatus) -> (r: &'static str)
    ensures
        r@ == if status == StorageStatus::UnsupportedVersion {
            "unsupported"@
        } else {
            "corrupt"@
        },
{
    if status == StorageStatus::UnsupportedVersion {
        "unsupported"
    } else {
        "corrupt"
    }
}

// ---------------------------------------------------------------------------
// Repair of a loaded state
// ---------------------------------------------------------------------------

/// `after` is `before` with the raw text of its Codex snapshot (if any) emptied.
pub open spec fn raw_text_cleared(before: ProviderState, after: ProviderState) -> bool {
    &&& after.configured == before.configured
    &&& after.last_attempt_at == before.last_attempt_at
    &&& after.health == before.health
    &&& after.error_category == before.error_category
    &&& match (before.latest_snapshot, after.latest_snapshot) {
        (Some(ProviderSnapshot::Codex(x)), Some(ProviderSnapshot::Codex(y))) => y == CodexSnapshot {
            raw_text: y.raw_text,
            ..x
        } && y.raw_text@.len() == 0,
        (a, b) => !(a matches Some(ProviderSnapshot::Codex(_))) && a == b,
    }
}

/// Empties the raw text of a provider's Codex snapshot.
pub fn clear_codex_raw_text(state: &mut ProviderState)
    ensures
        raw_text_cleared(*old(state), *final(state)),
{
    let taken = state.latest_snapshot.take();
    state.latest_snapshot = match taken {
        Some(ProviderSnapshot::Codex(snapshot)) => {
            let mut snapshot = snapshot;
            snapshot.raw_text = String::new();
            Some(ProviderSnapshot::Codex(snapshot))
        },
        other => other,
    };
}

/// Whether `after` is `state` repaired as on every load and save: the current
/// version, the providers normalized, no raw Codex output, and the floating
/// selection normalized.
pub open spec fn normalized_state(state: StoredState, after: StoredState) -> bool {
    let providers = state.providers.normalized_spec();
    &&& after.version == STATE_VERSION
    &&& after.revision == state.revision
    &&& raw_text_cleared(providers.codex, after.providers.codex)
    &&& after.providers.deepseek == providers.deepseek
    &&& after.providers.kimi == providers.kimi
    &&& after.history == state.history
    &&& after.settings.automatic_update_checks == state.settings.automatic_update_checks
    &&& after.settings.low_quota_notifications == state.settings.low_quota_notifications
    &&& after.settings.floating_provider_ids@ == floating_selection(
        state.settings.floating_provider_ids@,
        after.providers,
    )
    &&& after.recovery_notice == state.recovery_notice
}

pub fn normalize_state(state: &mut StoredState)
    ensures
        normalized_state(*old(state), *final(state)),
{
    state.version = STATE_VERSION;
    state.providers.normalize();
    clear_codex_raw_text(&mut state.providers.codex);
    state.settings.normalize_floating_provider_ids(&state.providers);
}

/// Applies a settings patch: each given field replaces the setting, and the
/// floating selection is normalized against the providers.
pub fn apply_settings_patch(settings: &mut AppSettings, providers: &ProviderStates, patch: SettingsPatch)
    ensures
        final(settings).automatic_update_checks == match patch.automatic_update_checks {
            Some(v) => v,
            None => old(settings).automatic_update_checks,
        },
        final(settings).low_quota_notifications == match patch.low_quota_notifications {
            Some(v) => v,
            None => old(settings).low_quota_notifications,
        },
        final(settings).floating_provider_ids@ == floating_selection(
            match patch.floating_provider_ids {
                Some(v) => v@,
                None => old(settings).floating_provider_ids@,
            },
            *providers,
        ),
{
    if let Some(enabled) = patch.automatic_update_checks {
        settings.automatic_update_checks = enabled;
    }
    if let Some(enabled) = patch.low_quota_notifications {
        settings.low_quota_notifications = enabled;
    }
    if let Some(provider_ids) = patch.floating_provider_ids {
        settings.floating_provider_ids = provider_ids;
    }
    settings.normalize_floating_provider_ids(providers);
}

// ---------------------------------------------------------------------------
// The store
// ---------------------------------------------------------------------------

/// A loaded (or just written) state, with where it lives.
#[derive(Debug)]
pub struct LoadOutcome {
    pub state: StoredState,
    pub status: StorageStatus,
    pub path: String,
    pub backup_path: Option<String>,
}

impl LoadOutcome {
    /// The state as the front end sees it.
    pub fn into_app_state(self) -> (r: AppState)
        ensures
            AppState::is_view_of(r, self.state, self.status, Some(self.path), self.backup_path),
    {
        AppState::from_stored(self.state, self.status, Some(self.path), self.backup_path)
    }
}

/// The state file of the app, by its path.
#[derive(Debug)]
pub struct UsageStore {
    path: String,
}

impl Clone for UsageStore {
    fn clone(&self) -> (r: Self)
        ensures
            r.path_spec() == self.path_spec(),
    {
        UsageStore { path: self.path.clone() }
    }
}

/// The revision after a change that may or may not have altered the state.
pub open spec fn revision_after(before: StoredState, after: StoredState) -> u64 {
    if after.same_as(&before) {
        before.revision
    } else {
        before.revision.saturating_add(1)
    }
}

/// A provider's state after its configuration is set: Codex stays configured;
/// a configured provider is stale with a snapshot and idle without one.
pub open spec fn configured_state(p: ProviderState, configured: bool) -> ProviderState {
    ProviderState {
        configured,
        error_category: None,
        health: if configured {
            if p.latest_snapshot is Some {
                ProviderHealth::Stale
            } else {
                ProviderHealth::Idle
            }
        } else {
            ProviderHealth::NotConfigured
        },
        ..p
    }
}

/// The providers after the configuration facts `configs[..k]`: Codex and
/// providers whose configuration is unchanged are left alone.
pub open spec fn sync_fold(providers: ProviderStates, configs: Seq<(ProviderId, bool)>, k: int) -> ProviderStates
    decreases k,
{
    if k <= 0 {
        providers
    } else {
        let prev = sync_fold(providers, configs, k - 1);
        let (id, configured) = configs[k - 1];
        if id == ProviderId::Codex || prev.get_spec(id).configured == configured {
            prev
        } else {
            prev.with_spec(id, configured_state(prev.get_spec(id), configured))
        }
    }
}

#[derive(Debug)]
pub enum ProviderRefreshMutationKind {
    Updated(ProviderSnapshot),
    Failed { category: ProviderErrorCategory, configured: Option<bool> },
    NotConfigured,
}

/// What one provider's refresh changes in the state.
#[derive(Debug)]
pub struct ProviderRefreshMutation {
    pub provider_id: ProviderId,
    pub attempted_at: String,
    pub kind: ProviderRefreshMutationKind,
}

/// The providers and history after one refresh result.
pub open spec fn refresh_step(
    providers: ProviderStates,
    history: Seq<UsageHistoryPoint>,
    m: ProviderRefreshMutation,
) -> (ProviderStates, Seq<UsageHistoryPoint>) {
    let p = providers.get_spec(m.provider_id);
    match m.kind {
        ProviderRefreshMutationKind::Updated(snapshot) => if snapshot.provider_id_spec()
            != m.provider_id {
            (providers, history)
        } else {
            let h = match snapshot {
                ProviderSnapshot::Codex(s) => append_history_spec(history, s),
                _ => history,
            };
            (
                providers.with_spec(
                    m.provider_id,
                    ProviderState {
                        configured: true,
                        latest_snapshot: Some(snapshot),
                        last_attempt_at: Some(m.attempted_at),
                        health: ProviderHealth::Fresh,
                        error_category: None,
                    },
                ),
                h,
            )
        },
        ProviderRefreshMutationKind::Failed { category, configured } => (
            providers.with_spec(
                m.provider_id,
                ProviderState {
                    configured: match configured {
                        Some(c) => c,
                        None => p.configured,
                    },
                    last_attempt_at: Some(m.attempted_at),
                    health: if p.latest_snapshot is Some {
                        ProviderHealth::Stale
                    } else {
                        ProviderHealth::Error
                    },
                    error_category: Some(category),
                    ..p
                },
            ),
            history,
        ),
        ProviderRefreshMutationKind::NotConfigured => {
            let configured = if m.provider_id != ProviderId::Codex {
                false
            } else {
                p.configured
            };
            (
                providers.with_spec(
                    m.provider_id,
                    ProviderState {
                        configured,
                        health: if configured {
                            ProviderHealth::Idle
                        } else {
                            ProviderHealth::NotConfigured
                        },
                        error_category: None,
                        ..p
                    },
                ),
                history,
            )
        },
    }
}

/// The providers and history after the refresh results `ms[..k]`.
pub open spec fn refresh_fold(
    providers: ProviderStates,
    history: Seq<UsageHistoryPoint>,
    ms: Seq<ProviderRefreshMutation>,
    k: int,
) -> (ProviderStates, Seq<UsageHistoryPoint>)
    decreases k,
{
    if k <= 0 {
        (providers, history)
    } else {
        let (p, h) = refresh_fold(providers, history, ms, k - 1);
        refresh_step(p, h, ms[k - 1])
    }
}

/// `after` is the refresh result `m` with the raw text of a Codex snapshot emptied.
pub open spec fn mutation_without_raw_text(m: ProviderRefreshMutation, after: ProviderRefreshMutation) -> bool {
    &&& after.provider_id == m.provider_id
    &&& after.attempted_at == m.attempted_at
    &&& match (m.kind, after.kind) {
        (
            ProviderRefreshMutationKind::Updated(ProviderSnapshot::Codex(x)),
            ProviderRefreshMutationKind::Updated(ProviderSnapshot::Codex(y)),
        ) => y == CodexSnapshot { raw_text: y.raw_text, ..x } && y.raw_text@.len() == 0,
        (a, b) => !(a matches ProviderRefreshMutationKind::Updated(ProviderSnapshot::Codex(_))) && a
            == b,
    }
}

fn without_raw_text(m: ProviderRefreshMutation) -> (r: ProviderRefreshMutation)
    ensures
        mutation_without_raw_text(m, r),
{
    match m.kind {
        ProviderRefreshMutationKind::Updated(ProviderSnapshot::Codex(snapshot)) => {
            let mut snapshot = snapshot;
            snapshot.raw_text = String::new();
            ProviderRefreshMutation {
                provider_id: m.provider_id,
                attempted_at: m.attempted_at,
                kind: ProviderRefreshMutationKind::Updated(ProviderSnapshot::Codex(snapshot)),
            }
        },
        kind => ProviderRefreshMutation { provider_id: m.provider_id, attempted_at: m.attempted_at, kind },
    }
}

fn apply_refresh(providers: &mut ProviderStates, history: &mut Vec<UsageHistoryPoint>, m: ProviderRefreshMutation)
    ensures
        (*final(providers), final(history)@) == refresh_step(*old(providers), old(history)@, m),
{
    let ghost m0 = m;
    let provider_id = m.provider_id;
    let provider = providers.get_mut(provider_id);
    match m.kind {
        ProviderRefreshMutationKind::Updated(snapshot) => {
            if snapshot.provider_id() != provider_id {
                return;
            }
            if let ProviderSnapshot::Codex(codex) = &snapshot {
                append_history(history, codex);
            }
            provider.configured = true;
            provider.latest_snapshot = Some(snapshot);
            provider.last_attempt_at = Some(m.attempted_at);
            provider.health = ProviderHealth::Fresh;
            provider.error_category = None;
        },
        ProviderRefreshMutationKind::Failed { category, configured } => {
            if let Some(configured) = configured {
                provider.configured = configured;
            }
            provider.last_attempt_at = Some(m.attempted_at);
            provider.health = if provider.latest_snapshot.is_some() {
                ProviderHealth::Stale
            } else {
                ProviderHealth::Error
            };
            provider.error_category = Some(category);
        },
        ProviderRefreshMutationKind::NotConfigured => {
            if provider_id != ProviderId::Codex {
                provider.configured = false;
            }
            provider.health = if provider.configured {
                ProviderHealth::Idle
            } else {
                ProviderHealth::NotConfigured
            };
            provider.error_category = None;
        },
    }
}

impl UsageStore {
    pub closed spec fn path_spec(&self) -> Seq<char> {
        self.path@
    }

    pub fn new(path: String) -> (r: UsageStore)
        ensures
            r.path_spec() == path@,
    {
        UsageStore { path }
    }

    pub fn path(&self) -> (r: &str)
        ensures
            r@ == self.path_spec(),
    {
        self.path.as_str()
    }

    fn outcome(&self, state: StoredState, status: StorageStatus, backup_path: Option<String>) -> (r:
        LoadOutcome)
        ensures
            r.state == state,
            r.status == status,
            r.path@ == self.path_spec(),
            r.backup_path == backup_path,
    {
        LoadOutcome { state, status, path: self.path.clone(), backup_path }
    }

    /// The outcome of loading when there is no state file: the default state.
    pub fn missing(&self) -> (r: LoadOutcome)
        ensures
            r.state.is_default_spec(),
            r.status == StorageStatus::Missing,
            r.path@ == self.path_spec(),
            r.backup_path is None,
    {
        self.outcome(StoredState::default(), StorageStatus::Missing, None)
    }

    /// The outcome of loading a file that could not be used and was set aside
    /// as `backup_path`: the default state with a recovery notice. It is to be saved.
    pub fn recovered(&self, status: StorageStatus, backup_path: String) -> (r: LoadOutcome)
        ensures
            r.state.version == STATE_VERSION,
            r.state.revision == 0,
            r.state.providers == ProviderStates::default_spec(),
            r.state.history@.len() == 0,
            r.state.settings.is_default(),
            r.state.recovery_notice matches Some(n) && n.status == status && n.message@
                == recovery_message(status) && n.backup_path@ == backup_path@,
            r.status == status,
            r.path@ == self.path_spec(),
            r.backup_path matches Some(b) && b@ == backup_path@,
    {
        let state = recovered_state(status, backup_path.as_str());
        self.outcome(state, status, Some(backup_path))
    }

    /// The outcome of loading a state that was read (`migrated` when it came
    /// from a previous version): the state repaired, its status and backup taken
    /// from its recovery notice; the flag says whether it is to be saved.
    pub fn finish_load(&self, state: StoredState, migrated: bool) -> (r: (LoadOutcome, bool))
        ensures
            normalized_state(state, r.0.state),
            r.0.status == match state.recovery_notice {
                Some(n) => n.status,
                None => StorageStatus::Ready,
            },
            r.0.backup_path == match state.recovery_notice {
                Some(n) => Some(n.backup_path),
                None => None::<String>,
            },
            r.0.path@ == self.path_spec(),
            r.1 == (migrated || !r.0.state.same_as(&state)),
    {
        let before = state.clone();
        let mut state = state;
        normalize_state(&mut state);
        let changed = !state.equals(&before);
        let status = match &state.recovery_notice {
            Some(notice) => notice.status,
            None => StorageStatus::Ready,
        };
        let backup_path = match &state.recovery_notice {
            Some(notice) => Some(notice.backup_path.clone()),
            None => None,
        };
        proof {
            lemma_same_as_symmetric(before, state);
        }
        (self.outcome(state, status, backup_path), migrated || changed)
    }

    /// Saves the settings patch: each given field replaces the setting, and the
    /// floating selection is normalized against the providers.
    pub fn update_settings(&self, loaded: LoadOutcome, patch: SettingsPatch) -> (r: LoadOutcome)
        ensures
            r.status == status_after_mutation_spec(loaded.status),
            r.backup_path == loaded.backup_path,
            r.path@ == self.path_spec(),
            r.state.version == loaded.state.version,
            r.state.providers == loaded.state.providers,
            r.state.history == loaded.state.history,
            r.state.recovery_notice == loaded.state.recovery_notice,
            r.state.settings.automatic_update_checks == match patch.automatic_update_checks {
                Some(v) => v,
                None => loaded.state.settings.automatic_update_checks,
            },
            r.state.settings.low_quota_notifications == match patch.low_quota_notifications {
                Some(v) => v,
                None => loaded.state.settings.low_quota_notifications,
            },
            r.state.settings.floating_provider_ids@ == floating_selection(
                match patch.floating_provider_ids {
                    Some(v) => v@,
                    None => loaded.state.settings.floating_provider_ids@,
                },
                loaded.state.providers,
            ),
            r.state.revision == if r.state.settings.same_as(&loaded.state.settings) {
                loaded.state.revision
            } else {
                loaded.state.revision.saturating_add(1)
            },
    {
        let status = status_after_mutation(loaded.status);
        let backup_path = loaded.backup_path;
        let mut state = loaded.state;
        let before = state.settings.clone();
        apply_settings_patch(&mut state.settings, &state.providers, patch);
        if !state.settings.equals(&before) {
            bump_revision(&mut state);
        }
        proof {
            assert(state.settings.same_as(&before) == state.settings.same_as(&loaded.state.settings));
        }
        self.outcome(state, status, backup_path)
    }

    /// Records whether a provider has a credential (Codex is always configured).
    pub fn set_provider_configured(&self, loaded: LoadOutcome, provider_id: ProviderId, configured: bool) -> (r:
        LoadOutcome)
        ensures
            r.status == status_after_mutation_spec(loaded.status),
            r.backup_path == loaded.backup_path,
            r.path@ == self.path_spec(),
            ({
                let providers = loaded.state.providers.with_spec(
                    provider_id,
                    configured_state(
                        loaded.state.providers.get_spec(provider_id),
                        configured || provider_id == ProviderId::Codex,
                    ),
                );
                &&& r.state.providers == providers
                &&& r.state.version == loaded.state.version
                &&& r.state.history == loaded.state.history
                &&& r.state.recovery_notice == loaded.state.recovery_notice
                &&& r.state.settings.automatic_update_checks
                    == loaded.state.settings.automatic_update_checks
                &&& r.state.settings.low_quota_notifications
                    == loaded.state.settings.low_quota_notifications
                &&& r.state.settings.floating_provider_ids@ == floating_selection(
                    loaded.state.settings.floating_provider_ids@,
                    providers,
                )
            }),
            r.state.revision == revision_after(
                loaded.state,
                (StoredState { revision: loaded.state.revision, ..r.state }),
            ),
    {
        let status = status_after_mutation(loaded.status);
        let backup_path = loaded.backup_path;
        let mut state = loaded.state;
        let before = state.clone();
        let provider = state.providers.get_mut(provider_id);
        let now_configured = configured || provider_id == ProviderId::Codex;
        provider.configured = now_configured;
        provider.error_category = None;
        provider.health = if now_configured {
            if provider.latest_snapshot.is_some() {
                ProviderHealth::Stale
            } else {
                ProviderHealth::Idle
            }
        } else {
            ProviderHealth::NotConfigured
        };
        state.settings.normalize_floating_provider_ids(&state.providers);
        let ghost unbumped = state;
        if !state.equals(&before) {
            bump_revision(&mut state);
        }
        proof {
            lemma_same_as_symmetric(before, unbumped);
            lemma_same_as_transfer(before, loaded.state, unbumped);
            assert(unbumped == StoredState { revision: loaded.state.revision, ..state });
        }
        self.outcome(state, status, backup_path)
    }

    /// Records the configuration facts read from the credential store (in
    /// order; Codex is ignored). The flag says whether the state changed and is
    /// to be saved.
    pub fn sync_provider_configurations(&self, loaded: LoadOutcome, configurations: &[(ProviderId, bool)]) -> (r: (
        LoadOutcome,
        bool,
    ))
        ensures
            r.0.status == status_after_mutation_spec(loaded.status),
            r.0.backup_path == loaded.backup_path,
            r.0.path@ == self.path_spec(),
            ({
                let providers = sync_fold(
                    loaded.state.providers,
                    configurations@,
                    configurations@.len() as int,
                );
                &&& r.0.state.providers == providers
                &&& r.0.state.version == loaded.state.version
                &&& r.0.state.history == loaded.state.history
                &&& r.0.state.recovery_notice == loaded.state.recovery_notice
                &&& r.0.state.settings.automatic_update_checks
                    == loaded.state.settings.automatic_update_checks
                &&& r.0.state.settings.low_quota_notifications
                    == loaded.state.settings.low_quota_notifications
                &&& r.0.state.settings.floating_provider_ids@ == floating_selection(
                    loaded.state.settings.floating_provider_ids@,
                    providers,
                )
            }),
            r.1 == !(StoredState { revision: loaded.state.revision, ..r.0.state }).same_as(
                &loaded.state,
            ),
            r.0.state.revision == revision_after(
                loaded.state,
                (StoredState { revision: loaded.state.revision, ..r.0.state }),
            ),
    {
        let status = status_after_mutation(loaded.status);
        let backup_path = loaded.backup_path;
        let mut state = loaded.state;
        let before = state.clone();
        let mut k: usize = 0;
        while k < configurations.len()
            invariant
                k <= configurations@.len(),
                state.providers == sync_fold(loaded.state.providers, configurations@, k as int),
                state.version == loaded.state.version,
                state.revision == loaded.state.revision,
                state.history == loaded.state.history,
                state.settings == loaded.state.settings,
                state.recovery_notice == loaded.state.recovery_notice,
            decreases configurations.len() - k,
        {
            let (provider_id, configured) = configurations[k];
            if provider_id != ProviderId::Codex {
                let provider = state.providers.get_mut(provider_id);
                if provider.configured != configured {
                    provider.configured = configured;
                    provider.error_category = None;
                    provider.health = if configured {
                        if provider.latest_snapshot.is_some() {
                            ProviderHealth::Stale
                        } else {
                            ProviderHealth::Idle
                        }
                    } else {
                        ProviderHealth::NotConfigured
                    };
                }
            }
            k += 1;
        }
        state.settings.normalize_floating_provider_ids(&state.providers);
        let ghost unbumped = state;
        let changed = !state.equals(&before);
        if changed {
            bump_revision(&mut state);
        }
        proof {
            lemma_same_as_symmetric(before, unbumped);
            lemma_same_as_transfer(before, loaded.state, unbumped);
            assert(unbumped == StoredState { revision: loaded.state.revision, ..state });
        }
        (self.outcome(state, status, backup_path), changed)
    }

    /// Records the results of provider refreshes, in order: a snapshot filed
    /// under another provider is ignored, Codex snapshots lose their raw text
    /// and add to the history, and the floating selection is normalized.
    pub fn apply_provider_refreshes(&self, loaded: LoadOutcome, mutations: Vec<ProviderRefreshMutation>) -> (r:
        LoadOutcome)
        ensures
            r.status == status_after_mutation_spec(loaded.status),
            r.backup_path == loaded.backup_path,
            r.path@ == self.path_spec(),
            exists|stripped: Seq<ProviderRefreshMutation>|
                #![trigger refresh_fold(loaded.state.providers, loaded.state.history@, stripped, stripped.len() as int)]
                {
                    &&& stripped.len() == mutations@.len()
                    &&& forall|i: int|
                        0 <= i < stripped.len() ==> mutation_without_raw_text(
                            #[trigger] mutations@[i],
                            stripped[i],
                        )
                    &&& ({
                        let (providers, history) = refresh_fold(
                            loaded.state.providers,
                            loaded.state.history@,
                            stripped,
                            stripped.len() as int,
                        );
                        &&& r.state.providers == providers
                        &&& r.state.history@ == history
                        &&& r.state.settings.floating_provider_ids@ == floating_selection(
                            loaded.state.settings.floating_provider_ids@,
                            providers,
                        )
                    })
                },
            r.state.version == loaded.state.version,
            r.state.recovery_notice == loaded.state.recovery_notice,
            r.state.settings.automatic_update_checks == loaded.state.settings.automatic_update_checks,
            r.state.settings.low_quota_notifications == loaded.state.settings.low_quota_notifications,
            r.state.revision == revision_after(
                loaded.state,
                (StoredState { revision: loaded.state.revision, ..r.state }),
            ),
    {
        let status = status_after_mutation(loaded.status);
        let backup_path = loaded.backup_path;
        let mut state = loaded.state;
        let before = state.clone();
        let ghost mut stripped: Seq<ProviderRefreshMutation> = seq![];
        let mut mutations = mutations;
        let ghost all = mutations@;
        let mut k: usize = 0;
        proof {
            assert(mutations@ =~= all.subrange(0, all.len() as int));
            assert(all.len() == mutations.len());
        }
        while mutations.len() > 0
            invariant
                k + mutations@.len() == all.len(),
                all.len() <= usize::MAX,
                mutations@ == all.subrange(k as int, all.len() as int),
                stripped.len() == k,
                forall|i: int| 0 <= i < k ==> mutation_without_raw_text(#[trigger] all[i], stripped[i]),
                (state.providers, state.history@) == refresh_fold(
                    loaded.state.providers,
                    loaded.state.history@,
                    stripped,
                    k as int,
                ),
                state.version == loaded.state.version,
                state.revision == loaded.state.revision,
                state.settings == loaded.state.settings,
                state.recovery_notice == loaded.state.recovery_notice,
            decreases mutations.len(),
        {
            let m = mutations.remove(0);
            proof {
                assert(m == all[k as int]);
            }
            let cleared = without_raw_text(m);
            let ghost prev = stripped;
            proof {
                stripped = stripped.push(cleared);
                assert(stripped.drop_last() =~= prev);
                lemma_refresh_fold_prefix(loaded.state.providers, loaded.state.history@, prev, stripped, k as int);
            }
            apply_refresh(&mut state.providers, &mut state.history, cleared);
            k += 1;
            proof {
                assert(mutations@ =~= all.subrange(k as int, all.len() as int));
            }
        }
        state.settings.normalize_floating_provider_ids(&state.providers);
        let ghost unbumped = state;
        if !state.equals(&before) {
            bump_revision(&mut state);
        }
        proof {
            lemma_same_as_symmetric(before, unbumped);
            lemma_same_as_transfer(before, loaded.state, unbumped);
            assert(unbumped == StoredState { revision: loaded.state.revision, ..state });
        }
        self.outcome(state, status, backup_path)
    }

    /// Dismisses the recovery notice.
    pub fn acknowledge_recovery(&self, loaded: LoadOutcome) -> (r: LoadOutcome)
        ensures
            r.status == StorageStatus::Ready,
            r.backup_path is None,
            r.path@ == self.path_spec(),
            r.state.recovery_notice is None,
            r.state.version == loaded.state.version,
            r.state.providers == loaded.state.providers,
            r.state.history == loaded.state.history,
            r.state.settings == loaded.state.settings,
            r.state.revision == if loaded.state.recovery_notice is Some {
                loaded.state.revision.saturating_add(1)
            } else {
                loaded.state.revision
            },
    {
        let mut state = loaded.state;
        let changed = state.recovery_notice.is_some();
        state.recovery_notice = None;
        if changed {
            bump_revision(&mut state);
        }
        self.outcome(state, StorageStatus::Ready, None)
    }

    /// Records a Codex snapshot as the latest reading (without its raw text).
    pub fn save_snapshot(&self, loaded: LoadOutcome, snapshot: QuotaSnapshot) -> (r: LoadOutcome)
        ensures
            r.status == status_after_mutation_spec(loaded.status),
            r.backup_path == loaded.backup_path,
            r.path@ == self.path_spec(),
            r.state.version == STATE_VERSION,
            r.state.revision == loaded.state.revision.saturating_add(1),
            r.state.history@ == append_history_spec(loaded.state.history@, snapshot),
            r.state.providers.deepseek == loaded.state.providers.deepseek,
            r.state.providers.kimi == loaded.state.providers.kimi,
            r.state.providers.codex.configured,
            r.state.providers.codex.last_attempt_at matches Some(t) && t@ == snapshot.captured_at@,
            r.state.providers.codex.latest_snapshot matches Some(ProviderSnapshot::Codex(s)) && s
                == (CodexSnapshot { raw_text: s.raw_text, ..snapshot }) && s.raw_text@.len() == 0,
            r.state.providers.codex.health == ProviderHealth::Fresh,
            r.state.providers.codex.error_category is None,
            r.state.settings == loaded.state.settings,
            r.state.recovery_notice == loaded.state.recovery_notice,
    {
        let status = status_after_mutation(loaded.status);
        let backup_path = loaded.backup_path;
        let mut state = loaded.state;
        let mut snapshot = snapshot;
        snapshot.raw_text = String::new();
        append_history(&mut state.history, &snapshot);
        state.version = STATE_VERSION;
        state.providers.codex.configured = true;
        state.providers.codex.last_attempt_at = Some(snapshot.captured_at.clone());
        state.providers.codex.latest_snapshot = Some(ProviderSnapshot::Codex(snapshot));
        state.providers.codex.health = ProviderHealth::Fresh;
        state.providers.codex.error_category = None;
        bump_revision(&mut state);
        self.outcome(state, status, backup_path)
    }

    /// Forgets the Codex snapshot and the history.
    pub fn clear_snapshot(&self, loaded: LoadOutcome) -> (r: LoadOutcome)
        ensures
            r.status == status_after_mutation_spec(loaded.status),
            r.backup_path == loaded.backup_path,
            r.path@ == self.path_spec(),
            r.state.version == loaded.state.version,
            r.state.revision == loaded.state.revision.saturating_add(1),
            r.state.history@.len() == 0,
            r.state.providers == loaded.state.providers.with_spec(
                ProviderId::Codex,
                (ProviderState {
                    latest_snapshot: None,
                    last_attempt_at: None,
                    health: ProviderHealth::Idle,
                    error_category: None,
                    ..loaded.state.providers.codex
                }),
            ),
            r.state.settings == loaded.state.settings,
            r.state.recovery_notice == loaded.state.recovery_notice,
    {
        let status = status_after_mutation(loaded.status);
        let backup_path = loaded.backup_path;
        let mut state = loaded.state;
        state.providers.codex.latest_snapshot = None;
        state.providers.codex.last_attempt_at = None;
        state.providers.codex.health = ProviderHealth::Idle;
        state.providers.codex.error_category = None;
        state.history = Vec::new();
        bump_revision(&mut state);
        self.outcome(state, status, backup_path)
    }
}

pub proof fn lemma_refresh_fold_prefix(
    providers: ProviderStates,
    history: Seq<UsageHistoryPoint>,
    shorter: Seq<ProviderRefreshMutation>,
    longer: Seq<ProviderRefreshMutation>,
    k: int,
)
    requires
        0 <= k <= shorter.len(),
        shorter.len() <= longer.len(),
        forall|i: int| 0 <= i < shorter.len() ==> longer[i] == shorter[i],
    ensures
        refresh_fold(providers, history, longer, k) == refresh_fold(providers, history, shorter, k),
    decreases k,
{
    if k > 0 {
        lemma_refresh_fold_prefix(providers, history, shorter, longer, k - 1);
    }
}

proof fn lemma_same_as_symmetric(a: StoredState, b: StoredState)
    ensures
        a.same_as(&b) == b.same_as(&a),
{
    if a.same_as(&b) {
        assert forall|i: int| 0 <= i < b.history@.len() implies (#[trigger] b.history@[i]).same_as(
            &a.history@[i],
        ) by {
            assert(a.history@[i].same_as(&b.history@[i]));
        }
    }
    if b.same_as(&a) {
        assert forall|i: int| 0 <= i < a.history@.len() implies (#[trigger] a.history@[i]).same_as(
            &b.history@[i],
        ) by {
            assert(b.history@[i].same_as(&a.history@[i]));
        }
    }
    lemma_providers_same_as_symmetric(a.providers, b.providers);
}

proof fn lemma_providers_same_as_symmetric(a: ProviderStates, b: ProviderStates)
    ensures
        a.same_as(&b) == b.same_as(&a),
{
    lemma_provider_same_as_symmetric(a.codex, b.codex);
    lemma_provider_same_as_symmetric(a.deepseek, b.deepseek);
    lemma_provider_same_as_symmetric(a.kimi, b.kimi);
}

proof fn lemma_provider_same_as_symmetric(a: ProviderState, b: ProviderState)
    ensures
        a.same_as(&b) == b.same_as(&a),
{
    match (a.latest_snapshot, b.latest_snapshot) {
        (Some(x), Some(y)) => lemma_snapshot_same_as_symmetric(x, y),
        _ => {},
    }
}

proof fn lemma_snapshot_same_as_symmetric(a: ProviderSnapshot, b: ProviderSnapshot)
    ensures
        a.same_as(&b) == b.same_as(&a),
{
    match (a, b) {
        (ProviderSnapshot::Codex(x), ProviderSnapshot::Codex(y)) => {
            if x.same_as(&y) {
                assert forall|i: int| 0 <= i < y.warnings@.len() implies (#[trigger] y.warnings@[i]).same_as(
                    &x.warnings@[i],
                ) by {
                    assert(x.warnings@[i].same_as(&y.warnings@[i]));
                }
            }
            if y.same_as(&x) {
                assert forall|i: int| 0 <= i < x.warnings@.len() implies (#[trigger] x.warnings@[i]).same_as(
                    &y.warnings@[i],
                ) by {
                    assert(y.warnings@[i].same_as(&x.warnings@[i]));
                }
            }
        },
        (ProviderSnapshot::DeepSeek(x), ProviderSnapshot::DeepSeek(y)) => {
            if x.same_as(&y) {
                assert forall|i: int| 0 <= i < y.balances@.len() implies (#[trigger] y.balances@[i]).same_as(
                    &x.balances@[i],
                ) by {
                    assert(x.balances@[i].same_as(&y.balances@[i]));
                }
            }
            if y.same_as(&x) {
                assert forall|i: int| 0 <= i < x.balances@.len() implies (#[trigger] x.balances@[i]).same_as(
                    &y.balances@[i],
                ) by {
                    assert(y.balances@[i].same_as(&x.balances@[i]));
                }
            }
        },
        _ => {},
    }
}

/// Value equality carries over from a copy to its original.
proof fn lemma_same_as_transfer(copy: StoredState, original: StoredState, other: StoredState)
    requires
        copy.same_as(&original),
    ensures
        other.same_as(&copy) == other.same_as(&original),
{
    lemma_same_as_symmetric(copy, original);
    if other.same_as(&copy) {
        lemma_same_as_transitive(other, copy, original);
    }
    if other.same_as(&original) {
        lemma_same_as_transitive(other, original, copy);
    }
}

proof fn lemma_same_as_transitive(a: StoredState, b: StoredState, c: StoredState)
    requires
        a.same_as(&b),
        b.same_as(&c),
    ensures
        a.same_as(&c),
{
    lemma_provider_same_as_transitive(a.providers.codex, b.providers.codex, c.providers.codex);
    lemma_provider_same_as_transitive(
        a.providers.deepseek,
        b.providers.deepseek,
        c.providers.deepseek,
    );
    lemma_provider_same_as_transitive(a.providers.kimi, b.providers.kimi, c.providers.kimi);
    assert forall|i: int| 0 <= i < a.history@.len() implies (#[trigger] a.history@[i]).same_as(
        &c.history@[i],
    ) by {
        assert(a.history@[i].same_as(&b.history@[i]));
        assert(b.history@[i].same_as(&c.history@[i]));
    }
}

proof fn lemma_provider_same_as_transitive(a: ProviderState, b: ProviderState, c: ProviderState)
    requires
        a.same_as(&b),
        b.same_as(&c),
    ensures
        a.same_as(&c),
{
    match (a.latest_snapshot, b.latest_snapshot, c.latest_snapshot) {
        (Some(x), Some(y), Some(z)) => lemma_snapshot_same_as_transitive(x, y, z),
        _ => {},
    }
}

proof fn lemma_snapshot_same_as_transitive(a: ProviderSnapshot, b: ProviderSnapshot, c: ProviderSnapshot)
    requires
        a.same_as(&b),
        b.same_as(&c),
    ensures
        a.same_as(&c),
{
    match (a, b, c) {
        (ProviderSnapshot::Codex(x), ProviderSnapshot::Codex(y), ProviderSnapshot::Codex(z)) => {
            assert forall|i: int| 0 <= i < x.warnings@.len() implies (#[trigger] x.warnings@[i]).same_as(
                &z.warnings@[i],
            ) by {
                assert(x.warnings@[i].same_as(&y.warnings@[i]));
                assert(y.warnings@[i].same_as(&z.warnings@[i]));
            }
        },
        (
            ProviderSnapshot::DeepSeek(x),
            ProviderSnapshot::DeepSeek(y),
            ProviderSnapshot::DeepSeek(z),
        ) => {
            assert forall|i: int| 0 <= i < x.balances@.len() implies (#[trigger] x.balances@[i]).same_as(
                &z.balances@[i],
            ) by {
                assert(x.balances@[i].same_as(&y.balances@[i]));
                assert(y.balances@[i].same_as(&z.balances@[i]));
            }
        },
        _ => {},
    }
}


// ---------------------------------------------------------------------------
// Migration of previous versions
// ---------------------------------------------------------------------------

/// A Codex snapshot as a previous version stored it.
#[derive(Debug)]
pub struct LegacyQuotaSnapshot {
    pub id: String,
    pub source: SnapshotSource,
    pub captured_at: String,
    pub weekly: QuotaReading,
    pub plan_type: Option<String>,
    pub credits_balance: Option<String>,
    pub reset_credits_available: Option<u32>,
    pub raw_text: String,
    pub status_message: String,
    pub warnings: Vec<ParseWarning>,
}

impl LegacyQuotaSnapshot {
    pub open spec fn has_usage_spec(&self) -> bool {
        self.weekly.remaining_percent is Some
    }

    #[verifier::when_used_as_spec(has_usage_spec)]
    pub fn has_usage(&self) -> (r: bool)
        ensures
            r == self.has_usage_spec(),
    {
        self.weekly.has_usage()
    }

    /// The snapshot with the same fields.
    pub fn into_snapshot(self) -> (r: QuotaSnapshot)
        ensures
            r.id == self.id,
            r.source == self.source,
            r.captured_at == self.captured_at,
            r.weekly == self.weekly,
            r.plan_type == self.plan_type,
            r.credits_balance == self.credits_balance,
            r.reset_credits_available == self.reset_credits_available,
            r.raw_text == self.raw_text,
            r.status_message == self.status_message,
            r.warnings == self.warnings,
    {
        QuotaSnapshot {
            id: self.id,
            source: self.source,
            captured_at: self.captured_at,
            weekly: self.weekly,
            plan_type: self.plan_type,
            credits_balance: self.credits_balance,
            reset_credits_available: self.reset_credits_available,
            raw_text: self.raw_text,
            status_message: self.status_message,
            warnings: self.warnings,
        }
    }
}

/// The state as a previous version stored it.
#[derive(Debug)]
pub struct LegacyStoredState {
    pub version: u32,
    pub latest_snapshot: Option<LegacyQuotaSnapshot>,
    pub history: Vec<UsageHistoryPoint>,
    pub settings: AppSettings,
    pub recovery_notice: Option<RecoveryNotice>,
}

/// History points that hold a 1-week reading.
pub open spec fn has_weekly_reading() -> spec_fn(UsageHistoryPoint) -> bool {
    |p: UsageHistoryPoint| p.weekly_remaining_percent is Some
}

/// Whether `state` is the current form of `legacy`: versions 2 and 3 lose history
/// points and a snapshot without a 1-week reading, and their snapshot loses its
/// raw text and warnings and gets the plain status message; the snapshot becomes
/// Codex's, fresh, and the floating selection is Codex alone.
pub open spec fn migrated_from(legacy: LegacyStoredState, state: StoredState) -> bool {
    let early = legacy.version == 2 || legacy.version == 3;
    let kept = match legacy.latest_snapshot {
        Some(x) => if early && !x.has_usage_spec() {
            None
        } else {
            Some(x)
        },
        None => None,
    };
    &&& state.version == STATE_VERSION
    &&& state.revision == 0
    &&& state.providers.deepseek == ProviderState::not_configured_spec()
    &&& state.providers.kimi == ProviderState::not_configured_spec()
    &&& state.history@ == if early {
        legacy.history@.filter(has_weekly_reading())
    } else {
        legacy.history@
    }
    &&& match kept {
        None => state.providers.codex == ProviderState::configured_spec(),
        Some(x) => {
            &&& state.providers.codex.configured
            &&& state.providers.codex.health == ProviderHealth::Fresh
            &&& state.providers.codex.error_category is None
            &&& state.providers.codex.last_attempt_at matches Some(t) && t@ == x.captured_at@
            &&& state.providers.codex.latest_snapshot matches Some(ProviderSnapshot::Codex(s)) && {
                &&& s.id == x.id
                &&& s.source == x.source
                &&& s.captured_at == x.captured_at
                &&& s.weekly == x.weekly
                &&& s.plan_type == x.plan_type
                &&& s.credits_balance == x.credits_balance
                &&& s.reset_credits_available == x.reset_credits_available
                &&& if early {
                    &&& s.raw_text@.len() == 0
                    &&& s.warnings@.len() == 0
                    &&& s.status_message@ == "已更新 1 周额度。"@
                } else {
                    &&& s.raw_text == x.raw_text
                    &&& s.warnings == x.warnings
                    &&& s.status_message == x.status_message
                }
            }
        },
    }
    &&& state.settings.automatic_update_checks == legacy.settings.automatic_update_checks
    &&& state.settings.low_quota_notifications == legacy.settings.low_quota_notifications
    &&& state.settings.floating_provider_ids@ == seq![ProviderId::Codex]
    &&& state.recovery_notice == legacy.recovery_notice
}

fn retain_weekly_readings(history: Vec<UsageHistoryPoint>) -> (r: Vec<UsageHistoryPoint>)
    ensures
        r@ == history@.filter(has_weekly_reading()),
{
    let mut kept: Vec<UsageHistoryPoint> = Vec::new();
    let mut i: usize = 0;
    proof {
        reveal(Seq::filter);
        assert(history@.take(0).filter(has_weekly_reading()) =~= seq![]);
    }
    while i < history.len()
        invariant
            i <= history@.len(),
            kept@ == history@.take(i as int).filter(has_weekly_reading()),
        decreases history.len() - i,
    {
        proof {
            reveal(Seq::filter);
            assert(history@.take(i as int + 1).drop_last() =~= history@.take(i as int));
        }
        if history[i].weekly_remaining_percent.is_some() {
            kept.push(history[i].clone());
        }
        i += 1;
    }
    proof {
        assert(history@.take(history@.len() as int) =~= history@);
    }
    kept
}

/// Brings a state stored by a previous version to the current form.
pub fn migrate_previous_state(legacy: LegacyStoredState) -> (r: StoredState)
    ensures
        migrated_from(legacy, r),
{
    let ghost original = legacy;
    let early = legacy.version == 2 || legacy.version == 3;
    let history = if early {
        retain_weekly_readings(legacy.history)
    } else {
        legacy.history
    };
    let kept = match legacy.latest_snapshot {
        Some(x) => if early && !x.has_usage() {
            None
        } else {
            Some(x)
        },
        None => None,
    };
    let mut providers = ProviderStates::default();
    match kept {
        Some(x) => {
            let mut snapshot = x.into_snapshot();
            if early {
                snapshot.raw_text = String::new();
                snapshot.warnings = Vec::new();
                snapshot.status_message = lit("已更新 1 周额度。");
            }
            providers.codex.last_attempt_at = Some(snapshot.captured_at.clone());
            providers.codex.latest_snapshot = Some(ProviderSnapshot::Codex(snapshot));
            providers.codex.health = ProviderHealth::Fresh;
        },
        None => {},
    }
    let mut settings = legacy.settings;
    let mut floating: Vec<ProviderId> = Vec::new();
    floating.push(ProviderId::Codex);
    settings.floating_provider_ids = floating;
    proof {
        assert(settings.floating_provider_ids@ =~= seq![ProviderId::Codex]);
    }
    StoredState {
        version: STATE_VERSION,
        revision: 0,
        providers,
        history,
        settings,
        recovery_notice: legacy.recovery_notice,
    }
}


// ---------------------------------------------------------------------------
// Laws of the repair
// ---------------------------------------------------------------------------

proof fn lemma_provider_normalize_idempotent(p: ProviderState, id: ProviderId)
    ensures
        p.normalized_spec(id).normalized_spec(id) == p.normalized_spec(id),
{
}

/// Normalizing a provider does not look at a Codex snapshot's raw text.
proof fn lemma_normalize_ignores_raw_text(p: ProviderState, q: ProviderState, id: ProviderId)
    requires
        raw_text_cleared(p, q),
    ensures
        raw_text_cleared(p.normalized_spec(id), q.normalized_spec(id)),
{
}

proof fn lemma_floating_selection_idempotent(selected: Seq<ProviderId>, a: ProviderStates, b: ProviderStates)
    requires
        a.codex.configured == b.codex.configured,
        a.deepseek.configured == b.deepseek.configured,
        a.kimi.configured == b.kimi.configured,
    ensures
        floating_selection(floating_selection(selected, a), b) == floating_selection(selected, a),
{
    let once = floating_selection(selected, a);
    let ec = selected.contains(ProviderId::Codex) && a.codex.configured;
    let ed = selected.contains(ProviderId::DeepSeek) && a.deepseek.configured;
    let ek = selected.contains(ProviderId::Kimi) && a.kimi.configured;
    let chosen = floating_entry(ProviderId::Codex, selected, a) + floating_entry(
        ProviderId::DeepSeek,
        selected,
        a,
    ) + floating_entry(ProviderId::Kimi, selected, a);
    assert(chosen.len() == (if ec { 1int } else { 0 }) + (if ed { 1int } else { 0 }) + (if ek {
        1int
    } else {
        0
    }));
    if chosen.len() == 0 {
        assert(once =~= seq![ProviderId::Codex]);
        assert(once[0] == ProviderId::Codex);
        assert(once.contains(ProviderId::Codex));
        assert(!once.contains(ProviderId::DeepSeek));
        assert(!once.contains(ProviderId::Kimi));
    } else {
        assert(once == chosen);
        assert(once.contains(ProviderId::Codex) == ec) by {
            if ec {
                assert(chosen[0] == ProviderId::Codex);
            }
        }
        assert(once.contains(ProviderId::DeepSeek) == ed) by {
            if ed {
                let i = if ec { 1int } else { 0 };
                assert(chosen[i] == ProviderId::DeepSeek);
            }
        }
        assert(once.contains(ProviderId::Kimi) == ek) by {
            if ek {
                let i = (if ec { 1int } else { 0 }) + (if ed { 1int } else { 0 });
                assert(chosen[i] == ProviderId::Kimi);
            }
        }
    }
    assert(floating_selection(once, b) =~= once);
}

/// Repairing a repaired state changes nothing: a state saved after its repair
/// is not written again when it is next loaded.
pub proof fn lemma_normalize_state_idempotent(s: StoredState, t: StoredState, u: StoredState)
    requires
        normalized_state(s, t),
        normalized_state(t, u),
    ensures
        u.same_as(&t),
{
    let n1 = s.providers.normalized_spec();
    lemma_provider_normalize_idempotent(s.providers.deepseek, ProviderId::DeepSeek);
    lemma_provider_normalize_idempotent(s.providers.kimi, ProviderId::Kimi);
    let c1 = ProviderState { configured: true, ..s.providers.codex };
    lemma_provider_normalize_idempotent(c1, ProviderId::Codex);
    assert(t.providers.codex.configured);
    let c2 = ProviderState { configured: true, ..t.providers.codex };
    assert(c2 == t.providers.codex);
    lemma_normalize_ignores_raw_text(n1.codex, t.providers.codex, ProviderId::Codex);
    lemma_floating_selection_idempotent(
        s.settings.floating_provider_ids@,
        t.providers,
        u.providers,
    );
    match (t.providers.codex.latest_snapshot, u.providers.codex.latest_snapshot) {
        (Some(ProviderSnapshot::Codex(x)), Some(ProviderSnapshot::Codex(y))) => {
            assert(x.raw_text@ =~= y.raw_text@);
        },
        _ => {},
    }
    assert forall|i: int| 0 <= i < u.history@.len() implies (#[trigger] u.history@[i]).same_as(
        &t.history@[i],
    ) by {}
}

// ---------------------------------------------------------------------------
// Backups
// ---------------------------------------------------------------------------

/// Whether a file name is a backup of the state file whose stem is `stem`.
pub fn is_backup_name(name: &str, stem: &str) -> (r: bool)
    ensures
        r == (crate::text::starts_with(name@, stem@) && crate::text::ends_with(name@, ".bak"@)),
{
    let n = crate::text::chars_of(name);
    crate::text::starts_with_chars(&n, &crate::text::chars_of(stem))
        && crate::text::ends_with_chars(&n, &crate::text::chars_of(".bak"))
}

/// How many of the older backups to remove when one more is added: enough to
/// keep at most `MAX_BACKUP_FILES` in all (the count held at `usize::MAX`).
pub fn backups_to_remove(older_backups: usize) -> (r: usize)
    ensures
        r == ({
            let with_new = if older_backups + 1 > usize::MAX {
                usize::MAX as int
            } else {
                older_backups + 1
            };
            if with_new > MAX_BACKUP_FILES {
                with_new - MAX_BACKUP_FILES
            } else {
                0
            }
        }),
{
    let with_new = if older_backups == usize::MAX {
        usize::MAX
    } else {
        older_backups + 1
    };
    if with_new > MAX_BACKUP_FILES {
        with_new - MAX_BACKUP_FILES
    } else {
        0
    }
}

/// A failed refresh of a provider keeps its last snapshot (marked stale when
/// there is one) and leaves the other providers and the history untouched;
/// this is each step `apply_provider_refreshes` takes for a failure.
pub proof fn lemma_failed_refresh_keeps_last_snapshot(
    providers: ProviderStates,
    history: Seq<UsageHistoryPoint>,
    m: ProviderRefreshMutation,
    other: ProviderId,
)
    requires
        m.kind is Failed,
        other != m.provider_id,
    ensures
        refresh_step(providers, history, m).0.get_spec(m.provider_id).latest_snapshot
            == providers.get_spec(m.provider_id).latest_snapshot,
        providers.get_spec(m.provider_id).latest_snapshot is Some ==> refresh_step(
            providers,
            history,
            m,
        ).0.get_spec(m.provider_id).health == ProviderHealth::Stale,
        refresh_step(providers, history, m).0.get_spec(other) == providers.get_spec(other),
        refresh_step(providers, history, m).1 == history,
{
}

/// A dismissed recovery notice stays dismissed: a state saved without a
/// notice is read back without one (so it loads as ready), with its update and
/// notification settings unchanged.
pub proof fn lemma_dismissed_notice_stays_dismissed(saved: StoredState, loaded: StoredState)
    requires
        saved.recovery_notice is None,
        normalized_state(saved, loaded),
    ensures
        loaded.recovery_notice is None,
        loaded.settings.automatic_update_checks == saved.settings.automatic_update_checks,
        loaded.settings.low_quota_notifications == saved.settings.low_quota_notifications,
{
}

/// A successful Codex refresh adds its reading to the history exactly as
/// appending a snapshot does, and makes the snapshot Codex's latest; from an
/// empty history, a refresh with a 1-week reading leaves exactly its point
/// (its capture time and percentage), whether or not its raw text was emptied
/// first as `apply_provider_refreshes` does.
pub proof fn lemma_codex_refresh_extends_history(
    providers: ProviderStates,
    history: Seq<UsageHistoryPoint>,
    m: ProviderRefreshMutation,
    stripped: ProviderRefreshMutation,
    s: CodexSnapshot,
)
    requires
        m.provider_id == ProviderId::Codex,
        m.kind == ProviderRefreshMutationKind::Updated(ProviderSnapshot::Codex(s)),
        mutation_without_raw_text(m, stripped),
    ensures
        refresh_step(providers, history, m).1 == append_history_spec(history, s),
        refresh_step(providers, history, m).0.codex.latest_snapshot == Some(ProviderSnapshot::Codex(s)),
        refresh_fold(providers, history, seq![m], 1) == refresh_step(providers, history, m),
        s.weekly.remaining_percent is Some ==> refresh_step(providers, seq![], stripped).1 == seq![
            UsageHistoryPoint {
                captured_at: s.captured_at,
                weekly_remaining_percent: s.weekly.remaining_percent,
            },
        ],
{
    assert(refresh_fold(providers, history, seq![m], 0) == (providers, history));
}

} // verus!
