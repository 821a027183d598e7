//! The decisions behind the app's commands: refresh scheduling and back-off,
//! what a provider refresh records and reports, the low-quota notice, the
//! readiness of the Codex terminal, and credential changes with their rollback.
//! Durations are in milliseconds.
use crate::credentials::{
    delete_provider_credential_with_store, is_store_error_message, load_provider_credential,
    change_outcome, read_view, resolve_spec, set_provider_credential_with_store,
    store_error_message, CredentialAvailability,
    CredentialStatus, CredentialStore, CredentialStoreError, CredentialStoreErrorKind,
};
use crate::models::{
    provider_rank, AppState, KimiRegion, ProviderErrorCategory, ProviderId, ProviderRefreshOutcome,
    ProviderRefreshResult, ProviderSnapshot, QuotaSnapshot, RefreshProvidersResult,
    RefreshUsageResult,
};
use crate::providers::ProviderError;
use crate::status_parser::{
    parsable, parse_status_text_with_source, scan_status_text, unix_now_seconds, ParseClock,
};
use crate::text::{
    byte_offset, chars_of, contains, decimal, decimal_chars, extend_chars, find_chars, has_char,
    lemma_byte_offset_bounds, lit, lower, string_of, to_lower, utf8_width_of,
};
use crate::usage_store::{
    unix_seconds, unix_seconds_spec, ProviderRefreshMutation, ProviderRefreshMutationKind,
};
use vstd::prelude::*;

verus! {

broadcast use vstd::string::group_string_axioms;

pub const USAGE_STATE_CHANGED_EVENT: &'static str = "usage-state-changed";

pub const PROVIDER_STATE_CHANGED_EVENT: &'static str = "provider-state-changed";

pub const AUTO_FIRST_REFRESH_DELAY: u64 = 10_000;

pub const AUTO_BASE_REFRESH_INTERVAL: u64 = 300_000;

pub const AUTO_LOW_USAGE_REFRESH_INTERVAL: u64 = 60_000;

pub const AUTO_POST_RESET_REFRESH_DELAY: u64 = 30_000;

pub const AUTO_RESET_WATCH_WINDOW: u64 = 600_000;

pub const AUTO_MAX_FAILURE_BACKOFF: u64 = 1_800_000;

pub const AUTO_BUSY_RETRY_INTERVAL: u64 = 30_000;

pub const AUTO_REFRESH_STOP_POLL_INTERVAL: u64 = 1_000;

pub const LOW_USAGE_THRESHOLD_PERCENT: u8 = 20;

pub const STATUS_OUTPUT_SETTLE_DELAY: u64 = 900;

// ---------------------------------------------------------------------------
// Providers
// ---------------------------------------------------------------------------

pub fn provider_index(provider_id: ProviderId) -> (r: usize)
    ensures
        r == provider_rank(provider_id),
{
    match provider_id {
        ProviderId::Codex => 0,
        ProviderId::DeepSeek => 1,
        ProviderId::Kimi => 2,
    }
}

pub open spec fn provider_label_spec(provider_id: ProviderId) -> Seq<char> {
    match provider_id {
        ProviderId::Codex => "Codex"@,
        ProviderId::DeepSeek => "DeepSeek"@,
        ProviderId::Kimi => "Kimi"@,
    }
}

pub fn provider_label(provider_id: ProviderId) -> (r: &'static str)
    ensures
        r@ == provider_label_spec(provider_id),
{
    match provider_id {
        ProviderId::Codex => "Codex",
        ProviderId::DeepSeek => "DeepSeek",
        ProviderId::Kimi => "Kimi",
    }
}

// ---------------------------------------------------------------------------
// Refresh scheduling
// ---------------------------------------------------------------------------

/// How long the scheduler waits before it looks again: the time to the next
/// due refresh, but never more than the stop-poll interval.
pub fn auto_refresh_wait_timeout(next_due: u64) -> (r: u64)
    ensures
        r == if next_due < AUTO_REFRESH_STOP_POLL_INTERVAL {
            next_due
        } else {
            AUTO_REFRESH_STOP_POLL_INTERVAL
        },
{
    if next_due < AUTO_REFRESH_STOP_POLL_INTERVAL {
        next_due
    } else {
        AUTO_REFRESH_STOP_POLL_INTERVAL
    }
}

/// The back-off after `consecutive_failures` failures in a row: the base
/// interval doubled for each failure after the first (at most three times),
/// capped at the maximum back-off.
pub open spec fn failure_backoff_spec(consecutive_failures: u32) -> u64 {
    let doublings = if consecutive_failures <= 1 {
        0int
    } else if consecutive_failures - 1 >= 3 {
        3int
    } else {
        consecutive_failures - 1
    };
    let multiplier: int = if doublings == 0 {
        1
    } else if doublings == 1 {
        2
    } else if doublings == 2 {
        4
    } else {
        8
    };
    let seconds = 300 * multiplier;
    (if seconds > 1800 {
        1800
    } else {
        seconds
    } * 1000) as u64
}

pub fn failure_backoff_interval(consecutive_failures: u32) -> (r: u64)
    ensures
        r == failure_backoff_spec(consecutive_failures),
{
    let doublings: u32 = if consecutive_failures.saturating_sub(1) < 3 {
        consecutive_failures.saturating_sub(1)
    } else {
        3
    };
    let multiplier: u64 = 1u64 << doublings;
    proof {
        assert(doublings == 0 ==> multiplier == 1) by (bit_vector)
            requires
                multiplier == 1u64 << doublings,
        ;
        assert(doublings == 1 ==> multiplier == 2) by (bit_vector)
            requires
                multiplier == 1u64 << doublings,
        ;
        assert(doublings == 2 ==> multiplier == 4) by (bit_vector)
            requires
                multiplier == 1u64 << doublings,
        ;
        assert(doublings == 3 ==> multiplier == 8) by (bit_vector)
            requires
                multiplier == 1u64 << doublings,
        ;
    }
    let seconds = 300u64 * multiplier;
    let capped = if seconds < 1800 {
        seconds
    } else {
        1800
    };
    capped * 1000
}

pub open spec fn is_low_usage_spec(snapshot: QuotaSnapshot) -> bool {
    snapshot.weekly.remaining_percent matches Some(p) && p <= LOW_USAGE_THRESHOLD_PERCENT
}

pub fn is_low_usage_snapshot(snapshot: &QuotaSnapshot) -> (r: bool)
    ensures
        r == is_low_usage_spec(*snapshot),
{
    match snapshot.weekly.remaining_percent {
        Some(percent) => percent <= LOW_USAGE_THRESHOLD_PERCENT,
        None => false,
    }
}

/// The seconds of a `unix:SECONDS` reset time.
pub fn unix_reset_seconds(value: &str) -> (r: Option<i64>)
    ensures
        r == unix_seconds_spec(value@),
{
    unix_seconds(value)
}

/// The delay after a reset that is `seconds` away (or past): the time to it,
/// and then the post-reset delay.
pub open spec fn post_reset_delay(seconds: i64) -> u64 {
    ((if seconds < 0 {
        0
    } else {
        seconds as int
    }) * 1000 + AUTO_POST_RESET_REFRESH_DELAY) as u64
}

pub open spec fn in_watch_window(seconds: i64) -> bool {
    -600 <= seconds && seconds <= 600
}

/// The refresh delay for a reset that is imminent (within the watch window,
/// before or after): the smaller of the delays for the countdown and for the
/// absolute reset time (its distance from `now`, with 64-bit wrap-around).
pub open spec fn imminent_reset_spec(snapshot: QuotaSnapshot, now_unix_seconds: i64) -> Option<u64> {
    let countdown = match snapshot.weekly.reset_countdown_seconds {
        Some(s) => if in_watch_window(s) {
            Some(post_reset_delay(s))
        } else {
            None
        },
        None => None,
    };
    let absolute = match snapshot.weekly.reset_at {
        Some(text) => match unix_seconds_spec(text@) {
            Some(reset) => {
                let s = reset.wrapping_sub(now_unix_seconds);
                if in_watch_window(s) {
                    Some(post_reset_delay(s))
                } else {
                    None
                }
            },
            None => None,
        },
        None => None,
    };
    match (countdown, absolute) {
        (Some(a), Some(b)) => Some(
            if a <= b {
                a
            } else {
                b
            },
        ),
        (Some(a), None) => Some(a),
        (None, Some(b)) => Some(b),
        (None, None) => None,
    }
}

fn delay_for(seconds: i64) -> (r: Option<u64>)
    ensures
        r == if in_watch_window(seconds) {
            Some(post_reset_delay(seconds))
        } else {
            None::<u64>
        },
{
    if -600 <= seconds && seconds <= 600 {
        let whole: u64 = if seconds < 0 {
            0
        } else {
            seconds as u64
        };
        Some(whole * 1000 + AUTO_POST_RESET_REFRESH_DELAY)
    } else {
        None
    }
}

pub fn imminent_reset_refresh_interval_at(snapshot: &QuotaSnapshot, now_unix_seconds: i64) -> (r:
    Option<u64>)
    ensures
        r == imminent_reset_spec(*snapshot, now_unix_seconds),
{
    let countdown = match snapshot.weekly.reset_countdown_seconds {
        Some(s) => delay_for(s),
        None => None,
    };
    let absolute = match &snapshot.weekly.reset_at {
        Some(text) => match unix_reset_seconds(text.as_str()) {
            Some(reset) => delay_for(reset.wrapping_sub(now_unix_seconds)),
            None => None,
        },
        None => None,
    };
    match (countdown, absolute) {
        (Some(a), Some(b)) => Some(
            if a <= b {
                a
            } else {
                b
            },
        ),
        (Some(a), None) => Some(a),
        (None, Some(b)) => Some(b),
        (None, None) => None,
    }
}

/// The current Unix time in seconds, as a signed number.
fn now_unix_seconds() -> (r: i64)
    ensures
        r >= 0,
{
    let seconds = unix_now_seconds();
    if seconds > 0x7fff_ffff_ffff_ffff {
        0x7fff_ffff_ffff_ffff
    } else {
        seconds as i64
    }
}

/// The imminent-reset delay at the current time.
pub fn imminent_reset_refresh_interval(snapshot: &QuotaSnapshot) -> (r: Option<u64>)
    ensures
        exists|now: i64| r == imminent_reset_spec(*snapshot, now),
{
    imminent_reset_refresh_interval_at(snapshot, now_unix_seconds())
}

/// The next Codex refresh delay: the base interval, shortened when usage is
/// low and when a reset is imminent.
pub open spec fn adaptive_spec(state: AppState, now_unix_seconds: i64) -> u64 {
    match state.latest_snapshot {
        None => AUTO_BASE_REFRESH_INTERVAL,
        Some(snapshot) => {
            let d1 = if is_low_usage_spec(snapshot) {
                AUTO_LOW_USAGE_REFRESH_INTERVAL
            } else {
                AUTO_BASE_REFRESH_INTERVAL
            };
            match imminent_reset_spec(snapshot, now_unix_seconds) {
                Some(d) => if d < d1 {
                    d
                } else {
                    d1
                },
                None => d1,
            }
        },
    }
}

pub fn adaptive_refresh_interval_at(state: &AppState, now_unix_seconds: i64) -> (r: u64)
    ensures
        r == adaptive_spec(*state, now_unix_seconds),
{
    let snapshot = match &state.latest_snapshot {
        Some(snapshot) => snapshot,
        None => return AUTO_BASE_REFRESH_INTERVAL,
    };
    let mut delay = AUTO_BASE_REFRESH_INTERVAL;
    if is_low_usage_snapshot(snapshot) {
        delay = AUTO_LOW_USAGE_REFRESH_INTERVAL;
    }
    if let Some(reset_delay) = imminent_reset_refresh_interval_at(snapshot, now_unix_seconds) {
        if reset_delay < delay {
            delay = reset_delay;
        }
    }
    delay
}

/// The next Codex refresh delay at the current time.
pub fn adaptive_refresh_interval(state: &AppState) -> (r: u64)
    ensures
        exists|now: i64| r == adaptive_spec(*state, now),
{
    adaptive_refresh_interval_at(state, now_unix_seconds())
}

/// A provider's next refresh delay and failure count after a refresh result:
/// success resets the count (Codex adapts its delay), failure backs off, a busy
/// provider retries soon, and a skipped one waits the base interval.
pub open spec fn next_schedule_spec(
    provider_id: ProviderId,
    result: ProviderRefreshResult,
    state: AppState,
    previous_failures: u32,
    now_unix_seconds: i64,
) -> (u64, u32) {
    match result.outcome {
        ProviderRefreshOutcome::Updated | ProviderRefreshOutcome::Unchanged => (
            if provider_id == ProviderId::Codex {
                adaptive_spec(state, now_unix_seconds)
            } else {
                AUTO_BASE_REFRESH_INTERVAL
            },
            0,
        ),
        ProviderRefreshOutcome::Failed => {
            let failures = previous_failures.saturating_add(1);
            (failure_backoff_spec(failures), failures)
        },
        ProviderRefreshOutcome::Skipped => if result.error_category == Some(
            ProviderErrorCategory::Busy,
        ) {
            (AUTO_BUSY_RETRY_INTERVAL, previous_failures)
        } else {
            (AUTO_BASE_REFRESH_INTERVAL, 0)
        },
    }
}

pub fn next_provider_auto_schedule_at(
    provider_id: ProviderId,
    result: &ProviderRefreshResult,
    state: &AppState,
    previous_failures: u32,
    now_unix_seconds: i64,
) -> (r: (u64, u32))
    ensures
        r == next_schedule_spec(provider_id, *result, *state, previous_failures, now_unix_seconds),
{
    match result.outcome {
        ProviderRefreshOutcome::Updated | ProviderRefreshOutcome::Unchanged => {
            let delay = if provider_id == ProviderId::Codex {
                adaptive_refresh_interval_at(state, now_unix_seconds)
            } else {
                AUTO_BASE_REFRESH_INTERVAL
            };
            (delay, 0)
        },
        ProviderRefreshOutcome::Failed => {
            let failures = previous_failures.saturating_add(1);
            (failure_backoff_interval(failures), failures)
        },
        ProviderRefreshOutcome::Skipped => {
            if result.error_category == Some(ProviderErrorCategory::Busy) {
                (AUTO_BUSY_RETRY_INTERVAL, previous_failures)
            } else {
                (AUTO_BASE_REFRESH_INTERVAL, 0)
            }
        },
    }
}

/// A provider's next refresh delay and failure count, at the current time.
pub fn next_provider_auto_schedule(
    provider_id: ProviderId,
    result: &ProviderRefreshResult,
    state: &AppState,
    previous_failures: u32,
) -> (r: (u64, u32))
    ensures
        exists|now: i64| r == next_schedule_spec(provider_id, *result, *state, previous_failures, now),
{
    next_provider_auto_schedule_at(provider_id, result, state, previous_failures, now_unix_seconds())
}

/// The delay and failure count of the next automatic Codex refresh.
#[derive(Debug, Clone, Copy, PartialEq, Eq, Structural)]
pub struct AutoRefreshSchedule {
    pub delay: u64,
    pub consecutive_failures: u32,
}

/// The next automatic refresh after a Codex-only refresh: an update adapts the
/// delay and resets the count; anything else backs off.
pub open spec fn next_auto_schedule_spec(
    outcome: Result<RefreshUsageResult, String>,
    previous_failures: u32,
    now_unix_seconds: i64,
) -> AutoRefreshSchedule {
    match outcome {
        Ok(result) => if result.updated {
            AutoRefreshSchedule {
                delay: adaptive_spec(result.app_state, now_unix_seconds),
                consecutive_failures: 0,
            }
        } else {
            AutoRefreshSchedule {
                delay: failure_backoff_spec(previous_failures.saturating_add(1)),
                consecutive_failures: previous_failures.saturating_add(1),
            }
        },
        Err(_) => AutoRefreshSchedule {
            delay: failure_backoff_spec(previous_failures.saturating_add(1)),
            consecutive_failures: previous_failures.saturating_add(1),
        },
    }
}

pub fn next_auto_refresh_schedule(outcome: &Result<RefreshUsageResult, String>, previous_failures: u32) -> (r:
    AutoRefreshSchedule)
    ensures
        exists|now: i64| r == next_auto_schedule_spec(*outcome, previous_failures, now),
{
    let now = now_unix_seconds();
    let r = match outcome {
        Ok(result) if result.updated => AutoRefreshSchedule {
            delay: adaptive_refresh_interval_at(&result.app_state, now),
            consecutive_failures: 0,
        },
        _ => {
            let consecutive_failures = previous_failures.saturating_add(1);
            AutoRefreshSchedule {
                delay: failure_backoff_interval(consecutive_failures),
                consecutive_failures,
            }
        },
    };
    proof {
        assert(r == next_auto_schedule_spec(*outcome, previous_failures, now));
    }
    r
}

/// When a provider's next automatic refresh is due (on a monotonic clock, in
/// milliseconds) and how many refreshes in a row have failed.
#[derive(Debug, Clone, Copy, PartialEq, Eq, Structural)]
pub struct ProviderAutoSchedule {
    pub due_at: u64,
    pub consecutive_failures: u32,
}

/// The schedules at start-up: every provider due after the first-refresh delay.
pub fn initial_schedules(now: u64) -> (r: [ProviderAutoSchedule; 3])
    ensures
        forall|i: int|
            0 <= i < 3 ==> r@[i] == (ProviderAutoSchedule {
                due_at: now.saturating_add(AUTO_FIRST_REFRESH_DELAY),
                consecutive_failures: 0,
            }),
{
    let first = ProviderAutoSchedule {
        due_at: now.saturating_add(AUTO_FIRST_REFRESH_DELAY),
        consecutive_failures: 0,
    };
    [first, first, first]
}

/// The providers, in the fixed order, that are not in flight and are due at `now`.
pub open spec fn due_entry(schedules: Seq<ProviderAutoSchedule>, in_flight: Seq<bool>, now: u64, id: ProviderId) -> Seq<
    ProviderId,
> {
    if !in_flight[provider_rank(id)] && schedules[provider_rank(id)].due_at <= now {
        seq![id]
    } else {
        seq![]
    }
}

pub open spec fn due_providers_spec(schedules: Seq<ProviderAutoSchedule>, in_flight: Seq<bool>, now: u64) -> Seq<
    ProviderId,
> {
    due_entry(schedules, in_flight, now, ProviderId::Codex) + due_entry(
        schedules,
        in_flight,
        now,
        ProviderId::DeepSeek,
    ) + due_entry(schedules, in_flight, now, ProviderId::Kimi)
}

pub fn due_providers(schedules: &[ProviderAutoSchedule; 3], in_flight: &[bool; 3], now: u64) -> (r: Vec<
    ProviderId,
>)
    ensures
        r@ == due_providers_spec(schedules@, in_flight@, now),
{
    let mut due: Vec<ProviderId> = Vec::new();
    let order: [ProviderId; 3] = [ProviderId::Codex, ProviderId::DeepSeek, ProviderId::Kimi];
    let mut k: usize = 0;
    proof {
        assert(due@ =~= seq![]);
    }
    while k < 3
        invariant
            k <= 3,
            order@ == seq![ProviderId::Codex, ProviderId::DeepSeek, ProviderId::Kimi],
            due@ == if k == 0 {
                seq![]
            } else if k == 1 {
                due_entry(schedules@, in_flight@, now, ProviderId::Codex)
            } else if k == 2 {
                due_entry(schedules@, in_flight@, now, ProviderId::Codex) + due_entry(
                    schedules@,
                    in_flight@,
                    now,
                    ProviderId::DeepSeek,
                )
            } else {
                due_providers_spec(schedules@, in_flight@, now)
            },
        decreases 3 - k,
    {
        let id = order[k];
        let index = provider_index(id);
        let ghost before = due@;
        if !in_flight[index] && schedules[index].due_at <= now {
            due.push(id);
        }
        proof {
            assert(due@ =~= before + due_entry(schedules@, in_flight@, now, id));
        }
        k += 1;
    }
    due
}

/// The time to the next refresh of a provider that is not in flight (the base
/// interval when all are in flight).
pub open spec fn next_due_spec(schedules: Seq<ProviderAutoSchedule>, in_flight: Seq<bool>, now: u64, k: int) -> Option<
    u64,
>
    decreases k,
{
    if k <= 0 {
        None
    } else {
        let rest = next_due_spec(schedules, in_flight, now, k - 1);
        if in_flight[k - 1] {
            rest
        } else {
            let d = schedules[k - 1].due_at.saturating_sub(now);
            match rest {
                Some(m) => Some(
                    if d < m {
                        d
                    } else {
                        m
                    },
                ),
                None => Some(d),
            }
        }
    }
}

/// How long the scheduler waits before it looks again.
pub fn next_wait(schedules: &[ProviderAutoSchedule; 3], in_flight: &[bool; 3], now: u64) -> (r: u64)
    ensures
        r == (match next_due_spec(schedules@, in_flight@, now, 3) {
            Some(d) => if d < AUTO_REFRESH_STOP_POLL_INTERVAL {
                d
            } else {
                AUTO_REFRESH_STOP_POLL_INTERVAL
            },
            None => AUTO_REFRESH_STOP_POLL_INTERVAL,
        }),
{
    let mut best: Option<u64> = None;
    let mut k: usize = 0;
    while k < 3
        invariant
            k <= 3,
            best == next_due_spec(schedules@, in_flight@, now, k as int),
        decreases 3 - k,
    {
        if !in_flight[k] {
            let d = schedules[k].due_at.saturating_sub(now);
            best = match best {
                Some(m) => Some(
                    if d < m {
                        d
                    } else {
                        m
                    },
                ),
                None => Some(d),
            };
        }
        k += 1;
    }
    match best {
        Some(d) => auto_refresh_wait_timeout(d),
        None => auto_refresh_wait_timeout(AUTO_BASE_REFRESH_INTERVAL),
    }
}

/// The index of the first result of `provider_id` among `results[..k]`.
pub open spec fn first_result_of(results: Seq<ProviderRefreshResult>, provider_id: ProviderId, k: int) -> Option<
    int,
>
    decreases k,
{
    if k <= 0 {
        None
    } else {
        match first_result_of(results, provider_id, k - 1) {
            Some(i) => Some(i),
            None => if results[k - 1].provider_id == provider_id {
                Some(k - 1)
            } else {
                None
            },
        }
    }
}

fn find_result(results: &Vec<ProviderRefreshResult>, provider_id: ProviderId) -> (r: Option<usize>)
    ensures
        r matches Some(i) ==> first_result_of(results@, provider_id, results@.len() as int) == Some(
            i as int,
        ) && i < results@.len(),
        r is None ==> first_result_of(results@, provider_id, results@.len() as int) is None,
{
    let mut k: usize = 0;
    while k < results.len()
        invariant
            k <= results@.len(),
            first_result_of(results@, provider_id, k as int) is None,
        decreases results.len() - k,
    {
        if results[k].provider_id == provider_id {
            proof {
                lemma_first_result_stays(results@, provider_id, k as int + 1, results@.len() as int);
            }
            return Some(k);
        }
        k += 1;
    }
    None
}

proof fn lemma_first_result_stays(results: Seq<ProviderRefreshResult>, provider_id: ProviderId, k: int, m: int)
    requires
        0 <= k <= m,
        first_result_of(results, provider_id, k) is Some,
    ensures
        first_result_of(results, provider_id, m) == first_result_of(results, provider_id, k),
    decreases m - k,
{
    if k < m {
        lemma_first_result_stays(results, provider_id, k, m - 1);
    }
}

/// The schedule of a provider after its automatic refresh finished at `now`
/// (monotonic milliseconds; `now_unix_seconds` for reset times).
pub fn schedule_after_completion(
    provider_id: ProviderId,
    outcome: &Result<RefreshProvidersResult, String>,
    previous_failures: u32,
    now: u64,
    now_unix_seconds: i64,
) -> (r: ProviderAutoSchedule)
    ensures
        ({
            let (delay, failures) = match *outcome {
                Ok(result) => match first_result_of(
                    result.provider_results@,
                    provider_id,
                    result.provider_results@.len() as int,
                ) {
                    Some(i) => next_schedule_spec(
                        provider_id,
                        result.provider_results@[i],
                        result.app_state,
                        previous_failures,
                        now_unix_seconds,
                    ),
                    None => (AUTO_BASE_REFRESH_INTERVAL, previous_failures),
                },
                Err(_) => (
                    failure_backoff_spec(previous_failures.saturating_add(1)),
                    previous_failures.saturating_add(1),
                ),
            };
            r == (ProviderAutoSchedule { due_at: now.saturating_add(delay), consecutive_failures: failures })
        }),
{
    let (delay, consecutive_failures) = match outcome {
        Ok(result) => match find_result(&result.provider_results, provider_id) {
            Some(i) => next_provider_auto_schedule_at(
                provider_id,
                &result.provider_results[i],
                &result.app_state,
                previous_failures,
                now_unix_seconds,
            ),
            None => (AUTO_BASE_REFRESH_INTERVAL, previous_failures),
        },
        Err(_) => {
            let failures = previous_failures.saturating_add(1);
            (failure_backoff_interval(failures), failures)
        },
    };
    ProviderAutoSchedule { due_at: now.saturating_add(delay), consecutive_failures }
}


// ---------------------------------------------------------------------------
// Refresh results
// ---------------------------------------------------------------------------

/// Why a provider refresh failed, as the user sees it.
#[derive(Debug)]
pub struct ProviderFailure {
    pub category: ProviderErrorCategory,
    pub message: String,
}

impl Clone for ProviderFailure {
    fn clone(&self) -> (r: Self)
        ensures
            r == *self,
    {
        ProviderFailure { category: self.category, message: self.message.clone() }
    }
}

impl ProviderFailure {
    pub fn new(category: ProviderErrorCategory, message: &str) -> (r: ProviderFailure)
        ensures
            r.category == category,
            r.message@ == message@,
    {
        ProviderFailure { category, message: lit(message) }
    }

    pub fn from_provider(error: ProviderError) -> (r: ProviderFailure)
        ensures
            (r.category, r.message@) == error.parts(),
    {
        ProviderFailure { category: error.category(), message: error.to_string() }
    }
}

/// What fetching one provider produced.
#[derive(Debug)]
pub enum ProviderFetchOutcome {
    Updated(ProviderSnapshot),
    NotConfigured,
    Failed { failure: ProviderFailure, configured: Option<bool> },
}

/// What a finished provider fetch records in the state and reports.
pub open spec fn completion_spec(
    provider_id: ProviderId,
    outcome: ProviderFetchOutcome,
    attempted_at: String,
    r: (ProviderRefreshMutation, ProviderRefreshResult),
) -> bool {
    let (m, res) = r;
    &&& m.provider_id == provider_id
    &&& m.attempted_at == attempted_at
    &&& res.provider_id == provider_id
    &&& match outcome {
        ProviderFetchOutcome::Updated(snapshot) => {
            &&& m.kind == ProviderRefreshMutationKind::Updated(snapshot)
            &&& res.outcome == ProviderRefreshOutcome::Updated
            &&& res.message@ == provider_label_spec(provider_id) + " 已更新。"@
            &&& res.error_category is None
        },
        ProviderFetchOutcome::NotConfigured => {
            &&& m.kind == ProviderRefreshMutationKind::NotConfigured
            &&& res.outcome == ProviderRefreshOutcome::Skipped
            &&& res.message@ == provider_label_spec(provider_id) + " 尚未配置。"@
            &&& res.error_category == Some(ProviderErrorCategory::NotConfigured)
        },
        ProviderFetchOutcome::Failed { failure, configured } => {
            &&& m.kind == (ProviderRefreshMutationKind::Failed {
                category: failure.category,
                configured,
            })
            &&& res.outcome == ProviderRefreshOutcome::Failed
            &&& res.message == failure.message
            &&& res.error_category == Some(failure.category)
        },
    }
}

fn labelled(provider_id: ProviderId, suffix: &str) -> (r: String)
    ensures
        r@ == provider_label_spec(provider_id) + suffix@,
{
    let mut text = chars_of(provider_label(provider_id));
    extend_chars(&mut text, &chars_of(suffix));
    string_of(&text)
}

/// The state change and the report for a finished provider fetch.
pub fn provider_completion(provider_id: ProviderId, outcome: ProviderFetchOutcome, attempted_at: String) -> (r: (
    ProviderRefreshMutation,
    ProviderRefreshResult,
))
    ensures
        completion_spec(provider_id, outcome, attempted_at, r),
{
    match outcome {
        ProviderFetchOutcome::Updated(snapshot) => (
            ProviderRefreshMutation {
                provider_id,
                attempted_at,
                kind: ProviderRefreshMutationKind::Updated(snapshot),
            },
            ProviderRefreshResult {
                provider_id,
                outcome: ProviderRefreshOutcome::Updated,
                message: labelled(provider_id, " 已更新。"),
                error_category: None,
            },
        ),
        ProviderFetchOutcome::NotConfigured => (
            ProviderRefreshMutation {
                provider_id,
                attempted_at,
                kind: ProviderRefreshMutationKind::NotConfigured,
            },
            ProviderRefreshResult {
                provider_id,
                outcome: ProviderRefreshOutcome::Skipped,
                message: labelled(provider_id, " 尚未配置。"),
                error_category: Some(ProviderErrorCategory::NotConfigured),
            },
        ),
        ProviderFetchOutcome::Failed { failure, configured } => (
            ProviderRefreshMutation {
                provider_id,
                attempted_at,
                kind: ProviderRefreshMutationKind::Failed { category: failure.category, configured },
            },
            ProviderRefreshResult {
                provider_id,
                outcome: ProviderRefreshOutcome::Failed,
                message: failure.message,
                error_category: Some(failure.category),
            },
        ),
    }
}

/// The report for a provider that is already being refreshed.
pub fn busy_result(provider_id: ProviderId) -> (r: ProviderRefreshResult)
    ensures
        r.provider_id == provider_id,
        r.outcome == ProviderRefreshOutcome::Skipped,
        r.message@ == "该供应商已有查询正在进行。"@,
        r.error_category == Some(ProviderErrorCategory::Busy),
{
    ProviderRefreshResult {
        provider_id,
        outcome: ProviderRefreshOutcome::Skipped,
        message: lit("该供应商已有查询正在进行。"),
        error_category: Some(ProviderErrorCategory::Busy),
    }
}

/// The event sent when one provider's refresh was committed.
pub fn single_provider_event(app_state: AppState, provider_result: ProviderRefreshResult) -> (r:
    RefreshProvidersResult)
    ensures
        r.app_state == app_state,
        r.provider_results@ == seq![provider_result],
        r.any_updated == (provider_result.outcome == ProviderRefreshOutcome::Updated),
        r.message@ == provider_result.message@,
{
    let any_updated = provider_result.outcome == ProviderRefreshOutcome::Updated;
    let message = provider_result.message.clone();
    let mut provider_results: Vec<ProviderRefreshResult> = Vec::new();
    provider_results.push(provider_result);
    proof {
        assert(provider_results@ =~= seq![provider_result]);
    }
    RefreshProvidersResult { app_state, provider_results, any_updated, message }
}

/// The report of a Codex-only refresh, from the report of a refresh of providers:
/// Codex's result decides whether it updated and what it says.
pub fn legacy_codex_result(result: RefreshProvidersResult) -> (r: RefreshUsageResult)
    ensures
        r.app_state == result.app_state,
        match first_result_of(
            result.provider_results@,
            ProviderId::Codex,
            result.provider_results@.len() as int,
        ) {
            Some(i) => r.updated == (result.provider_results@[i].outcome
                == ProviderRefreshOutcome::Updated) && r.message@
                == result.provider_results@[i].message@,
            None => !r.updated && r.message@ == "Codex 查询未执行。"@,
        },
{
    let (updated, message) = match find_result(&result.provider_results, ProviderId::Codex) {
        Some(i) => (
            result.provider_results[i].outcome == ProviderRefreshOutcome::Updated,
            result.provider_results[i].message.clone(),
        ),
        None => (false, lit("Codex 查询未执行。")),
    };
    RefreshUsageResult { app_state: result.app_state, updated, message }
}

/// The providers to refresh, in the fixed order.
pub open spec fn selected_providers(ids: Seq<ProviderId>) -> Seq<ProviderId> {
    let entry = |id: ProviderId|
        if ids.contains(id) {
            seq![id]
        } else {
            seq![]
        };
    entry(ProviderId::Codex) + entry(ProviderId::DeepSeek) + entry(ProviderId::Kimi)
}

pub fn select_providers(provider_ids: &[ProviderId]) -> (r: Vec<ProviderId>)
    ensures
        r@ == selected_providers(provider_ids@),
{
    let mut selected: Vec<ProviderId> = Vec::new();
    let mut ids: Vec<ProviderId> = Vec::new();
    let mut i: usize = 0;
    while i < provider_ids.len()
        invariant
            i <= provider_ids@.len(),
            ids@ == provider_ids@.take(i as int),
        decreases provider_ids.len() - i,
    {
        ids.push(provider_ids[i]);
        proof {
            assert(provider_ids@.take(i as int + 1) =~= provider_ids@.take(i as int).push(
                provider_ids@[i as int],
            ));
        }
        i += 1;
    }
    proof {
        assert(ids@ =~= provider_ids@);
    }
    if crate::models::contains_provider(&ids, ProviderId::Codex) {
        selected.push(ProviderId::Codex);
    }
    if crate::models::contains_provider(&ids, ProviderId::DeepSeek) {
        selected.push(ProviderId::DeepSeek);
    }
    if crate::models::contains_provider(&ids, ProviderId::Kimi) {
        selected.push(ProviderId::Kimi);
    }
    proof {
        let entry = |id: ProviderId|
            if provider_ids@.contains(id) {
                seq![id]
            } else {
                seq![]
            };
        assert(selected@ =~= entry(ProviderId::Codex) + entry(ProviderId::DeepSeek) + entry(
            ProviderId::Kimi,
        ));
    }
    selected
}

/// The results of one provider.
pub open spec fn results_of(results: Seq<ProviderRefreshResult>, id: ProviderId) -> Seq<ProviderRefreshResult> {
    results.filter(|r: ProviderRefreshResult| r.provider_id == id)
}

/// The results ordered by provider (a stable sort).
pub open spec fn sorted_results(results: Seq<ProviderRefreshResult>) -> Seq<ProviderRefreshResult> {
    results_of(results, ProviderId::Codex) + results_of(results, ProviderId::DeepSeek) + results_of(
        results,
        ProviderId::Kimi,
    )
}

fn take_results_of(results: &Vec<ProviderRefreshResult>, id: ProviderId, out: &mut Vec<ProviderRefreshResult>)
    ensures
        final(out)@ == old(out)@ + results_of(results@, id),
{
    let mut i: usize = 0;
    let ghost start = out@;
    proof {
        reveal(Seq::filter);
        assert(results@.take(0).filter(|r: ProviderRefreshResult| r.provider_id == id) =~= seq![]);
        assert(out@ =~= start + results@.take(0).filter(|r: ProviderRefreshResult| r.provider_id == id));
    }
    while i < results.len()
        invariant
            i <= results@.len(),
            out@ == start + results@.take(i as int).filter(|r: ProviderRefreshResult| r.provider_id == id),
        decreases results.len() - i,
    {
        proof {
            reveal(Seq::filter);
            assert(results@.take(i as int + 1).drop_last() =~= results@.take(i as int));
        }
        if results[i].provider_id == id {
            out.push(results[i].clone());
        }
        i += 1;
    }
    proof {
        assert(results@.take(results@.len() as int) =~= results@);
    }
}

pub fn sort_results(results: Vec<ProviderRefreshResult>) -> (r: Vec<ProviderRefreshResult>)
    ensures
        r@ == sorted_results(results@),
{
    let mut sorted: Vec<ProviderRefreshResult> = Vec::new();
    take_results_of(&results, ProviderId::Codex, &mut sorted);
    take_results_of(&results, ProviderId::DeepSeek, &mut sorted);
    take_results_of(&results, ProviderId::Kimi, &mut sorted);
    proof {
        assert(sorted@ =~= sorted_results(results@));
    }
    sorted
}

pub open spec fn any_outcome(results: Seq<ProviderRefreshResult>, outcome: ProviderRefreshOutcome) -> bool {
    exists|i: int| 0 <= i < results.len() && (#[trigger] results[i]).outcome == outcome
}

pub open spec fn any_category(results: Seq<ProviderRefreshResult>, category: ProviderErrorCategory) -> bool {
    exists|i: int| 0 <= i < results.len() && (#[trigger] results[i]).error_category == Some(category)
}

pub open spec fn all_category(results: Seq<ProviderRefreshResult>, category: ProviderErrorCategory) -> bool {
    forall|i: int| 0 <= i < results.len() ==> (#[trigger] results[i]).error_category == Some(category)
}

/// The summary line of a refresh of several providers.
pub open spec fn refresh_message(results: Seq<ProviderRefreshResult>) -> Seq<char> {
    let any_updated = any_outcome(results, ProviderRefreshOutcome::Updated);
    let failed = any_outcome(results, ProviderRefreshOutcome::Failed);
    let busy = any_category(results, ProviderErrorCategory::Busy);
    if results.len() == 1 {
        results[0].message@
    } else if any_updated && failed && busy {
        "部分供应商已更新，失败项保留上次成功数据，另有查询正在进行中。"@
    } else if any_updated && failed {
        "部分供应商已更新，失败项保留上次成功数据。"@
    } else if any_updated && busy {
        "部分供应商已更新，另有查询正在进行中。"@
    } else if any_updated {
        "所有已配置供应商均已更新。"@
    } else if failed {
        "供应商查询失败，当前保留上次成功数据。"@
    } else if all_category(results, ProviderErrorCategory::NotConfigured) {
        "供应商尚未配置。"@
    } else if busy {
        "部分供应商已有查询正在进行。"@
    } else {
        "没有需要更新的供应商。"@
    }
}

/// The report of a refresh of providers: their results ordered by provider,
/// whether any updated, and the summary line.
pub fn summarize_refresh(app_state: AppState, results: Vec<ProviderRefreshResult>) -> (r:
    RefreshProvidersResult)
    ensures
        r.app_state == app_state,
        r.provider_results@ == sorted_results(results@),
        r.any_updated == any_outcome(sorted_results(results@), ProviderRefreshOutcome::Updated),
        r.message@ == refresh_message(sorted_results(results@)),
{
    let provider_results = sort_results(results);
    let mut any_updated = false;
    let mut failed = false;
    let mut busy = false;
    let mut not_configured = true;
    let mut i: usize = 0;
    while i < provider_results.len()
        invariant
            i <= provider_results@.len(),
            any_updated == any_outcome(provider_results@.take(i as int), ProviderRefreshOutcome::Updated),
            failed == any_outcome(provider_results@.take(i as int), ProviderRefreshOutcome::Failed),
            busy == any_category(provider_results@.take(i as int), ProviderErrorCategory::Busy),
            not_configured == all_category(
                provider_results@.take(i as int),
                ProviderErrorCategory::NotConfigured,
            ),
        decreases provider_results.len() - i,
    {
        let item = &provider_results[i];
        let ghost prefix = provider_results@.take(i as int);
        let ghost next = provider_results@.take(i as int + 1);
        proof {
            assert(next =~= prefix.push(provider_results@[i as int]));
        }
        if item.outcome == ProviderRefreshOutcome::Updated {
            any_updated = true;
        }
        if item.outcome == ProviderRefreshOutcome::Failed {
            failed = true;
        }
        if item.error_category == Some(ProviderErrorCategory::Busy) {
            busy = true;
        }
        if item.error_category != Some(ProviderErrorCategory::NotConfigured) {
            not_configured = false;
        }
        proof {
            assert(any_updated == any_outcome(next, ProviderRefreshOutcome::Updated)) by {
                if any_outcome(prefix, ProviderRefreshOutcome::Updated) {
                    let j = choose|j: int|
                        0 <= j < prefix.len() && (#[trigger] prefix[j]).outcome
                            == ProviderRefreshOutcome::Updated;
                    assert(next[j] == prefix[j]);
                }
                if item.outcome == ProviderRefreshOutcome::Updated {
                    assert(next[i as int] == provider_results@[i as int]);
                }
            }
            assert(failed == any_outcome(next, ProviderRefreshOutcome::Failed)) by {
                if any_outcome(prefix, ProviderRefreshOutcome::Failed) {
                    let j = choose|j: int|
                        0 <= j < prefix.len() && (#[trigger] prefix[j]).outcome
                            == ProviderRefreshOutcome::Failed;
                    assert(next[j] == prefix[j]);
                }
                if item.outcome == ProviderRefreshOutcome::Failed {
                    assert(next[i as int] == provider_results@[i as int]);
                }
            }
            assert(busy == any_category(next, ProviderErrorCategory::Busy)) by {
                if any_category(prefix, ProviderErrorCategory::Busy) {
                    let j = choose|j: int|
                        0 <= j < prefix.len() && (#[trigger] prefix[j]).error_category == Some(
                            ProviderErrorCategory::Busy,
                        );
                    assert(next[j] == prefix[j]);
                }
                if item.error_category == Some(ProviderErrorCategory::Busy) {
                    assert(next[i as int] == provider_results@[i as int]);
                }
            }
            assert(not_configured == all_category(next, ProviderErrorCategory::NotConfigured)) by {
                if !(item.error_category == Some(ProviderErrorCategory::NotConfigured)) {
                    assert(next[i as int] == provider_results@[i as int]);
                }
                if all_category(prefix, ProviderErrorCategory::NotConfigured) && item.error_category
                    == Some(ProviderErrorCategory::NotConfigured) {
                    assert forall|j: int| 0 <= j < next.len() implies (#[trigger] next[j]).error_category
                        == Some(ProviderErrorCategory::NotConfigured) by {
                        if j < prefix.len() {
                            assert(next[j] == prefix[j]);
                        }
                    }
                }
                if !all_category(prefix, ProviderErrorCategory::NotConfigured) {
                    let j = choose|j: int|
                        0 <= j < prefix.len() && !((#[trigger] prefix[j]).error_category == Some(
                            ProviderErrorCategory::NotConfigured,
                        ));
                    assert(next[j] == prefix[j]);
                }
            }
        }
        i += 1;
    }
    proof {
        assert(provider_results@.take(provider_results@.len() as int) =~= provider_results@);
    }
    let message = if provider_results.len() == 1 {
        provider_results[0].message.clone()
    } else if any_updated && failed && busy {
        lit("部分供应商已更新，失败项保留上次成功数据，另有查询正在进行中。")
    } else if any_updated && failed {
        lit("部分供应商已更新，失败项保留上次成功数据。")
    } else if any_updated && busy {
        lit("部分供应商已更新，另有查询正在进行中。")
    } else if any_updated {
        lit("所有已配置供应商均已更新。")
    } else if failed {
        lit("供应商查询失败，当前保留上次成功数据。")
    } else if not_configured {
        lit("供应商尚未配置。")
    } else if busy {
        lit("部分供应商已有查询正在进行。")
    } else {
        lit("没有需要更新的供应商。")
    };
    RefreshProvidersResult { app_state, provider_results, any_updated, message }
}

// ---------------------------------------------------------------------------
// Notifications
// ---------------------------------------------------------------------------

/// The low-quota notice: sent when the 1-week remaining percent drops from
/// above the threshold to at or below it.
pub open spec fn low_quota_spec(previous: Option<QuotaSnapshot>, current: QuotaSnapshot) -> Option<Seq<char>> {
    match previous {
        None => None,
        Some(p) => match (p.weekly.remaining_percent, current.weekly.remaining_percent) {
            (Some(old), Some(new)) => if old > LOW_USAGE_THRESHOLD_PERCENT && new
                <= LOW_USAGE_THRESHOLD_PERCENT {
                Some("1 周剩余 "@ + decimal(new as nat) + "%"@)
            } else {
                None
            },
            _ => None,
        },
    }
}

pub fn low_quota_notification(previous: Option<&QuotaSnapshot>, current: &QuotaSnapshot) -> (r: Option<
    String,
>)
    ensures
        crate::text::opt_text(r) == low_quota_spec(
            match previous {
                Some(p) => Some(*p),
                None => None,
            },
            *current,
        ),
{
    let previous = match previous {
        Some(p) => p,
        None => return None,
    };
    match (previous.weekly.remaining_percent, current.weekly.remaining_percent) {
        (Some(old), Some(new)) => {
            if old > LOW_USAGE_THRESHOLD_PERCENT && new <= LOW_USAGE_THRESHOLD_PERCENT {
                let mut text = chars_of("1 周剩余 ");
                extend_chars(&mut text, &decimal_chars(new as u64));
                extend_chars(&mut text, &chars_of("%"));
                Some(string_of(&text))
            } else {
                None
            }
        },
        _ => None,
    }
}

// ---------------------------------------------------------------------------
// The Codex terminal
// ---------------------------------------------------------------------------

/// Whether the Codex prompt is on screen.
pub open spec fn codex_prompt_ready_spec(output: Seq<char>) -> bool {
    let l = lower(output);
    contains(l, "use /skills to list available skills"@) || contains(l, "implement {feature}"@) || (
    contains(l, "model:"@) && contains(l, "directory:"@))
}

fn has_text(haystack: &[char], needle: &str) -> (r: bool)
    ensures
        r == contains(haystack@, needle@),
{
    find_chars(haystack, &chars_of(needle)).is_some()
}

pub fn codex_prompt_ready(output: &str) -> (r: bool)
    ensures
        r == codex_prompt_ready_spec(output@),
{
    let l = to_lower(&chars_of(output));
    has_text(&l, "use /skills to list available skills") || has_text(&l, "implement {feature}") || (
    has_text(&l, "model:") && has_text(&l, "directory:"))
}

/// Whether Codex shows its update prompt.
pub fn codex_update_prompt_visible(output: &str) -> (r: bool)
    ensures
        r == (contains(lower(output@), "update available!"@) && contains(
            lower(output@),
            "press enter to continue"@,
        )),
{
    let l = to_lower(&chars_of(output));
    has_text(&l, "update available!") && has_text(&l, "press enter to continue")
}

/// Whether `/status` was typed and waits for Enter.
pub fn status_command_waiting_for_enter(output: &str) -> (r: bool)
    ensures
        r == (contains(output@, "› /status"@) || contains(output@, "> /status"@)),
{
    let text = chars_of(output);
    has_text(&text, "› /status") || has_text(&text, "> /status")
}

/// Whether the terminal shows a status panel with a 1-week reading.
pub fn codex_status_output_ready(output: &str) -> (r: bool)
    requires
        parsable(output@),
    ensures
        r == (scan_status_text(output@).percent is Some),
{
    let parsed = parse_status_text_with_source(
        output,
        ParseClock::now(),
        crate::models::SnapshotSource::CodexCli,
    );
    parsed.snapshot.has_usage()
}

/// Whether a status panel is complete: the output was quiet for the settle
/// delay and holds a 1-week reading.
pub fn status_output_ready_after_settle(output: &str, quiet_for: u64) -> (r: bool)
    requires
        parsable(output@),
    ensures
        r == (quiet_for >= STATUS_OUTPUT_SETTLE_DELAY && scan_status_text(output@).percent is Some),
{
    quiet_for >= STATUS_OUTPUT_SETTLE_DELAY && codex_status_output_ready(output)
}

/// Whether to type `/status` now: at most six times; the first time once the
/// session has run for 15 seconds and the prompt is on screen, later ones
/// 3 seconds after the previous one.
pub fn should_send_status_command(
    output: &str,
    started_elapsed: u64,
    last_sent_elapsed: u64,
    sent_count: u8,
    terminal_ready: bool,
) -> (r: bool)
    ensures
        r == if sent_count >= 6 {
            false
        } else if sent_count == 0 {
            started_elapsed >= 15_000 && codex_prompt_ready_spec(output@)
        } else {
            last_sent_elapsed >= 3_000
        },
{
    if sent_count >= 6 {
        return false;
    }
    if sent_count == 0 {
        return started_elapsed >= 15_000 && codex_prompt_ready(output);
    }
    last_sent_elapsed >= 3_000
}

/// What the terminal session that reads `/status` does next.
#[derive(Clone, Copy, Debug, PartialEq, Eq, Structural)]
pub enum StatusSessionAction {
    /// Codex shows its update prompt: stop rather than press a key.
    AbortForUpdatePrompt,
    /// Type `/status` (the first time, after clearing what was read so far).
    TypeStatus,
    /// `/status` was typed and waits for Enter.
    PressEnter,
    /// The status panel is complete.
    Accept,
    Wait,
}

pub open spec fn status_session_action_spec(
    output: Seq<char>,
    started_elapsed: u64,
    last_sent_elapsed: u64,
    sent_count: u8,
    quiet_for: u64,
) -> StatusSessionAction {
    let l = lower(output);
    let send = if sent_count >= 6 {
        false
    } else if sent_count == 0 {
        started_elapsed >= 15_000 && codex_prompt_ready_spec(output)
    } else {
        last_sent_elapsed >= 3_000
    };
    if contains(l, "update available!"@) && contains(l, "press enter to continue"@) {
        StatusSessionAction::AbortForUpdatePrompt
    } else if send {
        if sent_count > 0 && (contains(output, "› /status"@) || contains(output, "> /status"@)) {
            StatusSessionAction::PressEnter
        } else {
            StatusSessionAction::TypeStatus
        }
    } else if sent_count > 0 && quiet_for >= STATUS_OUTPUT_SETTLE_DELAY && scan_status_text(
        output,
    ).percent is Some {
        StatusSessionAction::Accept
    } else {
        StatusSessionAction::Wait
    }
}

/// One step of the `/status` session: given what the terminal shows, how long
/// the session has run, since the last keystrokes and since the output last
/// changed, and how many times `/status` was typed.
pub fn status_session_step(
    output: &str,
    started_elapsed: u64,
    last_sent_elapsed: u64,
    sent_count: u8,
    quiet_for: u64,
    terminal_ready: bool,
) -> (r: StatusSessionAction)
    requires
        parsable(output@),
    ensures
        r == status_session_action_spec(output@, started_elapsed, last_sent_elapsed, sent_count, quiet_for),
{
    if codex_update_prompt_visible(output) {
        StatusSessionAction::AbortForUpdatePrompt
    } else if should_send_status_command(output, started_elapsed, last_sent_elapsed, sent_count, terminal_ready) {
        if sent_count > 0 && status_command_waiting_for_enter(output) {
            StatusSessionAction::PressEnter
        } else {
            StatusSessionAction::TypeStatus
        }
    } else if sent_count > 0 && status_output_ready_after_settle(output, quiet_for) {
        StatusSessionAction::Accept
    } else {
        StatusSessionAction::Wait
    }
}

/// Whether the terminal asked for the cursor position and has not been
/// answered yet.
pub fn cursor_query_pending(output: &str, already_answered: bool) -> (r: bool)
    ensures
        r == (!already_answered && contains(output@, seq!['\u{1b}', '[', '6', 'n'])),
{
    if already_answered {
        return false;
    }
    let query = chars_of("\u{1b}[6n");
    proof {
        reveal_strlit("\u{1b}[6n");
        assert(query@ =~= seq!['\u{1b}', '[', '6', 'n']);
    }
    find_chars(&chars_of(output), &query).is_some()
}

/// The log line kept of a terminal capture: its size in bytes, never its text.
pub open spec fn probe_log_summary_spec(output: Seq<char>) -> Seq<char> {
    "format_version=1\ncaptured_bytes="@ + decimal(byte_offset(output, output.len() as int) as nat)
        + "\nraw_output=redacted\n"@
}

pub fn probe_log_summary(output: &str) -> (r: String)
    requires
        output@.len() <= 0x3fff_ffff_ffff_ffff,
    ensures
        r@ == probe_log_summary_spec(output@),
{
    let chars = chars_of(output);
    let mut bytes: u64 = 0;
    let mut i: usize = 0;
    while i < chars.len()
        invariant
            i <= chars@.len(),
            chars@ == output@,
            chars@.len() <= 0x3fff_ffff_ffff_ffff,
            bytes == byte_offset(chars@, i as int),
        decreases chars.len() - i,
    {
        proof {
            lemma_byte_offset_bounds(chars@, i as int + 1);
        }
        bytes = bytes + utf8_width_of(chars[i]);
        i += 1;
    }
    let mut text = chars_of("format_version=1\ncaptured_bytes=");
    extend_chars(&mut text, &decimal_chars(bytes));
    extend_chars(&mut text, &chars_of("\nraw_output=redacted\n"));
    string_of(&text)
}

/// A command-line argument, quoted when it holds a space, a tab or a quote
/// (inner quotes escaped with a backslash).
pub open spec fn escape_quotes(s: Seq<char>) -> Seq<char>
    decreases s.len(),
{
    if s.len() == 0 {
        seq![]
    } else if s.last() == '"' {
        escape_quotes(s.drop_last()) + seq!['\\', '"']
    } else {
        escape_quotes(s.drop_last()).push(s.last())
    }
}

pub open spec fn quote_arg_spec(value: Seq<char>) -> Seq<char> {
    if !(value.contains(' ') || value.contains('\t') || value.contains('"')) {
        value
    } else {
        seq!['"'] + escape_quotes(value) + seq!['"']
    }
}

pub fn quote_arg(value: &str) -> (r: String)
    ensures
        r@ == quote_arg_spec(value@),
{
    let chars = chars_of(value);
    if !(has_char(&chars, ' ') || has_char(&chars, '\t') || has_char(&chars, '"')) {
        return lit(value);
    }
    let mut quoted: Vec<char> = Vec::new();
    quoted.push('"');
    let mut i: usize = 0;
    proof {
        assert(quoted@ =~= seq!['"'] + escape_quotes(chars@.take(0)));
    }
    while i < chars.len()
        invariant
            i <= chars@.len(),
            quoted@ == seq!['"'] + escape_quotes(chars@.take(i as int)),
        decreases chars.len() - i,
    {
        proof {
            assert(chars@.take(i as int + 1).drop_last() =~= chars@.take(i as int));
        }
        if chars[i] == '"' {
            quoted.push('\\');
        }
        quoted.push(chars[i]);
        proof {
            assert(quoted@ =~= seq!['"'] + escape_quotes(chars@.take(i as int + 1)));
        }
        i += 1;
    }
    quoted.push('"');
    proof {
        assert(chars@.take(chars@.len() as int) =~= chars@);
    }
    string_of(&quoted)
}

/// Whether a file extension marks a Windows command script (`cmd` or `bat`, any case).
pub fn is_cmd_shim_extension(extension: Option<&str>) -> (r: bool)
    ensures
        r == (extension matches Some(e) && (crate::text::eq_ignore_ascii_case(e@, "cmd"@)
            || crate::text::eq_ignore_ascii_case(e@, "bat"@))),
{
    match extension {
        Some(e) => {
            let text = chars_of(e);
            crate::text::equal_ignoring_ascii_case(&text, &chars_of("cmd"))
                || crate::text::equal_ignoring_ascii_case(&text, &chars_of("bat"))
        },
        None => false,
    }
}

// ---------------------------------------------------------------------------
// Credentials
// ---------------------------------------------------------------------------

/// The configuration facts the credential store reports: configured or not,
/// per provider; an unavailable store reports nothing.
pub open spec fn configuration_facts(statuses: Seq<CredentialStatus>) -> Seq<(ProviderId, bool)>
    decreases statuses.len(),
{
    if statuses.len() == 0 {
        seq![]
    } else {
        let rest = configuration_facts(statuses.drop_last());
        let s = statuses.last();
        match s.availability {
            CredentialAvailability::Configured => rest.push((s.provider_id, true)),
            CredentialAvailability::NotConfigured => rest.push((s.provider_id, false)),
            CredentialAvailability::Unavailable => rest,
        }
    }
}

pub fn configured_facts(statuses: &Vec<CredentialStatus>) -> (r: Vec<(ProviderId, bool)>)
    ensures
        r@ == configuration_facts(statuses@),
{
    let mut facts: Vec<(ProviderId, bool)> = Vec::new();
    let mut i: usize = 0;
    while i < statuses.len()
        invariant
            i <= statuses@.len(),
            facts@ == configuration_facts(statuses@.take(i as int)),
        decreases statuses.len() - i,
    {
        proof {
            assert(statuses@.take(i as int + 1).drop_last() =~= statuses@.take(i as int));
        }
        let status = statuses[i];
        match status.availability {
            CredentialAvailability::Configured => facts.push((status.provider_id, true)),
            CredentialAvailability::NotConfigured => facts.push((status.provider_id, false)),
            CredentialAvailability::Unavailable => {},
        }
        i += 1;
    }
    proof {
        assert(statuses@.take(statuses@.len() as int) =~= statuses@);
    }
    facts
}

/// The message when saving the state failed after a credential was changed,
/// by whether the credential change could be undone.
pub open spec fn rollback_text(rolled_back: bool) -> Seq<char> {
    if rolled_back {
        "状态保存失败，凭据更改已回滚。"@
    } else {
        "状态保存失败，凭据回滚也失败，请检查连接设置。"@
    }
}

/// The message when saving the state failed after a credential was deleted,
/// by whether the deletion could be undone.
pub open spec fn restore_text(rolled_back: bool) -> Seq<char> {
    if rolled_back {
        "状态保存失败，凭据删除已回滚。"@
    } else {
        "状态保存失败，凭据回滚也失败，请检查连接设置。"@
    }
}

pub fn credential_rollback_message(rolled_back: bool) -> (r: String)
    ensures
        r@ == rollback_text(rolled_back),
{
    if rolled_back {
        lit("状态保存失败，凭据更改已回滚。")
    } else {
        lit("状态保存失败，凭据回滚也失败，请检查连接设置。")
    }
}

/// The message when saving the state failed after a credential was deleted,
/// by whether the deletion could be undone.
pub fn deletion_rollback_message(rolled_back: bool) -> (r: String)
    ensures
        r@ == restore_text(rolled_back),
{
    if rolled_back {
        lit("状态保存失败，凭据删除已回滚。")
    } else {
        lit("状态保存失败，凭据回滚也失败，请检查连接设置。")
    }
}

/// The key a new one replaces, from the store's answer to reading it: the key
/// read, none when the store has none, or the message of any other failure.
pub open spec fn previous_credential_spec(read: Result<Seq<char>, CredentialStoreError>) -> Result<
    Option<Seq<char>>,
    Seq<char>,
> {
    match read {
        Ok(secret) => Ok(Some(secret)),
        Err(e) => if e.kind_spec() == CredentialStoreErrorKind::NotFound {
            Ok(None)
        } else {
            Err(store_error_message(e.kind_spec()))
        },
    }
}

pub open spec fn previous_view(r: Result<Option<String>, String>) -> Result<Option<Seq<char>>, Seq<char>> {
    match r {
        Ok(p) => Ok(crate::text::opt_text(p)),
        Err(m) => Err(m@),
    }
}

/// The key a new one replaces, from the store's answer to reading it.
pub fn previous_credential(read: Result<String, CredentialStoreError>) -> (r: Result<
    Option<String>,
    String,
>)
    ensures
        previous_view(r) == previous_credential_spec(read_view(read)),
        read matches Ok(secret) ==> r == Ok::<Option<String>, String>(Some(secret)),
{
    match read {
        Ok(secret) => Ok(Some(secret)),
        Err(error) => {
            if error.kind() == CredentialStoreErrorKind::NotFound {
                Ok(None)
            } else {
                Err(error.to_string())
            }
        },
    }
}

/// The outcome of staging a key from the two answers of the store: to reading
/// the key it replaces, then to saving the new one.
pub open spec fn staged_save(
    previous: Option<Seq<char>>,
    answer: Result<(), CredentialStoreError>,
    provider_id: ProviderId,
    region: Option<KimiRegion>,
) -> Result<(CredentialStatus, Option<Seq<char>>), Seq<char>> {
    match change_outcome(answer, provider_id, region, CredentialAvailability::Configured) {
        Ok(status) => Ok((status, previous)),
        Err(m) => Err(m),
    }
}

pub open spec fn staged_view<T>(r: Result<(CredentialStatus, T), String>, f: spec_fn(T) -> Option<Seq<char>>) -> Result<
    (CredentialStatus, Option<Seq<char>>),
    Seq<char>,
> {
    match r {
        Ok((status, p)) => Ok((status, f(p))),
        Err(m) => Err(m@),
    }
}

/// The first step of saving a provider's key: the key it replaces (none when
/// there was none) is read from the provider's account, then the trimmed new
/// key is saved there. An invalid provider/region pair fails the read as a
/// failed store operation, a blank key is refused after the read, and
/// otherwise the store's answers decide.
pub fn stage_provider_credential<S: CredentialStore>(
    store: &S,
    provider_id: ProviderId,
    region: Option<KimiRegion>,
    secret: &str,
) -> (r: Result<(CredentialStatus, Option<String>), String>)
    ensures
        resolve_spec(provider_id, region) is Err ==> (r matches Err(e) && e@ == store_error_message(
            CredentialStoreErrorKind::OperationFailed,
        )),
        match resolve_spec(provider_id, region) {
            Ok((reg, account)) => exists|read: Result<Seq<char>, CredentialStoreError>|
                #![trigger store.get_answers(account, read)]
                store.get_answers(account, read) && match previous_credential_spec(read) {
                    Err(m) => r matches Err(e) && e@ == m,
                    Ok(previous) => if crate::text::trim(secret@).len() == 0 {
                        r matches Err(e) && e@ == "API Key 不能为空。"@
                    } else {
                        exists|answer: Result<(), CredentialStoreError>|
                            #![trigger store.set_answers(account, crate::text::trim(secret@), answer)]
                            store.set_answers(account, crate::text::trim(secret@), answer)
                                && staged_view(r, |p: Option<String>| crate::text::opt_text(p))
                                == staged_save(previous, answer, provider_id, reg)
                    },
                },
            Err(_) => true,
        },
{
    let loaded = load_provider_credential(store, provider_id, region);
    let ghost read = read_view(loaded);
    let previous = match previous_credential(loaded) {
        Ok(previous) => previous,
        Err(message) => return Err(message),
    };
    let saved = set_provider_credential_with_store(store, provider_id, region, secret);
    let r = match saved {
        Ok(status) => Ok((status, previous)),
        Err(message) => Err(message),
    };
    proof {
        match resolve_spec(provider_id, region) {
            Ok((reg, account)) => {
                assert(store.get_answers(account, read));
                if crate::text::trim(secret@).len() > 0 {
                    let answer = choose|answer: Result<(), CredentialStoreError>|
                        store.set_answers(account, crate::text::trim(secret@), answer)
                            && crate::credentials::status_result_view(saved) == change_outcome(
                            answer,
                            provider_id,
                            reg,
                            CredentialAvailability::Configured,
                        );
                    assert(store.set_answers(account, crate::text::trim(secret@), answer));
                    assert(staged_view(r, |p: Option<String>| crate::text::opt_text(p))
                        == staged_save(crate::text::opt_text(previous), answer, provider_id, reg));
                }
            },
            Err(_) => {},
        }
    }
    r
}

/// Undoes a saved key after the state could not be saved: the previous key is
/// restored (or the new one deleted when there was none). The message says
/// whether that worked.
pub fn roll_back_provider_credential<S: CredentialStore>(
    store: &S,
    provider_id: ProviderId,
    region: Option<KimiRegion>,
    previous: Option<String>,
) -> (r: String)
    ensures
        match resolve_spec(provider_id, region) {
            Err(_) => r@ == rollback_text(false),
            Ok((_, account)) => match previous {
                Some(p) => if crate::text::trim(p@).len() == 0 {
                    r@ == rollback_text(false)
                } else {
                    exists|answer: Result<(), CredentialStoreError>|
                        #![trigger store.set_answers(account, crate::text::trim(p@), answer)]
                        store.set_answers(account, crate::text::trim(p@), answer) && r@
                            == rollback_text(answer is Ok)
                },
                None => exists|answer: Result<(), CredentialStoreError>|
                    #![trigger store.delete_answers(account, answer)]
                    store.delete_answers(account, answer) && r@ == rollback_text(answer is Ok),
            },
        },
{
    let ghost prev = previous;
    let rolled_back = match previous {
        Some(previous) => {
            let saved = set_provider_credential_with_store(store, provider_id, region, previous.as_str());
            proof {
                match resolve_spec(provider_id, region) {
                    Ok((reg, account)) => {
                        if crate::text::trim(previous@).len() > 0 {
                            let answer = choose|answer: Result<(), CredentialStoreError>|
                                store.set_answers(account, crate::text::trim(previous@), answer)
                                    && crate::credentials::status_result_view(saved)
                                    == change_outcome(
                                    answer,
                                    provider_id,
                                    reg,
                                    CredentialAvailability::Configured,
                                );
                            assert(store.set_answers(account, crate::text::trim(previous@), answer));
                            assert(saved.is_ok() == answer is Ok);
                        }
                    },
                    Err(_) => {},
                }
            }
            saved.is_ok()
        },
        None => {
            let deleted = delete_provider_credential_with_store(store, provider_id, region);
            proof {
                match resolve_spec(provider_id, region) {
                    Ok((reg, account)) => {
                        let answer = choose|answer: Result<(), CredentialStoreError>|
                            store.delete_answers(account, answer)
                                && crate::credentials::status_result_view(deleted) == change_outcome(
                                answer,
                                provider_id,
                                reg,
                                CredentialAvailability::NotConfigured,
                            );
                        assert(store.delete_answers(account, answer));
                        assert(deleted.is_ok() == answer is Ok);
                    },
                    Err(_) => {},
                }
            }
            deleted.is_ok()
        },
    };
    credential_rollback_message(rolled_back)
}

/// The outcome of staging a deletion from the store's answer to deleting the
/// key that was read.
pub open spec fn staged_delete(
    previous: Seq<char>,
    answer: Result<(), CredentialStoreError>,
    provider_id: ProviderId,
    region: Option<KimiRegion>,
) -> Result<(CredentialStatus, Option<Seq<char>>), Seq<char>> {
    match change_outcome(answer, provider_id, region, CredentialAvailability::NotConfigured) {
        Ok(status) => Ok((status, Some(previous))),
        Err(m) => Err(m),
    }
}

/// The first step of deleting a provider's key: the key is read from the
/// provider's account (so that it can be restored), then deleted there. An
/// invalid provider/region pair fails the read as a failed store operation;
/// otherwise the store's answers decide, and a failure is reported by kind.
pub fn stage_credential_deletion<S: CredentialStore>(
    store: &S,
    provider_id: ProviderId,
    region: Option<KimiRegion>,
) -> (r: Result<(CredentialStatus, String), String>)
    ensures
        resolve_spec(provider_id, region) is Err ==> (r matches Err(e) && e@ == store_error_message(
            CredentialStoreErrorKind::OperationFailed,
        )),
        match resolve_spec(provider_id, region) {
            Ok((reg, account)) => exists|read: Result<Seq<char>, CredentialStoreError>|
                #![trigger store.get_answers(account, read)]
                store.get_answers(account, read) && match read {
                    Err(e) => r matches Err(m) && m@ == store_error_message(e.kind_spec()),
                    Ok(previous) => exists|answer: Result<(), CredentialStoreError>|
                        #![trigger store.delete_answers(account, answer)]
                        store.delete_answers(account, answer) && staged_view(
                            r,
                            |p: String| Some(p@),
                        ) == staged_delete(previous, answer, provider_id, reg),
                },
            Err(_) => true,
        },
{
    let loaded = load_provider_credential(store, provider_id, region);
    let ghost read = read_view(loaded);
    let previous = match loaded {
        Ok(secret) => secret,
        Err(error) => return Err(error.to_string()),
    };
    let deleted = delete_provider_credential_with_store(store, provider_id, region);
    let r = match deleted {
        Ok(status) => Ok((status, previous)),
        Err(message) => Err(message),
    };
    proof {
        match resolve_spec(provider_id, region) {
            Ok((reg, account)) => {
                assert(store.get_answers(account, read));
                let answer = choose|answer: Result<(), CredentialStoreError>|
                    store.delete_answers(account, answer) && crate::credentials::status_result_view(
                        deleted,
                    ) == change_outcome(answer, provider_id, reg, CredentialAvailability::NotConfigured);
                assert(store.delete_answers(account, answer));
                assert(staged_view(r, |p: String| Some(p@)) == staged_delete(
                    previous@,
                    answer,
                    provider_id,
                    reg,
                ));
            },
            Err(_) => {},
        }
    }
    r
}

/// Restores a deleted key after the state could not be saved. The message says
/// whether that worked.
pub fn restore_deleted_credential<S: CredentialStore>(
    store: &S,
    provider_id: ProviderId,
    region: Option<KimiRegion>,
    previous: &str,
) -> (r: String)
    ensures
        match resolve_spec(provider_id, region) {
            Ok((_, account)) => if crate::text::trim(previous@).len() == 0 {
                r@ == restore_text(false)
            } else {
                exists|answer: Result<(), CredentialStoreError>|
                    #![trigger store.set_answers(account, crate::text::trim(previous@), answer)]
                    store.set_answers(account, crate::text::trim(previous@), answer) && r@
                        == restore_text(answer is Ok)
            },
            Err(_) => r@ == restore_text(false),
        },
{
    let saved = set_provider_credential_with_store(store, provider_id, region, previous);
    proof {
        match resolve_spec(provider_id, region) {
            Ok((reg, account)) => {
                if crate::text::trim(previous@).len() > 0 {
                    let answer = choose|answer: Result<(), CredentialStoreError>|
                        store.set_answers(account, crate::text::trim(previous@), answer)
                            && crate::credentials::status_result_view(saved) == change_outcome(
                            answer,
                            provider_id,
                            reg,
                            CredentialAvailability::Configured,
                        );
                    assert(store.set_answers(account, crate::text::trim(previous@), answer));
                    assert(saved.is_ok() == answer is Ok);
                }
            },
            Err(_) => {},
        }
    }
    deletion_rollback_message(saved.is_ok())
}

// ---------------------------------------------------------------------------
// Launching Codex
// ---------------------------------------------------------------------------

/// The command line of the terminal session that asks Codex for `/status`:
/// a command script runs through `cmd.exe`.
pub open spec fn status_probe_command_line_spec(target: Seq<char>, cmd_shim: bool) -> Seq<char> {
    (if cmd_shim {
        "cmd.exe /D /C "@
    } else {
        ""@
    }) + quote_arg_spec(target) + " -c mcp_servers={} --no-alt-screen"@
}

pub fn status_probe_command_line(target: &str, cmd_shim: bool) -> (r: String)
    ensures
        r@ == status_probe_command_line_spec(target@, cmd_shim),
{
    proof {
        reveal_strlit("");
    }
    let mut t = if cmd_shim {
        chars_of("cmd.exe /D /C ")
    } else {
        chars_of("")
    };
    extend_chars(&mut t, &chars_of(quote_arg(target).as_str()));
    extend_chars(&mut t, &chars_of(" -c mcp_servers={} --no-alt-screen"));
    string_of(&t)
}

/// Owned copies of a list of words.
fn owned_words(words: &[&str]) -> (r: Vec<String>)
    ensures
        crate::codex_probe::string_views(r@) == crate::text::views(words@),
{
    let mut r: Vec<String> = Vec::new();
    let mut i: usize = 0;
    while i < words.len()
        invariant
            i <= words@.len(),
            crate::codex_probe::string_views(r@) == crate::text::views(words@).take(i as int),
        decreases words.len() - i,
    {
        let ghost before = r@;
        r.push(lit(words[i]));
        proof {
            assert(crate::codex_probe::string_views(r@) =~= crate::codex_probe::string_views(before).push(
                words@[i as int]@,
            ));
            assert(crate::text::views(words@).take(i as int + 1) =~= crate::text::views(words@).take(
                i as int,
            ).push(words@[i as int]@));
        }
        i += 1;
    }
    proof {
        assert(crate::text::views(words@).take(words@.len() as int) =~= crate::text::views(words@));
    }
    r
}

/// The program and arguments of the terminal session that asks Codex for
/// `/status`.
pub open spec fn status_session_command_spec(target: Seq<char>, cmd_shim: bool) -> Seq<Seq<char>> {
    if cmd_shim {
        seq![
            "cmd.exe"@,
            "/D"@,
            "/C"@,
            target,
            "-c"@,
            "mcp_servers={}"@,
            "--no-alt-screen"@,
        ]
    } else {
        seq![target, "-c"@, "mcp_servers={}"@, "--no-alt-screen"@]
    }
}

pub fn status_session_command(target: &str, cmd_shim: bool) -> (r: Vec<String>)
    ensures
        crate::codex_probe::string_views(r@) == status_session_command_spec(target@, cmd_shim),
{
    if cmd_shim {
        let words = ["cmd.exe", "/D", "/C", target, "-c", "mcp_servers={}", "--no-alt-screen"];
        let r = owned_words(&words);
        proof {
            assert(crate::text::views(words@) =~= status_session_command_spec(target@, cmd_shim));
        }
        r
    } else {
        let words = [target, "-c", "mcp_servers={}", "--no-alt-screen"];
        let r = owned_words(&words);
        proof {
            assert(crate::text::views(words@) =~= status_session_command_spec(target@, cmd_shim));
        }
        r
    }
}

/// The program and arguments that run Codex with `args`: a command script
/// runs through `cmd`.
pub open spec fn codex_invocation_spec(target: Seq<char>, cmd_shim: bool, args: Seq<Seq<char>>) -> Seq<
    Seq<char>,
> {
    (if cmd_shim {
        seq!["cmd"@, "/D"@, "/C"@, target]
    } else {
        seq![target]
    }) + args
}

pub fn codex_invocation(target: &str, cmd_shim: bool, args: &[&str]) -> (r: Vec<String>)
    ensures
        crate::codex_probe::string_views(r@) == codex_invocation_spec(
            target@,
            cmd_shim,
            crate::text::views(args@),
        ),
{
    let mut r = if cmd_shim {
        let words = ["cmd", "/D", "/C", target];
        let r = owned_words(&words);
        proof {
            assert(crate::text::views(words@) =~= seq!["cmd"@, "/D"@, "/C"@, target@]);
        }
        r
    } else {
        let words = [target];
        let r = owned_words(&words);
        proof {
            assert(crate::text::views(words@) =~= seq![target@]);
        }
        r
    };
    let tail = owned_words(args);
    let ghost head = r@;
    let mut i: usize = 0;
    while i < tail.len()
        invariant
            i <= tail@.len(),
            r@ == head + tail@.take(i as int),
        decreases tail.len() - i,
    {
        r.push(tail[i].clone());
        proof {
            assert(tail@.take(i as int + 1) =~= tail@.take(i as int).push(tail@[i as int]));
        }
        i += 1;
    }
    proof {
        assert(tail@.take(tail@.len() as int) =~= tail@);
        assert(crate::codex_probe::string_views(r@) =~= crate::codex_probe::string_views(head)
            + crate::codex_probe::string_views(tail@));
    }
    r
}

/// The file names Codex may have in a directory.
pub open spec fn codex_names(windows: bool) -> Seq<Seq<char>> {
    if windows {
        seq!["codex.exe"@, "codex.cmd"@, "codex.bat"@, "codex"@]
    } else {
        seq!["codex"@]
    }
}

/// The path, below an npm directory, of the Codex binary that npm installs.
pub open spec fn npm_managed_tail() -> Seq<Seq<char>> {
    seq![
        "node_modules"@,
        "@openai"@,
        "codex"@,
        "node_modules"@,
        "@openai"@,
        "codex-win32-x64"@,
        "vendor"@,
        "x86_64-pc-windows-msvc"@,
        "bin"@,
        "codex.exe"@,
    ]
}

/// Each Codex file name in the directory `dir` (a path as its parts).
pub open spec fn named_in(dir: Seq<Seq<char>>, windows: bool) -> Seq<Seq<Seq<char>>> {
    codex_names(windows).map_values(|name: Seq<char>| dir.push(name))
}

/// The places Codex is looked for, in order, each path given as its parts:
/// npm's directory under the roaming application data, the same under the
/// user profile, the user's WindowsApps, then each directory of `PATH`.
pub open spec fn codex_candidates(
    app_data: Option<Seq<char>>,
    user_profile: Option<Seq<char>>,
    local_app_data: Option<Seq<char>>,
    path_dirs: Seq<Seq<char>>,
    windows: bool,
) -> Seq<Seq<Seq<char>>> {
    let from_app_data = match app_data {
        Some(a) => seq![seq![a, "npm"@] + npm_managed_tail()] + named_in(seq![a, "npm"@], windows),
        None => seq![],
    };
    let from_profile = match user_profile {
        Some(u) => seq![seq![u, "AppData"@, "Roaming"@, "npm"@] + npm_managed_tail()] + named_in(
            seq![u, "AppData"@, "Roaming"@, "npm"@],
            windows,
        ) + named_in(seq![u, "AppData"@, "Local"@, "Microsoft"@, "WindowsApps"@], windows),
        None => seq![],
    };
    let from_local = match local_app_data {
        Some(l) => named_in(seq![l, "Microsoft"@, "WindowsApps"@], windows),
        None => seq![],
    };
    from_app_data + from_profile + from_local + path_candidates(path_dirs, windows)
}

pub open spec fn path_candidates(dirs: Seq<Seq<char>>, windows: bool) -> Seq<Seq<Seq<char>>>
    decreases dirs.len(),
{
    if dirs.len() == 0 {
        seq![]
    } else {
        path_candidates(dirs.drop_last(), windows) + named_in(seq![dirs.last()], windows)
    }
}

pub open spec fn path_list_views(v: Seq<Vec<String>>) -> Seq<Seq<Seq<char>>> {
    v.map_values(|p: Vec<String>| crate::codex_probe::string_views(p@))
}

fn push_path(out: &mut Vec<Vec<String>>, parts: &[&str])
    ensures
        path_list_views(final(out)@) == path_list_views(old(out)@).push(crate::text::views(parts@)),
{
    let ghost before = out@;
    out.push(owned_words(parts));
    proof {
        assert(path_list_views(out@) =~= path_list_views(before).push(crate::text::views(parts@)));
    }
}

fn push_codex_names(out: &mut Vec<Vec<String>>, dir: &[&str], windows: bool)
    ensures
        path_list_views(final(out)@) == path_list_views(old(out)@) + named_in(
            crate::text::views(dir@),
            windows,
        ),
{
    let ghost before = path_list_views(out@);
    let ghost d = crate::text::views(dir@);
    if windows {
        let names = ["codex.exe", "codex.cmd", "codex.bat", "codex"];
        let mut i: usize = 0;
        while i < 4
            invariant
                i <= 4,
                d == crate::text::views(dir@),
                crate::text::views(names@) == codex_names(true),
                path_list_views(out@) == before + named_in(d, true).take(i as int),
            decreases 4 - i,
        {
            let mut parts: Vec<&str> = Vec::new();
            let mut k: usize = 0;
            while k < dir.len()
                invariant
                    k <= dir@.len(),
                    crate::text::views(parts@) == crate::text::views(dir@).take(k as int),
                decreases dir.len() - k,
            {
                let ghost before = parts@;
                parts.push(dir[k]);
                proof {
                    assert(parts@ == before.push(dir@[k as int]));
                    assert(crate::text::views(parts@) =~= crate::text::views(before).push(
                        dir@[k as int]@,
                    ));
                    assert(crate::text::views(parts@) =~= crate::text::views(dir@).take(k as int + 1));
                }
                k += 1;
            }
            parts.push(names[i]);
            proof {
                assert(crate::text::views(dir@).take(dir@.len() as int) =~= d);
                assert(crate::text::views(parts@) =~= d.push(names@[i as int]@));
                assert(named_in(d, true).take(i as int + 1) =~= named_in(d, true).take(i as int).push(
                    d.push(codex_names(true)[i as int]),
                ));
            }
            push_path(out, parts.as_slice());
            i += 1;
        }
        proof {
            assert(named_in(d, true).take(4) =~= named_in(d, true));
        }
    } else {
        let mut parts: Vec<&str> = Vec::new();
        let mut k: usize = 0;
        while k < dir.len()
            invariant
                k <= dir@.len(),
                crate::text::views(parts@) == crate::text::views(dir@).take(k as int),
            decreases dir.len() - k,
        {
            let ghost before = parts@;
            parts.push(dir[k]);
            proof {
                assert(parts@ == before.push(dir@[k as int]));
                assert(crate::text::views(parts@) =~= crate::text::views(before).push(dir@[k as int]@));
                assert(crate::text::views(parts@) =~= crate::text::views(dir@).take(k as int + 1));
            }
            k += 1;
        }
        parts.push("codex");
        proof {
            assert(crate::text::views(dir@).take(dir@.len() as int) =~= d);
            assert(crate::text::views(parts@) =~= d.push("codex"@));
        }
        push_path(out, parts.as_slice());
        proof {
            assert(named_in(d, false) =~= seq![d.push("codex"@)]);
        }
    }
}

/// Where to look for the Codex CLI, given the application-data, profile and
/// local-application-data directories and the `PATH` directories of the
/// environment; each candidate is a path given as the parts to join.
pub fn codex_candidate_paths(
    app_data: Option<&str>,
    user_profile: Option<&str>,
    local_app_data: Option<&str>,
    path_dirs: &[&str],
    windows: bool,
) -> (r: Vec<Vec<String>>)
    ensures
        path_list_views(r@) == codex_candidates(
            match app_data {
                Some(a) => Some(a@),
                None => None,
            },
            match user_profile {
                Some(u) => Some(u@),
                None => None,
            },
            match local_app_data {
                Some(l) => Some(l@),
                None => None,
            },
            crate::text::views(path_dirs@),
            windows,
        ),
{
    let mut out: Vec<Vec<String>> = Vec::new();
    proof {
        assert(path_list_views(out@) =~= Seq::<Seq<Seq<char>>>::empty());
    }
    if let Some(a) = app_data {
        let managed = [
            a,
            "npm",
            "node_modules",
            "@openai",
            "codex",
            "node_modules",
            "@openai",
            "codex-win32-x64",
            "vendor",
            "x86_64-pc-windows-msvc",
            "bin",
            "codex.exe",
        ];
        let npm = [a, "npm"];
        proof {
            assert(crate::text::views(managed@) =~= seq![a@, "npm"@] + npm_managed_tail());
            assert(crate::text::views(npm@) =~= seq![a@, "npm"@]);
        }
        push_path(&mut out, &managed);
        push_codex_names(&mut out, &npm, windows);
    }
    let ghost after_app_data = path_list_views(out@);
    if let Some(u) = user_profile {
        let managed = [
            u,
            "AppData",
            "Roaming",
            "npm",
            "node_modules",
            "@openai",
            "codex",
            "node_modules",
            "@openai",
            "codex-win32-x64",
            "vendor",
            "x86_64-pc-windows-msvc",
            "bin",
            "codex.exe",
        ];
        let npm = [u, "AppData", "Roaming", "npm"];
        let apps = [u, "AppData", "Local", "Microsoft", "WindowsApps"];
        proof {
            assert(crate::text::views(managed@) =~= seq![u@, "AppData"@, "Roaming"@, "npm"@]
                + npm_managed_tail());
            assert(crate::text::views(npm@) =~= seq![u@, "AppData"@, "Roaming"@, "npm"@]);
            assert(crate::text::views(apps@) =~= seq![
                u@,
                "AppData"@,
                "Local"@,
                "Microsoft"@,
                "WindowsApps"@,
            ]);
        }
        push_path(&mut out, &managed);
        push_codex_names(&mut out, &npm, windows);
        push_codex_names(&mut out, &apps, windows);
    }
    let ghost after_profile = path_list_views(out@);
    if let Some(l) = local_app_data {
        let apps = [l, "Microsoft", "WindowsApps"];
        proof {
            assert(crate::text::views(apps@) =~= seq![l@, "Microsoft"@, "WindowsApps"@]);
        }
        push_codex_names(&mut out, &apps, windows);
    }
    let ghost after_local = path_list_views(out@);
    let ghost app_data_v = match app_data {
        Some(a) => Some(a@),
        None => None,
    };
    let ghost user_profile_v = match user_profile {
        Some(u) => Some(u@),
        None => None,
    };
    let ghost local_v = match local_app_data {
        Some(l) => Some(l@),
        None => None,
    };
    proof {
        let from_app_data = match app_data_v {
            Some(a) => seq![seq![a, "npm"@] + npm_managed_tail()] + named_in(seq![a, "npm"@], windows),
            None => Seq::<Seq<Seq<char>>>::empty(),
        };
        let from_profile = match user_profile_v {
            Some(u) => seq![seq![u, "AppData"@, "Roaming"@, "npm"@] + npm_managed_tail()] + named_in(
                seq![u, "AppData"@, "Roaming"@, "npm"@],
                windows,
            ) + named_in(seq![u, "AppData"@, "Local"@, "Microsoft"@, "WindowsApps"@], windows),
            None => Seq::<Seq<Seq<char>>>::empty(),
        };
        let from_local = match local_v {
            Some(l) => named_in(seq![l, "Microsoft"@, "WindowsApps"@], windows),
            None => Seq::<Seq<Seq<char>>>::empty(),
        };
        assert(after_app_data =~= from_app_data);
        assert(after_profile =~= from_app_data + from_profile);
        assert(after_local =~= from_app_data + from_profile + from_local);
        assert(crate::text::views(path_dirs@).take(0) =~= Seq::<Seq<char>>::empty());
        assert(after_local + path_candidates(Seq::<Seq<char>>::empty(), windows) =~= after_local);
    }
    let mut i: usize = 0;
    while i < path_dirs.len()
        invariant
            i <= path_dirs@.len(),
            path_list_views(out@) == after_local + path_candidates(
                crate::text::views(path_dirs@).take(i as int),
                windows,
            ),
        decreases path_dirs.len() - i,
    {
        let one = [path_dirs[i]];
        proof {
            let dirs = crate::text::views(path_dirs@);
            assert(dirs.take(i as int + 1).drop_last() =~= dirs.take(i as int));
            assert(dirs.take(i as int + 1).last() == path_dirs@[i as int]@);
            assert(crate::text::views(one@) =~= seq![path_dirs@[i as int]@]);
        }
        push_codex_names(&mut out, &one, windows);
        proof {
            let dirs = crate::text::views(path_dirs@);
            assert(path_list_views(out@) =~= after_local + path_candidates(dirs.take(i as int + 1), windows));
        }
        i += 1;
    }
    proof {
        assert(crate::text::views(path_dirs@).take(path_dirs@.len() as int) =~= crate::text::views(
            path_dirs@,
        ));
    }
    out
}

// ---------------------------------------------------------------------------
// Diagnostics
// ---------------------------------------------------------------------------

/// The Codex version reported by `codex --version`: its trimmed output when
/// the command succeeded with some output.
pub open spec fn reported_codex_version(version_output: Option<(bool, Seq<char>)>) -> Option<
    Seq<char>,
> {
    match version_output {
        Some((success, stdout)) => if success && crate::text::trim(stdout).len() > 0 {
            Some(crate::text::trim(stdout))
        } else {
            None
        },
        None => None,
    }
}

/// The facts shown in the details view: versions, where Codex and the state
/// file are, and the latest Codex reading's source and time.
pub fn build_diagnostics(
    state: &AppState,
    codex_path: Option<String>,
    version_output: Option<(bool, String)>,
    startup_enabled: bool,
) -> (r: crate::models::AppDiagnostics)
    ensures
        r.app_version@ == crate::updates::APP_VERSION@,
        crate::text::opt_text(r.codex_path) == crate::text::opt_text(codex_path),
        crate::text::opt_text(r.codex_version) == reported_codex_version(
            match version_output {
                Some((success, stdout)) => Some((success, stdout@)),
                None => None,
            },
        ),
        r.latest_source == match state.latest_snapshot {
            Some(s) => Some(s.source),
            None => None,
        },
        crate::text::opt_text(r.latest_success_at) == match state.latest_snapshot {
            Some(s) => Some(s.captured_at@),
            None => None,
        },
        crate::text::opt_text(r.storage_path) == crate::text::opt_text(state.storage_path),
        r.storage_status == state.storage_status,
        r.startup_enabled == startup_enabled,
        r.signed_updates_enabled,
{
    let codex_version = match version_output {
        Some((success, stdout)) => {
            let trimmed = crate::text::trim_ws(&chars_of(stdout.as_str()));
            if success && trimmed.len() > 0 {
                Some(string_of(&trimmed))
            } else {
                None
            }
        },
        None => None,
    };
    let (latest_source, latest_success_at) = match &state.latest_snapshot {
        Some(s) => (Some(s.source), Some(s.captured_at.clone())),
        None => (None, None),
    };
    crate::models::AppDiagnostics {
        app_version: lit(crate::updates::APP_VERSION),
        codex_path,
        codex_version,
        latest_source,
        latest_success_at,
        storage_path: match &state.storage_path {
            Some(p) => Some(p.clone()),
            None => None,
        },
        storage_status: state.storage_status,
        startup_enabled,
        signed_updates_enabled: true,
    }
}

} // verus!
