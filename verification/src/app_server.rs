//! The rate limits that the Codex app server reports, turned into a Codex
//! snapshot: the Codex bucket is chosen, each reported window is placed as the
//! five-hour or the weekly window by its length, and missing windows are warned of.
use crate::codex_probe::int_text;
use crate::models::{CodexSnapshot, ParseWarning, QuotaReading, SnapshotSource};
use crate::status_parser::{warning, warning_views};
use crate::text::{chars_of, decimal_chars, extend_chars, opt_text, string_of};
use vstd::prelude::*;

verus! {

broadcast use vstd::string::group_string_axioms;

/// One reported window: the percentage left (rounded from the reported use),
/// the window's length in minutes and when it resets (Unix seconds).
#[derive(Clone, Copy, Debug)]
pub struct RateLimitWindow {
    pub remaining_percent: u8,
    pub window_duration_mins: i64,
    pub resets_at: i64,
}

/// One limit bucket as reported.
#[derive(Debug)]
pub struct RateLimitBucket {
    pub limit_id: String,
    pub primary: Option<RateLimitWindow>,
    pub secondary: Option<RateLimitWindow>,
    pub credits_balance: Option<String>,
    pub plan_type: Option<String>,
}

/// The answer to a rate-limits request: the default bucket, the buckets by
/// limit id, and the available reset credits.
#[derive(Debug)]
pub struct RateLimitsResult {
    pub rate_limits: Option<RateLimitBucket>,
    pub rate_limits_by_limit_id: Vec<(String, RateLimitBucket)>,
    pub reset_credits_available: Option<u32>,
}

/// Whether a window is closer to five hours than to a week.
pub open spec fn is_short_window(mins: i64) -> bool {
    let short = if mins - 300 < 0 {
        300 - mins
    } else {
        mins - 300
    };
    let week = if mins - 10080 < 0 {
        10080 - mins
    } else {
        mins - 10080
    };
    short <= week
}

/// The short and weekly windows after one more reported window: each place is
/// taken by the first window that fits it.
pub open spec fn assign_window(
    placed: (Option<RateLimitWindow>, Option<RateLimitWindow>),
    window: Option<RateLimitWindow>,
) -> (Option<RateLimitWindow>, Option<RateLimitWindow>) {
    match window {
        None => placed,
        Some(w) => if is_short_window(w.window_duration_mins) {
            if placed.0 is None {
                (Some(w), placed.1)
            } else {
                placed
            }
        } else if placed.1 is None {
            (placed.0, Some(w))
        } else {
            placed
        },
    }
}

pub open spec fn placed_windows(bucket: RateLimitBucket) -> (Option<RateLimitWindow>, Option<
    RateLimitWindow,
>) {
    assign_window(assign_window((None, None), bucket.primary), bucket.secondary)
}

/// The index of the first bucket listed under the id `codex`.
pub open spec fn codex_index(by_id: Seq<(String, RateLimitBucket)>) -> Option<int> {
    if exists|i: int| 0 <= i < by_id.len() && (#[trigger] by_id[i]).0@ == "codex"@ {
        Some(
            choose|i: int|
                0 <= i < by_id.len() && (#[trigger] by_id[i]).0@ == "codex"@ && forall|j: int|
                    0 <= j < i ==> (#[trigger] by_id[j]).0@ != "codex"@,
        )
    } else {
        None
    }
}

/// The bucket used: the one listed under `codex`, else the default one.
pub open spec fn chosen_bucket(result: RateLimitsResult) -> Option<RateLimitBucket> {
    match codex_index(result.rate_limits_by_limit_id@) {
        Some(i) => Some(result.rate_limits_by_limit_id@[i].1),
        None => result.rate_limits,
    }
}

/// The reset time text of a window: `unix:` and its seconds.
pub open spec fn window_reset_text(w: RateLimitWindow) -> Seq<char> {
    "unix:"@ + int_text(w.resets_at as int)
}

/// The reading that a placed window gives, or an empty one.
pub open spec fn window_reading_holds(r: QuotaReading, w: Option<RateLimitWindow>) -> bool {
    match w {
        Some(w) => r.remaining_percent == Some(w.remaining_percent) && opt_text(r.reset_at) == Some(
            window_reset_text(w),
        ) && r.reset_countdown_seconds is None,
        None => r == QuotaReading::empty_spec(),
    }
}

pub open spec fn rate_limit_warnings(short_found: bool, weekly_found: bool) -> Seq<(Seq<char>, Seq<char>)> {
    (if short_found {
        seq![]
    } else {
        seq![("missing-five-hour"@, "当前账户没有返回短周期额度窗口。"@)]
    }) + (if weekly_found {
        seq![]
    } else {
        seq![("missing-weekly"@, "当前账户没有返回长周期额度窗口。"@)]
    })
}

/// The readings of a rate-limits answer: the five-hour window's reading, and
/// the Codex snapshot with the weekly window, the plan, credits and warnings.
#[derive(Debug)]
pub struct RateLimitsSnapshot {
    pub five_hour: QuotaReading,
    pub snapshot: CodexSnapshot,
}

/// What reading a rate-limits answer gives: an error when no bucket or no
/// window was reported, else the five-hour window's reading and the snapshot
/// of the weekly window with the plan, credits and warnings.
pub open spec fn rate_limits_outcome_holds(
    r: Result<RateLimitsSnapshot, String>,
    result: RateLimitsResult,
    captured_at: Seq<char>,
) -> bool {
    match chosen_bucket(result) {
        None => r matches Err(e) && e@ == "Codex app-server 没有返回 codex 额度桶。"@,
        Some(bucket) => {
            let placed = placed_windows(bucket);
            if placed.0 is None && placed.1 is None {
                r matches Err(e) && e@ == "Codex app-server 没有返回可用的额度百分比。"@
            } else {
                let warnings = rate_limit_warnings(placed.0 is Some, placed.1 is Some);
                r matches Ok(readings) && {
                    let s = readings.snapshot;
                    &&& window_reading_holds(readings.five_hour, placed.0)
                    &&& s.id@ == captured_at
                    &&& s.source == SnapshotSource::CodexAppServer
                    &&& s.captured_at@ == captured_at
                    &&& window_reading_holds(s.weekly, placed.1)
                    &&& opt_text(s.plan_type) == opt_text(bucket.plan_type)
                    &&& opt_text(s.credits_balance) == opt_text(bucket.credits_balance)
                    &&& s.reset_credits_available == result.reset_credits_available
                    &&& s.raw_text@ == Seq::<char>::empty()
                    &&& s.status_message@ == if warnings.len() == 0 {
                        "已通过 Codex app-server 更新全部额度。"@
                    } else {
                        "已通过 Codex app-server 更新当前账户提供的额度窗口。"@
                    }
                    &&& warning_views(s.warnings@) == warnings
                }
            }
        },
    }
}

/// The readings of a bucket: its five-hour and weekly windows as placed, and
/// its plan and credits.
pub open spec fn readings_from(readings: RateLimitsSnapshot, bucket: RateLimitBucket) -> bool {
    &&& window_reading_holds(readings.five_hour, placed_windows(bucket).0)
    &&& window_reading_holds(readings.snapshot.weekly, placed_windows(bucket).1)
    &&& opt_text(readings.snapshot.plan_type) == opt_text(bucket.plan_type)
    &&& opt_text(readings.snapshot.credits_balance) == opt_text(bucket.credits_balance)
}

/// The bucket listed under `codex` wins: when the buckets by limit id hold a
/// `codex` entry, the readings come from the first such entry, whatever the
/// default bucket is (replacing or dropping the default changes nothing);
/// only without a `codex` entry are they read from the default bucket.
pub proof fn lemma_codex_bucket_wins(
    r: Result<RateLimitsSnapshot, String>,
    result: RateLimitsResult,
    other_default: Option<RateLimitBucket>,
    captured_at: Seq<char>,
)
    ensures
        ({
            let by_id = result.rate_limits_by_limit_id@;
            forall|i: int|
                #![trigger by_id[i]]
                0 <= i < by_id.len() && by_id[i].0@ == "codex"@ && (forall|j: int|
                    0 <= j < i ==> (#[trigger] by_id[j]).0@ != "codex"@) ==> {
                    &&& (rate_limits_outcome_holds(r, result, captured_at) <==> rate_limits_outcome_holds(
                        r,
                        RateLimitsResult {
                            rate_limits: other_default,
                            rate_limits_by_limit_id: result.rate_limits_by_limit_id,
                            reset_credits_available: result.reset_credits_available,
                        },
                        captured_at,
                    ))
                    &&& (rate_limits_outcome_holds(r, result, captured_at) && r is Ok) ==> readings_from(
                        r->Ok_0,
                        by_id[i].1,
                    )
                }
        }),
        ({
            let by_id = result.rate_limits_by_limit_id@;
            (forall|j: int| 0 <= j < by_id.len() ==> (#[trigger] by_id[j]).0@ != "codex"@)
                && rate_limits_outcome_holds(r, result, captured_at) ==> match result.rate_limits {
                None => r is Err,
                Some(bucket) => r is Ok ==> readings_from(r->Ok_0, bucket),
            }
        }),
{
    let by_id = result.rate_limits_by_limit_id@;
    assert forall|i: int|
        #![trigger by_id[i]]
        0 <= i < by_id.len() && by_id[i].0@ == "codex"@ && (forall|j: int|
            0 <= j < i ==> (#[trigger] by_id[j]).0@ != "codex"@) implies codex_index(by_id) == Some(i) by {
        assert(exists|k: int| 0 <= k < by_id.len() && (#[trigger] by_id[k]).0@ == "codex"@);
        let k = choose|k: int|
            0 <= k < by_id.len() && (#[trigger] by_id[k]).0@ == "codex"@ && forall|j: int|
                0 <= j < k ==> (#[trigger] by_id[j]).0@ != "codex"@;
        assert(0 <= i < by_id.len() && by_id[i].0@ == "codex"@ && forall|j: int|
            0 <= j < i ==> (#[trigger] by_id[j]).0@ != "codex"@);
        if k < i {
            assert(by_id[k].0@ != "codex"@);
        } else if k > i {
            assert(by_id[i].0@ != "codex"@);
        }
    }
}

fn short_window(mins: i64) -> (r: bool)
    ensures
        r == is_short_window(mins),
{
    let m = mins as i128;
    let short = if m - 300 < 0 {
        300 - m
    } else {
        m - 300
    };
    let week = if m - 10080 < 0 {
        10080 - m
    } else {
        m - 10080
    };
    short <= week
}

fn place(
    placed: (Option<RateLimitWindow>, Option<RateLimitWindow>),
    window: Option<RateLimitWindow>,
) -> (r: (Option<RateLimitWindow>, Option<RateLimitWindow>))
    ensures
        r == assign_window(placed, window),
{
    match window {
        None => placed,
        Some(w) => if short_window(w.window_duration_mins) {
            if placed.0.is_none() {
                (Some(w), placed.1)
            } else {
                placed
            }
        } else if placed.1.is_none() {
            (placed.0, Some(w))
        } else {
            placed
        },
    }
}

fn window_reading(w: Option<RateLimitWindow>) -> (r: QuotaReading)
    ensures
        window_reading_holds(r, w),
{
    match w {
        None => QuotaReading::empty(),
        Some(w) => {
            let mut t = chars_of("unix:");
            if w.resets_at < 0 {
                t.push('-');
                let magnitude: u64 = (0i128 - (w.resets_at as i128)) as u64;
                extend_chars(&mut t, &decimal_chars(magnitude));
            } else {
                extend_chars(&mut t, &decimal_chars(w.resets_at as u64));
            }
            proof {
                assert(t@ =~= window_reset_text(w));
            }
            QuotaReading {
                remaining_percent: Some(w.remaining_percent),
                reset_at: Some(string_of(&t)),
                reset_countdown_seconds: None,
            }
        },
    }
}

fn find_codex_bucket(by_id: &Vec<(String, RateLimitBucket)>) -> (r: Option<usize>)
    ensures
        match r {
            Some(i) => codex_index(by_id@) == Some(i as int) && i < by_id@.len(),
            None => codex_index(by_id@) is None,
        },
{
    let mut i: usize = 0;
    while i < by_id.len()
        invariant
            i <= by_id@.len(),
            forall|j: int| 0 <= j < i ==> (#[trigger] by_id@[j]).0@ != "codex"@,
        decreases by_id.len() - i,
    {
        if by_id[i].0 == "codex".to_string() {
            proof {
                let k = choose|k: int|
                    0 <= k < by_id@.len() && (#[trigger] by_id@[k]).0@ == "codex"@ && forall|j: int|
                        0 <= j < k ==> (#[trigger] by_id@[j]).0@ != "codex"@;
                assert(0 <= k < by_id@.len() && by_id@[i as int].0@ == "codex"@ && forall|j: int|
                    0 <= j < i ==> (#[trigger] by_id@[j]).0@ != "codex"@);
                if k < i {
                    assert(by_id@[k].0@ != "codex"@);
                } else if k > i {
                    assert(by_id@[i as int].0@ != "codex"@);
                }
            }
            return Some(i);
        }
        i += 1;
    }
    None
}

/// Reads a rate-limits answer, stamped with `captured_at`.
pub fn parse_rate_limits_value(result: RateLimitsResult, captured_at: String) -> (r: Result<
    RateLimitsSnapshot,
    String,
>)
    ensures
        rate_limits_outcome_holds(r, result, captured_at@),
{
    let ghost original = result;
    let RateLimitsResult { rate_limits, mut rate_limits_by_limit_id, reset_credits_available } =
        result;
    let bucket = match find_codex_bucket(&rate_limits_by_limit_id) {
        Some(i) => {
            let (_, b) = rate_limits_by_limit_id.remove(i);
            b
        },
        None => match rate_limits {
            Some(b) => b,
            None => return Err("Codex app-server 没有返回 codex 额度桶。".to_string()),
        },
    };
    proof {
        assert(chosen_bucket(original) == Some(bucket));
    }
    let placed = place(place((None, None), bucket.primary), bucket.secondary);
    let short_found = placed.0.is_some();
    let weekly_found = placed.1.is_some();
    if !short_found && !weekly_found {
        return Err("Codex app-server 没有返回可用的额度百分比。".to_string());
    }
    let mut warnings: Vec<ParseWarning> = Vec::new();
    if !short_found {
        warnings.push(warning("missing-five-hour", "当前账户没有返回短周期额度窗口。"));
    }
    if !weekly_found {
        warnings.push(warning("missing-weekly", "当前账户没有返回长周期额度窗口。"));
    }
    proof {
        assert(warning_views(warnings@) =~= rate_limit_warnings(short_found, weekly_found));
    }
    let status_message = if warnings.len() == 0 {
        "已通过 Codex app-server 更新全部额度。".to_string()
    } else {
        "已通过 Codex app-server 更新当前账户提供的额度窗口。".to_string()
    };
    let RateLimitBucket { limit_id: _, primary: _, secondary: _, credits_balance, plan_type } =
        bucket;
    Ok(
        RateLimitsSnapshot {
            five_hour: window_reading(placed.0),
            snapshot: CodexSnapshot {
                id: captured_at.clone(),
                source: SnapshotSource::CodexAppServer,
                captured_at,
                weekly: window_reading(placed.1),
                plan_type,
                credits_balance,
                reset_credits_available,
                raw_text: String::new(),
                status_message,
                warnings,
            },
        },
    )
}

// ---------------------------------------------------------------------------
// Reply lines of the app server
// ---------------------------------------------------------------------------

/// What one reply line of the app server holds as `serde_json` reads it: the
/// `id` when it is an unsigned integer; whether there is an `error` member, with
/// its `message` when that is a string; and the `result` member as JSON text.
/// A line that is not JSON gives the text of the JSON error.
pub uninterp spec fn rpc_line_fields(line: Seq<char>) -> Result<
    (Option<u64>, Option<Option<Seq<char>>>, Option<Seq<char>>),
    Seq<char>,
>;

pub open spec fn opt_opt_text(o: Option<Option<String>>) -> Option<Option<Seq<char>>> {
    match o {
        Some(inner) => Some(opt_text(inner)),
        None => None,
    }
}

pub open spec fn rpc_fields_view(
    r: Result<(Option<u64>, Option<Option<String>>, Option<String>), String>,
) -> Result<(Option<u64>, Option<Option<Seq<char>>>, Option<Seq<char>>), Seq<char>> {
    match r {
        Ok((id, error, result)) => Ok((id, opt_opt_text(error), opt_text(result))),
        Err(e) => Err(e@),
    }
}

/// Reads a reply line (`serde_json::from_str` into a `Value`), then its `id`
/// (`as_u64`), its `error` member's `message` (`as_str`) and its `result`
/// member written back as JSON text. The contract names the result.
#[verifier::external_body]
fn parse_rpc_line(line: &str) -> (r: Result<(Option<u64>, Option<Option<String>>, Option<String>), String>)
    ensures
        rpc_fields_view(r) == rpc_line_fields(line@),
{
    let message: serde_json::Value = serde_json::from_str(line).map_err(|error| error.to_string())?;
    Ok((
        message.get("id").and_then(serde_json::Value::as_u64),
        message.get("error").map(|error| error.get("message").and_then(serde_json::Value::as_str).map(str::to_string)),
        message.get("result").map(|result| result.to_string()),
    ))
}

/// What a reply line means while waiting for the answer to `request_id`: a
/// line that is not JSON is an error; a line for another request is passed
/// over (`None`); the answer is its error, named by its message, or its result
/// (as JSON text), which must be there.
pub open spec fn rpc_step(
    fields: Result<(Option<u64>, Option<Option<Seq<char>>>, Option<Seq<char>>), Seq<char>>,
    request_id: u64,
) -> Result<Option<Seq<char>>, Seq<char>> {
    match fields {
        Err(e) => Err("Codex app-server 返回了无效 JSON："@ + e),
        Ok((id, error, result)) => if id != Some(request_id) {
            Ok(None)
        } else {
            match error {
                Some(message) => Err(
                    "Codex app-server 请求失败："@ + match message {
                        Some(m) => m,
                        None => "未知错误"@,
                    },
                ),
                None => match result {
                    Some(text) => Ok(Some(text)),
                    None => Err("Codex app-server 响应缺少 result。"@),
                },
            }
        },
    }
}

pub open spec fn rpc_step_view(r: Result<Option<String>, String>) -> Result<Option<Seq<char>>, Seq<char>> {
    match r {
        Ok(o) => Ok(opt_text(o)),
        Err(e) => Err(e@),
    }
}

fn text2(a: &str, b: &str) -> (r: String)
    ensures
        r@ == a@ + b@,
{
    let mut t = chars_of(a);
    extend_chars(&mut t, &chars_of(b));
    string_of(&t)
}

/// Reads one reply line of the app server while waiting for the answer to
/// `request_id` (see `rpc_step`).
pub fn classify_rpc_line(line: &str, request_id: u64) -> (r: Result<Option<String>, String>)
    ensures
        rpc_step_view(r) == rpc_step(rpc_line_fields(line@), request_id),
{
    match parse_rpc_line(line) {
        Err(e) => Err(text2("Codex app-server 返回了无效 JSON：", e.as_str())),
        Ok((id, error, result)) => {
            if id != Some(request_id) {
                return Ok(None);
            }
            match error {
                Some(Some(message)) => Err(text2("Codex app-server 请求失败：", message.as_str())),
                Some(None) => Err(text2("Codex app-server 请求失败：", "未知错误")),
                None => match result {
                    Some(text) => Ok(Some(text)),
                    None => Err("Codex app-server 响应缺少 result。".to_string()),
                },
            }
        },
    }
}

} // verus!
