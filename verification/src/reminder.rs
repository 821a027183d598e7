//! Reminders about the latest usage reading: a low remaining quota and a stale
//! or undated reading, each delivered once.
use crate::status_parser::unix_now_seconds;
use crate::text::{
    all_digits, chars_of, decimal, decimal_chars, extend_chars, lit, parse_digits_up_to,
    same_chars, slice_vec, starts_with, starts_with_chars, string_of,
};
use vstd::prelude::*;

verus! {

broadcast use vstd::string::group_string_axioms;

/// A reminder ready to show, with the key that identifies it.
#[derive(Debug)]
pub struct ReminderCandidate {
    pub key: String,
    pub title: String,
    pub body: String,
}

impl Clone for ReminderCandidate {
    fn clone(&self) -> (r: Self)
        ensures
            r == *self,
    {
        ReminderCandidate { key: self.key.clone(), title: self.title.clone(), body: self.body.clone() }
    }
}

/// The reminder preferences.
#[derive(Debug)]
pub struct Settings {
    pub stale_after_minutes: u32,
    pub notify_below_percent: Vec<u8>,
    pub clipboard_monitoring: bool,
    pub notifications_enabled: bool,
}

/// The reading the reminders look at.
#[derive(Debug)]
pub struct UsageSnapshot {
    pub id: String,
    pub parsed_at: String,
    pub remaining_percent: Option<u8>,
}

/// The keys of the reminders already delivered.
#[derive(Debug)]
pub struct ReminderState {
    delivered_keys: Vec<String>,
}

impl ReminderState {
    /// No key is kept twice.
    #[verifier::type_invariant]
    spec fn keys_are_distinct(self) -> bool {
        self.delivered_keys@.map_values(|k: String| k@).no_duplicates()
    }

    pub closed spec fn delivered(&self) -> Set<Seq<char>> {
        self.delivered_keys@.map_values(|k: String| k@).to_set()
    }

    pub fn new() -> (r: ReminderState)
        ensures
            r.delivered() == Set::<Seq<char>>::empty(),
    {
        let r = ReminderState { delivered_keys: Vec::new() };
        proof {
            assert(r.delivered() =~= Set::<Seq<char>>::empty());
        }
        r
    }

    fn has_key(&self, key: &str) -> (r: bool)
        ensures
            r == self.delivered().contains(key@),
    {
        let ghost keys = self.delivered_keys@.map_values(|k: String| k@);
        let mut i: usize = 0;
        while i < self.delivered_keys.len()
            invariant
                i <= self.delivered_keys@.len(),
                keys == self.delivered_keys@.map_values(|k: String| k@),
                forall|j: int| 0 <= j < i ==> #[trigger] keys[j] != key@,
            decreases self.delivered_keys.len() - i,
        {
            if same_chars(&chars_of(self.delivered_keys[i].as_str()), &chars_of(key)) {
                proof {
                    assert(keys[i as int] == key@);
                    assert(keys.contains(key@));
                }
                return true;
            }
            i += 1;
        }
        proof {
            assert(!keys.contains(key@));
        }
        false
    }

    /// The candidates whose keys were not delivered before (nor earlier in the
    /// same list), in order; all their keys count as delivered afterwards.
    pub fn take_new(&mut self, candidates: Vec<ReminderCandidate>) -> (r: Vec<ReminderCandidate>)
        ensures
            r@ == fresh_candidates(candidates@, old(self).delivered()),
            final(self).delivered() == old(self).delivered().union(candidate_keys(candidates@)),
    {
        let mut fresh: Vec<ReminderCandidate> = Vec::new();
        let mut i: usize = 0;
        let ghost before = self.delivered();
        while i < candidates.len()
            invariant
                i <= candidates@.len(),
                self.delivered() == before.union(candidate_keys(candidates@.take(i as int))),
                fresh@ == fresh_candidates(candidates@.take(i as int), before),
            decreases candidates.len() - i,
        {
            let candidate = candidates[i].clone();
            let ghost prefix = candidates@.take(i as int);
            proof {
                assert(candidates@.take(i as int + 1) =~= prefix.push(candidates@[i as int]));
                assert(prefix.push(candidate).drop_last() =~= prefix);
                assert(candidate_keys(prefix.push(candidate)) =~= candidate_keys(prefix).insert(
                    candidate.key@,
                ));
            }
            if !self.has_key(candidate.key.as_str()) {
                let ghost old_keys = self.delivered_keys@;
                proof {
                    use_type_invariant(&*self);
                    let views = old_keys.map_values(|k: String| k@);
                    assert(!views.contains(candidate.key@)) by {
                        if views.contains(candidate.key@) {
                            assert(views.to_set().contains(candidate.key@));
                        }
                    }
                    assert(views.push(candidate.key@).no_duplicates());
                    assert(old_keys.push(candidate.key).map_values(|k: String| k@) =~= views.push(
                        candidate.key@,
                    ));
                }
                let mut keys: Vec<String> = Vec::new();
                std::mem::swap(&mut keys, &mut self.delivered_keys);
                keys.push(candidate.key.clone());
                self.delivered_keys = keys;
                proof {
                    old_keys.map_values(|k: String| k@).lemma_push_to_set_commute(candidate.key@);
                    assert(self.delivered_keys@.map_values(|k: String| k@) =~= old_keys.map_values(
                        |k: String| k@,
                    ).push(candidate.key@));
                    assert(self.delivered() =~= before.union(candidate_keys(prefix)).insert(
                        candidate.key@,
                    ));
                }
                fresh.push(candidate);
            } else {
                proof {
                    assert(before.union(candidate_keys(prefix)).insert(candidate.key@) =~= before.union(
                        candidate_keys(prefix),
                    ));
                }
            }
            proof {
                assert(self.delivered() =~= before.union(candidate_keys(candidates@.take(i as int + 1))));
            }
            i += 1;
        }
        proof {
            assert(candidates@.take(candidates@.len() as int) =~= candidates@);
        }
        fresh
    }
}

/// The keys of a list of candidates.
pub open spec fn candidate_keys(c: Seq<ReminderCandidate>) -> Set<Seq<char>>
    decreases c.len(),
{
    if c.len() == 0 {
        Set::empty()
    } else {
        candidate_keys(c.drop_last()).insert(c.last().key@)
    }
}

/// The candidates, in order, whose key is neither in `delivered` nor the key
/// of an earlier candidate.
pub open spec fn fresh_candidates(c: Seq<ReminderCandidate>, delivered: Set<Seq<char>>) -> Seq<
    ReminderCandidate,
>
    decreases c.len(),
{
    if c.len() == 0 {
        seq![]
    } else {
        let rest = fresh_candidates(c.drop_last(), delivered);
        if delivered.union(candidate_keys(c.drop_last())).contains(c.last().key@) {
            rest
        } else {
            rest.push(c.last())
        }
    }
}

impl Default for ReminderState {
    fn default() -> (r: Self)
        ensures
            r.delivered() == Set::<Seq<char>>::empty(),
    {
        ReminderState::new()
    }
}

/// The smallest threshold at or above `percent`.
pub open spec fn matched_threshold_spec(percent: u8, thresholds: Seq<u8>) -> Option<u8>
    decreases thresholds.len(),
{
    if thresholds.len() == 0 {
        None
    } else {
        let rest = matched_threshold_spec(percent, thresholds.drop_last());
        let t = thresholds.last();
        if percent <= t {
            match rest {
                Some(m) => if t < m {
                    Some(t)
                } else {
                    Some(m)
                },
                None => Some(t),
            }
        } else {
            rest
        }
    }
}

fn matched_threshold(percent: u8, thresholds: &Vec<u8>) -> (r: Option<u8>)
    ensures
        r == matched_threshold_spec(percent, thresholds@),
{
    let mut best: Option<u8> = None;
    let mut i: usize = 0;
    while i < thresholds.len()
        invariant
            i <= thresholds@.len(),
            best == matched_threshold_spec(percent, thresholds@.take(i as int)),
        decreases thresholds.len() - i,
    {
        proof {
            assert(thresholds@.take(i as int + 1).drop_last() =~= thresholds@.take(i as int));
        }
        let t = thresholds[i];
        if percent <= t {
            best = match best {
                Some(m) => if t < m {
                    Some(t)
                } else {
                    Some(m)
                },
                None => Some(t),
            };
        }
        i += 1;
    }
    proof {
        assert(thresholds@.take(thresholds@.len() as int) =~= thresholds@);
    }
    best
}

/// `u64::from_str`: an optional `+`, then decimal digits whose value fits.
pub open spec fn parse_u64_spec(s: Seq<char>) -> Option<u64> {
    let digits = if s.len() > 0 && s[0] == '+' {
        s.skip(1)
    } else {
        s
    };
    if digits.len() > 0 && all_digits(digits) && crate::text::digits_value(digits) <= u64::MAX {
        Some(crate::text::digits_value(digits) as u64)
    } else {
        None
    }
}

pub fn parse_u64_text(s: &[char]) -> (r: Option<u64>)
    ensures
        r == parse_u64_spec(s@),
{
    let digits = if s.len() > 0 && s[0] == '+' {
        slice_vec(s, 1, s.len())
    } else {
        slice_vec(s, 0, s.len())
    };
    proof {
        if s@.len() > 0 && s@[0] == '+' {
            assert(digits@ =~= s@.skip(1));
        } else {
            assert(digits@ =~= s@);
        }
    }
    let mut i: usize = 0;
    while i < digits.len()
        invariant
            i <= digits@.len(),
            digits@ == (if s@.len() > 0 && s@[0] == '+' {
                s@.skip(1)
            } else {
                s@
            }),
            forall|j: int| 0 <= j < i ==> crate::text::is_ascii_digit(#[trigger] digits@[j]),
        decreases digits.len() - i,
    {
        if !crate::text::ascii_digit(digits[i]) {
            proof {
                assert(!crate::text::is_ascii_digit(digits@[i as int]));
                assert(!all_digits(digits@));
            }
            return None;
        }
        i += 1;
    }
    parse_digits_up_to(&digits, u64::MAX)
}

/// The age in whole minutes of a `unix:SECONDS` stamp at `now_seconds`
/// (zero for a stamp in the future); none for another stamp.
pub open spec fn age_minutes_spec(parsed_at: Seq<char>, now_seconds: u64) -> Option<u64> {
    if !starts_with(parsed_at, "unix:"@) {
        None
    } else {
        match parse_u64_spec(parsed_at.skip("unix:"@.len() as int)) {
            Some(seconds) => Some(
                (if now_seconds >= seconds {
                    (now_seconds - seconds) as u64
                } else {
                    0u64
                }) / 60,
            ),
            None => None,
        }
    }
}

fn parsed_at_age_minutes(parsed_at: &str, now_seconds: u64) -> (r: Option<u64>)
    ensures
        r == age_minutes_spec(parsed_at@, now_seconds),
{
    let text = chars_of(parsed_at);
    let prefix = chars_of("unix:");
    if !starts_with_chars(&text, &prefix) {
        return None;
    }
    let rest = slice_vec(&text, prefix.len(), text.len());
    proof {
        assert(rest@ =~= parsed_at@.skip("unix:"@.len() as int));
    }
    match parse_u64_text(&rest) {
        Some(seconds) => Some(now_seconds.saturating_sub(seconds) / 60),
        None => None,
    }
}

/// The reminders due for a reading.
pub open spec fn reminders_spec(
    snapshot: Option<(Seq<char>, Seq<char>, Option<u8>)>,
    notifications_enabled: bool,
    thresholds: Seq<u8>,
    stale_after_minutes: u32,
    now_seconds: u64,
) -> Seq<(Seq<char>, Seq<char>, Seq<char>)> {
    if !notifications_enabled {
        seq![]
    } else {
        match snapshot {
            None => seq![],
            Some((id, parsed_at, percent)) => {
                let low: Seq<(Seq<char>, Seq<char>, Seq<char>)> = match percent {
                    Some(p) => match matched_threshold_spec(p, thresholds) {
                        Some(t) => seq![
                            (
                                "low:"@ + id + ":"@ + decimal(t as nat),
                                "QuotaDock usage is low"@,
                                "Codex remaining usage is "@ + decimal(p as nat) + "%, below the "@
                                    + decimal(t as nat) + "% threshold."@,
                            ),
                        ],
                        None => seq![],
                    },
                    None => seq![],
                };
                match age_minutes_spec(parsed_at, now_seconds) {
                    Some(age) => if age > stale_after_minutes {
                        low.push(
                            (
                                "stale:"@ + id + ":"@ + decimal(stale_after_minutes as nat),
                                "QuotaDock snapshot is stale"@,
                                "Latest Codex usage snapshot is "@ + decimal(age as nat)
                                    + " minutes old."@,
                            ),
                        )
                    } else {
                        low
                    },
                    None => low.push(
                        (
                            "stale-unknown:"@ + id,
                            "QuotaDock snapshot age is unknown"@,
                            "Latest Codex usage snapshot has an unrecognized timestamp."@,
                        ),
                    ),
                }
            },
        }
    }
}

pub open spec fn candidate_views(c: Seq<ReminderCandidate>) -> Seq<(Seq<char>, Seq<char>, Seq<char>)> {
    c.map_values(|x: ReminderCandidate| (x.key@, x.title@, x.body@))
}

pub open spec fn snapshot_view(s: Option<&UsageSnapshot>) -> Option<(Seq<char>, Seq<char>, Option<u8>)> {
    match s {
        Some(x) => Some((x.id@, x.parsed_at@, x.remaining_percent)),
        None => None,
    }
}

/// The reminders due for the latest reading at `now_seconds`.
pub fn evaluate_reminders(snapshot: Option<&UsageSnapshot>, settings: &Settings, now_seconds: u64) -> (r:
    Vec<ReminderCandidate>)
    ensures
        candidate_views(r@) == reminders_spec(
            snapshot_view(snapshot),
            settings.notifications_enabled,
            settings.notify_below_percent@,
            settings.stale_after_minutes,
            now_seconds,
        ),
{
    let mut reminders: Vec<ReminderCandidate> = Vec::new();
    if !settings.notifications_enabled {
        proof {
            assert(candidate_views(reminders@) =~= seq![]);
        }
        return reminders;
    }
    let snapshot = match snapshot {
        Some(snapshot) => snapshot,
        None => {
            proof {
                assert(candidate_views(reminders@) =~= seq![]);
            }
            return reminders;
        },
    };
    let id = chars_of(snapshot.id.as_str());
    if let Some(percent) = snapshot.remaining_percent {
        if let Some(threshold) = matched_threshold(percent, &settings.notify_below_percent) {
            let t = decimal_chars(threshold as u64);
            let p = decimal_chars(percent as u64);
            let mut key = chars_of("low:");
            extend_chars(&mut key, &id);
            extend_chars(&mut key, &chars_of(":"));
            extend_chars(&mut key, &t);
            let mut body = chars_of("Codex remaining usage is ");
            extend_chars(&mut body, &p);
            extend_chars(&mut body, &chars_of("%, below the "));
            extend_chars(&mut body, &t);
            extend_chars(&mut body, &chars_of("% threshold."));
            reminders.push(
                ReminderCandidate {
                    key: string_of(&key),
                    title: lit("QuotaDock usage is low"),
                    body: string_of(&body),
                },
            );
        }
    }
    let ghost low = candidate_views(reminders@);
    proof {
        let spec_low: Seq<(Seq<char>, Seq<char>, Seq<char>)> = match snapshot.remaining_percent {
            Some(p) => match matched_threshold_spec(p, settings.notify_below_percent@) {
                Some(t) => seq![
                    (
                        "low:"@ + snapshot.id@ + ":"@ + decimal(t as nat),
                        "QuotaDock usage is low"@,
                        "Codex remaining usage is "@ + decimal(p as nat) + "%, below the "@ + decimal(
                            t as nat,
                        ) + "% threshold."@,
                    ),
                ],
                None => seq![],
            },
            None => seq![],
        };
        assert(low =~= spec_low);
    }
    match parsed_at_age_minutes(snapshot.parsed_at.as_str(), now_seconds) {
        Some(age) => {
            if age > settings.stale_after_minutes as u64 {
                let mut key = chars_of("stale:");
                extend_chars(&mut key, &id);
                extend_chars(&mut key, &chars_of(":"));
                extend_chars(&mut key, &decimal_chars(settings.stale_after_minutes as u64));
                let mut body = chars_of("Latest Codex usage snapshot is ");
                extend_chars(&mut body, &decimal_chars(age));
                extend_chars(&mut body, &chars_of(" minutes old."));
                reminders.push(
                    ReminderCandidate {
                        key: string_of(&key),
                        title: lit("QuotaDock snapshot is stale"),
                        body: string_of(&body),
                    },
                );
                proof {
                    assert(candidate_views(reminders@) =~= low.push(
                        (
                            "stale:"@ + snapshot.id@ + ":"@ + decimal(
                                settings.stale_after_minutes as nat,
                            ),
                            "QuotaDock snapshot is stale"@,
                            "Latest Codex usage snapshot is "@ + decimal(age as nat) + " minutes old."@,
                        ),
                    ));
                }
            }
        },
        None => {
            let mut key = chars_of("stale-unknown:");
            extend_chars(&mut key, &id);
            reminders.push(
                ReminderCandidate {
                    key: string_of(&key),
                    title: lit("QuotaDock snapshot age is unknown"),
                    body: lit("Latest Codex usage snapshot has an unrecognized timestamp."),
                },
            );
            proof {
                assert(candidate_views(reminders@) =~= low.push(
                    (
                        "stale-unknown:"@ + snapshot.id@,
                        "QuotaDock snapshot age is unknown"@,
                        "Latest Codex usage snapshot has an unrecognized timestamp."@,
                    ),
                ));
            }
        },
    }
    reminders
}

/// The current Unix time in seconds.
pub fn now_seconds() -> u64 {
    unix_now_seconds()
}

} // verus!
