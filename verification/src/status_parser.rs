//! The Codex `/status` text parser: it reads the 1-week quota (remaining percent
//! and reset time or countdown) out of pasted or captured terminal output.
use crate::models::{ParseWarning, QuotaReading, QuotaSnapshot, SnapshotSource};
use crate::text::{
    decimal, decimal_chars, lemma_lines_len, lit, opt_text, split_lines, string_of, all_digits, ascii, ascii_digit, control, is_ascii, is_control, text_lines, ws, byte_offset, char_views, chars_of, contains, contains_any,
    contains_any_of, digits_value, ends_with, ends_with_chars, eq_ignore_ascii_case,
    equal_ignoring_ascii_case, extend_chars, find, find_char, find_char_from, find_chars, has_char,
    in_set, is_ascii_digit, lemma_byte_offset_bounds, lower, opt_view, parse_digits_up_to,
    remove_char, replace_char, replacing_char, rfind_char, rfind_char_before, same_chars,
    slice_vec, split_tokens, starts_with, starts_with_chars, to_lower, tokens, trim, trim_by,
    trim_end_by, trim_set, trim_start_by, trim_ws, utf8_width_of, views, without_char,
};
use vstd::prelude::*;

verus! {

broadcast use vstd::string::group_string_axioms;

// ---------------------------------------------------------------------------
// Line classification
// ---------------------------------------------------------------------------

/// Words that mark a line as belonging to the 1-week quota.
pub open spec fn weekly_label_words() -> Seq<Seq<char>> {
    seq![
        "weekly"@,
        "1w"@,
        "1 w"@,
        "1-week"@,
        "1 week"@,
        "7d"@,
        "7 d"@,
        "week"@,
        "1周"@,
        "一周"@,
        "周额度"@,
    ]
}

/// Words that mark a line as the header of some quota section.
pub open spec fn quota_section_words() -> Seq<Seq<char>> {
    seq!["limit"@, "quota"@, "额度"@]
}

pub open spec fn is_weekly_quota_label(line: Seq<char>) -> bool {
    contains_any(lower(line), weekly_label_words())
}

pub open spec fn is_quota_section_label(line: Seq<char>) -> bool {
    contains_any(lower(line), quota_section_words())
}

pub open spec fn is_generic_status_header(line: Seq<char>) -> bool {
    let l = lower(line);
    l == "codex status"@ || l == "/status"@ || l == "status"@
}

pub open spec fn is_secondary_model_quota_section(line: Seq<char>) -> bool {
    contains(lower(line), "codex-spark"@) && contains(lower(line), "limit"@)
}

fn weekly_quota_label(line: &[char]) -> (r: bool)
    ensures
        r == is_weekly_quota_label(line@),
{
    let lower_line = to_lower(line);
    let words: [&str; 11] = [
        "weekly",
        "1w",
        "1 w",
        "1-week",
        "1 week",
        "7d",
        "7 d",
        "week",
        "1周",
        "一周",
        "周额度",
    ];
    proof {
        assert(views(words@) =~= weekly_label_words());
    }
    contains_any_of(&lower_line, &words)
}

fn quota_section_label(line: &[char]) -> (r: bool)
    ensures
        r == is_quota_section_label(line@),
{
    let lower_line = to_lower(line);
    let words: [&str; 3] = ["limit", "quota", "额度"];
    proof {
        assert(views(words@) =~= quota_section_words());
    }
    contains_any_of(&lower_line, &words)
}

fn generic_status_header(line: &[char]) -> (r: bool)
    ensures
        r == is_generic_status_header(line@),
{
    let l = to_lower(line);
    same_chars(&l, &chars_of("codex status")) || same_chars(&l, &chars_of("/status"))
        || same_chars(&l, &chars_of("status"))
}

fn secondary_model_quota_section(line: &[char]) -> (r: bool)
    ensures
        r == is_secondary_model_quota_section(line@),
{
    let l = to_lower(line);
    find_chars(&l, &chars_of("codex-spark")).is_some() && find_chars(&l, &chars_of("limit")).is_some()
}

// ---------------------------------------------------------------------------
// Percentages
// ---------------------------------------------------------------------------

/// A percentage found in a line: its value and the byte offset of its first digit.
pub struct PercentHit {
    pub value: u8,
    pub index: u64,
}

/// The percentages `N%` (N at most 100) of `s[i..]`, given the digit run under way
/// and the byte offset where it began, appended to `acc`.
pub open spec fn hits_from(
    s: Seq<char>,
    i: int,
    digits: Seq<char>,
    start: int,
    acc: Seq<(u8, int)>,
) -> Seq<(u8, int)>
    decreases s.len() - i,
{
    if i < 0 || i >= s.len() {
        acc
    } else if is_ascii_digit(s[i]) {
        hits_from(
            s,
            i + 1,
            digits.push(s[i]),
            if digits.len() == 0 {
                byte_offset(s, i)
            } else {
                start
            },
            acc,
        )
    } else {
        let acc2 = if s[i] == '%' && digits.len() > 0 && digits_value(digits) <= 100 {
            acc.push((digits_value(digits) as u8, start))
        } else {
            acc
        };
        hits_from(s, i + 1, seq![], start, acc2)
    }
}

/// The percentages of a line, in order, with their byte offsets.
pub open spec fn percent_hits_spec(s: Seq<char>) -> Seq<(u8, int)> {
    hits_from(s, 0, seq![], 0, seq![])
}

/// The view of exec hits as value/offset pairs.
pub open spec fn hit_views(hits: Seq<PercentHit>) -> Seq<(u8, int)> {
    hits.map_values(|h: PercentHit| (h.value, h.index as int))
}

fn percent_hits(line: &[char]) -> (r: Vec<PercentHit>)
    requires
        line@.len() <= 0x3fff_ffff_ffff_ffff,
    ensures
        hit_views(r@) == percent_hits_spec(line@),
{
    let mut hits: Vec<PercentHit> = Vec::new();
    let mut digits: Vec<char> = Vec::new();
    let mut digit_start: u64 = 0;
    let mut offset: u64 = 0;
    let mut i: usize = 0;
    proof {
        assert(hit_views(hits@) =~= seq![]);
        assert(digits@ =~= seq![]);
    }
    while i < line.len()
        invariant
            i <= line@.len(),
            line@.len() <= 0x3fff_ffff_ffff_ffff,
            offset == byte_offset(line@, i as int),
            all_digits(digits@),
            hits_from(line@, 0, seq![], 0, seq![]) == hits_from(
                line@,
                i as int,
                digits@,
                digit_start as int,
                hit_views(hits@),
            ),
        decreases line.len() - i,
    {
        proof {
            lemma_byte_offset_bounds(line@, i as int + 1);
        }
        let c = line[i];
        if ascii_digit(c) {
            if digits.len() == 0 {
                digit_start = offset;
            }
            digits.push(c);
        } else {
            if c == '%' && digits.len() > 0 {
                let parsed = parse_digits_up_to(&digits, 255);
                if let Some(value) = parsed {
                    if value <= 100 {
                        let ghost prev = hits@;
                        hits.push(PercentHit { value: value as u8, index: digit_start });
                        proof {
                            assert(hit_views(hits@) =~= hit_views(prev).push(
                                (value as u8, digit_start as int),
                            ));
                        }
                    }
                }
            }
            digits = Vec::new();
        }
        offset = offset + utf8_width_of(c);
        i += 1;
    }
    hits
}


/// Words that say a percentage is what remains.
pub open spec fn remaining_words() -> Seq<Seq<char>> {
    seq!["remaining"@, "left"@, "available"@, "remain"@, "剩余"@, "可用"@]
}

/// Words that say a percentage is what was used.
pub open spec fn used_words() -> Seq<Seq<char>> {
    seq!["used"@, "spent"@, "已用"@, "使用"@]
}

/// The byte offsets of the first occurrence (case-insensitively) of each of
/// `words[..k]` that occurs in the line, in the order of the words.
pub open spec fn keyword_positions(line: Seq<char>, words: Seq<Seq<char>>, k: int) -> Seq<int>
    decreases k,
{
    if k <= 0 {
        seq![]
    } else {
        let rest = keyword_positions(line, words, k - 1);
        match find(lower(line), words[k - 1]) {
            Some(j) => rest.push(byte_offset(line, j)),
            None => rest,
        }
    }
}

pub open spec fn abs_diff(a: int, b: int) -> int {
    if a >= b {
        a - b
    } else {
        b - a
    }
}

/// The distance from `h` to the nearest of `pos[..k]` (k at least 1).
pub open spec fn min_dist(h: int, pos: Seq<int>, k: int) -> int
    decreases k,
{
    if k <= 1 {
        abs_diff(h, pos[0])
    } else {
        let m = min_dist(h, pos, k - 1);
        let d = abs_diff(h, pos[k - 1]);
        if d < m {
            d
        } else {
            m
        }
    }
}

/// The index of the first of `hits[..k]` nearest to a keyword (k at least 1).
pub open spec fn best_hit(hits: Seq<(u8, int)>, pos: Seq<int>, k: int) -> int
    decreases k,
{
    if k <= 1 {
        0
    } else {
        let b = best_hit(hits, pos, k - 1);
        if min_dist(hits[k - 1].1, pos, pos.len() as int) < min_dist(
            hits[b].1,
            pos,
            pos.len() as int,
        ) {
            k - 1
        } else {
            b
        }
    }
}

pub proof fn lemma_best_hit_bounds(hits: Seq<(u8, int)>, pos: Seq<int>, k: int)
    requires
        1 <= k,
    ensures
        0 <= best_hit(hits, pos, k) < k,
    decreases k,
{
    if k > 1 {
        lemma_best_hit_bounds(hits, pos, k - 1);
    }
}

/// The remaining percentage a line states: with a "remaining" keyword, the
/// percentage nearest to one; otherwise none when the line speaks of usage,
/// else the first percentage.
pub open spec fn extract_percent_spec(line: Seq<char>) -> Option<u8> {
    let hits = percent_hits_spec(line);
    if hits.len() == 0 {
        None
    } else {
        let pos = keyword_positions(line, remaining_words(), 6);
        if pos.len() > 0 {
            Some(hits[best_hit(hits, pos, hits.len() as int)].0)
        } else if contains_any(lower(line), used_words()) {
            None
        } else {
            Some(hits[0].0)
        }
    }
}

fn byte_offset_at(line: &[char], k: usize) -> (r: u64)
    requires
        k <= line@.len(),
        line@.len() <= 0x3fff_ffff_ffff_ffff,
    ensures
        r == byte_offset(line@, k as int),
{
    let mut offset: u64 = 0;
    let mut i: usize = 0;
    while i < k
        invariant
            i <= k <= line@.len(),
            line@.len() <= 0x3fff_ffff_ffff_ffff,
            offset == byte_offset(line@, i as int),
        decreases k - i,
    {
        proof {
            lemma_byte_offset_bounds(line@, i as int + 1);
        }
        offset = offset + utf8_width_of(line[i]);
        i += 1;
    }
    offset
}

/// The integer view of exec offsets.
pub open spec fn offsets(v: Seq<u64>) -> Seq<int> {
    v.map_values(|x: u64| x as int)
}

fn remaining_positions(line: &[char]) -> (r: Vec<u64>)
    requires
        line@.len() <= 0x3fff_ffff_ffff_ffff,
    ensures
        offsets(r@) == keyword_positions(line@, remaining_words(), 6),
        forall|i: int| 0 <= i < r@.len() ==> r@[i] <= 0xffff_ffff_ffff_ffff,
{
    let words: [&str; 6] = ["remaining", "left", "available", "remain", "剩余", "可用"];
    proof {
        assert(views(words@) =~= remaining_words());
    }
    let lower_line = to_lower(line);
    let mut positions: Vec<u64> = Vec::new();
    let mut k: usize = 0;
    proof {
        assert(offsets(positions@) =~= seq![]);
    }
    while k < 6
        invariant
            k <= 6,
            line@.len() <= 0x3fff_ffff_ffff_ffff,
            lower_line@ == lower(line@),
            views(words@) == remaining_words(),
            offsets(positions@) == keyword_positions(line@, remaining_words(), k as int),
        decreases 6 - k,
    {
        let word = chars_of(words[k]);
        proof {
            assert(word@ == remaining_words()[k as int]);
        }
        match find_chars(&lower_line, &word) {
            Some(j) => {
                proof {
                    crate::text::lemma_find_from_bounds(lower(line@), word@, 0);
                }
                let offset = byte_offset_at(line, j);
                let ghost prev = positions@;
                positions.push(offset);
                proof {
                    assert(offsets(positions@) =~= offsets(prev).push(offset as int));
                }
            },
            None => {},
        }
        k += 1;
    }
    positions
}

fn abs_diff_u64(a: u64, b: u64) -> (r: u64)
    ensures
        r == abs_diff(a as int, b as int),
{
    if a >= b {
        a - b
    } else {
        b - a
    }
}

fn min_distance(h: u64, pos: &Vec<u64>) -> (r: u64)
    requires
        pos@.len() >= 1,
    ensures
        r == min_dist(h as int, offsets(pos@), pos@.len() as int),
{
    let mut best = abs_diff_u64(h, pos[0]);
    let mut k: usize = 1;
    while k < pos.len()
        invariant
            1 <= k <= pos@.len(),
            best == min_dist(h as int, offsets(pos@), k as int),
        decreases pos.len() - k,
    {
        let d = abs_diff_u64(h, pos[k]);
        if d < best {
            best = d;
        }
        k += 1;
    }
    best
}

fn extract_percent(line: &[char]) -> (r: Option<u8>)
    requires
        line@.len() <= 0x3fff_ffff_ffff_ffff,
    ensures
        r == extract_percent_spec(line@),
{
    let hits = percent_hits(line);
    if hits.len() == 0 {
        return None;
    }
    let positions = remaining_positions(line);
    if positions.len() > 0 {
        let ghost hv = hit_views(hits@);
        let ghost pv = offsets(positions@);
        let mut best: usize = 0;
        let mut best_key = min_distance(hits[0].index, &positions);
        let mut k: usize = 1;
        while k < hits.len()
            invariant
                1 <= k <= hits@.len(),
                hv == hit_views(hits@),
                pv == offsets(positions@),
                pv.len() >= 1,
                best == best_hit(hv, pv, k as int),
                best < k,
                best_key == min_dist(hv[best as int].1, pv, pv.len() as int),
            decreases hits.len() - k,
        {
            let key = min_distance(hits[k].index, &positions);
            if key < best_key {
                best = k;
                best_key = key;
            }
            k += 1;
        }
        return Some(hits[best].value);
    }
    let lower_line = to_lower(line);
    let used: [&str; 4] = ["used", "spent", "已用", "使用"];
    proof {
        assert(views(used@) =~= used_words());
    }
    if contains_any_of(&lower_line, &used) {
        return None;
    }
    Some(hits[0].value)
}


// ---------------------------------------------------------------------------
// Reset times
// ---------------------------------------------------------------------------

/// Words that say a line speaks of the quota's reset.
pub open spec fn reset_words() -> Seq<Seq<char>> {
    seq![
        "reset"@,
        "resets"@,
        "renew"@,
        "update"@,
        "refresh"@,
        "重置"@,
        "刷新"@,
        "更新"@,
    ]
}

/// Units and words that make a value read as a countdown.
pub open spec fn countdown_words() -> Seq<Seq<char>> {
    seq!["h"@, "m"@, "s"@, "d"@, "小时"@, "分钟"@, "秒"@, "天"@, "后"@]
}

pub open spec fn contains_reset_keyword(line: Seq<char>) -> bool {
    contains_any(lower(line), reset_words())
}

pub open spec fn looks_like_countdown(value: Seq<char>) -> bool {
    contains_any(lower(value), countdown_words())
}

fn reset_keyword(line: &[char]) -> (r: bool)
    ensures
        r == contains_reset_keyword(line@),
{
    let l = to_lower(line);
    let words: [&str; 8] = ["reset", "resets", "renew", "update", "refresh", "重置", "刷新", "更新"];
    proof {
        assert(views(words@) =~= reset_words());
    }
    contains_any_of(&l, &words)
}

fn countdown_like(value: &[char]) -> (r: bool)
    ensures
        r == looks_like_countdown(value@),
{
    let l = to_lower(value);
    let words: [&str; 9] = ["h", "m", "s", "d", "小时", "分钟", "秒", "天", "后"];
    proof {
        assert(views(words@) =~= countdown_words());
    }
    contains_any_of(&l, &words)
}

/// An ISO-8601 UTC timestamp to the second: `YYYY-MM-DDTHH:MM:SSZ`.
pub open spec fn is_iso_z_timestamp(v: Seq<char>) -> bool {
    &&& v.len() == 20
    &&& v[4] == '-'
    &&& v[7] == '-'
    &&& v[10] == 'T'
    &&& v[13] == ':'
    &&& v[16] == ':'
    &&& v[19] == 'Z'
    &&& forall|i: int|
        0 <= i < 20 && i != 4 && i != 7 && i != 10 && i != 13 && i != 16 && i != 19
            ==> is_ascii_digit(#[trigger] v[i])
}

fn iso_z_timestamp(v: &[char]) -> (r: bool)
    ensures
        r == is_iso_z_timestamp(v@),
{
    if v.len() != 20 {
        return false;
    }
    if !(v[4] == '-' && v[7] == '-' && v[10] == 'T' && v[13] == ':' && v[16] == ':' && v[19]
        == 'Z') {
        return false;
    }
    let mut i: usize = 0;
    while i < 20
        invariant
            i <= 20,
            v@.len() == 20,
            forall|j: int|
                0 <= j < i && j != 4 && j != 7 && j != 10 && j != 13 && j != 16 && j != 19
                    ==> is_ascii_digit(#[trigger] v@[j]),
        decreases 20 - i,
    {
        if i != 4 && i != 7 && i != 10 && i != 13 && i != 16 && i != 19 && !ascii_digit(v[i]) {
            return false;
        }
        i += 1;
    }
    true
}

/// A reset timestamp as Codex prints it, normalised to `YYYY-MM-DDTHH:MM:SSZ`:
/// trailing dots are dropped, and `YYYY-MM-DD HH:MM UTC` gains its seconds.
pub open spec fn normalize_reset_timestamp(value: Seq<char>) -> Option<Seq<char>> {
    let t = trim_end_by(trim(value), in_set(seq!['.']));
    if ends_with(t, " UTC"@) {
        let n = replace_char(t.take(t.len() - " UTC"@.len()), ' ', 'T') + ":00Z"@;
        if is_iso_z_timestamp(n) {
            Some(n)
        } else {
            None
        }
    } else if is_iso_z_timestamp(t) {
        Some(t)
    } else {
        None
    }
}

fn normalized_reset_timestamp(value: &[char]) -> (r: Option<Vec<char>>)
    ensures
        opt_view(r) == normalize_reset_timestamp(value@),
{
    let trimmed = trim_ws(value);
    let dots = vec!['.'];
    proof {
        assert(dots@ =~= seq!['.']);
    }
    let t = trim_set(&trimmed, &dots, false, true);
    let utc = chars_of(" UTC");
    if ends_with_chars(&t, &utc) {
        let prefix = slice_vec(&t, 0, t.len() - utc.len());
        let mut n = replacing_char(&prefix, ' ', 'T');
        extend_chars(&mut n, &chars_of(":00Z"));
        proof {
            assert(prefix@ =~= t@.take(t@.len() - " UTC"@.len()));
        }
        if iso_z_timestamp(&n) {
            Some(n)
        } else {
            None
        }
    } else if iso_z_timestamp(&t) {
        Some(t)
    } else {
        None
    }
}

/// The trimmed text after the last full-width colon, or else after the first
/// ASCII colon, when it is not empty.
pub open spec fn value_after_colon(line: Seq<char>) -> Option<Seq<char>> {
    let after = match rfind_char_before(line, '：', line.len() as int) {
        Some(j) => Some(trim(line.skip(j + 1))),
        None => match find_char_from(line, ':', 0) {
            Some(j) => Some(trim(line.skip(j + 1))),
            None => None,
        },
    };
    match after {
        Some(v) => if v.len() > 0 {
            Some(v)
        } else {
            None
        },
        None => None,
    }
}

fn after_colon(line: &[char]) -> (r: Option<Vec<char>>)
    ensures
        opt_view(r) == value_after_colon(line@),
{
    let at = match rfind_char(line, '：') {
        Some(j) => Some(j),
        None => find_char(line, ':'),
    };
    match at {
        Some(j) => {
            assert(j < line@.len());
            assert(line@.len() == line.len());
            let rest = slice_vec(line, j + 1, line.len());
            proof {
                assert(rest@ =~= line@.skip(j + 1));
            }
            let v = trim_ws(&rest);
            if v.len() > 0 {
                Some(v)
            } else {
                None
            }
        },
        None => None,
    }
}

/// Keywords after which a reset phrase may follow, in the order they are tried.
pub open spec fn reset_phrase_words() -> Seq<Seq<char>> {
    seq!["resets"@, "reset"@, "updates"@, "update"@, "refreshes"@, "refresh"@]
}

/// Characters dropped from the start of a reset phrase.
pub open spec fn phrase_lead() -> Seq<char> {
    seq![':', '：', '(', ' ']
}

/// The text before the first `)`.
pub open spec fn before_paren(s: Seq<char>) -> Seq<char> {
    match find_char_from(s, ')', 0) {
        Some(e) => s.take(e),
        None => s,
    }
}

/// The reset phrase after the first (case-insensitive) occurrence of `keyword`:
/// what follows it up to a `)`, trimmed of spaces, colons and an opening
/// parenthesis, and of a leading `at:`; none when it is empty, holds a `%`,
/// reads as a countdown or is just `at`.
pub open spec fn phrase_after(line: Seq<char>, keyword: Seq<char>) -> Option<Seq<char>> {
    match find(lower(line), keyword) {
        None => None,
        Some(j) => {
            let seg = trim(trim_start_by(trim(before_paren(line.skip(j + keyword.len()))), in_set(phrase_lead())));
            if seg.len() == 0 || seg.contains('%') || looks_like_countdown(seg)
                || eq_ignore_ascii_case(seg, "at"@) {
                None
            } else {
                let stripped = if starts_with(seg, "at:"@) {
                    seg.skip("at:"@.len() as int)
                } else if starts_with(seg, "at："@) {
                    seg.skip("at："@.len() as int)
                } else {
                    seg
                };
                let value = trim(stripped);
                if value.len() > 0 {
                    Some(value)
                } else {
                    None
                }
            }
        },
    }
}

proof fn lemma_find_lower_bounds(line: Seq<char>, keyword: Seq<char>)
    ensures
        find(lower(line), keyword) matches Some(j) ==> 0 <= j && j + keyword.len() <= line.len(),
{
    crate::text::lemma_find_from_bounds(lower(line), keyword, 0);
}

fn phrase_after_keyword(line: &[char], keyword: &[char]) -> (r: Option<Vec<char>>)
    ensures
        opt_view(r) == phrase_after(line@, keyword@),
{
    let l = to_lower(line);
    proof {
        lemma_find_lower_bounds(line@, keyword@);
    }
    let j = match find_chars(&l, keyword) {
        Some(j) => j,
        None => return None,
    };
    assert(find(lower(line@), keyword@) == Some(j as int));
    assert(line@.len() == line.len());
    let after = slice_vec(line, j + keyword.len(), line.len());
    proof {
        assert(after@ =~= line@.skip(j + keyword@.len()));
    }
    let upto = match find_char(&after, ')') {
        Some(e) => slice_vec(&after, 0, e),
        None => after,
    };
    proof {
        assert(upto@ =~= before_paren(line@.skip(j + keyword@.len())));
    }
    let lead = vec![':', '：', '(', ' '];
    proof {
        assert(lead@ =~= phrase_lead());
    }
    let seg = trim_ws(&trim_set(&trim_ws(&upto), &lead, true, false));
    if seg.len() == 0 || has_char(&seg, '%') || countdown_like(&seg) || equal_ignoring_ascii_case(
        &seg,
        &chars_of("at"),
    ) {
        return None;
    }
    let at_colon = chars_of("at:");
    let at_wide_colon = chars_of("at：");
    let stripped = if starts_with_chars(&seg, &at_colon) {
        let v = slice_vec(&seg, at_colon.len(), seg.len());
        proof {
            assert(v@ =~= seg@.skip("at:"@.len() as int));
        }
        v
    } else if starts_with_chars(&seg, &at_wide_colon) {
        let v = slice_vec(&seg, at_wide_colon.len(), seg.len());
        proof {
            assert(v@ =~= seg@.skip("at："@.len() as int));
        }
        v
    } else {
        seg
    };
    let value = trim_ws(&stripped);
    if value.len() > 0 {
        Some(value)
    } else {
        None
    }
}

/// The first reset phrase found after `reset_phrase_words()[k..]`.
pub open spec fn reset_phrase_from(line: Seq<char>, k: int) -> Option<Seq<char>>
    decreases 6 - k,
{
    if k < 0 || k >= 6 {
        None
    } else {
        match phrase_after(line, reset_phrase_words()[k]) {
            Some(p) => Some(p),
            None => reset_phrase_from(line, k + 1),
        }
    }
}

pub open spec fn reset_phrase(line: Seq<char>) -> Option<Seq<char>> {
    reset_phrase_from(line, 0)
}

fn find_reset_phrase(line: &[char]) -> (r: Option<Vec<char>>)
    ensures
        opt_view(r) == reset_phrase(line@),
{
    let words: [&str; 6] = ["resets", "reset", "updates", "update", "refreshes", "refresh"];
    proof {
        assert(views(words@) =~= reset_phrase_words());
    }
    let mut k: usize = 0;
    while k < 6
        invariant
            k <= 6,
            views(words@) == reset_phrase_words(),
            reset_phrase(line@) == reset_phrase_from(line@, k as int),
        decreases 6 - k,
    {
        let keyword = chars_of(words[k]);
        proof {
            assert(keyword@ == reset_phrase_words()[k as int]);
        }
        let found = phrase_after_keyword(line, &keyword);
        if found.is_some() {
            return found;
        }
        k += 1;
    }
    None
}

/// Characters trimmed from both ends of a token before it is read as a timestamp.
pub open spec fn token_punctuation() -> Seq<char> {
    seq![',', ';', ')', '(']
}

/// The first of `toks[k..]` that normalises to a timestamp.
pub open spec fn first_timestamp(toks: Seq<Seq<char>>, k: int) -> Option<Seq<char>>
    decreases toks.len() - k,
{
    if k < 0 || k >= toks.len() {
        None
    } else {
        match normalize_reset_timestamp(trim_by(toks[k], in_set(token_punctuation()))) {
            Some(v) => Some(v),
            None => first_timestamp(toks, k + 1),
        }
    }
}

/// The reset time a line states: on a line that speaks of a reset, the first
/// token that is a timestamp, else a reset phrase, else the value after a
/// colon when it holds no `%` and does not read as a countdown.
pub open spec fn extract_reset_at_spec(line: Seq<char>) -> Option<Seq<char>> {
    if !contains_reset_keyword(line) {
        None
    } else {
        match first_timestamp(tokens(line), 0) {
            Some(v) => Some(v),
            None => match reset_phrase(line) {
                Some(p) => Some(p),
                None => match value_after_colon(line) {
                    Some(v) => if !v.contains('%') && !looks_like_countdown(v) {
                        Some(v)
                    } else {
                        None
                    },
                    None => None,
                },
            },
        }
    }
}

fn extract_reset_at(line: &[char]) -> (r: Option<Vec<char>>)
    ensures
        opt_view(r) == extract_reset_at_spec(line@),
{
    if !reset_keyword(line) {
        return None;
    }
    let toks = split_tokens(line);
    let punct = vec![',', ';', ')', '('];
    proof {
        assert(punct@ =~= token_punctuation());
    }
    let mut k: usize = 0;
    while k < toks.len()
        invariant
            k <= toks@.len(),
            char_views(toks@) == tokens(line@),
            punct@ == token_punctuation(),
            contains_reset_keyword(line@),
            first_timestamp(tokens(line@), 0) == first_timestamp(tokens(line@), k as int),
        decreases toks.len() - k,
    {
        let cleaned = trim_set(&toks[k], &punct, true, true);
        proof {
            assert(toks@[k as int]@ == tokens(line@)[k as int]);
        }
        assert(cleaned@ == trim_by(tokens(line@)[k as int], in_set(token_punctuation())));
        assert(tokens(line@).len() == toks@.len());
        let normalized = normalized_reset_timestamp(&cleaned);
        if normalized.is_some() {
            return normalized;
        }
        k += 1;
    }
    let phrase = find_reset_phrase(line);
    if phrase.is_some() {
        return phrase;
    }
    match after_colon(line) {
        Some(v) => if !has_char(&v, '%') && !countdown_like(&v) {
            Some(v)
        } else {
            None
        },
        None => None,
    }
}

// ---------------------------------------------------------------------------
// Countdowns
// ---------------------------------------------------------------------------

/// Keywords after which a countdown is looked for, in the order they are tried.
pub open spec fn countdown_keywords() -> Seq<Seq<char>> {
    seq![
        "resets in"@,
        "reset in"@,
        "resets"@,
        "reset"@,
        "refresh"@,
        "update"@,
        "renew"@,
        "刷新"@,
        "更新"@,
        "重置"@,
    ]
}

/// The text after the first of `countdown_keywords()[k..]` that occurs in the
/// line (case-insensitively), or the whole line.
pub open spec fn countdown_segment_from(line: Seq<char>, k: int) -> Seq<char>
    decreases 10 - k,
{
    if k < 0 || k >= 10 {
        line
    } else {
        match find(lower(line), countdown_keywords()[k]) {
            Some(j) => line.skip(j + countdown_keywords()[k].len()),
            None => countdown_segment_from(line, k + 1),
        }
    }
}

fn countdown_segment(line: &[char]) -> (r: Vec<char>)
    ensures
        r@ == countdown_segment_from(line@, 0),
{
    let words: [&str; 10] = [
        "resets in",
        "reset in",
        "resets",
        "reset",
        "refresh",
        "update",
        "renew",
        "刷新",
        "更新",
        "重置",
    ];
    proof {
        assert(views(words@) =~= countdown_keywords());
    }
    let l = to_lower(line);
    let mut k: usize = 0;
    while k < 10
        invariant
            k <= 10,
            l@ == lower(line@),
            views(words@) == countdown_keywords(),
            countdown_segment_from(line@, 0) == countdown_segment_from(line@, k as int),
        decreases 10 - k,
    {
        let keyword = chars_of(words[k]);
        proof {
            assert(keyword@ == countdown_keywords()[k as int]);
            lemma_find_lower_bounds(line@, keyword@);
        }
        match find_chars(&l, &keyword) {
            Some(j) => {
                assert(find(lower(line@), keyword@) == Some(j as int));
                assert(line@.len() == line.len());
                let r = slice_vec(line, j + keyword.len(), line.len());
                proof {
                    assert(r@ =~= line@.skip(j + keyword@.len()));
                }
                return r;
            },
            None => {},
        }
        k += 1;
    }
    slice_vec(line, 0, line.len())
}

/// `s[i..]` with every `N%` removed, given the output so far and the digit run under way.
pub open spec fn strip_percent_from(s: Seq<char>, i: int, out: Seq<char>, digits: Seq<char>) -> Seq<
    char,
>
    decreases s.len() - i,
{
    if i < 0 || i >= s.len() {
        out + digits
    } else if is_ascii_digit(s[i]) {
        strip_percent_from(s, i + 1, out, digits.push(s[i]))
    } else if s[i] == '%' {
        strip_percent_from(s, i + 1, out, seq![])
    } else {
        strip_percent_from(s, i + 1, (out + digits).push(s[i]), seq![])
    }
}

pub open spec fn strip_percent_segments(s: Seq<char>) -> Seq<char> {
    strip_percent_from(s, 0, seq![], seq![])
}

fn strip_percents(s: &[char]) -> (r: Vec<char>)
    ensures
        r@ == strip_percent_segments(s@),
{
    let mut out: Vec<char> = Vec::new();
    let mut digits: Vec<char> = Vec::new();
    let mut i: usize = 0;
    proof {
        assert(out@ =~= seq![]);
        assert(digits@ =~= seq![]);
    }
    while i < s.len()
        invariant
            i <= s.len(),
            strip_percent_segments(s@) == strip_percent_from(s@, i as int, out@, digits@),
        decreases s.len() - i,
    {
        let c = s[i];
        if ascii_digit(c) {
            digits.push(c);
        } else if c == '%' {
            digits = Vec::new();
            proof {
                assert(digits@ =~= seq![]);
            }
        } else {
            extend_chars(&mut out, &digits);
            out.push(c);
            digits = Vec::new();
            proof {
                assert(digits@ =~= seq![]);
            }
        }
        i += 1;
    }
    extend_chars(&mut out, &digits);
    out
}

/// The seconds a countdown unit stands for.
pub open spec fn unit_seconds(c: char) -> Option<i64> {
    if c == 'd' || c == '天' {
        Some(86_400)
    } else if c == 'h' || c == '时' {
        Some(3_600)
    } else if c == 'm' || c == '分' {
        Some(60)
    } else if c == 's' || c == '秒' {
        Some(1)
    } else {
        None
    }
}

/// Reads `s[i..]` as a countdown, given the digits under way and the seconds so
/// far: each number followed by a unit adds to the total, other characters are
/// skipped without ending the number, and a number or a total too large for
/// `i64` gives none. A total that is not positive gives none.
pub open spec fn countdown_from(s: Seq<char>, i: int, number: Seq<char>, seconds: i64) -> Option<
    i64,
>
    decreases s.len() - i,
{
    if i < 0 || i >= s.len() {
        if seconds > 0 {
            Some(seconds)
        } else {
            None
        }
    } else if is_ascii_digit(s[i]) {
        countdown_from(s, i + 1, number.push(s[i]), seconds)
    } else if number.len() == 0 {
        countdown_from(s, i + 1, number, seconds)
    } else if digits_value(number) > i64::MAX {
        None
    } else {
        match unit_seconds(s[i]) {
            Some(u) => if seconds + digits_value(number) * u > i64::MAX {
                None
            } else {
                countdown_from(s, i + 1, seq![], (seconds + digits_value(number) * u) as i64)
            },
            None => countdown_from(s, i + 1, number, seconds),
        }
    }
}

proof fn lemma_countdown_digit_run(s: Seq<char>, a: int, b: int, number: Seq<char>, seconds: i64)
    requires
        0 <= a <= b <= s.len(),
        forall|k: int| a <= k < b ==> is_ascii_digit(#[trigger] s[k]),
    ensures
        countdown_from(s, a, number, seconds) == countdown_from(s, b, number + s.subrange(a, b), seconds),
    decreases b - a,
{
    if a < b {
        lemma_countdown_digit_run(s, a + 1, b, number.push(s[a]), seconds);
        assert(number.push(s[a]) + s.subrange(a + 1, b) =~= number + s.subrange(a, b));
    } else {
        assert(number + s.subrange(a, b) =~= number);
    }
}

/// A countdown of days then hours: digits `n` followed by `d` count `n` days,
/// and digits `m` followed by `h` after them add `m` hours.
pub proof fn lemma_days_and_hours_count(n: Seq<char>, m: Seq<char>)
    requires
        n.len() > 0,
        all_digits(n),
        all_digits(m),
        m.len() > 0,
        digits_value(n) > 0,
        digits_value(n) * 86_400 + digits_value(m) * 3_600 <= i64::MAX,
    ensures
        countdown_from(n.push('d'), 0, seq![], 0) == Some((digits_value(n) * 86_400) as i64),
        countdown_from(n.push('d') + m.push('h'), 0, seq![], 0) == Some(
            (digits_value(n) * 86_400 + digits_value(m) * 3_600) as i64,
        ),
{
    let days = (digits_value(n) * 86_400) as i64;
    let s1 = n.push('d');
    lemma_countdown_digit_run(s1, 0, n.len() as int, seq![], 0);
    assert(Seq::<char>::empty() + s1.subrange(0, n.len() as int) =~= n);
    assert(s1[n.len() as int] == 'd');
    assert(countdown_from(s1, n.len() as int, n, 0) == countdown_from(s1, n.len() as int + 1, seq![], days));
    let s2 = n.push('d') + m.push('h');
    let b: int = n.len() as int + 1;
    lemma_countdown_digit_run(s2, 0, n.len() as int, seq![], 0);
    assert forall|k: int| 0 <= k < n.len() implies #[trigger] s2[k] == n[k] by {}
    assert(Seq::<char>::empty() + s2.subrange(0, n.len() as int) =~= n);
    assert(s2[n.len() as int] == 'd');
    assert(countdown_from(s2, n.len() as int, n, 0) == countdown_from(s2, b, seq![], days));
    assert forall|k: int| b <= k < b + m.len() as int implies is_ascii_digit(#[trigger] s2[k]) by {
        assert(s2[k] == m[k - b]);
    }
    lemma_countdown_digit_run(s2, b, b + m.len() as int, seq![], days);
    let e: int = b + m.len() as int;
    assert(s2.len() == e + 1);
    assert(countdown_from(s2, e, m, days) == countdown_from(
        s2,
        e + 1,
        seq![],
        (days + digits_value(m) * 3_600) as i64,
    ));
    assert(Seq::<char>::empty() + s2.subrange(b, b + m.len() as int) =~= m);
    assert(s2[b + m.len() as int] == 'h');
}

/// The countdown a line states, in seconds.
pub open spec fn extract_countdown_spec(line: Seq<char>) -> Option<i64> {
    if !contains_reset_keyword(line) && !line.contains('后') {
        None
    } else {
        let compact = lower(remove_char(strip_percent_segments(countdown_segment_from(line, 0)), ' '));
        countdown_from(compact, 0, seq![], 0)
    }
}

fn unit_seconds_of(c: char) -> (r: Option<i64>)
    ensures
        r == unit_seconds(c),
{
    if c == 'd' || c == '天' {
        Some(86_400)
    } else if c == 'h' || c == '时' {
        Some(3_600)
    } else if c == 'm' || c == '分' {
        Some(60)
    } else if c == 's' || c == '秒' {
        Some(1)
    } else {
        None
    }
}

fn extract_countdown(line: &[char]) -> (r: Option<i64>)
    ensures
        r == extract_countdown_spec(line@),
{
    if !reset_keyword(line) && !has_char(line, '后') {
        return None;
    }
    let candidate = countdown_segment(line);
    let compact = to_lower(&without_char(&strip_percents(&candidate), ' '));
    let mut number: Vec<char> = Vec::new();
    let mut seconds: i64 = 0;
    let mut i: usize = 0;
    proof {
        assert(number@ =~= seq![]);
    }
    while i < compact.len()
        invariant
            i <= compact@.len(),
            all_digits(number@),
            seconds >= 0,
            extract_countdown_spec(line@) == countdown_from(compact@, i as int, number@, seconds),
        decreases compact.len() - i,
    {
        let c = compact[i];
        if ascii_digit(c) {
            number.push(c);
        } else if number.len() > 0 {
            let value = match parse_digits_up_to(&number, 0x7fff_ffff_ffff_ffff) {
                Some(v) => v as i64,
                None => return None,
            };
            match unit_seconds_of(c) {
                Some(u) => {
                    let added = match value.checked_mul(u) {
                        Some(p) => p,
                        None => return None,
                    };
                    seconds = match seconds.checked_add(added) {
                        Some(t) => t,
                        None => return None,
                    };
                    number = Vec::new();
                    proof {
                        assert(number@ =~= seq![]);
                    }
                },
                None => {},
            }
        }
        i += 1;
    }
    if seconds > 0 {
        Some(seconds)
    } else {
        None
    }
}


// ---------------------------------------------------------------------------
// Terminal control sequences
// ---------------------------------------------------------------------------

/// Where a scan of terminal output stands: in plain text, just after an
/// escape, inside a CSI or OSC sequence (or just after an escape inside an
/// OSC sequence), or stuck after an escape that is followed by a non-ASCII
/// character, which a byte-wise scan cannot step over.
#[derive(PartialEq, Eq, Structural, Clone, Copy)]
pub enum CleanState {
    Text,
    Escape,
    Csi,
    Osc,
    OscEscape,
    Stuck,
}

/// One step of the scan: the next state, and whether the character is kept.
/// Control characters other than tab are dropped from the text.
pub open spec fn clean_step(st: CleanState, c: char) -> (CleanState, bool) {
    match st {
        CleanState::Text => if c == '\u{1b}' {
            (CleanState::Escape, false)
        } else {
            (CleanState::Text, !is_control(c) || c == '\t')
        },
        CleanState::Escape => if c == '[' {
            (CleanState::Csi, false)
        } else if c == ']' {
            (CleanState::Osc, false)
        } else if is_ascii(c) {
            (CleanState::Text, false)
        } else {
            (CleanState::Stuck, false)
        },
        CleanState::Csi => if 0x40 <= (c as u32) && (c as u32) <= 0x7e {
            (CleanState::Text, false)
        } else {
            (CleanState::Csi, false)
        },
        CleanState::Osc => if c == '\u{7}' {
            (CleanState::Text, false)
        } else if c == '\u{1b}' {
            (CleanState::OscEscape, false)
        } else {
            (CleanState::Osc, false)
        },
        CleanState::OscEscape => if c == '\\' || c == '\u{7}' {
            (CleanState::Text, false)
        } else if c == '\u{1b}' {
            (CleanState::OscEscape, false)
        } else {
            (CleanState::Osc, false)
        },
        CleanState::Stuck => (CleanState::Stuck, false),
    }
}

/// The state and the kept text after the first `k` characters of a line.
pub open spec fn clean_prefix(s: Seq<char>, k: int) -> (CleanState, Seq<char>)
    decreases k,
{
    if k <= 0 {
        (CleanState::Text, seq![])
    } else {
        let (st, out) = clean_prefix(s, k - 1);
        let (next, keep) = clean_step(st, s[k - 1]);
        (next, if keep {
            out.push(s[k - 1])
        } else {
            out
        })
    }
}

/// A terminal line without its escape sequences and control characters.
pub open spec fn clean_terminal_line_spec(s: Seq<char>) -> Seq<char> {
    clean_prefix(s, s.len() as int).1
}

/// Whether the scan of a line gets stuck (an escape followed by a non-ASCII character).
pub open spec fn clean_gets_stuck(s: Seq<char>) -> bool {
    clean_prefix(s, s.len() as int).0 == CleanState::Stuck
}

fn clean_step_exec(st: CleanState, c: char) -> (r: (CleanState, bool))
    ensures
        r == clean_step(st, c),
{
    match st {
        CleanState::Text => if c == '\u{1b}' {
            (CleanState::Escape, false)
        } else {
            (CleanState::Text, !control(c) || c == '\t')
        },
        CleanState::Escape => if c == '[' {
            (CleanState::Csi, false)
        } else if c == ']' {
            (CleanState::Osc, false)
        } else if ascii(c) {
            (CleanState::Text, false)
        } else {
            (CleanState::Stuck, false)
        },
        CleanState::Csi => if 0x40 <= (c as u32) && (c as u32) <= 0x7e {
            (CleanState::Text, false)
        } else {
            (CleanState::Csi, false)
        },
        CleanState::Osc => if c == '\u{7}' {
            (CleanState::Text, false)
        } else if c == '\u{1b}' {
            (CleanState::OscEscape, false)
        } else {
            (CleanState::Osc, false)
        },
        CleanState::OscEscape => if c == '\\' || c == '\u{7}' {
            (CleanState::Text, false)
        } else if c == '\u{1b}' {
            (CleanState::OscEscape, false)
        } else {
            (CleanState::Osc, false)
        },
        CleanState::Stuck => (CleanState::Stuck, false),
    }
}

/// Removes ANSI escape sequences (CSI `ESC [ ... final`, OSC `ESC ] ... BEL`
/// or `ESC ] ... ESC \`, and two-character escapes) and control characters
/// other than tab from a line of terminal output.
pub fn clean_terminal_line(line: &[char]) -> (r: Vec<char>)
    requires
        !clean_gets_stuck(line@),
    ensures
        r@ == clean_terminal_line_spec(line@),
{
    let mut out: Vec<char> = Vec::new();
    let mut st = CleanState::Text;
    let mut i: usize = 0;
    proof {
        assert(out@ =~= seq![]);
    }
    while i < line.len()
        invariant
            i <= line@.len(),
            clean_prefix(line@, i as int) == (st, out@),
        decreases line.len() - i,
    {
        let c = line[i];
        let (next, keep) = clean_step_exec(st, c);
        if keep {
            out.push(c);
        }
        st = next;
        i += 1;
    }
    out
}

// ---------------------------------------------------------------------------
// The status panel
// ---------------------------------------------------------------------------

/// What the scan of a status text has gathered so far: the 1-week reading, whether
/// the current section is the 1-week one, whether a line went unrecognised, and
/// whether the scan has stopped (at the quota section of a secondary model) or
/// got stuck on a line.
pub struct WeeklyScan {
    pub percent: Option<u8>,
    pub reset_at: Option<Seq<char>>,
    pub countdown: Option<i64>,
    pub active: bool,
    pub unknown: bool,
    pub stopped: bool,
    pub stuck: bool,
}

pub open spec fn initial_scan() -> WeeklyScan {
    WeeklyScan {
        percent: None,
        reset_at: None,
        countdown: None,
        active: false,
        unknown: false,
        stopped: false,
        stuck: false,
    }
}

/// The scan after a trimmed, cleaned line that is neither blank nor a header.
pub open spec fn scan_content_line(st: WeeklyScan, t: Seq<char>) -> WeeklyScan {
    let weekly_label = is_weekly_quota_label(t);
    if !weekly_label && is_quota_section_label(t) {
        WeeklyScan { active: false, ..st }
    } else if !weekly_label && !st.active {
        st
    } else {
        let found_percent = if st.percent is None {
            extract_percent_spec(t)
        } else {
            None
        };
        let needs_reset = st.reset_at is None && st.countdown is None;
        let found_reset = if needs_reset {
            extract_reset_at_spec(t)
        } else {
            None
        };
        let found_countdown = if needs_reset && found_reset is None {
            extract_countdown_spec(t)
        } else {
            None
        };
        let matched = weekly_label || found_percent is Some || found_reset is Some
            || found_countdown is Some;
        WeeklyScan {
            percent: if found_percent is Some {
                found_percent
            } else {
                st.percent
            },
            reset_at: if found_reset is Some {
                found_reset
            } else {
                st.reset_at
            },
            countdown: if found_countdown is Some {
                found_countdown
            } else {
                st.countdown
            },
            active: true,
            unknown: st.unknown || !matched,
            ..st
        }
    }
}

/// The scan after one raw line of the status text.
pub open spec fn scan_line(st: WeeklyScan, line: Seq<char>) -> WeeklyScan {
    if st.stopped || st.stuck {
        st
    } else if clean_gets_stuck(line) {
        WeeklyScan { stuck: true, ..st }
    } else {
        let t = trim(clean_terminal_line_spec(line));
        if t.len() == 0 || is_generic_status_header(t) {
            st
        } else if is_secondary_model_quota_section(t) {
            WeeklyScan { stopped: true, ..st }
        } else {
            scan_content_line(st, t)
        }
    }
}

/// The scan after the first `k` lines.
pub open spec fn scan_lines(lines: Seq<Seq<char>>, k: int) -> WeeklyScan
    decreases k,
{
    if k <= 0 {
        initial_scan()
    } else {
        scan_line(scan_lines(lines, k - 1), lines[k - 1])
    }
}

/// The scan of a whole status text.
pub open spec fn scan_status_text(raw: Seq<char>) -> WeeklyScan {
    scan_lines(text_lines(raw), text_lines(raw).len() as int)
}

pub proof fn lemma_stuck_stays(lines: Seq<Seq<char>>, k: int, m: int)
    requires
        0 <= k <= m,
        scan_lines(lines, k).stuck,
    ensures
        scan_lines(lines, m).stuck,
    decreases m - k,
{
    if k < m {
        lemma_stuck_stays(lines, k, m - 1);
    }
}

/// The exec form of the scan state.
struct WeeklyState {
    percent: Option<u8>,
    reset_at: Option<Vec<char>>,
    countdown: Option<i64>,
    active: bool,
    unknown: bool,
    stopped: bool,
}

impl WeeklyState {
    spec fn view_scan(&self) -> WeeklyScan {
        WeeklyScan {
            percent: self.percent,
            reset_at: opt_view(self.reset_at),
            countdown: self.countdown,
            active: self.active,
            unknown: self.unknown,
            stopped: self.stopped,
            stuck: false,
        }
    }
}

fn scan_content(st: &mut WeeklyState, t: &[char])
    requires
        t@.len() <= 0x3fff_ffff_ffff_ffff,
    ensures
        final(st).view_scan() == scan_content_line(old(st).view_scan(), t@),
{
    let weekly_label = weekly_quota_label(t);
    if !weekly_label && quota_section_label(t) {
        st.active = false;
        return;
    }
    if !weekly_label && !st.active {
        return;
    }
    st.active = true;
    let mut matched = weekly_label;
    if st.percent.is_none() {
        let p = extract_percent(t);
        if p.is_some() {
            st.percent = p;
            matched = true;
        }
    }
    if st.reset_at.is_none() && st.countdown.is_none() {
        let r = extract_reset_at(t);
        if r.is_some() {
            st.reset_at = r;
            matched = true;
        } else {
            let c = extract_countdown(t);
            if c.is_some() {
                st.countdown = c;
                matched = true;
            }
        }
    }
    if !matched {
        st.unknown = true;
    }
}

fn scan_raw_line(st: &mut WeeklyState, line: &[char])
    requires
        !old(st).stopped,
        !clean_gets_stuck(line@),
        line@.len() <= 0x3fff_ffff_ffff_ffff,
    ensures
        final(st).view_scan() == scan_line(old(st).view_scan(), line@),
{
    let cleaned = clean_terminal_line(line);
    let t = trim_ws(&cleaned);
    proof {
        lemma_clean_len(line@, line@.len() as int);
        lemma_trim_len(cleaned@);
    }
    if t.len() == 0 || generic_status_header(&t) {
        return;
    }
    if secondary_model_quota_section(&t) {
        st.stopped = true;
        return;
    }
    scan_content(st, &t);
}

proof fn lemma_clean_len(s: Seq<char>, k: int)
    requires
        0 <= k <= s.len(),
    ensures
        clean_prefix(s, k).1.len() <= k,
    decreases k,
{
    if k > 0 {
        lemma_clean_len(s, k - 1);
    }
}

proof fn lemma_trim_len(s: Seq<char>)
    ensures
        trim(s).len() <= s.len(),
{
    crate::text::lemma_skip_while_bounds(s, ws(), 0);
    let a = trim_start_by(s, ws());
    crate::text::lemma_back_while_bounds(a, ws(), a.len() as int);
}


// ---------------------------------------------------------------------------
// Parsing
// ---------------------------------------------------------------------------

/// The clock that stamps a parsed snapshot: its capture time as text.
#[derive(Debug)]
pub struct ParseClock {
    captured_at: String,
}

impl Clone for ParseClock {
    fn clone(&self) -> (r: Self)
        ensures
            r@ == self@,
    {
        ParseClock { captured_at: self.captured_at.clone() }
    }
}

impl View for ParseClock {
    type V = Seq<char>;

    closed spec fn view(&self) -> Seq<char> {
        self.captured_at@
    }
}

/// The current time as whole seconds since the Unix epoch (`SystemTime::now`,
/// measured from `UNIX_EPOCH`, zero for a clock set before the epoch). Nothing
/// is stated of the value: it is the machine's clock.
#[verifier::external_body]
pub(crate) fn unix_now_seconds() -> u64 {
    std::time::SystemTime::now().duration_since(std::time::UNIX_EPOCH).unwrap_or_default().as_secs()
}

/// The capture-time text for a Unix time: `unix:` and the decimal seconds.
pub open spec fn unix_timestamp_text(seconds: u64) -> Seq<char> {
    "unix:"@ + decimal(seconds as nat)
}

pub fn unix_timestamp_string(seconds: u64) -> (r: String)
    ensures
        r@ == unix_timestamp_text(seconds),
{
    let mut text = chars_of("unix:");
    extend_chars(&mut text, &decimal_chars(seconds));
    string_of(&text)
}

impl ParseClock {
    /// A clock stamped with the current Unix time.
    pub fn now() -> (r: ParseClock)
        ensures
            exists|seconds: u64| r@ == unix_timestamp_text(seconds),
    {
        let seconds = unix_now_seconds();
        ParseClock { captured_at: unix_timestamp_string(seconds) }
    }

    /// A clock stamped with the given text.
    pub fn fixed(captured_at: &str) -> (r: ParseClock)
        ensures
            r@ == captured_at@,
    {
        ParseClock { captured_at: lit(captured_at) }
    }
}

#[derive(Debug)]
pub struct ParseResult {
    pub snapshot: QuotaSnapshot,
}

impl Clone for ParseResult {
    fn clone(&self) -> (r: Self)
        ensures
            r.snapshot.same_as(&self.snapshot),
    {
        ParseResult { snapshot: self.snapshot.clone() }
    }
}

/// A warning with the given code and message.
pub fn warning(code: &str, message: &str) -> (r: ParseWarning)
    ensures
        r.code@ == code@,
        r.message@ == message@,
{
    ParseWarning { code: lit(code), message: lit(message) }
}

/// The code and message of each warning.
pub open spec fn warning_views(w: Seq<ParseWarning>) -> Seq<(Seq<char>, Seq<char>)> {
    w.map_values(|x: ParseWarning| (x.code@, x.message@))
}

/// The warnings of a parse: unrecognised lines beside a reading, or no reading.
pub open spec fn parse_warnings(scan: WeeklyScan) -> Seq<(Seq<char>, Seq<char>)> {
    let has_usage = scan.percent is Some;
    let unknown: Seq<(Seq<char>, Seq<char>)> = if scan.unknown && has_usage {
        seq![("unknown-lines"@, "部分粘贴内容未被识别，已忽略。"@)]
    } else {
        seq![]
    };
    if !has_usage {
        unknown.push(("no-quota-fields"@, "没有找到可用的额度信息。"@))
    } else {
        unknown
    }
}

/// The status message of a parse.
pub open spec fn parse_status_message(scan: WeeklyScan) -> Seq<char> {
    if scan.percent is None {
        "没有识别到 1 周额度，请检查 /status 内容。"@
    } else if !scan.unknown {
        "已更新 1 周额度。"@
    } else {
        "已更新 1 周额度，部分内容未识别。"@
    }
}

/// Whether `snap` is the snapshot parsed from `raw` at `captured_at` from `source`.
pub open spec fn parsed_snapshot(
    snap: QuotaSnapshot,
    raw: Seq<char>,
    captured_at: Seq<char>,
    source: SnapshotSource,
) -> bool {
    let scan = scan_status_text(raw);
    &&& snap.id@ == captured_at
    &&& snap.captured_at@ == captured_at
    &&& snap.source == source
    &&& snap.weekly.remaining_percent == scan.percent
    &&& opt_text(snap.weekly.reset_at) == scan.reset_at
    &&& snap.weekly.reset_countdown_seconds == scan.countdown
    &&& snap.plan_type is None
    &&& snap.credits_balance is None
    &&& snap.reset_credits_available is None
    &&& snap.raw_text@ == raw
    &&& snap.status_message@ == parse_status_message(scan)
    &&& warning_views(snap.warnings@) == parse_warnings(scan)
}

/// Whether `raw` can be parsed: it fits the byte offsets, and no line read
/// before the scan stops has an escape followed by a non-ASCII character.
pub open spec fn parsable(raw: Seq<char>) -> bool {
    raw.len() <= 0x3fff_ffff_ffff_ffff && !scan_status_text(raw).stuck
}

/// Parses pasted `/status` output.
pub fn parse_status_text(raw_text: &str, clock: ParseClock) -> (r: ParseResult)
    requires
        parsable(raw_text@),
    ensures
        parsed_snapshot(r.snapshot, raw_text@, clock@, SnapshotSource::PastedStatus),
{
    parse_status_text_with_source(raw_text, clock, SnapshotSource::PastedStatus)
}

/// Parses Codex `/status` output into a snapshot of the 1-week quota.
pub fn parse_status_text_with_source(raw_text: &str, clock: ParseClock, source: SnapshotSource) -> (r:
    ParseResult)
    requires
        parsable(raw_text@),
    ensures
        parsed_snapshot(r.snapshot, raw_text@, clock@, source),
{
    let raw = chars_of(raw_text);
    let lines = split_lines(&raw);
    let ghost all = text_lines(raw@);
    proof {
        lemma_lines_len(raw@, 0, seq![], seq![]);
        assert forall|j: int| 0 <= j < lines@.len() implies (#[trigger] lines@[j])@.len()
            <= 0x3fff_ffff_ffff_ffff by {
            assert(lines@[j]@ == all[j]);
        }
    }
    let mut st = WeeklyState {
        percent: None,
        reset_at: None,
        countdown: None,
        active: false,
        unknown: false,
        stopped: false,
    };
    let mut k: usize = 0;
    while k < lines.len()
        invariant
            k <= lines@.len(),
            char_views(lines@) == all,
            all == text_lines(raw@),
            st.view_scan() == scan_lines(all, k as int),
            !scan_lines(all, all.len() as int).stuck,
            forall|j: int| 0 <= j < lines@.len() ==> (#[trigger] lines@[j])@.len() <= 0x3fff_ffff_ffff_ffff,
        decreases lines.len() - k,
    {
        proof {
            assert(lines@[k as int]@ == all[k as int]);
            if scan_lines(all, k as int + 1).stuck {
                lemma_stuck_stays(all, k as int + 1, all.len() as int);
            }
        }
        if !st.stopped {
            scan_raw_line(&mut st, &lines[k]);
        }
        k += 1;
    }
    let has_usage = st.percent.is_some();
    let mut warnings: Vec<ParseWarning> = Vec::new();
    if st.unknown && has_usage {
        warnings.push(warning("unknown-lines", "部分粘贴内容未被识别，已忽略。"));
    }
    if !has_usage {
        warnings.push(warning("no-quota-fields", "没有找到可用的额度信息。"));
    }
    let status_message = if !has_usage {
        lit("没有识别到 1 周额度，请检查 /status 内容。")
    } else if !st.unknown {
        lit("已更新 1 周额度。")
    } else {
        lit("已更新 1 周额度，部分内容未识别。")
    };
    proof {
        let scan = scan_status_text(raw_text@);
        assert(warning_views(warnings@) =~= parse_warnings(scan));
    }
    let reset_at = match st.reset_at {
        Some(v) => Some(string_of(&v)),
        None => None,
    };
    let captured_at = clock.captured_at;
    ParseResult {
        snapshot: QuotaSnapshot {
            id: captured_at.clone(),
            source,
            captured_at,
            weekly: QuotaReading {
                remaining_percent: st.percent,
                reset_at,
                reset_countdown_seconds: st.countdown,
            },
            plan_type: None,
            credits_balance: None,
            reset_credits_available: None,
            raw_text: lit(raw_text),
            status_message,
            warnings,
        },
    }
}

/// Whether cleaning a line of terminal output gets stuck on an escape that is
/// followed by a non-ASCII character.
pub fn line_gets_stuck(line: &[char]) -> (r: bool)
    ensures
        r == clean_gets_stuck(line@),
{
    let mut st = CleanState::Text;
    let mut i: usize = 0;
    while i < line.len()
        invariant
            i <= line@.len(),
            clean_prefix(line@, i as int).0 == st,
        decreases line.len() - i,
    {
        let (next, _) = clean_step_exec(st, line[i]);
        st = next;
        i += 1;
    }
    st == CleanState::Stuck
}

/// Whether a status text can be parsed (see `parsable`): callers test this
/// before parsing text they did not produce themselves.
pub fn is_parsable(raw_text: &str) -> (r: bool)
    ensures
        r == parsable(raw_text@),
{
    let raw = chars_of(raw_text);
    if raw.len() as u64 > 0x3fff_ffff_ffff_ffff {
        return false;
    }
    let lines = split_lines(&raw);
    let ghost all = text_lines(raw@);
    proof {
        lemma_lines_len(raw@, 0, seq![], seq![]);
        assert forall|j: int| 0 <= j < lines@.len() implies (#[trigger] lines@[j])@.len()
            <= 0x3fff_ffff_ffff_ffff by {
            assert(lines@[j]@ == all[j]);
        }
    }
    let mut st = WeeklyState {
        percent: None,
        reset_at: None,
        countdown: None,
        active: false,
        unknown: false,
        stopped: false,
    };
    let mut k: usize = 0;
    while k < lines.len()
        invariant
            k <= lines@.len(),
            char_views(lines@) == all,
            all == text_lines(raw@),
            raw@ == raw_text@,
            st.view_scan() == scan_lines(all, k as int),
            forall|j: int| 0 <= j < lines@.len() ==> (#[trigger] lines@[j])@.len() <= 0x3fff_ffff_ffff_ffff,
        decreases lines.len() - k,
    {
        proof {
            assert(lines@[k as int]@ == all[k as int]);
        }
        if !st.stopped {
            if line_gets_stuck(&lines[k]) {
                proof {
                    assert(scan_lines(all, k as int + 1) == scan_line(scan_lines(all, k as int), all[k as int]));
                    assert(scan_lines(all, k as int + 1).stuck);
                    lemma_stuck_stays(all, k as int + 1, all.len() as int);
                }
                return false;
            }
            scan_raw_line(&mut st, &lines[k]);
        }
        k += 1;
    }
    true
}

// ---------------------------------------------------------------------------
// The compatibility reading through the CLI
// ---------------------------------------------------------------------------

/// The snapshot the compatibility reading gives for captured `/status` output:
/// the parsed weekly reading, marked as read through the CLI, without the raw
/// output, and with the compatibility message.
pub open spec fn cli_snapshot_holds(snap: QuotaSnapshot, raw: Seq<char>, captured_at: Seq<char>) -> bool {
    let scan = scan_status_text(raw);
    &&& snap.id@ == captured_at
    &&& snap.captured_at@ == captured_at
    &&& snap.source == SnapshotSource::CodexCli
    &&& snap.weekly.remaining_percent == scan.percent
    &&& opt_text(snap.weekly.reset_at) == scan.reset_at
    &&& snap.weekly.reset_countdown_seconds == scan.countdown
    &&& snap.plan_type is None
    &&& snap.credits_balance is None
    &&& snap.reset_credits_available is None
    &&& snap.raw_text@.len() == 0
    &&& snap.status_message@ == "已通过 Codex CLI /status 兼容模式更新额度。"@
    &&& warning_views(snap.warnings@) == parse_warnings(scan)
}

/// Reads the usage out of `/status` output captured from the CLI, stamped by
/// `clock`: output that cannot be parsed, or that holds no weekly reading, is
/// an error.
pub fn cli_status_outcome(output: &str, clock: ParseClock) -> (r: Result<QuotaSnapshot, String>)
    ensures
        !parsable(output@) ==> (r matches Err(e) && e@ == "Codex CLI 返回的 /status 内容无法识别。"@),
        parsable(output@) && scan_status_text(output@).percent is None ==> (r matches Err(e) && e@
            == "Codex CLI 没有返回可识别的额度，请稍后重试。"@),
        parsable(output@) && scan_status_text(output@).percent is Some ==> (r matches Ok(s)
            && cli_snapshot_holds(s, output@, clock@)),
{
    if !is_parsable(output) {
        return Err(lit("Codex CLI 返回的 /status 内容无法识别。"));
    }
    let mut result = parse_status_text_with_source(output, clock, SnapshotSource::CodexCli);
    result.snapshot.status_message = lit("已通过 Codex CLI /status 兼容模式更新额度。");
    result.snapshot.raw_text = String::new();
    if result.snapshot.has_usage() {
        Ok(result.snapshot)
    } else {
        Err(lit("Codex CLI 没有返回可识别的额度，请稍后重试。"))
    }
}

/// The error when both the app server and the `/status` panel failed.
pub fn cli_fallback_failure(app_server_error: &str, status_error: &str) -> (r: String)
    ensures
        r@ == "结构化查询失败："@ + app_server_error@ + "；兼容查询也失败："@ + status_error@,
{
    let mut t = chars_of("结构化查询失败：");
    extend_chars(&mut t, &chars_of(app_server_error));
    extend_chars(&mut t, &chars_of("；兼容查询也失败："));
    extend_chars(&mut t, &chars_of(status_error));
    string_of(&t)
}

} // verus!
