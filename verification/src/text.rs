//! Text as sequences of characters: the character classes, searches, trims and
//! splits that the parsers are written with, each stated over `Seq<char>`.
use vstd::prelude::*;

verus! {

broadcast use vstd::string::group_string_axioms;

// ---------------------------------------------------------------------------
// Strings and character vectors
// ---------------------------------------------------------------------------

/// Appends one character to a string (`String::push`).
#[verifier::external_body]
pub fn push_char(s: &mut String, c: char)
    ensures
        final(s)@ == old(s)@.push(c),
{
    s.push(c)
}

/// The characters of a string slice, in order.
pub fn chars_of(s: &str) -> (v: Vec<char>)
    ensures
        v@ == s@,
{
    let mut v: Vec<char> = Vec::new();
    for c in it: s.chars()
        invariant
            v@ == it.seq().take(it.index() as int),
            it.seq() == s@,
    {
        v.push(c);
    }
    v
}

/// A string made of the given characters.
pub fn string_of(v: &[char]) -> (s: String)
    ensures
        s@ == v@,
{
    let mut s = String::new();
    let mut i: usize = 0;
    while i < v.len()
        invariant
            i <= v.len(),
            s@ == v@.take(i as int),
        decreases v.len() - i,
    {
        push_char(&mut s, v[i]);
        proof {
            assert(v@.take(i as int + 1) == v@.take(i as int).push(v@[i as int]));
        }
        i += 1;
    }
    proof {
        assert(v@.take(v.len() as int) == v@);
    }
    s
}

/// An owned copy of a string slice.
pub fn lit(s: &str) -> (r: String)
    ensures
        r@ == s@,
{
    s.to_string()
}

/// The characters of each string of a list.
pub fn char_lists(items: &[&str]) -> (r: Vec<Vec<char>>)
    ensures
        r@.len() == items@.len(),
        forall|i: int| 0 <= i < items@.len() ==> (#[trigger] r@[i])@ == items@[i]@,
{
    let mut r: Vec<Vec<char>> = Vec::new();
    let mut i: usize = 0;
    while i < items.len()
        invariant
            i <= items.len(),
            r@.len() == i,
            forall|j: int| 0 <= j < i ==> (#[trigger] r@[j])@ == items@[j]@,
        decreases items.len() - i,
    {
        r.push(chars_of(items[i]));
        i += 1;
    }
    r
}

/// The views of a list of string slices.
pub open spec fn views(items: Seq<&str>) -> Seq<Seq<char>> {
    items.map_values(|x: &str| x@)
}

/// A copy of `s[from..to]`.
pub fn slice_vec(s: &[char], from: usize, to: usize) -> (r: Vec<char>)
    requires
        from <= to <= s@.len(),
    ensures
        r@ == s@.subrange(from as int, to as int),
{
    let mut r: Vec<char> = Vec::new();
    let mut i = from;
    while i < to
        invariant
            from <= i <= to,
            to <= s@.len(),
            r@ == s@.subrange(from as int, i as int),
        decreases to - i,
    {
        r.push(s[i]);
        proof {
            assert(s@.subrange(from as int, i as int + 1) == s@.subrange(from as int, i as int).push(
                s@[i as int],
            ));
        }
        i += 1;
    }
    r
}

/// Appends a copy of `extra` to `v`.
pub fn extend_chars(v: &mut Vec<char>, extra: &[char])
    ensures
        final(v)@ == old(v)@ + extra@,
{
    let mut i: usize = 0;
    while i < extra.len()
        invariant
            i <= extra.len(),
            v@ == old(v)@ + extra@.take(i as int),
        decreases extra.len() - i,
    {
        v.push(extra[i]);
        proof {
            assert(extra@.take(i as int + 1) == extra@.take(i as int).push(extra@[i as int]));
        }
        i += 1;
    }
    proof {
        assert(extra@.take(extra.len() as int) == extra@);
    }
}

/// Whether two character slices hold the same characters.
pub fn same_chars(a: &[char], b: &[char]) -> (r: bool)
    ensures
        r == (a@ == b@),
{
    if a.len() != b.len() {
        return false;
    }
    let mut i: usize = 0;
    while i < a.len()
        invariant
            i <= a.len(),
            a@.len() == b@.len(),
            forall|j: int| 0 <= j < i ==> a@[j] == b@[j],
        decreases a.len() - i,
    {
        if a[i] != b[i] {
            return false;
        }
        i += 1;
    }
    proof {
        assert(a@ =~= b@);
    }
    true
}

// ---------------------------------------------------------------------------
// Character classes
// ---------------------------------------------------------------------------

pub open spec fn is_ascii_digit(c: char) -> bool {
    '0' <= c && c <= '9'
}

pub fn ascii_digit(c: char) -> (r: bool)
    ensures
        r == is_ascii_digit(c),
{
    c >= '0' && c <= '9'
}

pub open spec fn is_ascii(c: char) -> bool {
    (c as u32) < 0x80
}

pub fn ascii(c: char) -> (r: bool)
    ensures
        r == is_ascii(c),
{
    (c as u32) < 0x80
}

pub open spec fn is_ascii_alphanumeric(c: char) -> bool {
    is_ascii_digit(c) || ('a' <= c && c <= 'z') || ('A' <= c && c <= 'Z')
}

pub fn ascii_alphanumeric(c: char) -> (r: bool)
    ensures
        r == is_ascii_alphanumeric(c),
{
    (c >= '0' && c <= '9') || (c >= 'a' && c <= 'z') || (c >= 'A' && c <= 'Z')
}

/// The Unicode `White_Space` property, which `char::is_whitespace` reports.
pub open spec fn is_whitespace(c: char) -> bool {
    let v = c as u32;
    ||| 0x09 <= v && v <= 0x0d
    ||| v == 0x20
    ||| v == 0x85
    ||| v == 0xa0
    ||| v == 0x1680
    ||| 0x2000 <= v && v <= 0x200a
    ||| v == 0x2028
    ||| v == 0x2029
    ||| v == 0x202f
    ||| v == 0x205f
    ||| v == 0x3000
}

pub fn whitespace(c: char) -> (r: bool)
    ensures
        r == is_whitespace(c),
{
    let v = c as u32;
    (0x09 <= v && v <= 0x0d) || v == 0x20 || v == 0x85 || v == 0xa0 || v == 0x1680 || (0x2000
        <= v && v <= 0x200a) || v == 0x2028 || v == 0x2029 || v == 0x202f || v == 0x205f || v
        == 0x3000
}

/// The general category `Cc` (control codes), which `char::is_control` reports.
pub open spec fn is_control(c: char) -> bool {
    let v = c as u32;
    v <= 0x1f || (0x7f <= v && v <= 0x9f)
}

pub fn control(c: char) -> (r: bool)
    ensures
        r == is_control(c),
{
    let v = c as u32;
    v <= 0x1f || (0x7f <= v && v <= 0x9f)
}

/// ASCII lower-casing of one character; every other character is kept.
pub open spec fn lower_char(c: char) -> char {
    if 'A' <= c && c <= 'Z' {
        ((c as int) + 32) as char
    } else {
        c
    }
}

pub fn to_lower_char(c: char) -> (r: char)
    ensures
        r == lower_char(c),
{
    if c >= 'A' && c <= 'Z' {
        let b = c as u8;
        proof {
            assert(b as int == c as int);
        }
        (b + 32) as char
    } else {
        c
    }
}

/// ASCII lower-casing of a text (`to_ascii_lowercase`).
pub open spec fn lower(s: Seq<char>) -> Seq<char> {
    Seq::new(s.len(), |i: int| lower_char(s[i]))
}

pub fn to_lower(s: &[char]) -> (r: Vec<char>)
    ensures
        r@ == lower(s@),
{
    let mut r: Vec<char> = Vec::new();
    let mut i: usize = 0;
    while i < s.len()
        invariant
            i <= s.len(),
            r@ == lower(s@.take(i as int)),
        decreases s.len() - i,
    {
        r.push(to_lower_char(s[i]));
        proof {
            assert(lower(s@.take(i as int + 1)) =~= lower(s@.take(i as int)).push(
                lower_char(s@[i as int]),
            ));
        }
        i += 1;
    }
    proof {
        assert(s@.take(s.len() as int) == s@);
    }
    r
}

/// Whether two texts are equal when ASCII letters are compared without case.
pub open spec fn eq_ignore_ascii_case(a: Seq<char>, b: Seq<char>) -> bool {
    lower(a) == lower(b)
}

pub fn equal_ignoring_ascii_case(a: &[char], b: &[char]) -> (r: bool)
    ensures
        r == eq_ignore_ascii_case(a@, b@),
{
    let la = to_lower(a);
    let lb = to_lower(b);
    same_chars(&la, &lb)
}

/// The number of bytes of the UTF-8 encoding of a character.
pub open spec fn utf8_width(c: char) -> int {
    let v = c as u32;
    if v < 0x80 {
        1
    } else if v < 0x800 {
        2
    } else if v < 0x10000 {
        3
    } else {
        4
    }
}

pub fn utf8_width_of(c: char) -> (r: u64)
    ensures
        r == utf8_width(c),
{
    let v = c as u32;
    if v < 0x80 {
        1
    } else if v < 0x800 {
        2
    } else if v < 0x10000 {
        3
    } else {
        4
    }
}

/// The byte offset of the character at index `k`: the UTF-8 length of `s[..k]`.
pub open spec fn byte_offset(s: Seq<char>, k: int) -> int
    decreases k,
{
    if k <= 0 {
        0
    } else {
        byte_offset(s, k - 1) + utf8_width(s[k - 1])
    }
}

pub proof fn lemma_byte_offset_bounds(s: Seq<char>, k: int)
    requires
        0 <= k,
    ensures
        k <= byte_offset(s, k) <= 4 * k,
    decreases k,
{
    if k > 0 {
        lemma_byte_offset_bounds(s, k - 1);
    }
}

pub proof fn lemma_byte_offset_lower(s: Seq<char>, k: int)
    requires
        0 <= k <= s.len(),
    ensures
        byte_offset(lower(s), k) == byte_offset(s, k),
    decreases k,
{
    if k > 0 {
        lemma_byte_offset_lower(s, k - 1);
    }
}

// ---------------------------------------------------------------------------
// Searching
// ---------------------------------------------------------------------------

/// Whether `n` occurs in `h` at index `i`.
pub open spec fn matches_at(h: Seq<char>, n: Seq<char>, i: int) -> bool {
    0 <= i && i + n.len() <= h.len() && h.subrange(i, i + n.len()) == n
}

/// The first index at or after `i` where `n` occurs in `h`.
pub open spec fn find_from(h: Seq<char>, n: Seq<char>, i: int) -> Option<int>
    decreases h.len() + 1 - i,
{
    if i < 0 || i + n.len() > h.len() {
        None
    } else if matches_at(h, n, i) {
        Some(i)
    } else {
        find_from(h, n, i + 1)
    }
}

/// The first index where `n` occurs in `h` (`str::find` on characters).
pub open spec fn find(h: Seq<char>, n: Seq<char>) -> Option<int> {
    find_from(h, n, 0)
}

pub open spec fn contains(h: Seq<char>, n: Seq<char>) -> bool {
    find(h, n) is Some
}

pub proof fn lemma_find_from_bounds(h: Seq<char>, n: Seq<char>, i: int)
    ensures
        find_from(h, n, i) matches Some(k) ==> i <= k && matches_at(h, n, k),
    decreases h.len() + 1 - i,
{
    if i < 0 || i + n.len() > h.len() {
    } else if matches_at(h, n, i) {
    } else {
        lemma_find_from_bounds(h, n, i + 1);
    }
}

fn matches_at_exec(h: &[char], n: &[char], i: usize) -> (r: bool)
    requires
        i + n@.len() <= h@.len(),
    ensures
        r == matches_at(h@, n@, i as int),
{
    let mut j: usize = 0;
    assert(h@.len() == h.len());
    while j < n.len()
        invariant
            j <= n@.len(),
            h@.len() == h.len(),
            i + n@.len() <= h@.len(),
            forall|k: int| 0 <= k < j ==> h@[i + k] == n@[k],
        decreases n.len() - j,
    {
        if h[i + j] != n[j] {
            proof {
                assert(h@.subrange(i as int, i + n@.len())[j as int] != n@[j as int]);
            }
            return false;
        }
        j += 1;
    }
    proof {
        assert(h@.subrange(i as int, i + n@.len()) =~= n@);
    }
    true
}

/// The first index where `n` occurs in `h`.
pub fn find_chars(h: &[char], n: &[char]) -> (r: Option<usize>)
    ensures
        r matches Some(k) ==> find(h@, n@) == Some(k as int),
        r is None ==> find(h@, n@) is None,
{
    if n.len() > h.len() {
        return None;
    }
    let mut i: usize = 0;
    let last = h.len() - n.len();
    loop
        invariant
            last + n@.len() == h@.len(),
            i <= last,
            find(h@, n@) == find_from(h@, n@, i as int),
        decreases last - i,
    {
        if matches_at_exec(h, n, i) {
            return Some(i);
        }
        if i == last {
            proof {
                assert(find_from(h@, n@, i as int + 1) is None);
            }
            return None;
        }
        i += 1;
    }
}

/// The first index at or after `from` where `n` occurs in `h`.
pub fn find_chars_from(h: &[char], n: &[char], from: usize) -> (r: Option<usize>)
    ensures
        r matches Some(k) ==> find_from(h@, n@, from as int) == Some(k as int) && from <= k
            && k + n@.len() <= h@.len(),
        r is None ==> find_from(h@, n@, from as int) is None,
{
    proof {
        lemma_find_from_bounds(h@, n@, from as int);
    }
    if n.len() > h.len() || from > h.len() - n.len() {
        return None;
    }
    let mut i: usize = from;
    let last = h.len() - n.len();
    loop
        invariant
            last + n@.len() == h@.len(),
            from <= i <= last,
            find_from(h@, n@, from as int) == find_from(h@, n@, i as int),
        decreases last - i,
    {
        if matches_at_exec(h, n, i) {
            return Some(i);
        }
        if i == last {
            proof {
                assert(find_from(h@, n@, i as int + 1) is None);
            }
            return None;
        }
        i += 1;
    }
}

/// Whether one of the needles occurs in `h`.
pub open spec fn contains_any(h: Seq<char>, needles: Seq<Seq<char>>) -> bool {
    exists|i: int| 0 <= i < needles.len() && contains(h, #[trigger] needles[i])
}

pub fn contains_any_of(h: &[char], needles: &[&str]) -> (r: bool)
    ensures
        r == contains_any(h@, views(needles@)),
{
    let mut i: usize = 0;
    while i < needles.len()
        invariant
            i <= needles@.len(),
            forall|j: int| 0 <= j < i ==> !contains(h@, #[trigger] views(needles@)[j]),
        decreases needles.len() - i,
    {
        let n = chars_of(needles[i]);
        if find_chars(h, &n).is_some() {
            proof {
                assert(contains(h@, views(needles@)[i as int]));
            }
            return true;
        }
        i += 1;
    }
    false
}

/// Whether `c` occurs in `s`.
pub fn has_char(s: &[char], c: char) -> (r: bool)
    ensures
        r == s@.contains(c),
{
    let mut i: usize = 0;
    while i < s.len()
        invariant
            i <= s.len(),
            forall|j: int| 0 <= j < i ==> s@[j] != c,
        decreases s.len() - i,
    {
        if s[i] == c {
            proof {
                assert(s@[i as int] == c);
            }
            return true;
        }
        i += 1;
    }
    false
}

/// The first index of `c` in `s`.
pub open spec fn find_char_from(s: Seq<char>, c: char, i: int) -> Option<int>
    decreases s.len() - i,
{
    if i < 0 || i >= s.len() {
        None
    } else if s[i] == c {
        Some(i)
    } else {
        find_char_from(s, c, i + 1)
    }
}

pub fn find_char(s: &[char], c: char) -> (r: Option<usize>)
    ensures
        r matches Some(k) ==> find_char_from(s@, c, 0) == Some(k as int) && k < s@.len(),
        r is None ==> find_char_from(s@, c, 0) is None,
{
    let mut i: usize = 0;
    while i < s.len()
        invariant
            i <= s.len(),
            find_char_from(s@, c, 0) == find_char_from(s@, c, i as int),
        decreases s.len() - i,
    {
        if s[i] == c {
            return Some(i);
        }
        i += 1;
    }
    None
}

/// The last index of `c` in `s[..j]`.
pub open spec fn rfind_char_before(s: Seq<char>, c: char, j: int) -> Option<int>
    decreases j,
{
    if j <= 0 || j > s.len() {
        None
    } else if s[j - 1] == c {
        Some(j - 1)
    } else {
        rfind_char_before(s, c, j - 1)
    }
}

pub fn rfind_char(s: &[char], c: char) -> (r: Option<usize>)
    ensures
        r matches Some(k) ==> rfind_char_before(s@, c, s@.len() as int) == Some(k as int) && k
            < s@.len(),
        r is None ==> rfind_char_before(s@, c, s@.len() as int) is None,
{
    let mut j: usize = s.len();
    while j > 0
        invariant
            j <= s.len(),
            rfind_char_before(s@, c, s@.len() as int) == rfind_char_before(s@, c, j as int),
        decreases j,
    {
        if s[j - 1] == c {
            return Some(j - 1);
        }
        j -= 1;
    }
    None
}

/// Whether `s` begins with `p`.
pub open spec fn starts_with(s: Seq<char>, p: Seq<char>) -> bool {
    p.len() <= s.len() && s.take(p.len() as int) == p
}

pub fn starts_with_chars(s: &[char], p: &[char]) -> (r: bool)
    ensures
        r == starts_with(s@, p@),
{
    if p.len() > s.len() {
        return false;
    }
    let r = matches_at_exec(s, p, 0);
    proof {
        assert(s@.subrange(0, p@.len() as int) == s@.take(p@.len() as int));
    }
    r
}

/// Whether `s` ends with `p`.
pub open spec fn ends_with(s: Seq<char>, p: Seq<char>) -> bool {
    p.len() <= s.len() && s.skip(s.len() - p.len()) == p
}

pub fn ends_with_chars(s: &[char], p: &[char]) -> (r: bool)
    ensures
        r == ends_with(s@, p@),
{
    if p.len() > s.len() {
        return false;
    }
    let start = s.len() - p.len();
    let r = matches_at_exec(s, p, start);
    proof {
        assert(s@.subrange(start as int, start + p@.len()) == s@.skip(start as int));
    }
    r
}

// ---------------------------------------------------------------------------
// Trimming
// ---------------------------------------------------------------------------

/// The first index at or after `i` whose character does not satisfy `p`.
pub open spec fn skip_while_from(s: Seq<char>, p: spec_fn(char) -> bool, i: int) -> int
    decreases s.len() - i,
{
    if 0 <= i < s.len() && p(s[i]) {
        skip_while_from(s, p, i + 1)
    } else {
        i
    }
}

/// The end of `s[..j]` once the characters satisfying `p` are removed from its end.
pub open spec fn back_while_from(s: Seq<char>, p: spec_fn(char) -> bool, j: int) -> int
    decreases j,
{
    if 0 < j <= s.len() && p(s[j - 1]) {
        back_while_from(s, p, j - 1)
    } else {
        j
    }
}

/// `s` without the leading characters that satisfy `p`.
pub open spec fn trim_start_by(s: Seq<char>, p: spec_fn(char) -> bool) -> Seq<char> {
    s.skip(skip_while_from(s, p, 0))
}

/// `s` without the trailing characters that satisfy `p`.
pub open spec fn trim_end_by(s: Seq<char>, p: spec_fn(char) -> bool) -> Seq<char> {
    s.take(back_while_from(s, p, s.len() as int))
}

/// `s` without the characters that satisfy `p` at either end.
pub open spec fn trim_by(s: Seq<char>, p: spec_fn(char) -> bool) -> Seq<char> {
    trim_end_by(trim_start_by(s, p), p)
}

/// The whitespace predicate as a value.
pub open spec fn ws() -> spec_fn(char) -> bool {
    |c: char| is_whitespace(c)
}

/// Membership in a set of characters as a predicate.
pub open spec fn in_set(set: Seq<char>) -> spec_fn(char) -> bool {
    |c: char| set.contains(c)
}

/// `str::trim`: no whitespace at either end.
pub open spec fn trim(s: Seq<char>) -> Seq<char> {
    trim_by(s, ws())
}

pub proof fn lemma_skip_while_bounds(s: Seq<char>, p: spec_fn(char) -> bool, i: int)
    requires
        0 <= i <= s.len(),
    ensures
        i <= skip_while_from(s, p, i) <= s.len(),
    decreases s.len() - i,
{
    if 0 <= i < s.len() && p(s[i]) {
        lemma_skip_while_bounds(s, p, i + 1);
    }
}

pub proof fn lemma_back_while_bounds(s: Seq<char>, p: spec_fn(char) -> bool, j: int)
    requires
        0 <= j <= s.len(),
    ensures
        0 <= back_while_from(s, p, j) <= j,
    decreases j,
{
    if 0 < j <= s.len() && p(s[j - 1]) {
        lemma_back_while_bounds(s, p, j - 1);
    }
}

/// `s` with whitespace removed at both ends.
pub fn trim_ws(s: &[char]) -> (r: Vec<char>)
    ensures
        r@ == trim(s@),
{
    let mut i: usize = 0;
    while i < s.len() && whitespace(s[i])
        invariant
            i <= s.len(),
            skip_while_from(s@, ws(), 0) == skip_while_from(s@, ws(), i as int),
        decreases s.len() - i,
    {
        i += 1;
    }
    let ghost t = s@.skip(i as int);
    proof {
        assert(trim_start_by(s@, ws()) == t);
    }
    let mut j: usize = s.len();
    while j > i && whitespace(s[j - 1])
        invariant
            i <= j <= s.len(),
            t == s@.skip(i as int),
            back_while_from(t, ws(), t.len() as int) == back_while_from(
                t,
                ws(),
                (j - i) as int,
            ),
        decreases j,
    {
        proof {
            assert(t[(j - i) - 1] == s@[j - 1]);
        }
        j -= 1;
    }
    proof {
        assert(back_while_from(t, ws(), (j - i) as int) == (j - i) as int);
        assert(t.take((j - i) as int) =~= s@.subrange(i as int, j as int));
    }
    slice_vec(s, i, j)
}

/// Whether `c` is one of `set`.
pub fn char_in(set: &[char], c: char) -> (r: bool)
    ensures
        r == set@.contains(c),
{
    has_char(set, c)
}

/// `s` with the characters of `set` removed at its start (when `start`) and at its end (when `end`).
pub fn trim_set(s: &[char], set: &[char], start: bool, end: bool) -> (r: Vec<char>)
    ensures
        r@ == ({
            let a = if start {
                trim_start_by(s@, in_set(set@))
            } else {
                s@
            };
            if end {
                trim_end_by(a, in_set(set@))
            } else {
                a
            }
        }),
{
    let mut i: usize = 0;
    if start {
        while i < s.len() && char_in(set, s[i])
            invariant
                i <= s.len(),
                skip_while_from(s@, in_set(set@), 0) == skip_while_from(
                    s@,
                    in_set(set@),
                    i as int,
                ),
            decreases s.len() - i,
        {
            i += 1;
        }
    }
    let ghost t = s@.skip(i as int);
    proof {
        if start {
            assert(trim_start_by(s@, in_set(set@)) == t);
        } else {
            assert(t =~= s@);
        }
    }
    let mut j: usize = s.len();
    if end {
        while j > i && char_in(set, s[j - 1])
            invariant
                i <= j <= s.len(),
                t == s@.skip(i as int),
                back_while_from(t, in_set(set@), t.len() as int) == back_while_from(
                    t,
                    in_set(set@),
                    (j - i) as int,
                ),
            decreases j,
        {
            proof {
                assert(t[(j - i) - 1] == s@[j - 1]);
            }
            j -= 1;
        }
        proof {
            assert(back_while_from(t, in_set(set@), (j - i) as int) == (j - i) as int);
        }
    }
    proof {
        assert(t.take((j - i) as int) =~= s@.subrange(i as int, j as int));
    }
    slice_vec(s, i, j)
}

// ---------------------------------------------------------------------------
// Rewriting
// ---------------------------------------------------------------------------

/// `s` without any occurrence of `c` (`replace(c, "")`).
pub open spec fn remove_char(s: Seq<char>, c: char) -> Seq<char>
    decreases s.len(),
{
    if s.len() == 0 {
        s
    } else if s.last() == c {
        remove_char(s.drop_last(), c)
    } else {
        remove_char(s.drop_last(), c).push(s.last())
    }
}

pub fn without_char(s: &[char], c: char) -> (r: Vec<char>)
    ensures
        r@ == remove_char(s@, c),
{
    let mut r: Vec<char> = Vec::new();
    let mut i: usize = 0;
    while i < s.len()
        invariant
            i <= s.len(),
            r@ == remove_char(s@.take(i as int), c),
        decreases s.len() - i,
    {
        proof {
            assert(s@.take(i as int + 1).drop_last() == s@.take(i as int));
        }
        if s[i] != c {
            r.push(s[i]);
        }
        i += 1;
    }
    proof {
        assert(s@.take(s.len() as int) == s@);
    }
    r
}

/// `s` with every `a` replaced by `b` (`replace(a, b)` for single characters).
pub open spec fn replace_char(s: Seq<char>, a: char, b: char) -> Seq<char> {
    Seq::new(s.len(), |i: int| if s[i] == a { b } else { s[i] })
}

pub fn replacing_char(s: &[char], a: char, b: char) -> (r: Vec<char>)
    ensures
        r@ == replace_char(s@, a, b),
{
    let mut r: Vec<char> = Vec::new();
    let mut i: usize = 0;
    while i < s.len()
        invariant
            i <= s.len(),
            r@ == replace_char(s@.take(i as int), a, b),
        decreases s.len() - i,
    {
        let c = if s[i] == a {
            b
        } else {
            s[i]
        };
        r.push(c);
        proof {
            assert(replace_char(s@.take(i as int + 1), a, b) =~= replace_char(
                s@.take(i as int),
                a,
                b,
            ).push(c));
        }
        i += 1;
    }
    proof {
        assert(s@.take(s.len() as int) == s@);
    }
    r
}

// ---------------------------------------------------------------------------
// Splitting
// ---------------------------------------------------------------------------

/// The whitespace-separated tokens of `s[i..]` when `cur` holds the characters of
/// the token under way (`str::split_whitespace`).
pub open spec fn tokens_from(s: Seq<char>, i: int, cur: Seq<char>) -> Seq<Seq<char>>
    decreases s.len() - i,
{
    if i < 0 || i >= s.len() {
        if cur.len() > 0 {
            seq![cur]
        } else {
            seq![]
        }
    } else if is_whitespace(s[i]) {
        if cur.len() > 0 {
            seq![cur] + tokens_from(s, i + 1, seq![])
        } else {
            tokens_from(s, i + 1, seq![])
        }
    } else {
        tokens_from(s, i + 1, cur.push(s[i]))
    }
}

/// The whitespace-separated tokens of `s`.
pub open spec fn tokens(s: Seq<char>) -> Seq<Seq<char>> {
    tokens_from(s, 0, seq![])
}

/// The views of a list of character vectors.
pub open spec fn char_views(v: Seq<Vec<char>>) -> Seq<Seq<char>> {
    v.map_values(|t: Vec<char>| t@)
}

/// The view of an optional character vector.
pub open spec fn opt_view(o: Option<Vec<char>>) -> Option<Seq<char>> {
    match o {
        Some(v) => Some(v@),
        None => None,
    }
}

/// The whitespace-separated tokens of `s` (`str::split_whitespace`).
pub fn split_tokens(s: &[char]) -> (r: Vec<Vec<char>>)
    ensures
        char_views(r@) == tokens(s@),
{
    let mut r: Vec<Vec<char>> = Vec::new();
    let mut cur: Vec<char> = Vec::new();
    let mut i: usize = 0;
    proof {
        assert(char_views(r@) =~= seq![]);
        assert(tokens(s@) =~= char_views(r@) + tokens_from(s@, 0, cur@));
    }
    while i < s.len()
        invariant
            i <= s.len(),
            tokens(s@) == char_views(r@) + tokens_from(s@, i as int, cur@),
        decreases s.len() - i,
    {
        let ghost rest = tokens_from(s@, i as int, cur@);
        if whitespace(s[i]) {
            if cur.len() > 0 {
                proof {
                    assert(rest == seq![cur@] + tokens_from(s@, i as int + 1, seq![]));
                }
                let ghost before = char_views(r@);
                let ghost c = cur@;
                r.push(cur);
                cur = Vec::new();
                proof {
                    assert(char_views(r@) =~= before.push(c));
                    assert(before + (seq![c] + tokens_from(s@, i as int + 1, seq![])) =~= before.push(
                        c,
                    ) + tokens_from(s@, i as int + 1, seq![]));
                    assert(cur@ =~= seq![]);
                }
            } else {
                proof {
                    assert(cur@ =~= seq![]);
                    assert(rest == tokens_from(s@, i as int + 1, seq![]));
                }
            }
        } else {
            proof {
                assert(rest == tokens_from(s@, i as int + 1, cur@.push(s@[i as int])));
            }
            cur.push(s[i]);
        }
        i += 1;
    }
    if cur.len() > 0 {
        let ghost before = char_views(r@);
        let ghost c = cur@;
        r.push(cur);
        proof {
            assert(char_views(r@) =~= before.push(c));
            assert(before + seq![c] =~= before.push(c));
        }
    } else {
        proof {
            assert(char_views(r@) + seq![] =~= char_views(r@));
        }
    }
    r
}

/// A line without the carriage return that ended it.
pub open spec fn strip_cr(line: Seq<char>) -> Seq<char> {
    if line.len() > 0 && line.last() == '\r' {
        line.drop_last()
    } else {
        line
    }
}

/// The lines of `s[i..]` appended to `acc`, given the line under way
/// (`str::lines`: a line ends at `\n`, a `\r` just before it is dropped, and
/// the text after the last `\n` is a line when it is not empty).
pub open spec fn lines_from(s: Seq<char>, i: int, cur: Seq<char>, acc: Seq<Seq<char>>) -> Seq<
    Seq<char>,
>
    decreases s.len() - i,
{
    if i < 0 || i >= s.len() {
        if cur.len() > 0 {
            acc.push(cur)
        } else {
            acc
        }
    } else if s[i] == '\n' {
        lines_from(s, i + 1, seq![], acc.push(strip_cr(cur)))
    } else {
        lines_from(s, i + 1, cur.push(s[i]), acc)
    }
}

/// The lines of a text.
pub open spec fn text_lines(s: Seq<char>) -> Seq<Seq<char>> {
    lines_from(s, 0, seq![], seq![])
}

pub fn split_lines(s: &[char]) -> (r: Vec<Vec<char>>)
    ensures
        char_views(r@) == text_lines(s@),
{
    let mut r: Vec<Vec<char>> = Vec::new();
    let mut cur: Vec<char> = Vec::new();
    let mut i: usize = 0;
    proof {
        assert(char_views(r@) =~= seq![]);
        assert(cur@ =~= seq![]);
    }
    while i < s.len()
        invariant
            i <= s.len(),
            text_lines(s@) == lines_from(s@, i as int, cur@, char_views(r@)),
        decreases s.len() - i,
    {
        if s[i] == '\n' {
            let ghost before = char_views(r@);
            let ghost c = cur@;
            if cur.len() > 0 && cur[cur.len() - 1] == '\r' {
                cur.pop();
            }
            proof {
                assert(cur@ == strip_cr(c));
            }
            r.push(cur);
            cur = Vec::new();
            proof {
                assert(char_views(r@) =~= before.push(strip_cr(c)));
                assert(cur@ =~= seq![]);
            }
        } else {
            cur.push(s[i]);
        }
        i += 1;
    }
    if cur.len() > 0 {
        let ghost before = char_views(r@);
        let ghost c = cur@;
        r.push(cur);
        proof {
            assert(char_views(r@) =~= before.push(c));
        }
    }
    r
}

/// The text of an optional string.
pub open spec fn opt_text(o: Option<String>) -> Option<Seq<char>> {
    match o {
        Some(v) => Some(v@),
        None => None,
    }
}

pub proof fn lemma_lines_len(s: Seq<char>, i: int, cur: Seq<char>, acc: Seq<Seq<char>>)
    requires
        0 <= i <= s.len(),
        cur.len() <= i,
        forall|j: int| 0 <= j < acc.len() ==> (#[trigger] acc[j]).len() <= s.len(),
    ensures
        forall|j: int|
            0 <= j < lines_from(s, i, cur, acc).len() ==> (#[trigger] lines_from(
                s,
                i,
                cur,
                acc,
            )[j]).len() <= s.len(),
    decreases s.len() - i,
{
    if i < s.len() {
        if s[i] == '\n' {
            let a2 = acc.push(strip_cr(cur));
            assert forall|j: int| 0 <= j < a2.len() implies (#[trigger] a2[j]).len() <= s.len() by {
                if j < acc.len() {
                    assert(a2[j] == acc[j]);
                }
            }
            lemma_lines_len(s, i + 1, seq![], a2);
            assert(lines_from(s, i, cur, acc) == lines_from(s, i + 1, seq![], a2));
        } else {
            lemma_lines_len(s, i + 1, cur.push(s[i]), acc);
            assert(lines_from(s, i, cur, acc) == lines_from(s, i + 1, cur.push(s[i]), acc));
        }
    } else {
        let r = lines_from(s, i, cur, acc);
        assert forall|j: int| 0 <= j < r.len() implies (#[trigger] r[j]).len() <= s.len() by {
            if j < acc.len() {
                assert(r[j] == acc[j]);
            }
        }
    }
}

// ---------------------------------------------------------------------------
// Numbers
// ---------------------------------------------------------------------------

/// The value of a string of decimal digits.
pub open spec fn digits_value(s: Seq<char>) -> nat
    decreases s.len(),
{
    if s.len() == 0 {
        0
    } else {
        digits_value(s.drop_last()) * 10 + ((s.last() as int - '0' as int) as nat)
    }
}

/// Whether every character is an ASCII digit.
pub open spec fn all_digits(s: Seq<char>) -> bool {
    forall|i: int| 0 <= i < s.len() ==> is_ascii_digit(#[trigger] s[i])
}

pub proof fn lemma_digits_value_prefix(s: Seq<char>, k: int)
    requires
        0 <= k <= s.len(),
        all_digits(s),
    ensures
        digits_value(s.take(k)) <= digits_value(s),
    decreases s.len() - k,
{
    if k < s.len() {
        lemma_digits_value_prefix(s, k + 1);
        assert(s.take(k + 1).drop_last() == s.take(k));
        assert(is_ascii_digit(s[k]));
    } else {
        assert(s.take(k) == s);
    }
}

/// Parses a run of decimal digits that is at most `bound`; `None` when it is
/// empty or exceeds `bound` (`str::parse` for an unsigned type whose largest
/// value is `bound`).
pub fn parse_digits_up_to(s: &[char], bound: u64) -> (r: Option<u64>)
    requires
        all_digits(s@),
    ensures
        r matches Some(v) ==> s@.len() > 0 && v == digits_value(s@) && v <= bound,
        r is None ==> s@.len() == 0 || digits_value(s@) > bound,
{
    if s.len() == 0 {
        return None;
    }
    let mut acc: u64 = 0;
    let mut i: usize = 0;
    while i < s.len()
        invariant
            i <= s.len(),
            all_digits(s@),
            acc == digits_value(s@.take(i as int)),
            acc <= bound,
        decreases s.len() - i,
    {
        proof {
            assert(s@.take(i as int + 1).drop_last() == s@.take(i as int));
            assert(is_ascii_digit(s@[i as int]));
        }
        let d = (s[i] as u32 - '0' as u32) as u64;
        let next = match acc.checked_mul(10) {
            Some(m) => m.checked_add(d),
            None => None,
        };
        match next {
            Some(n) => {
                if n > bound {
                    proof {
                        lemma_digits_value_prefix(s@, i as int + 1);
                    }
                    return None;
                }
                acc = n;
            },
            None => {
                proof {
                    lemma_digits_value_prefix(s@, i as int + 1);
                }
                return None;
            },
        }
        i += 1;
    }
    proof {
        assert(s@.take(s.len() as int) == s@);
    }
    Some(acc)
}

/// Whether every character of `s` is an ASCII digit.
pub fn is_all_digits(s: &[char]) -> (r: bool)
    ensures
        r == all_digits(s@),
{
    let mut i: usize = 0;
    while i < s.len()
        invariant
            i <= s.len(),
            forall|j: int| 0 <= j < i ==> is_ascii_digit(#[trigger] s@[j]),
        decreases s.len() - i,
    {
        if !ascii_digit(s[i]) {
            return false;
        }
        i += 1;
    }
    true
}

// ---------------------------------------------------------------------------
// Fields
// ---------------------------------------------------------------------------

/// The pieces of `s` between occurrences of `sep` (`str::split` on one
/// character): always at least one piece, empty pieces kept.
pub open spec fn split_fields(s: Seq<char>, sep: char) -> Seq<Seq<char>>
    decreases s.len(),
{
    if s.len() == 0 {
        seq![Seq::<char>::empty()]
    } else {
        let rest = split_fields(s.drop_last(), sep);
        if s.last() == sep {
            rest.push(Seq::<char>::empty())
        } else {
            rest.update(rest.len() - 1, rest.last().push(s.last()))
        }
    }
}

pub fn split_on(s: &[char], sep: char) -> (r: Vec<Vec<char>>)
    ensures
        char_views(r@) == split_fields(s@, sep),
{
    let mut r: Vec<Vec<char>> = Vec::new();
    r.push(Vec::new());
    proof {
        assert(s@.take(0) =~= Seq::<char>::empty());
        assert(char_views(r@) =~= split_fields(s@.take(0), sep));
    }
    let mut i: usize = 0;
    while i < s.len()
        invariant
            i <= s.len(),
            r@.len() >= 1,
            char_views(r@) == split_fields(s@.take(i as int), sep),
        decreases s.len() - i,
    {
        let ghost before = char_views(r@);
        proof {
            assert(s@.take(i as int + 1).drop_last() =~= s@.take(i as int));
            assert(s@.take(i as int + 1).last() == s@[i as int]);
        }
        if s[i] == sep {
            r.push(Vec::new());
            proof {
                assert(char_views(r@) =~= before.push(Seq::<char>::empty()));
            }
        } else {
            let mut piece = r.pop().unwrap();
            piece.push(s[i]);
            r.push(piece);
            proof {
                assert(char_views(r@) =~= before.update(before.len() - 1, before.last().push(s@[i as int])));
            }
        }
        i += 1;
    }
    proof {
        assert(s@.take(s.len() as int) =~= s@);
    }
    r
}

/// The decimal digits of a natural number, without leading zeros.
pub open spec fn decimal(n: nat) -> Seq<char>
    decreases n,
{
    if n < 10 {
        seq![((n + '0' as int) as char)]
    } else {
        decimal(n / 10).push((((n % 10) + '0' as int) as char))
    }
}

/// A number below 1000 takes at most three digits.
pub proof fn lemma_decimal_len_below_1000(n: nat)
    requires
        n < 1000,
    ensures
        decimal(n).len() <= 3,
        decimal(n).len() >= 1,
    decreases n,
{
    if n >= 10 {
        lemma_decimal_len_below_1000(n / 10);
        if n / 10 >= 10 {
            lemma_decimal_len_below_1000(n / 100);
        }
    }
}

pub fn decimal_chars(n: u64) -> (r: Vec<char>)
    ensures
        r@ == decimal(n as nat),
    decreases n,
{
    if n < 10 {
        let mut r: Vec<char> = Vec::new();
        r.push(((n as u8) + 48u8) as char);
        proof {
            assert(r@ =~= decimal(n as nat));
        }
        r
    } else {
        let mut r = decimal_chars(n / 10);
        r.push((((n % 10) as u8) + 48u8) as char);
        r
    }
}

} // verus!
