//! Redaction of diagnostics: secrets, account identifiers, Windows user names
//! and e-mail addresses are replaced before a line is shown or kept.
use crate::text::{
    chars_of, extend_chars, find_char, find_char_from, find_chars, find_chars_from, find_from,
    has_char, is_ascii_alphanumeric, is_whitespace, lemma_find_from_bounds,
    lemma_skip_while_bounds, replace_char, replacing_char, skip_while_from, slice_vec,
    split_tokens, starts_with, starts_with_chars, string_of, tokens, tokens_from, whitespace, ws,
};
use crate::text::{ascii_alphanumeric, char_views, find};
use vstd::prelude::*;

verus! {

broadcast use vstd::string::group_string_axioms;

/// What a redacted value is replaced by.
pub open spec fn redacted_text() -> Seq<char> {
    "<redacted>"@
}

/// Characters that are not whitespace.
pub open spec fn non_ws() -> spec_fn(char) -> bool {
    |c: char| !is_whitespace(c)
}

/// Characters that may continue an inline `sk-` secret.
pub open spec fn secret_char() -> spec_fn(char) -> bool {
    |c: char| is_ascii_alphanumeric(c) || c == '-' || c == '_'
}

// ---------------------------------------------------------------------------
// `KEY=value` assignments
// ---------------------------------------------------------------------------

/// `s[i..]` with the value after each `marker` (up to the next whitespace)
/// replaced by `<redacted>`.
pub open spec fn redact_env_from(s: Seq<char>, marker: Seq<char>, i: int) -> Seq<char>
    decreases s.len() - i,
{
    if marker.len() == 0 || i < 0 || i > s.len() {
        s.skip(i)
    } else {
        match find_from(s, marker, i) {
            None => s.skip(i),
            Some(j) => {
                proof {
                    lemma_find_from_bounds(s, marker, i);
                    if j + marker.len() <= s.len() {
                        lemma_skip_while_bounds(s, non_ws(), j + marker.len());
                    }
                }
                let end = skip_while_from(s, non_ws(), j + marker.len());
                if end <= i || end > s.len() {
                    s.skip(i)
                } else {
                    s.subrange(i, j) + marker + redacted_text() + redact_env_from(s, marker, end)
                }
            },
        }
    }
}

fn skip_non_ws(s: &[char], from: usize) -> (r: usize)
    requires
        from <= s@.len(),
    ensures
        r == skip_while_from(s@, non_ws(), from as int),
        from <= r <= s@.len(),
{
    let mut k = from;
    while k < s.len() && !whitespace(s[k])
        invariant
            from <= k <= s@.len(),
            skip_while_from(s@, non_ws(), from as int) == skip_while_from(s@, non_ws(), k as int),
        decreases s.len() - k,
    {
        k += 1;
    }
    k
}

fn redact_env_value(s: &[char], marker: &[char]) -> (r: Vec<char>)
    requires
        marker@.len() > 0,
    ensures
        r@ == redact_env_from(s@, marker@, 0),
{
    let mut out: Vec<char> = Vec::new();
    let mut i: usize = 0;
    let mark = chars_of("<redacted>");
    loop
        invariant
            i <= s@.len(),
            marker@.len() > 0,
            mark@ == redacted_text(),
            out@ + redact_env_from(s@, marker@, i as int) == redact_env_from(s@, marker@, 0),
        decreases s@.len() - i,
    {
        assert(s@.len() == s.len());
        match find_chars_from(s, marker, i) {
            None => {
                let tail = slice_vec(s, i, s.len());
                proof {
                    assert(tail@ =~= s@.skip(i as int));
                }
                extend_chars(&mut out, &tail);
                return out;
            },
            Some(j) => {
                let end = skip_non_ws(s, j + marker.len());
                let ghost before = out@;
                extend_chars(&mut out, &slice_vec(s, i, j));
                extend_chars(&mut out, marker);
                extend_chars(&mut out, &mark);
                proof {
                    assert(before + redact_env_from(s@, marker@, i as int) == before + (s@.subrange(
                        i as int,
                        j as int,
                    ) + marker@ + redacted_text() + redact_env_from(s@, marker@, end as int)));
                    assert(out@ + redact_env_from(s@, marker@, end as int) =~= before + (s@.subrange(
                        i as int,
                        j as int,
                    ) + marker@ + redacted_text() + redact_env_from(s@, marker@, end as int)));
                }
                i = end;
            },
        }
    }
}

// ---------------------------------------------------------------------------
// `"key": "value"` JSON members
// ---------------------------------------------------------------------------

/// Where the string value of a JSON member starts, given the index just after
/// its key: the index of the opening quote, when a colon and a quote follow
/// (each after optional whitespace).
pub open spec fn json_value_start(s: Seq<char>, after: int) -> Option<int> {
    let c1 = skip_while_from(s, ws(), after);
    if c1 < 0 || c1 >= s.len() || s[c1] != ':' {
        None
    } else {
        let c2 = skip_while_from(s, ws(), c1 + 1);
        if c2 < 0 || c2 >= s.len() || s[c2] != '"' {
            None
        } else {
            Some(c2)
        }
    }
}

/// `s[i..]` with the string value of each member whose key is `marker` (a
/// quoted key) replaced by `<redacted>`.
pub open spec fn redact_json_from(s: Seq<char>, marker: Seq<char>, i: int) -> Seq<char>
    decreases s.len() - i,
{
    if marker.len() == 0 || i < 0 || i > s.len() {
        s.skip(i)
    } else {
        match find_from(s, marker, i) {
            None => s.skip(i),
            Some(j) => {
                proof {
                    lemma_find_from_bounds(s, marker, i);
                }
                let after = j + marker.len();
                if after <= i || after > s.len() {
                    s.skip(i)
                } else {
                    match json_value_start(s, after) {
                        None => s.subrange(i, j) + marker + redact_json_from(s, marker, after),
                        Some(q) => {
                            let end = match find_char_from(s, '"', q + 1) {
                                Some(e) => e,
                                None => s.len() as int,
                            };
                            if end <= i || end > s.len() || q < after {
                                s.skip(i)
                            } else {
                                s.subrange(i, j) + marker + s.subrange(after, q) + seq!['"']
                                    + redacted_text() + redact_json_from(s, marker, end)
                            }
                        },
                    }
                }
            },
        }
    }
}

fn skip_ws(s: &[char], from: usize) -> (r: usize)
    requires
        from <= s@.len(),
    ensures
        r == skip_while_from(s@, ws(), from as int),
        from <= r <= s@.len(),
{
    let mut k = from;
    while k < s.len() && whitespace(s[k])
        invariant
            from <= k <= s@.len(),
            skip_while_from(s@, ws(), from as int) == skip_while_from(s@, ws(), k as int),
        decreases s.len() - k,
    {
        k += 1;
    }
    k
}

fn find_json_string_value_start(s: &[char], after: usize) -> (r: Option<usize>)
    requires
        after <= s@.len(),
    ensures
        r matches Some(q) ==> json_value_start(s@, after as int) == Some(q as int) && after <= q
            < s@.len(),
        r is None ==> json_value_start(s@, after as int) is None,
{
    let c1 = skip_ws(s, after);
    if c1 >= s.len() || s[c1] != ':' {
        return None;
    }
    let c2 = skip_ws(s, c1 + 1);
    if c2 >= s.len() || s[c2] != '"' {
        return None;
    }
    Some(c2)
}

fn find_char_after(s: &[char], c: char, from: usize) -> (r: usize)
    requires
        from <= s@.len(),
    ensures
        from <= r <= s@.len(),
        r == (match find_char_from(s@, c, from as int) {
            Some(e) => e,
            None => s@.len() as int,
        }),
{
    let mut k = from;
    while k < s.len() && s[k] != c
        invariant
            from <= k <= s@.len(),
            find_char_from(s@, c, from as int) == find_char_from(s@, c, k as int),
        decreases s.len() - k,
    {
        k += 1;
    }
    k
}

fn redact_json_string_value(s: &[char], marker: &[char]) -> (r: Vec<char>)
    requires
        marker@.len() > 0,
    ensures
        r@ == redact_json_from(s@, marker@, 0),
{
    let mut out: Vec<char> = Vec::new();
    let mut i: usize = 0;
    let mark = chars_of("<redacted>");
    loop
        invariant
            i <= s@.len(),
            marker@.len() > 0,
            mark@ == redacted_text(),
            out@ + redact_json_from(s@, marker@, i as int) == redact_json_from(s@, marker@, 0),
        decreases s@.len() - i,
    {
        assert(s@.len() == s.len());
        match find_chars_from(s, marker, i) {
            None => {
                let tail = slice_vec(s, i, s.len());
                proof {
                    assert(tail@ =~= s@.skip(i as int));
                }
                extend_chars(&mut out, &tail);
                return out;
            },
            Some(j) => {
                let after = j + marker.len();
                let ghost before = out@;
                match find_json_string_value_start(s, after) {
                    None => {
                        extend_chars(&mut out, &slice_vec(s, i, j));
                        extend_chars(&mut out, marker);
                        proof {
                            assert(out@ + redact_json_from(s@, marker@, after as int) =~= before + (
                            s@.subrange(i as int, j as int) + marker@ + redact_json_from(
                                s@,
                                marker@,
                                after as int,
                            )));
                        }
                        i = after;
                    },
                    Some(q) => {
                        let end = find_char_after(s, '"', q + 1);
                        extend_chars(&mut out, &slice_vec(s, i, j));
                        extend_chars(&mut out, marker);
                        extend_chars(&mut out, &slice_vec(s, after, q));
                        out.push('"');
                        extend_chars(&mut out, &mark);
                        proof {
                            assert(out@ + redact_json_from(s@, marker@, end as int) =~= before + (
                            s@.subrange(i as int, j as int) + marker@ + s@.subrange(
                                after as int,
                                q as int,
                            ) + seq!['"'] + redacted_text() + redact_json_from(
                                s@,
                                marker@,
                                end as int,
                            )));
                        }
                        i = end;
                    },
                }
            },
        }
    }
}

/// The keys whose values are redacted, in the order they are handled.
pub open spec fn secret_keys() -> Seq<Seq<char>> {
    seq!["OPENAI_API_KEY"@, "api_key"@, "token"@, "account_id"@]
}

/// The quoted form of a key, as it appears in JSON.
pub open spec fn quoted(key: Seq<char>) -> Seq<char> {
    seq!['"'] + key + seq!['"']
}

/// The assignment form of a key, as it appears in an environment listing.
pub open spec fn assigned(key: Seq<char>) -> Seq<char> {
    key + seq!['=']
}

/// `s` with the values of the first `k` secret keys redacted, each first in
/// its JSON form and then in its assignment form.
pub open spec fn redact_assignments(s: Seq<char>, k: int) -> Seq<char>
    decreases k,
{
    if k <= 0 {
        s
    } else {
        let prev = redact_assignments(s, k - 1);
        let key = secret_keys()[k - 1];
        redact_env_from(redact_json_from(prev, quoted(key), 0), assigned(key), 0)
    }
}

fn redact_assignment_values(s: &[char]) -> (r: Vec<char>)
    ensures
        r@ == redact_assignments(s@, 4),
{
    let keys: [&str; 4] = ["OPENAI_API_KEY", "api_key", "token", "account_id"];
    let mut r = slice_vec(s, 0, s.len());
    proof {
        assert(r@ =~= s@);
    }
    let mut k: usize = 0;
    while k < 4
        invariant
            k <= 4,
            keys@.map_values(|x: &str| x@) == secret_keys(),
            r@ == redact_assignments(s@, k as int),
        decreases 4 - k,
    {
        let key = chars_of(keys[k]);
        proof {
            assert(keys@.map_values(|x: &str| x@)[k as int] == key@);
        }
        let mut json_marker: Vec<char> = Vec::new();
        json_marker.push('"');
        extend_chars(&mut json_marker, &key);
        json_marker.push('"');
        let mut env_marker = slice_vec(&key, 0, key.len());
        env_marker.push('=');
        proof {
            assert(json_marker@ =~= quoted(key@));
            assert(env_marker@ =~= assigned(key@));
        }
        let json = redact_json_string_value(&r, &json_marker);
        r = redact_env_value(&json, &env_marker);
        k += 1;
    }
    r
}

// ---------------------------------------------------------------------------
// Inline `sk-` secrets
// ---------------------------------------------------------------------------

/// `s[i..]` with each `sk-` secret (its run of letters, digits, `-` and `_`)
/// replaced by `sk-<redacted>`.
pub open spec fn redact_inline_from(s: Seq<char>, i: int) -> Seq<char>
    decreases s.len() - i,
{
    if i < 0 || i > s.len() {
        s.skip(i)
    } else {
        match find_from(s, "sk-"@, i) {
            None => s.skip(i),
            Some(st) => {
                proof {
                    lemma_find_from_bounds(s, "sk-"@, i);
                    if st + 1 <= s.len() {
                        lemma_skip_while_bounds(s, secret_char(), st + 1);
                    }
                }
                let end = skip_while_from(s, secret_char(), st + 1);
                if end <= i || end > s.len() || st < i {
                    s.skip(i)
                } else {
                    s.subrange(i, st) + "sk-<redacted>"@ + redact_inline_from(s, end)
                }
            },
        }
    }
}

fn skip_secret(s: &[char], from: usize) -> (r: usize)
    requires
        from <= s@.len(),
    ensures
        r == skip_while_from(s@, secret_char(), from as int),
        from <= r <= s@.len(),
{
    let mut k = from;
    while k < s.len() && (ascii_alphanumeric(s[k]) || s[k] == '-' || s[k] == '_')
        invariant
            from <= k <= s@.len(),
            skip_while_from(s@, secret_char(), from as int) == skip_while_from(
                s@,
                secret_char(),
                k as int,
            ),
        decreases s.len() - k,
    {
        k += 1;
    }
    k
}

fn redact_inline_secrets(s: &[char]) -> (r: Vec<char>)
    ensures
        r@ == redact_inline_from(s@, 0),
{
    let mut out: Vec<char> = Vec::new();
    let mut i: usize = 0;
    let prefix = chars_of("sk-");
    let replacement = chars_of("sk-<redacted>");
    loop
        invariant
            i <= s@.len(),
            prefix@ == "sk-"@,
            replacement@ == "sk-<redacted>"@,
            out@ + redact_inline_from(s@, i as int) == redact_inline_from(s@, 0),
        decreases s@.len() - i,
    {
        assert(s@.len() == s.len());
        match find_chars_from(s, &prefix, i) {
            None => {
                let tail = slice_vec(s, i, s.len());
                proof {
                    assert(tail@ =~= s@.skip(i as int));
                }
                extend_chars(&mut out, &tail);
                return out;
            },
            Some(st) => {
                proof {
                    reveal_strlit("sk-");
                }
                let end = skip_secret(s, st + 1);
                let ghost before = out@;
                extend_chars(&mut out, &slice_vec(s, i, st));
                extend_chars(&mut out, &replacement);
                proof {
                    assert(out@ + redact_inline_from(s@, end as int) =~= before + (s@.subrange(
                        i as int,
                        st as int,
                    ) + "sk-<redacted>"@ + redact_inline_from(s@, end as int)));
                }
                i = end;
            },
        }
    }
}

// ---------------------------------------------------------------------------
// Tokens
// ---------------------------------------------------------------------------

pub open spec fn users_marker() -> Seq<char> {
    "C:\\Users\\"@
}

/// A token with the user name of a Windows profile path replaced by `<user>`
/// (slashes read as backslashes).
pub open spec fn redact_windows_user_path(token: Seq<char>) -> Seq<char> {
    let n = replace_char(token, '/', '\\');
    match find(n, users_marker()) {
        None => token,
        Some(st) => {
            let rest = n.skip(st + users_marker().len());
            match find_char_from(rest, '\\', 0) {
                None => n.take(st) + "C:\\Users\\<user>"@,
                Some(e) => n.take(st) + "C:\\Users\\<user>"@ + rest.skip(e),
            }
        },
    }
}

/// A token that starts as an API secret, replaced.
pub open spec fn redact_secret_like_token(token: Seq<char>) -> Seq<char> {
    if starts_with(token, "sk-"@) || starts_with(token, "sk_"@) {
        "sk-<redacted>"@
    } else {
        token
    }
}

/// A token that looks like an e-mail address, replaced.
pub open spec fn redact_email(token: Seq<char>) -> Seq<char> {
    if token.contains('@') && token.contains('.') {
        "<email>"@
    } else {
        token
    }
}

pub open spec fn redact_token(token: Seq<char>) -> Seq<char> {
    redact_email(redact_secret_like_token(redact_windows_user_path(token)))
}

fn windows_user_path(token: &[char]) -> (r: Vec<char>)
    ensures
        r@ == redact_windows_user_path(token@),
{
    let n = replacing_char(token, '/', '\\');
    let marker = chars_of("C:\\Users\\");
    proof {
        lemma_find_from_bounds(n@, marker@, 0);
    }
    match find_chars(&n, &marker) {
        None => slice_vec(token, 0, token.len()),
        Some(st) => {
            assert(find(n@, marker@) == Some(st as int));
            assert(n@.len() == n.len());
            let rest = slice_vec(&n, st + marker.len(), n.len());
            let mut out = slice_vec(&n, 0, st);
            extend_chars(&mut out, &chars_of("C:\\Users\\<user>"));
            proof {
                assert(rest@ =~= n@.skip(st + marker@.len()));
                assert(n@.subrange(0, st as int) =~= n@.take(st as int));
            }
            match find_char(&rest, '\\') {
                None => out,
                Some(e) => {
                    let tail = slice_vec(&rest, e, rest.len());
                    proof {
                        assert(tail@ =~= rest@.skip(e as int));
                    }
                    extend_chars(&mut out, &tail);
                    out
                },
            }
        },
    }
}

fn token_redacted(token: &[char]) -> (r: Vec<char>)
    ensures
        r@ == redact_token(token@),
{
    let path = windows_user_path(token);
    let secret = if starts_with_chars(&path, &chars_of("sk-")) || starts_with_chars(
        &path,
        &chars_of("sk_"),
    ) {
        chars_of("sk-<redacted>")
    } else {
        path
    };
    if has_char(&secret, '@') && has_char(&secret, '.') {
        chars_of("<email>")
    } else {
        secret
    }
}

/// Texts joined with single spaces.
pub open spec fn join_spaced(parts: Seq<Seq<char>>) -> Seq<char>
    decreases parts.len(),
{
    if parts.len() == 0 {
        seq![]
    } else if parts.len() == 1 {
        parts[0]
    } else {
        join_spaced(parts.drop_last()) + seq![' '] + parts.last()
    }
}

/// A diagnostic line made safe to show: secret assignments and JSON members,
/// inline `sk-` secrets, Windows user names and e-mail addresses are replaced,
/// and whitespace runs collapse to single spaces.
pub open spec fn redact_diagnostic_spec(input: Seq<char>) -> Seq<char> {
    join_spaced(tokens(redact_inline_from(redact_assignments(input, 4), 0)).map_values(
        |t: Seq<char>| redact_token(t),
    ))
}

pub fn redact_diagnostic(input: &str) -> (r: String)
    ensures
        r@ == redact_diagnostic_spec(input@),
{
    let chars = chars_of(input);
    let normalized = redact_inline_secrets(&redact_assignment_values(&chars));
    let toks = split_tokens(&normalized);
    let ghost parts = tokens(normalized@).map_values(|t: Seq<char>| redact_token(t));
    let mut out: Vec<char> = Vec::new();
    let mut k: usize = 0;
    proof {
        assert(out@ =~= join_spaced(parts.take(0)));
    }
    while k < toks.len()
        invariant
            k <= toks@.len(),
            char_views(toks@) == tokens(normalized@),
            parts == tokens(normalized@).map_values(|t: Seq<char>| redact_token(t)),
            out@ == join_spaced(parts.take(k as int)),
        decreases toks.len() - k,
    {
        let redacted = token_redacted(&toks[k]);
        proof {
            assert(toks@[k as int]@ == tokens(normalized@)[k as int]);
            assert(parts.take(k as int + 1).drop_last() =~= parts.take(k as int));
        }
        if k > 0 {
            out.push(' ');
        }
        extend_chars(&mut out, &redacted);
        proof {
            if k == 0 {
                assert(out@ =~= join_spaced(parts.take(1)));
            } else {
                assert(out@ =~= join_spaced(parts.take(k as int + 1)));
            }
        }
        k += 1;
    }
    proof {
        assert(parts.take(toks@.len() as int) =~= parts);
    }
    string_of(&out)
}


// ---------------------------------------------------------------------------
// Spacing of a redacted line
// ---------------------------------------------------------------------------

/// A text with no whitespace in it.
pub open spec fn whitespace_free(t: Seq<char>) -> bool {
    forall|i: int| 0 <= i < t.len() ==> !is_whitespace(#[trigger] t[i])
}

/// A line of words, each separated from the next by one space: no other
/// whitespace, no two spaces in a row, none at either end.
pub open spec fn single_spaced(r: Seq<char>) -> bool {
    &&& forall|i: int| 0 <= i < r.len() ==> #[trigger] r[i] == ' ' || !is_whitespace(r[i])
    &&& forall|i: int| 0 <= i < r.len() - 1 ==> !(#[trigger] r[i] == ' ' && r[i + 1] == ' ')
    &&& r.len() > 0 ==> r[0] != ' ' && r[r.len() - 1] != ' '
}

proof fn lemma_tokens_are_words(s: Seq<char>, i: int, cur: Seq<char>)
    requires
        whitespace_free(cur),
    ensures
        forall|k: int|
            0 <= k < tokens_from(s, i, cur).len() ==> #[trigger] tokens_from(s, i, cur)[k].len() > 0
                && whitespace_free(tokens_from(s, i, cur)[k]),
    decreases s.len() - i,
{
    let all = tokens_from(s, i, cur);
    if i < 0 || i >= s.len() {
        if cur.len() > 0 {
            assert(all == seq![cur]);
            assert forall|k: int| 0 <= k < all.len() implies #[trigger] all[k].len() > 0
                && whitespace_free(all[k]) by {
                assert(all[k] == cur);
            }
        } else {
            assert(all.len() == 0);
        }
    } else if is_whitespace(s[i]) {
        let rest = tokens_from(s, i + 1, seq![]);
        assert(whitespace_free(Seq::<char>::empty()));
        lemma_tokens_are_words(s, i + 1, seq![]);
        if cur.len() > 0 {
            assert(all == seq![cur] + rest);
            assert forall|k: int| 0 <= k < all.len() implies #[trigger] all[k].len() > 0
                && whitespace_free(all[k]) by {
                if k > 0 {
                    assert(all[k] == rest[k - 1]);
                } else {
                    assert(all[k] == cur);
                }
            }
        } else {
            assert(all == rest);
        }
    } else {
        assert(whitespace_free(cur.push(s[i]))) by {
            assert forall|j: int| 0 <= j < cur.push(s[i]).len() implies !is_whitespace(
                #[trigger] cur.push(s[i])[j],
            ) by {
                if j < cur.len() {
                    assert(cur.push(s[i])[j] == cur[j]);
                }
            }
        }
        lemma_tokens_are_words(s, i + 1, cur.push(s[i]));
        assert(all == tokens_from(s, i + 1, cur.push(s[i])));
    }
}

proof fn lemma_find_char_bounds(s: Seq<char>, c: char, i: int)
    ensures
        find_char_from(s, c, i) matches Some(e) ==> i <= e < s.len(),
    decreases s.len() - i,
{
    if i < 0 || i >= s.len() {
    } else if s[i] == c {
    } else {
        lemma_find_char_bounds(s, c, i + 1);
    }
}

proof fn lemma_slice_is_whitespace_free(t: Seq<char>, a: int, b: int)
    requires
        whitespace_free(t),
        0 <= a <= b <= t.len(),
    ensures
        whitespace_free(t.subrange(a, b)),
{
    assert forall|i: int| 0 <= i < t.subrange(a, b).len() implies !is_whitespace(
        #[trigger] t.subrange(a, b)[i],
    ) by {
        assert(t.subrange(a, b)[i] == t[a + i]);
    }
}

proof fn lemma_literal_is_word(t: Seq<char>)
    requires
        t == "C:\\Users\\<user>"@ || t == "sk-<redacted>"@ || t == "<email>"@,
    ensures
        t.len() > 0,
        whitespace_free(t),
{
    reveal_strlit("C:\\Users\\<user>");
    reveal_strlit("sk-<redacted>");
    reveal_strlit("<email>");
}

proof fn lemma_redacted_token_is_word(t: Seq<char>)
    requires
        t.len() > 0,
        whitespace_free(t),
    ensures
        redact_token(t).len() > 0,
        whitespace_free(redact_token(t)),
{
    lemma_literal_is_word("C:\\Users\\<user>"@);
    lemma_literal_is_word("sk-<redacted>"@);
    lemma_literal_is_word("<email>"@);
    let n = replace_char(t, '/', '\\');
    assert(whitespace_free(n));
    let p = redact_windows_user_path(t);
    assert(p.len() > 0 && whitespace_free(p)) by {
        lemma_find_from_bounds(n, users_marker(), 0);
        match find(n, users_marker()) {
            None => {},
            Some(st) => {
                let lit = "C:\\Users\\<user>"@;
                let from = st + users_marker().len();
                let rest = n.skip(from);
                lemma_slice_is_whitespace_free(n, 0, st);
                assert(n.take(st) == n.subrange(0, st));
                lemma_slice_is_whitespace_free(n, from, n.len() as int);
                assert(rest == n.subrange(from, n.len() as int));
                let front = n.take(st) + lit;
                assert(whitespace_free(front)) by {
                    assert forall|i: int| 0 <= i < front.len() implies !is_whitespace(#[trigger] front[i]) by {
                        if i < st {
                            assert(front[i] == n.take(st)[i]);
                        } else {
                            assert(front[i] == lit[i - st]);
                        }
                    }
                }
                lemma_find_char_bounds(rest, '\\', 0);
                match find_char_from(rest, '\\', 0) {
                    None => {},
                    Some(e) => {
                        lemma_slice_is_whitespace_free(rest, e, rest.len() as int);
                        assert(rest.skip(e) == rest.subrange(e, rest.len() as int));
                        let whole = front + rest.skip(e);
                        assert forall|i: int| 0 <= i < whole.len() implies !is_whitespace(#[trigger] whole[i]) by {
                            if i < front.len() {
                                assert(whole[i] == front[i]);
                            } else {
                                assert(whole[i] == rest.skip(e)[i - front.len()]);
                            }
                        }
                    },
                }
            },
        }
    }
}

proof fn lemma_join_single_spaced(parts: Seq<Seq<char>>)
    requires
        forall|k: int| 0 <= k < parts.len() ==> #[trigger] parts[k].len() > 0 && whitespace_free(parts[k]),
    ensures
        single_spaced(join_spaced(parts)),
        parts.len() > 0 ==> join_spaced(parts).len() > 0,
    decreases parts.len(),
{
    if parts.len() == 1 {
        assert(parts[0].len() > 0 && whitespace_free(parts[0]));
    } else if parts.len() > 1 {
        let head = join_spaced(parts.drop_last());
        let last = parts.last();
        assert(last.len() > 0 && whitespace_free(last)) by {
            assert(parts[parts.len() - 1] == last);
        }
        assert forall|k: int| 0 <= k < parts.drop_last().len() implies #[trigger] parts.drop_last()[k].len()
            > 0 && whitespace_free(parts.drop_last()[k]) by {
            assert(parts.drop_last()[k] == parts[k]);
        }
        lemma_join_single_spaced(parts.drop_last());
        let r = join_spaced(parts);
        assert(r == head + seq![' '] + last);
        let h = head.len();
        assert forall|i: int| 0 <= i < r.len() implies #[trigger] r[i] == ' ' || !is_whitespace(r[i]) by {
            if i < h {
                assert(r[i] == head[i]);
            } else if i > h {
                assert(r[i] == last[i - h - 1]);
            }
        }
        assert forall|i: int| 0 <= i < r.len() - 1 implies !(#[trigger] r[i] == ' ' && r[i + 1] == ' ') by {
            if i < h - 1 {
                assert(r[i] == head[i] && r[i + 1] == head[i + 1]);
            } else if i == h - 1 {
                assert(r[i] == head[h - 1]);
            } else if i == h {
                assert(r[i + 1] == last[0]);
                assert(!is_whitespace(last[0]));
            } else {
                assert(r[i + 1] == last[i - h]);
                assert(!is_whitespace(last[i - h]));
            }
        }
        assert(r[0] == head[0]);
        assert(r[r.len() - 1] == last[last.len() - 1]);
        assert(!is_whitespace(last[last.len() - 1]));
    }
}

/// Every redacted diagnostic line is single-spaced: its words are separated by
/// one space each, with no other whitespace and none at either end.
pub proof fn lemma_redacted_line_is_single_spaced(input: Seq<char>)
    ensures
        single_spaced(redact_diagnostic_spec(input)),
{
    let normalized = redact_inline_from(redact_assignments(input, 4), 0);
    let toks = tokens(normalized);
    assert(whitespace_free(Seq::<char>::empty()));
    lemma_tokens_are_words(normalized, 0, seq![]);
    let parts = toks.map_values(|t: Seq<char>| redact_token(t));
    assert forall|k: int| 0 <= k < parts.len() implies #[trigger] parts[k].len() > 0 && whitespace_free(
        parts[k],
    ) by {
        assert(toks[k].len() > 0 && whitespace_free(toks[k]));
        lemma_redacted_token_is_word(toks[k]);
    }
    lemma_join_single_spaced(parts);
}

/// A word that shows no secret: no e-mail address, no `sk_` key, and an `sk-`
/// key only as its mask.
pub open spec fn word_is_safe(w: Seq<char>) -> bool {
    &&& !(w.contains('@') && w.contains('.'))
    &&& !starts_with(w, "sk_"@)
    &&& starts_with(w, "sk-"@) ==> w == "sk-<redacted>"@
}

proof fn lemma_redacted_token_is_safe(t: Seq<char>)
    ensures
        word_is_safe(redact_token(t)),
{
    reveal_strlit("sk-<redacted>");
    reveal_strlit("<email>");
    reveal_strlit("sk_");
    reveal_strlit("sk-");
    let masked = "sk-<redacted>"@;
    let email = "<email>"@;
    assert(!masked.contains('@')) by {
        if masked.contains('@') {
            let i = choose|i: int| 0 <= i < masked.len() && masked[i] == '@';
        }
    }
    assert(!email.contains('.')) by {
        if email.contains('.') {
            let i = choose|i: int| 0 <= i < email.len() && email[i] == '.';
        }
    }
    assert(!starts_with(email, "sk_"@) && !starts_with(email, "sk-"@)) by {
        assert(email[0] != "sk_"@[0]);
        assert(email.take(3)[0] == email[0]);
    }
    assert(!starts_with(masked, "sk_"@)) by {
        assert(masked.take(3)[2] == masked[2]);
        assert(masked[2] != "sk_"@[2]);
    }
}

/// Every redacted diagnostic line is its words joined by single spaces, and no
/// word shows a secret: no e-mail address, no `sk_` key, and an `sk-` key only
/// as `sk-<redacted>`.
pub proof fn lemma_redacted_words_show_no_secret(input: Seq<char>)
    ensures
        exists|words: Seq<Seq<char>>|
            #![trigger join_spaced(words)]
            redact_diagnostic_spec(input) == join_spaced(words) && forall|k: int|
                0 <= k < words.len() ==> #[trigger] words[k].len() > 0 && whitespace_free(words[k])
                    && word_is_safe(words[k]),
{
    let normalized = redact_inline_from(redact_assignments(input, 4), 0);
    let toks = tokens(normalized);
    assert(whitespace_free(Seq::<char>::empty()));
    lemma_tokens_are_words(normalized, 0, seq![]);
    let parts = toks.map_values(|t: Seq<char>| redact_token(t));
    assert forall|k: int| 0 <= k < parts.len() implies #[trigger] parts[k].len() > 0 && whitespace_free(
        parts[k],
    ) && word_is_safe(parts[k]) by {
        assert(toks[k].len() > 0 && whitespace_free(toks[k]));
        lemma_redacted_token_is_word(toks[k]);
        lemma_redacted_token_is_safe(toks[k]);
    }
    assert(redact_diagnostic_spec(input) == join_spaced(parts));
}

} // verus!
