//! Start-with-Windows: the command registered to start the app, and reading it back.
use crate::text::{
    chars_of, extend_chars, find_char_from, slice_vec, split_tokens, string_of, tokens, trim,
    trim_ws,
};
use vstd::prelude::*;

verus! {

broadcast use vstd::string::group_string_axioms;

/// The program path a registered command starts: the quoted path when the
/// command starts with a quote (none when the quote is not closed), else its
/// first whitespace-separated token; none for a blank command.
pub open spec fn first_command_token_spec(command: Seq<char>) -> Option<Seq<char>> {
    let t = trim(command);
    if t.len() == 0 {
        None
    } else if t[0] == '"' {
        match find_char_from(t, '"', 1) {
            Some(e) => Some(t.subrange(1, e)),
            None => None,
        }
    } else if tokens(t).len() > 0 {
        Some(tokens(t)[0])
    } else {
        None
    }
}

fn find_quote_from(s: &[char], from: usize) -> (r: Option<usize>)
    requires
        from <= s@.len(),
    ensures
        r matches Some(e) ==> find_char_from(s@, '"', from as int) == Some(e as int) && from <= e
            < s@.len(),
        r is None ==> find_char_from(s@, '"', from as int) is None,
{
    let mut k = from;
    while k < s.len()
        invariant
            from <= k <= s@.len(),
            find_char_from(s@, '"', from as int) == find_char_from(s@, '"', k as int),
        decreases s.len() - k,
    {
        if s[k] == '"' {
            return Some(k);
        }
        k += 1;
    }
    None
}

pub fn first_command_token(command: &str) -> (r: Option<String>)
    ensures
        match (r, first_command_token_spec(command@)) {
            (Some(a), Some(b)) => a@ == b,
            (None, None) => true,
            _ => false,
        },
{
    let t = trim_ws(&chars_of(command));
    if t.len() == 0 {
        return None;
    }
    if t[0] == '"' {
        return match find_quote_from(&t, 1) {
            Some(e) => Some(string_of(&slice_vec(&t, 1, e))),
            None => None,
        };
    }
    let toks = split_tokens(&t);
    if toks.len() > 0 {
        proof {
            assert(toks@[0]@ == tokens(t@)[0]);
        }
        Some(string_of(&toks[0]))
    } else {
        None
    }
}

/// The command registered to start the app: its path in quotes.
pub fn startup_command(exe_path: &str) -> (r: String)
    ensures
        r@ == seq!['"'] + exe_path@ + seq!['"'],
{
    let mut text: Vec<char> = Vec::new();
    text.push('"');
    extend_chars(&mut text, &chars_of(exe_path));
    text.push('"');
    proof {
        assert(text@ =~= seq!['"'] + exe_path@ + seq!['"']);
    }
    string_of(&text)
}

} // verus!
