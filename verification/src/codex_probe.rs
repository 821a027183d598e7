//! The Codex CLI health probe: it runs `codex --version`, `codex login status`
//! and `codex doctor --json` through a command runner and sums up the result.
use crate::redaction::{redact_diagnostic, redact_diagnostic_spec};
use crate::status_parser::{unix_now_seconds, unix_timestamp_string, unix_timestamp_text};
use crate::text::{
    chars_of, contains_any, contains_any_of, decimal, decimal_chars, extend_chars, lit, lower,
    opt_text, string_of, to_lower, trim, trim_ws, views,
};
use std::time::Duration;
use vstd::prelude::*;

verus! {

broadcast use vstd::string::group_string_axioms;

/// What a finished command printed, trimmed, and its exit code.
#[derive(Debug)]
pub struct CommandOutput {
    stdout: String,
    stderr: String,
    status_code: Option<i32>,
}

/// The text and exit code of a command's output.
pub struct OutputView {
    pub stdout: Seq<char>,
    pub stderr: Seq<char>,
    pub status_code: Option<i32>,
}

impl View for CommandOutput {
    type V = OutputView;

    closed spec fn view(&self) -> OutputView {
        OutputView {
            stdout: self.stdout@,
            stderr: self.stderr@,
            status_code: self.status_code,
        }
    }
}

impl CommandOutput {
    pub fn new(stdout: String, stderr: String, status_code: Option<i32>) -> (r: CommandOutput)
        ensures
            r@ == (OutputView { stdout: stdout@, stderr: stderr@, status_code }),
    {
        CommandOutput { stdout, stderr, status_code }
    }

    pub fn stdout(&self) -> (r: &str)
        ensures
            r@ == self@.stdout,
    {
        self.stdout.as_str()
    }

    pub fn stderr(&self) -> (r: &str)
        ensures
            r@ == self@.stderr,
    {
        self.stderr.as_str()
    }

    pub fn status_code(&self) -> (r: Option<i32>)
        ensures
            r == self@.status_code,
    {
        self.status_code
    }
}

impl Clone for CommandOutput {
    fn clone(&self) -> (r: Self)
        ensures
            r@ == self@,
    {
        CommandOutput {
            stdout: self.stdout.clone(),
            stderr: self.stderr.clone(),
            status_code: self.status_code,
        }
    }
}

impl PartialEq for CommandOutput {
    fn eq(&self, other: &Self) -> (r: bool) {
        self.stdout == other.stdout && self.stderr == other.stderr && self.status_code
            == other.status_code
    }
}

impl vstd::std_specs::cmp::PartialEqSpecImpl for CommandOutput {
    open spec fn obeys_eq_spec() -> bool {
        true
    }

    open spec fn eq_spec(&self, other: &Self) -> bool {
        self@ == other@
    }
}

impl Eq for CommandOutput {
}

/// Why a command produced no output.
#[derive(Debug)]
pub enum CommandError {
    NotFound,
    TimedOut,
    Rejected,
    Failed(String),
}

impl Clone for CommandError {
    fn clone(&self) -> (r: Self)
        ensures
            r == *self,
    {
        match self {
            CommandError::NotFound => CommandError::NotFound,
            CommandError::TimedOut => CommandError::TimedOut,
            CommandError::Rejected => CommandError::Rejected,
            CommandError::Failed(message) => CommandError::Failed(message.clone()),
        }
    }
}

impl PartialEq for CommandError {
    fn eq(&self, other: &Self) -> (r: bool) {
        match (self, other) {
            (CommandError::NotFound, CommandError::NotFound) => true,
            (CommandError::TimedOut, CommandError::TimedOut) => true,
            (CommandError::Rejected, CommandError::Rejected) => true,
            (CommandError::Failed(a), CommandError::Failed(b)) => *a == *b,
            _ => false,
        }
    }
}

impl vstd::std_specs::cmp::PartialEqSpecImpl for CommandError {
    open spec fn obeys_eq_spec() -> bool {
        true
    }

    open spec fn eq_spec(&self, other: &Self) -> bool {
        match (*self, *other) {
            (CommandError::NotFound, CommandError::NotFound) => true,
            (CommandError::TimedOut, CommandError::TimedOut) => true,
            (CommandError::Rejected, CommandError::Rejected) => true,
            (CommandError::Failed(a), CommandError::Failed(b)) => a@ == b@,
            _ => false,
        }
    }
}

impl Eq for CommandError {
}

/// Runs an allow-listed program with arguments and a time limit.
pub trait CommandRunner {
    /// Whether `result` is an answer this runner may give when `program` is run
    /// with `args`. A runner that describes nothing of its answers admits each.
    open spec fn answers(
        &self,
        program: Seq<char>,
        args: Seq<Seq<char>>,
        result: Result<OutputView, CommandErrorView>,
    ) -> bool {
        true
    }

    fn run(&self, program: &str, args: &[&str], timeout: Duration) -> (r: Result<
        CommandOutput,
        CommandError,
    >)
        ensures
            self.answers(program@, arg_views(args@), result_view(r)),
    ;
}

/// The commands the probe may run.
pub open spec fn allowed_commands() -> Seq<Seq<Seq<char>>> {
    seq![seq!["--version"@], seq!["login"@, "status"@], seq!["doctor"@, "--json"@]]
}

/// The texts of a list of arguments.
pub open spec fn arg_views(args: Seq<&str>) -> Seq<Seq<char>> {
    args.map_values(|a: &str| a@)
}

pub open spec fn is_allowlisted_spec(program: Seq<char>, args: Seq<Seq<char>>) -> bool {
    program == "codex"@ && allowed_commands().contains(args)
}

fn same_args(args: &[&str], expected: &[&str]) -> (r: bool)
    ensures
        r == (arg_views(args@) == arg_views(expected@)),
{
    if args.len() != expected.len() {
        proof {
            assert(arg_views(args@).len() != arg_views(expected@).len());
        }
        return false;
    }
    let mut i: usize = 0;
    while i < args.len()
        invariant
            i <= args@.len(),
            args@.len() == expected@.len(),
            forall|j: int| 0 <= j < i ==> args@[j]@ == expected@[j]@,
        decreases args.len() - i,
    {
        if !crate::text::same_chars(&chars_of(args[i]), &chars_of(expected[i])) {
            proof {
                assert(arg_views(args@)[i as int] != arg_views(expected@)[i as int]);
            }
            return false;
        }
        i += 1;
    }
    proof {
        assert(arg_views(args@) =~= arg_views(expected@));
    }
    true
}

/// Whether the probe may run `program` with `args`.
pub fn is_allowlisted(program: &str, args: &[&str]) -> (r: bool)
    ensures
        r == is_allowlisted_spec(program@, arg_views(args@)),
{
    let version: [&str; 1] = ["--version"];
    let login: [&str; 2] = ["login", "status"];
    let doctor: [&str; 2] = ["doctor", "--json"];
    proof {
        assert(arg_views(version@) =~= allowed_commands()[0]);
        assert(arg_views(login@) =~= allowed_commands()[1]);
        assert(arg_views(doctor@) =~= allowed_commands()[2]);
    }
    let is_codex = crate::text::same_chars(&chars_of(program), &chars_of("codex"));
    let a = same_args(args, &version);
    let b = same_args(args, &login);
    let c = same_args(args, &doctor);
    let r = is_codex && (a || b || c);
    proof {
        let x = arg_views(args@);
        if allowed_commands().contains(x) {
            let k = choose|k: int| 0 <= k < allowed_commands().len() && allowed_commands()[k] == x;
            assert(k == 0 || k == 1 || k == 2);
        }
        if a {
            assert(allowed_commands()[0] == x);
        }
        if b {
            assert(allowed_commands()[1] == x);
        }
        if c {
            assert(allowed_commands()[2] == x);
        }
    }
    r
}


/// The kind of a command error, with its message for a failure.
pub enum CommandErrorView {
    NotFound,
    TimedOut,
    Rejected,
    Failed(Seq<char>),
}

pub open spec fn error_view(e: CommandError) -> CommandErrorView {
    match e {
        CommandError::NotFound => CommandErrorView::NotFound,
        CommandError::TimedOut => CommandErrorView::TimedOut,
        CommandError::Rejected => CommandErrorView::Rejected,
        CommandError::Failed(m) => CommandErrorView::Failed(m@),
    }
}

/// A command result by its texts.
pub open spec fn result_view(r: Result<CommandOutput, CommandError>) -> Result<
    OutputView,
    CommandErrorView,
> {
    match r {
        Ok(o) => Ok(o@),
        Err(e) => Err(error_view(e)),
    }
}

pub open spec fn opt_result_view(r: Option<Result<CommandOutput, CommandError>>) -> Option<
    Result<OutputView, CommandErrorView>,
> {
    match r {
        Some(x) => Some(result_view(x)),
        None => None,
    }
}

// ---------------------------------------------------------------------------
// A scripted runner
// ---------------------------------------------------------------------------

/// The key under which a command's scripted response is kept: the program and
/// its arguments, separated by spaces.
pub open spec fn command_key_spec(program: Seq<char>, args: Seq<Seq<char>>) -> Seq<char> {
    program + seq![' '] + crate::redaction::join_spaced(args)
}

fn command_key(program: &str, args: &[&str]) -> (r: Vec<char>)
    ensures
        r@ == command_key_spec(program@, arg_views(args@)),
{
    let mut r = chars_of(program);
    r.push(' ');
    let ghost head = r@;
    let mut i: usize = 0;
    proof {
        assert(arg_views(args@).take(0) =~= seq![]);
        assert(r@ =~= head + crate::redaction::join_spaced(arg_views(args@).take(0)));
    }
    while i < args.len()
        invariant
            i <= args@.len(),
            head == program@ + seq![' '],
            r@ == head + crate::redaction::join_spaced(arg_views(args@).take(i as int)),
        decreases args.len() - i,
    {
        let ghost parts = arg_views(args@).take(i as int + 1);
        proof {
            assert(parts.drop_last() =~= arg_views(args@).take(i as int));
            assert(parts.last() == args@[i as int]@);
        }
        if i > 0 {
            r.push(' ');
        }
        extend_chars(&mut r, &chars_of(args[i]));
        proof {
            if i == 0 {
                assert(r@ =~= head + crate::redaction::join_spaced(parts));
            } else {
                assert(r@ =~= head + crate::redaction::join_spaced(parts));
            }
        }
        i += 1;
    }
    proof {
        assert(arg_views(args@).take(args@.len() as int) =~= arg_views(args@));
    }
    r
}

/// A runner that answers allow-listed commands from a script: the last
/// response given for a command wins, and unscripted commands are not found.
#[derive(Debug)]
pub struct MockCommandRunner {
    responses: Vec<(String, Result<CommandOutput, CommandError>)>,
}

/// The last scripted response among `entries[..k]` for `key`.
pub open spec fn scripted_from(
    entries: Seq<(String, Result<CommandOutput, CommandError>)>,
    key: Seq<char>,
    k: int,
) -> Option<Result<OutputView, CommandErrorView>>
    decreases k,
{
    if k <= 0 {
        None
    } else if entries[k - 1].0@ == key {
        Some(result_view(entries[k - 1].1))
    } else {
        scripted_from(entries, key, k - 1)
    }
}

impl MockCommandRunner {
    /// The scripted response for a command key.
    pub closed spec fn scripted(&self, key: Seq<char>) -> Option<Result<OutputView, CommandErrorView>> {
        scripted_from(self.responses@, key, self.responses@.len() as int)
    }

    pub fn new() -> (r: MockCommandRunner)
        ensures
            forall|key: Seq<char>| r.scripted(key) is None,
    {
        MockCommandRunner { responses: Vec::new() }
    }

    fn with_response(self, program: &str, args: &[&str], response: Result<CommandOutput, CommandError>) -> (r:
        MockCommandRunner)
        ensures
            forall|key: Seq<char>|
                #![trigger r.scripted(key)]
                r.scripted(key) == if key == command_key_spec(program@, arg_views(args@)) {
                    Some(result_view(response))
                } else {
                    self.scripted(key)
                },
    {
        let mut responses = self.responses;
        let ghost old_entries = responses@;
        let key = string_of(&command_key(program, args));
        responses.push((key, response));
        let r = MockCommandRunner { responses };
        proof {
            assert forall|k: Seq<char>| #![trigger r.scripted(k)] r.scripted(k) == if k
                == command_key_spec(program@, arg_views(args@)) {
                Some(result_view(response))
            } else {
                self.scripted(k)
            } by {
                assert(r.responses@.len() == old_entries.len() + 1);
                assert(r.responses@[old_entries.len() as int] == (key, response));
                assert forall|j: int| 0 <= j <= old_entries.len() implies scripted_from(
                    r.responses@,
                    k,
                    j,
                ) == scripted_from(old_entries, k, j) by {
                    lemma_scripted_prefix(r.responses@, old_entries, k, j);
                }
            }
        }
        r
    }

    /// Scripts a successful run (exit code 0).
    pub fn success(self, program: &str, args: &[&str], stdout: &str, stderr: &str) -> (r:
        MockCommandRunner)
        ensures
            forall|key: Seq<char>|
                #![trigger r.scripted(key)]
                r.scripted(key) == if key == command_key_spec(program@, arg_views(args@)) {
                    Some(
                        Ok(
                            OutputView { stdout: stdout@, stderr: stderr@, status_code: Some(0i32) },
                        ),
                    )
                } else {
                    self.scripted(key)
                },
    {
        let output = CommandOutput::new(lit(stdout), lit(stderr), Some(0));
        self.with_response(program, args, Ok(output))
    }

    /// Scripts a run that exits with `status_code`.
    pub fn failure(
        self,
        program: &str,
        args: &[&str],
        status_code: i32,
        stdout: &str,
        stderr: &str,
    ) -> (r: MockCommandRunner)
        ensures
            forall|key: Seq<char>|
                #![trigger r.scripted(key)]
                r.scripted(key) == if key == command_key_spec(program@, arg_views(args@)) {
                    Some(
                        Ok(
                            OutputView {
                                stdout: stdout@,
                                stderr: stderr@,
                                status_code: Some(status_code),
                            },
                        ),
                    )
                } else {
                    self.scripted(key)
                },
    {
        let output = CommandOutput::new(lit(stdout), lit(stderr), Some(status_code));
        self.with_response(program, args, Ok(output))
    }

    /// Scripts a command whose program is not found.
    pub fn not_found(self, program: &str, args: &[&str]) -> (r: MockCommandRunner)
        ensures
            forall|key: Seq<char>|
                #![trigger r.scripted(key)]
                r.scripted(key) == if key == command_key_spec(program@, arg_views(args@)) {
                    Some(Err::<OutputView, CommandErrorView>(CommandErrorView::NotFound))
                } else {
                    self.scripted(key)
                },
    {
        self.with_response(program, args, Err(CommandError::NotFound))
    }

    /// Scripts a command that times out.
    pub fn timeout(self, program: &str, args: &[&str]) -> (r: MockCommandRunner)
        ensures
            forall|key: Seq<char>|
                #![trigger r.scripted(key)]
                r.scripted(key) == if key == command_key_spec(program@, arg_views(args@)) {
                    Some(Err::<OutputView, CommandErrorView>(CommandErrorView::TimedOut))
                } else {
                    self.scripted(key)
                },
    {
        self.with_response(program, args, Err(CommandError::TimedOut))
    }

    /// The answer to a command: rejected unless allow-listed, else the scripted
    /// response, else not found.
    pub open spec fn answer(&self, program: Seq<char>, args: Seq<Seq<char>>) -> Result<
        OutputView,
        CommandErrorView,
    > {
        if !is_allowlisted_spec(program, args) {
            Err(CommandErrorView::Rejected)
        } else {
            match self.scripted(command_key_spec(program, args)) {
                Some(x) => x,
                None => Err(CommandErrorView::NotFound),
            }
        }
    }

    /// The response to a command: rejected unless allow-listed, else the
    /// scripted response, else not found.
    pub fn respond(&self, program: &str, args: &[&str]) -> (r: Result<CommandOutput, CommandError>)
        ensures
            result_view(r) == if !is_allowlisted_spec(program@, arg_views(args@)) {
                Err(CommandErrorView::Rejected)
            } else {
                match self.scripted(command_key_spec(program@, arg_views(args@))) {
                    Some(x) => x,
                    None => Err(CommandErrorView::NotFound),
                }
            },
    {
        if !is_allowlisted(program, args) {
            return Err(CommandError::Rejected);
        }
        let key = command_key(program, args);
        let mut k: usize = self.responses.len();
        while k > 0
            invariant
                k <= self.responses@.len(),
                is_allowlisted_spec(program@, arg_views(args@)),
                key@ == command_key_spec(program@, arg_views(args@)),
                scripted_from(self.responses@, key@, self.responses@.len() as int)
                    == scripted_from(self.responses@, key@, k as int),
            decreases k,
        {
            let entry = &self.responses[k - 1];
            if crate::text::same_chars(&chars_of(entry.0.as_str()), &key) {
                return match &entry.1 {
                    Ok(o) => Ok(o.clone()),
                    Err(e) => Err(e.clone()),
                };
            }
            k -= 1;
        }
        Err(CommandError::NotFound)
    }
}

proof fn lemma_scripted_prefix(
    longer: Seq<(String, Result<CommandOutput, CommandError>)>,
    shorter: Seq<(String, Result<CommandOutput, CommandError>)>,
    key: Seq<char>,
    j: int,
)
    requires
        0 <= j <= shorter.len(),
        shorter.len() <= longer.len(),
        forall|i: int| 0 <= i < shorter.len() ==> longer[i] == shorter[i],
    ensures
        scripted_from(longer, key, j) == scripted_from(shorter, key, j),
    decreases j,
{
    if j > 0 {
        lemma_scripted_prefix(longer, shorter, key, j - 1);
    }
}

proof fn lemma_allowed_keys_differ(a: Seq<Seq<char>>, b: Seq<Seq<char>>)
    requires
        allowed_commands().contains(a),
        allowed_commands().contains(b),
        a != b,
    ensures
        command_key_spec("codex"@, a) != command_key_spec("codex"@, b),
{
    reveal_strlit("--version");
    reveal_strlit("login");
    reveal_strlit("status");
    reveal_strlit("doctor");
    reveal_strlit("--json");
    let v = seq!["--version"@];
    let l = seq!["login"@, "status"@];
    let d = seq!["doctor"@, "--json"@];
    let ia = choose|i: int| 0 <= i < allowed_commands().len() && allowed_commands()[i] == a;
    let ib = choose|i: int| 0 <= i < allowed_commands().len() && allowed_commands()[i] == b;
    assert(crate::redaction::join_spaced(v).len() == 9);
    assert(crate::redaction::join_spaced(l) == crate::redaction::join_spaced(l.drop_last()) + seq![' '] + l.last());
    assert(l.drop_last() =~= seq!["login"@]);
    assert(crate::redaction::join_spaced(l).len() == 12);
    assert(crate::redaction::join_spaced(d) == crate::redaction::join_spaced(d.drop_last()) + seq![' '] + d.last());
    assert(d.drop_last() =~= seq!["doctor"@]);
    assert(crate::redaction::join_spaced(d).len() == 13);
    assert(command_key_spec("codex"@, a).len() == "codex"@.len() + 1 + crate::redaction::join_spaced(a).len());
    assert(command_key_spec("codex"@, b).len() == "codex"@.len() + 1 + crate::redaction::join_spaced(b).len());
    assert(ia == 0 || ia == 1 || ia == 2);
    assert(ib == 0 || ib == 1 || ib == 2);
}

/// Scripting an allow-listed command sets its answer and leaves the answer to
/// every other command as it was.
pub proof fn lemma_scripting_keeps_other_answers(
    before: MockCommandRunner,
    after: MockCommandRunner,
    program: Seq<char>,
    args: Seq<Seq<char>>,
    response: Result<OutputView, CommandErrorView>,
    other_program: Seq<char>,
    other_args: Seq<Seq<char>>,
)
    requires
        is_allowlisted_spec(program, args),
        forall|key: Seq<char>|
            #![trigger after.scripted(key)]
            after.scripted(key) == if key == command_key_spec(program, args) {
                Some(response)
            } else {
                before.scripted(key)
            },
        !(other_program == program && other_args == args),
    ensures
        after.answer(program, args) == response,
        after.answer(other_program, other_args) == before.answer(other_program, other_args),
{
    assert(after.scripted(command_key_spec(program, args)) == Some(response));
    if is_allowlisted_spec(other_program, other_args) {
        lemma_allowed_keys_differ(args, other_args);
        assert(after.scripted(command_key_spec(other_program, other_args)) == before.scripted(
            command_key_spec(other_program, other_args),
        ));
    }
}

impl CommandRunner for MockCommandRunner {
    open spec fn answers(
        &self,
        program: Seq<char>,
        args: Seq<Seq<char>>,
        result: Result<OutputView, CommandErrorView>,
    ) -> bool {
        result == self.answer(program, args)
    }

    fn run(&self, program: &str, args: &[&str], _timeout: Duration) -> (r: Result<
        CommandOutput,
        CommandError,
    >)
        ensures
            result_view(r) == if !is_allowlisted_spec(program@, arg_views(args@)) {
                Err(CommandErrorView::Rejected)
            } else {
                match self.scripted(command_key_spec(program@, arg_views(args@))) {
                    Some(x) => x,
                    None => Err(CommandErrorView::NotFound),
                }
            },
    {
        self.respond(program, args)
    }
}


// ---------------------------------------------------------------------------
// Probe results
// ---------------------------------------------------------------------------

#[derive(Debug, Clone, Copy, PartialEq, Eq, Structural)]
pub enum CodexProbeStatus {
    Healthy,
    Warning,
    NotAuthenticated,
    Unavailable,
}

/// What the probe found: whether Codex is available and signed in, its
/// version, the doctor's verdict, when it was checked, and redacted diagnostics.
#[derive(Debug)]
pub struct CodexHealth {
    pub status: CodexProbeStatus,
    pub available: bool,
    pub authenticated: Option<bool>,
    pub version: Option<String>,
    pub doctor_status: Option<String>,
    pub checked_at: Option<String>,
    pub diagnostics: Vec<String>,
}

/// The probe's findings by their texts.
pub struct HealthView {
    pub status: CodexProbeStatus,
    pub available: bool,
    pub authenticated: Option<bool>,
    pub version: Option<Seq<char>>,
    pub doctor_status: Option<Seq<char>>,
    pub checked_at: Option<Seq<char>>,
    pub diagnostics: Seq<Seq<char>>,
}

pub open spec fn string_views(v: Seq<String>) -> Seq<Seq<char>> {
    v.map_values(|s: String| s@)
}

impl CodexHealth {
    pub open spec fn view_health(&self) -> HealthView {
        HealthView {
            status: self.status,
            available: self.available,
            authenticated: self.authenticated,
            version: opt_text(self.version),
            doctor_status: opt_text(self.doctor_status),
            checked_at: opt_text(self.checked_at),
            diagnostics: string_views(self.diagnostics@),
        }
    }
}

/// The `status` string of the JSON object that `codex doctor --json` printed,
/// if the text is JSON with such a member.
pub uninterp spec fn doctor_status_of(output: Seq<char>) -> Option<Seq<char>>;

/// Reads the `status` member of a JSON object (`serde_json::from_str` into a
/// `Value`, then `get("status")` and `as_str`). The contract names the result:
/// none when the text is not JSON or has no string `status`.
#[verifier::external_body]
fn parse_doctor_status(output: &str) -> (r: Option<String>)
    ensures
        opt_text(r) == doctor_status_of(output@),
{
    let value: serde_json::Value = serde_json::from_str(output).ok()?;
    value.get("status").and_then(|status| status.as_str()).map(|status| status.to_string())
}

/// The decimal text of an integer, with a minus sign when negative.
pub open spec fn int_text(v: int) -> Seq<char> {
    if v < 0 {
        seq!['-'] + decimal((-v) as nat)
    } else {
        decimal(v as nat)
    }
}

/// The debug text of an optional exit code (`Some(2)`, `None`).
pub open spec fn exit_code_text(code: Option<i32>) -> Seq<char> {
    match code {
        Some(v) => "Some("@ + int_text(v as int) + ")"@,
        None => "None"@,
    }
}

fn exit_code_chars(code: Option<i32>) -> (r: Vec<char>)
    ensures
        r@ == exit_code_text(code),
{
    match code {
        Some(v) => {
            let mut r = chars_of("Some(");
            if v < 0 {
                r.push('-');
                let magnitude: u64 = (0i64 - (v as i64)) as u64;
                extend_chars(&mut r, &decimal_chars(magnitude));
            } else {
                extend_chars(&mut r, &decimal_chars(v as u64));
            }
            extend_chars(&mut r, &chars_of(")"));
            proof {
                if v < 0 {
                    assert(r@ =~= "Some("@ + int_text(v as int) + ")"@);
                } else {
                    assert(r@ =~= "Some("@ + int_text(v as int) + ")"@);
                }
            }
            r
        },
        None => chars_of("None"),
    }
}

/// `command: message` for a command that could not run.
pub open spec fn command_error_text(command: Seq<char>, error: CommandErrorView) -> Seq<char> {
    match error {
        CommandErrorView::NotFound => command + ": codex executable not found"@,
        CommandErrorView::TimedOut => command + ": command timed out"@,
        CommandErrorView::Rejected => command + ": command rejected by allowlist"@,
        CommandErrorView::Failed(message) => command + ": "@ + message,
    }
}

/// The non-blank streams of an output, joined by a space.
pub open spec fn output_details(o: OutputView) -> Seq<char> {
    let out = trim(o.stdout).len() > 0;
    let err = trim(o.stderr).len() > 0;
    if out && err {
        o.stdout + seq![' '] + o.stderr
    } else if out {
        o.stdout
    } else if err {
        o.stderr
    } else {
        seq![]
    }
}

/// `command: exited with status CODE DETAILS` for a command that failed.
pub open spec fn command_failure_text(command: Seq<char>, o: OutputView) -> Seq<char> {
    command + ": exited with status "@ + exit_code_text(o.status_code) + seq![' '] + output_details(o)
}

/// The stderr of a successful command, as a diagnostic when it is not blank.
pub open spec fn output_diagnostics(command: Seq<char>, o: OutputView) -> Seq<Seq<char>> {
    if trim(o.stderr).len() > 0 {
        seq![command + ": "@ + o.stderr]
    } else {
        seq![]
    }
}

/// Phrases by which `codex login status` says no one is signed in.
pub open spec fn signed_out_markers() -> Seq<Seq<char>> {
    seq![
        "not logged"@,
        "not signed"@,
        "signed out"@,
        "login required"@,
        "not authenticated"@,
        "unauthenticated"@,
    ]
}

pub open spec fn indicates_signed_out(o: OutputView) -> bool {
    contains_any(lower(o.stdout + seq![' '] + o.stderr), signed_out_markers())
}

/// The diagnostics and the sign-in state from `codex login status`.
pub open spec fn login_findings(l: Result<OutputView, CommandErrorView>) -> (Seq<Seq<char>>, Option<bool>) {
    match l {
        Ok(o) => if o.status_code == Some(0i32) {
            (output_diagnostics("codex login status"@, o), Some(!indicates_signed_out(o)))
        } else {
            (
                seq![command_failure_text("codex login status"@, o)],
                if indicates_signed_out(o) {
                    Some(false)
                } else {
                    None
                },
            )
        },
        Err(e) => (seq![command_error_text("codex login status"@, e)], None),
    }
}

/// The diagnostics, the reported status and whether it is `ok`, from
/// `codex doctor --json`.
pub open spec fn doctor_findings(d: Result<OutputView, CommandErrorView>) -> (
    Seq<Seq<char>>,
    Option<Seq<char>>,
    bool,
) {
    match d {
        Ok(o) => if o.status_code == Some(0i32) {
            match doctor_status_of(o.stdout) {
                Some(st) => (output_diagnostics("codex doctor --json"@, o), Some(st), st == "ok"@),
                None => (
                    seq!["codex doctor returned invalid JSON"@] + output_diagnostics(
                        "codex doctor --json"@,
                        o,
                    ),
                    None,
                    false,
                ),
            }
        } else {
            (seq![command_failure_text("codex doctor --json"@, o)], None, false)
        },
        Err(e) => (seq![command_error_text("codex doctor --json"@, e)], None, false),
    }
}

/// Whether `codex --version` ran and exited with 0.
pub open spec fn version_passed(v: Result<OutputView, CommandErrorView>) -> bool {
    v matches Ok(o) && o.status_code == Some(0i32)
}

/// A text when it is not blank.
pub open spec fn non_empty(value: Seq<char>) -> Option<Seq<char>> {
    if trim(value).len() > 0 {
        Some(value)
    } else {
        None
    }
}

pub open spec fn redact_all(lines: Seq<Seq<char>>) -> Seq<Seq<char>> {
    lines.map_values(|l: Seq<char>| redact_diagnostic_spec(l))
}

/// What the probe reports for the results of its commands (`login` and
/// `doctor` are only run once `codex --version` passed).
pub open spec fn probe_findings(
    v: Result<OutputView, CommandErrorView>,
    login: Result<OutputView, CommandErrorView>,
    doctor: Result<OutputView, CommandErrorView>,
    checked_at: Seq<char>,
) -> HealthView {
    match v {
        Err(e) => HealthView {
            status: CodexProbeStatus::Unavailable,
            available: false,
            authenticated: None,
            version: None,
            doctor_status: None,
            checked_at: Some(checked_at),
            diagnostics: redact_all(seq![command_error_text("codex --version"@, e)]),
        },
        Ok(o) => if o.status_code != Some(0i32) {
            HealthView {
                status: CodexProbeStatus::Unavailable,
                available: false,
                authenticated: None,
                version: None,
                doctor_status: None,
                checked_at: Some(checked_at),
                diagnostics: redact_all(seq![command_failure_text("codex --version"@, o)]),
            }
        } else {
            let (login_lines, authenticated) = login_findings(login);
            let (doctor_lines, doctor_status, doctor_ok) = doctor_findings(doctor);
            HealthView {
                status: if authenticated == Some(false) {
                    CodexProbeStatus::NotAuthenticated
                } else if authenticated == Some(true) && doctor_ok {
                    CodexProbeStatus::Healthy
                } else {
                    CodexProbeStatus::Warning
                },
                available: true,
                authenticated,
                version: non_empty(redact_diagnostic_spec(o.stdout)),
                doctor_status,
                checked_at: Some(checked_at),
                diagnostics: redact_all(login_lines + doctor_lines),
            }
        },
    }
}

fn blank(s: &str) -> (r: bool)
    ensures
        r == (trim(s@).len() == 0),
{
    trim_ws(&chars_of(s)).len() == 0
}

fn format_command_failure(command: &str, o: &CommandOutput) -> (r: String)
    ensures
        r@ == command_failure_text(command@, o@),
{
    let mut r = chars_of(command);
    extend_chars(&mut r, &chars_of(": exited with status "));
    extend_chars(&mut r, &exit_code_chars(o.status_code()));
    r.push(' ');
    let out = !blank(o.stdout());
    let err = !blank(o.stderr());
    let ghost head = r@;
    if out {
        extend_chars(&mut r, &chars_of(o.stdout()));
        if err {
            r.push(' ');
        }
    }
    if err {
        extend_chars(&mut r, &chars_of(o.stderr()));
    }
    proof {
        assert(r@ =~= head + output_details(o@));
    }
    string_of(&r)
}

fn format_command_error(command: &str, e: &CommandError) -> (r: String)
    ensures
        r@ == command_error_text(command@, error_view(*e)),
{
    let mut r = chars_of(command);
    match e {
        CommandError::NotFound => extend_chars(&mut r, &chars_of(": codex executable not found")),
        CommandError::TimedOut => extend_chars(&mut r, &chars_of(": command timed out")),
        CommandError::Rejected => extend_chars(&mut r, &chars_of(": command rejected by allowlist")),
        CommandError::Failed(message) => {
            extend_chars(&mut r, &chars_of(": "));
            extend_chars(&mut r, &chars_of(message.as_str()));
        },
    }
    string_of(&r)
}

fn push_output_diagnostics(diagnostics: &mut Vec<String>, command: &str, o: &CommandOutput)
    ensures
        string_views(final(diagnostics)@) == string_views(old(diagnostics)@) + output_diagnostics(
            command@,
            o@,
        ),
{
    let ghost before = string_views(diagnostics@);
    if !blank(o.stderr()) {
        let mut line = chars_of(command);
        extend_chars(&mut line, &chars_of(": "));
        extend_chars(&mut line, &chars_of(o.stderr()));
        diagnostics.push(string_of(&line));
        proof {
            assert(string_views(diagnostics@) =~= before + output_diagnostics(command@, o@));
        }
    } else {
        proof {
            assert(string_views(diagnostics@) =~= before + output_diagnostics(command@, o@));
        }
    }
}

fn push_line(diagnostics: &mut Vec<String>, line: String)
    ensures
        string_views(final(diagnostics)@) == string_views(old(diagnostics)@) + seq![line@],
{
    let ghost before = string_views(diagnostics@);
    diagnostics.push(line);
    proof {
        assert(string_views(diagnostics@) =~= before + seq![line@]);
    }
}

fn login_output_indicates_signed_out(o: &CommandOutput) -> (r: bool)
    ensures
        r == indicates_signed_out(o@),
{
    let mut details = chars_of(o.stdout());
    details.push(' ');
    extend_chars(&mut details, &chars_of(o.stderr()));
    proof {
        assert(details@ =~= o@.stdout + seq![' '] + o@.stderr);
    }
    let markers: [&str; 6] = [
        "not logged",
        "not signed",
        "signed out",
        "login required",
        "not authenticated",
        "unauthenticated",
    ];
    proof {
        assert(views(markers@) =~= signed_out_markers());
    }
    contains_any_of(&to_lower(&details), &markers)
}

fn redact_lines(lines: Vec<String>) -> (r: Vec<String>)
    ensures
        string_views(r@) == redact_all(string_views(lines@)),
{
    let mut r: Vec<String> = Vec::new();
    let mut i: usize = 0;
    while i < lines.len()
        invariant
            i <= lines@.len(),
            string_views(r@) == redact_all(string_views(lines@)).take(i as int),
        decreases lines.len() - i,
    {
        let ghost before = string_views(r@);
        let line = redact_diagnostic(lines[i].as_str());
        r.push(line);
        proof {
            assert(string_views(lines@)[i as int] == lines@[i as int]@);
            assert(string_views(r@) =~= before.push(line@));
            assert(string_views(r@) =~= redact_all(string_views(lines@)).take(i as int + 1));
        }
        i += 1;
    }
    proof {
        assert(redact_all(string_views(lines@)).take(lines@.len() as int) =~= redact_all(
            string_views(lines@),
        ));
    }
    r
}

/// Sums up the probe from the results of its commands; `follow_up` holds the
/// results of `codex login status` and `codex doctor --json`, which are run
/// exactly when `codex --version` passed.
pub fn assess_probe(
    version: Result<CommandOutput, CommandError>,
    follow_up: Option<(Result<CommandOutput, CommandError>, Result<CommandOutput, CommandError>)>,
    checked_at: String,
) -> (r: CodexHealth)
    requires
        version_passed(result_view(version)) == follow_up is Some,
    ensures
        follow_up matches Some(pair) ==> r.view_health() == probe_findings(
            result_view(version),
            result_view(pair.0),
            result_view(pair.1),
            checked_at@,
        ),
        follow_up is None ==> r.view_health() == probe_findings(
            result_view(version),
            Err(CommandErrorView::Rejected),
            Err(CommandErrorView::Rejected),
            checked_at@,
        ),
{
    let mut diagnostics: Vec<String> = Vec::new();
    let output = match version {
        Ok(output) => {
            if output.status_code() != Some(0i32) {
                push_line(&mut diagnostics, format_command_failure("codex --version", &output));
                return CodexHealth {
                    status: CodexProbeStatus::Unavailable,
                    available: false,
                    authenticated: None,
                    version: None,
                    doctor_status: None,
                    checked_at: Some(checked_at),
                    diagnostics: redact_lines(diagnostics),
                };
            }
            output
        },
        Err(error) => {
            push_line(&mut diagnostics, format_command_error("codex --version", &error));
            return CodexHealth {
                status: CodexProbeStatus::Unavailable,
                available: false,
                authenticated: None,
                version: None,
                doctor_status: None,
                checked_at: Some(checked_at),
                diagnostics: redact_lines(diagnostics),
            };
        },
    };
    let (login, doctor) = follow_up.unwrap();
    let redacted_version = redact_diagnostic(output.stdout());
    let version_text = if blank(redacted_version.as_str()) {
        None
    } else {
        Some(redacted_version)
    };
    let authenticated = match &login {
        Ok(o) => if o.status_code() == Some(0i32) {
            push_output_diagnostics(&mut diagnostics, "codex login status", o);
            Some(!login_output_indicates_signed_out(o))
        } else {
            push_line(&mut diagnostics, format_command_failure("codex login status", o));
            if login_output_indicates_signed_out(o) {
                Some(false)
            } else {
                None
            }
        },
        Err(e) => {
            push_line(&mut diagnostics, format_command_error("codex login status", e));
            None
        },
    };
    let ghost login_lines = string_views(diagnostics@);
    let mut doctor_status: Option<String> = None;
    let doctor_ok = match &doctor {
        Ok(o) => if o.status_code() == Some(0i32) {
            match parse_doctor_status(o.stdout()) {
                Some(status) => {
                    let ok = crate::text::same_chars(
                        &chars_of(status.as_str()),
                        &chars_of("ok"),
                    );
                    doctor_status = Some(status);
                    push_output_diagnostics(&mut diagnostics, "codex doctor --json", o);
                    ok
                },
                None => {
                    push_line(&mut diagnostics, lit("codex doctor returned invalid JSON"));
                    push_output_diagnostics(&mut diagnostics, "codex doctor --json", o);
                    false
                },
            }
        } else {
            push_line(&mut diagnostics, format_command_failure("codex doctor --json", o));
            false
        },
        Err(e) => {
            push_line(&mut diagnostics, format_command_error("codex doctor --json", e));
            false
        },
    };
    proof {
        let (dl, ds, dok) = doctor_findings(result_view(doctor));
        let (ll, la) = login_findings(result_view(login));
        assert(login_lines == ll);
        assert(string_views(diagnostics@) =~= ll + dl);
        assert(opt_text(doctor_status) == ds);
        assert(doctor_ok == dok);
        assert(authenticated == la);
    }
    let status = if authenticated == Some(false) {
        CodexProbeStatus::NotAuthenticated
    } else if authenticated == Some(true) && doctor_ok {
        CodexProbeStatus::Healthy
    } else {
        CodexProbeStatus::Warning
    };
    CodexHealth {
        status,
        available: true,
        authenticated,
        version: version_text,
        doctor_status,
        checked_at: Some(checked_at),
        diagnostics: redact_lines(diagnostics),
    }
}

/// Runs the probe's commands through `runner` and sums them up, stamped with
/// the current time: `codex --version` first; only when it passed, `codex login
/// status` and then `codex doctor --json`. The summary is that of the answers
/// the runner gave to exactly these commands.
pub fn probe_codex_with_runner<R: CommandRunner>(runner: &R, timeout: Duration) -> (r: CodexHealth)
    ensures
        exists|
            v: Result<OutputView, CommandErrorView>,
            l: Result<OutputView, CommandErrorView>,
            d: Result<OutputView, CommandErrorView>,
            seconds: u64,
        |
            #![trigger probe_findings(v, l, d, unix_timestamp_text(seconds))]
            {
                &&& runner.answers("codex"@, seq!["--version"@], v)
                &&& version_passed(v) ==> runner.answers("codex"@, seq!["login"@, "status"@], l)
                    && runner.answers("codex"@, seq!["doctor"@, "--json"@], d)
                &&& r.view_health() == probe_findings(v, l, d, unix_timestamp_text(seconds))
            },
{
    let version_args: [&str; 1] = ["--version"];
    proof {
        assert(arg_views(version_args@) =~= seq!["--version"@]);
    }
    let version = runner.run("codex", &version_args, timeout);
    let passed = match &version {
        Ok(o) => o.status_code() == Some(0i32),
        Err(_) => false,
    };
    let follow_up = if passed {
        let login_args: [&str; 2] = ["login", "status"];
        let doctor_args: [&str; 2] = ["doctor", "--json"];
        proof {
            assert(arg_views(login_args@) =~= seq!["login"@, "status"@]);
            assert(arg_views(doctor_args@) =~= seq!["doctor"@, "--json"@]);
        }
        let login = runner.run("codex", &login_args, timeout);
        let doctor = runner.run("codex", &doctor_args, timeout);
        Some((login, doctor))
    } else {
        None
    };
    let seconds = unix_now_seconds();
    let ghost fu = follow_up;
    let ghost v = result_view(version);
    proof {
        assert(version_passed(v) == passed);
    }
    let r = assess_probe(version, follow_up, unix_timestamp_string(seconds));
    proof {
        match fu {
            Some(pair) => {
                let l = result_view(pair.0);
                let d = result_view(pair.1);
                assert(r.view_health() == probe_findings(v, l, d, unix_timestamp_text(seconds)));
            },
            None => {
                let l = Err::<OutputView, CommandErrorView>(CommandErrorView::Rejected);
                let d = Err::<OutputView, CommandErrorView>(CommandErrorView::Rejected);
                assert(r.view_health() == probe_findings(v, l, d, unix_timestamp_text(seconds)));
            },
        }
    }
    r
}

} // verus!
