//! Parsers for the session helper's line protocol.
//!
//! The helper is rhost's own program, so this is not a foreign dialect to be
//! tolerated: every field is either exactly what the script promised, or the
//! whole answer is a protocol failure. A missing, duplicated, malformed or
//! contradictory field therefore becomes `SESSION_UNHEALTHY`, never an empty
//! successful result.
use vstd::prelude::*;
use crate::session::remote::list::{records_of, record_views, scan_records, ListRecord};
use crate::base64::{decode_chars, spec_decode};
use crate::text::{
    all_digits, chars_eq, chars_of, decimal, digits_value, has_prefix, lines, slice_chars,
    split_lines, starts_with, string_of, trim, trim_chars,
};

verus! {

// ---------------------------------------------------------------------------
// Line helpers shared by every helper parser
// ---------------------------------------------------------------------------

/// The value after `key` in the first line that starts with it, trimmed.
pub open spec fn spec_field(ls: Seq<Seq<char>>, key: Seq<char>) -> Option<Seq<char>>
    decreases ls.len(),
{
    if ls.len() == 0 {
        None
    } else if has_prefix(ls[0], key) {
        Some(trim(ls[0].subrange(key.len() as int, ls[0].len() as int)))
    } else {
        spec_field(ls.drop_first(), key)
    }
}

/// What follows `key` on `line`, when `line` starts with it.
pub open spec fn after(line: Seq<char>, key: Seq<char>) -> Seq<char> {
    line.subrange(key.len() as int, line.len() as int)
}

/// `line` without `key`, or `None` when `line` does not start with it.
pub fn strip_key(line: &[char], key: &[char]) -> (r: Option<Vec<char>>)
    ensures
        match r {
            Some(v) => has_prefix(line@, key@) && v@ == after(line@, key@),
            None => !has_prefix(line@, key@),
        },
{
    if starts_with(line, key) {
        Some(slice_chars(line, key.len(), line.len()))
    } else {
        None
    }
}

/// Whether `a` spells the literal `lit`.
pub fn is_literal(a: &[char], lit: &str) -> (r: bool)
    ensures
        r == (a@ == lit@),
{
    let l = chars_of(lit);
    chars_eq(a, &l)
}

/// The first `key=` value among `ls[from..]`, trimmed.
pub fn field_in(ls: &Vec<Vec<char>>, key: &[char]) -> (r: Option<Vec<char>>)
    ensures
        match r {
            Some(v) => spec_field(ls@.map_values(|l: Vec<char>| l@), key@) == Some(v@),
            None => spec_field(ls@.map_values(|l: Vec<char>| l@), key@) is None,
        },
{
    let ghost all = ls@.map_values(|l: Vec<char>| l@);
    let mut i: usize = 0;
    assert(all.subrange(0, all.len() as int) =~= all);
    while i < ls.len()
        invariant
            i <= ls.len(),
            all == ls@.map_values(|l: Vec<char>| l@),
            spec_field(all, key@) == spec_field(all.subrange(i as int, all.len() as int), key@),
        decreases ls.len() - i,
    {
        let ghost rest = all.subrange(i as int, all.len() as int);
        assert(rest[0] == ls@[i as int]@);
        assert(rest.drop_first() =~= all.subrange(i + 1, all.len() as int));
        if let Some(value) = strip_key(&ls[i], key) {
            return Some(trim_chars(&value));
        }
        i = i + 1;
    }
    None
}

/// The lines of `stdout`, as character vectors, with their spec view.
pub fn line_vecs(stdout: &str) -> (r: Vec<Vec<char>>)
    ensures
        r@.map_values(|l: Vec<char>| l@) == lines(stdout@),
{
    let s = chars_of(stdout);
    let r = split_lines(&s);
    assert(r@.map_values(|l: Vec<char>| l@) =~= lines(stdout@));
    r
}

/// The first value of one `KEY=value` line, or `None` when the helper printed
/// no line for that key.
pub fn field(stdout: &str, key: &str) -> (r: Option<String>)
    ensures
        match r {
            Some(v) => spec_field(lines(stdout@), key@) == Some(v@),
            None => spec_field(lines(stdout@), key@) is None,
        },
{
    let ls = line_vecs(stdout);
    let k = chars_of(key);
    match field_in(&ls, &k) {
        Some(v) => Some(string_of(&v)),
        None => None,
    }
}

// ---------------------------------------------------------------------------
// Failures
// ---------------------------------------------------------------------------

/// Every failure a helper reports, as a closed set.
///
/// A code outside this list is not "another kind of failure" to be guessed at:
/// it is the helper being wrong, and it maps to the same protocol answer as an
/// unparseable line.
#[derive(Debug, Clone, PartialEq, Eq)]
pub enum HelperFailure {
    NoSession,
    SessionDied,
    Timeout,
    Locked,
    InputFailed,
    InputUncertain,
    CloseFailed,
    Busy,
    UnknownForeground,
    NoTty,
    NotReady,
    NoTmux,
    NoFlock,
    NameInUse,
    InvalidCwd,
    NewFailed,
    Protocol,
    Unknown(String),
}

/// The wire code of each failure.
pub open spec fn failure_code(f: HelperFailure) -> Seq<char> {
    match f {
        HelperFailure::NoSession => "nosession"@,
        HelperFailure::SessionDied => "sessiondied"@,
        HelperFailure::Timeout => "timeout"@,
        HelperFailure::Locked => "locked"@,
        HelperFailure::InputFailed => "inputfailed"@,
        HelperFailure::InputUncertain => "inputuncertain"@,
        HelperFailure::CloseFailed => "closefailed"@,
        HelperFailure::Busy => "busy"@,
        HelperFailure::UnknownForeground => "unknownfg"@,
        HelperFailure::NoTty => "notty"@,
        HelperFailure::NotReady => "notready"@,
        HelperFailure::NoTmux => "notmux"@,
        HelperFailure::NoFlock => "noflock"@,
        HelperFailure::NameInUse => "nameinuse"@,
        HelperFailure::InvalidCwd => "invalidcwd"@,
        HelperFailure::NewFailed => "newfailed"@,
        HelperFailure::Protocol => "protocol"@,
        HelperFailure::Unknown(code) => code@,
    }
}

/// A code the helper is allowed to print.
pub open spec fn is_known_code(c: Seq<char>) -> bool {
    c == "nosession"@ || c == "sessiondied"@ || c == "timeout"@ || c == "locked"@ || c
        == "inputfailed"@ || c == "inputuncertain"@ || c == "closefailed"@ || c == "busy"@ || c
        == "unknownfg"@ || c == "notty"@ || c == "notready"@ || c == "notmux"@ || c
        == "noflock"@ || c == "nameinuse"@ || c == "invalidcwd"@ || c == "newfailed"@ || c
        == "protocol"@
}

/// `f` is what `from_code(c)` gives: the variant whose code is `c`, and
/// `Unknown` exactly when `c` is not a known code.
pub open spec fn decodes_to(f: HelperFailure, c: Seq<char>) -> bool {
    failure_code(f) == c && (f is Unknown <==> !is_known_code(c))
}

impl HelperFailure {
    pub fn from_code(code: &str) -> (r: Self)
        ensures
            decodes_to(r, code@),
    {
        let c = chars_of(code);
        Self::from_chars(&c)
    }

    pub fn from_chars(c: &[char]) -> (r: Self)
        ensures
            decodes_to(r, c@),
    {
        if is_literal(c, "nosession") {
            Self::NoSession
        } else if is_literal(c, "sessiondied") {
            Self::SessionDied
        } else if is_literal(c, "timeout") {
            Self::Timeout
        } else if is_literal(c, "locked") {
            Self::Locked
        } else if is_literal(c, "inputfailed") {
            Self::InputFailed
        } else if is_literal(c, "inputuncertain") {
            Self::InputUncertain
        } else if is_literal(c, "closefailed") {
            Self::CloseFailed
        } else if is_literal(c, "busy") {
            Self::Busy
        } else if is_literal(c, "unknownfg") {
            Self::UnknownForeground
        } else if is_literal(c, "notty") {
            Self::NoTty
        } else if is_literal(c, "notready") {
            Self::NotReady
        } else if is_literal(c, "notmux") {
            Self::NoTmux
        } else if is_literal(c, "noflock") {
            Self::NoFlock
        } else if is_literal(c, "nameinuse") {
            Self::NameInUse
        } else if is_literal(c, "invalidcwd") {
            Self::InvalidCwd
        } else if is_literal(c, "newfailed") {
            Self::NewFailed
        } else if is_literal(c, "protocol") {
            Self::Protocol
        } else {
            Self::Unknown(string_of(c))
        }
    }

    pub fn code(&self) -> (r: String)
        ensures
            r@ == failure_code(*self),
    {
        match self {
            Self::NoSession => String::from_str("nosession"),
            Self::SessionDied => String::from_str("sessiondied"),
            Self::Timeout => String::from_str("timeout"),
            Self::Locked => String::from_str("locked"),
            Self::InputFailed => String::from_str("inputfailed"),
            Self::InputUncertain => String::from_str("inputuncertain"),
            Self::CloseFailed => String::from_str("closefailed"),
            Self::Busy => String::from_str("busy"),
            Self::UnknownForeground => String::from_str("unknownfg"),
            Self::NoTty => String::from_str("notty"),
            Self::NotReady => String::from_str("notready"),
            Self::NoTmux => String::from_str("notmux"),
            Self::NoFlock => String::from_str("noflock"),
            Self::NameInUse => String::from_str("nameinuse"),
            Self::InvalidCwd => String::from_str("invalidcwd"),
            Self::NewFailed => String::from_str("newfailed"),
            Self::Protocol => String::from_str("protocol"),
            Self::Unknown(code) => code.clone(),
        }
    }
}

/// Reading a failure's code back gives the same failure: for every failure
/// other than `Unknown`, `from_code(code(f))` is `f` again. (The other
/// direction, `code(from_code(s)) == s` for every `s`, is `from_code`'s own
/// contract.)
pub proof fn lemma_code_round_trip(f: HelperFailure, g: HelperFailure)
    requires
        f !is Unknown,
        decodes_to(g, failure_code(f)),
    ensures
        g == f,
{
    reveal_strlit("nosession");
    reveal_strlit("sessiondied");
    reveal_strlit("timeout");
    reveal_strlit("locked");
    reveal_strlit("inputfailed");
    reveal_strlit("inputuncertain");
    reveal_strlit("closefailed");
    reveal_strlit("busy");
    reveal_strlit("unknownfg");
    reveal_strlit("notty");
    reveal_strlit("notready");
    reveal_strlit("notmux");
    reveal_strlit("noflock");
    reveal_strlit("nameinuse");
    reveal_strlit("invalidcwd");
    reveal_strlit("newfailed");
    reveal_strlit("protocol");
    let c = failure_code(f);
    assert(is_known_code(c));
    assert(g !is Unknown);
    let d = failure_code(g);
    assert(d.len() == c.len() && d[0] == c[0] && d[1] == c[1]);
}


// ---------------------------------------------------------------------------
// Numbers the helper prints
// ---------------------------------------------------------------------------

/// An exit status written the one way a status is written: decimal digits, no
/// leading zero, at most 255.
pub open spec fn spec_canonical_exit(text: Seq<char>) -> Option<u8> {
    if text.len() > 0 && all_digits(text) && digits_value(text) <= 255 && decimal(
        digits_value(text),
    ) == text {
        Some(digits_value(text) as u8)
    } else {
        None
    }
}

/// A cursor: digits only, fitting in `u64`, and not seen before.
pub open spec fn spec_cursor(text: Seq<char>, seen: bool) -> Option<u64> {
    if seen || text.len() == 0 || !all_digits(text) || digits_value(text) > u64::MAX {
        None
    } else {
        Some(digits_value(text) as u64)
    }
}

/// Whether every character of `v` is a decimal digit.
pub fn all_digit_chars(v: &[char]) -> (r: bool)
    ensures
        r == all_digits(v@),
{
    let mut i: usize = 0;
    while i < v.len()
        invariant
            i <= v.len(),
            forall|k: int| 0 <= k < i ==> crate::text::is_digit(#[trigger] v@[k]),
        decreases v.len() - i,
    {
        if !('0' <= v[i] && v[i] <= '9') {
            assert(!crate::text::is_digit(v@[i as int]));
            return false;
        }
        i = i + 1;
    }
    true
}

/// A status is only a status when it is written as one: `07` describes a
/// different byte stream than `7` does, and a negative or oversized value is
/// not an exit code at all.
pub fn canonical_exit(text: &[char]) -> (r: Option<u8>)
    ensures
        r == spec_canonical_exit(text@),
{
    if text.len() == 0 || !all_digit_chars(text) {
        return None;
    }
    assert(text@[0] != '+') by {
        assert(crate::text::is_digit(text@[0]));
    }
    let parsed = crate::text::parse_bounded(text, 255);
    match parsed {
        None => None,
        Some(v) => {
            let spelled = crate::text::decimal_chars(v);
            if chars_eq(&spelled, text) {
                Some(v as u8)
            } else {
                None
            }
        },
    }
}

/// Parses one cursor value.
pub fn parse_cursor(text: &[char], seen: bool) -> (r: Option<u64>)
    ensures
        r == spec_cursor(text@, seen),
{
    if seen || text.len() == 0 || !all_digit_chars(text) {
        return None;
    }
    assert(text@[0] != '+') by {
        assert(crate::text::is_digit(text@[0]));
    }
    crate::text::parse_bounded(text, u64::MAX)
}

// ---------------------------------------------------------------------------
// exec
// ---------------------------------------------------------------------------

/// One exec attempt: either token-bound completion, or a refusal that says what
/// happened to the session.
#[derive(Debug, Clone)]
pub enum ExecResult {
    Completed {
        id: String,
        /// The raw terminal bytes between the start of this command and its
        /// marker, before any presentation-layer stripping.
        output: Vec<u8>,
        exit_code: u8,
    },
    Failed {
        failure: HelperFailure,
        /// Present only when the helper resolved a session before failing.
        id: Option<String>,
        /// The pane's foreground command, when the refusal named it.
        foreground: Option<String>,
        /// Set only by a timeout, and only when the helper observed the pane
        /// returning to a prompt.
        recovered: bool,
    },
}

/// An exec answer, before its refusal code is given a type.
pub enum ExecAnswer {
    Refused { code: Vec<char>, id: Option<String>, foreground: Option<String>, recovered: bool },
    Protocol { id: Option<String> },
    Completed { id: String, output: Vec<u8>, exit_code: u8 },
}

/// `r` is what an exec answer in `stdout` says for `token`.
pub open spec fn exec_answer_is(r: ExecAnswer, stdout: Seq<char>, token: Seq<char>) -> bool {
    let ls = lines(stdout);
    match spec_field(ls, "RHOST_ERR="@) {
        Some(code) => match r {
            ExecAnswer::Refused { code: c, id, foreground, recovered } => {
                &&& c@ == code
                &&& opt_view(id) == nonempty(spec_field(ls, "RHOST_ID="@))
                &&& opt_view(foreground) == nonempty(spec_field(ls, "RHOST_FG="@))
                &&& recovered == (spec_field(ls, "RHOST_RECOVERED="@) == Some("1"@))
            },
            _ => false,
        },
        None => match exec_completion(exec_scan(ls), token) {
            Some((id, output, code)) => match r {
                ExecAnswer::Completed { id: rid, output: rout, exit_code } => rid@ == id
                    && rout@ == output && exit_code == code,
                _ => false,
            },
            None => match r {
                ExecAnswer::Protocol { id } => opt_view(id) == exec_scan(ls).id,
                _ => false,
            },
        },
    }
}

/// What the exec scan has seen so far.
pub struct ExecScan {
    pub id: Option<Seq<char>>,
    pub tokens: Seq<Seq<char>>,
    pub exits: Seq<Seq<char>>,
    pub outputs: Seq<Seq<char>>,
    pub broken: bool,
}

pub open spec fn exec_scan_start() -> ExecScan {
    ExecScan { id: None, tokens: seq![], exits: seq![], outputs: seq![], broken: false }
}

pub open spec fn exec_broken(st: ExecScan) -> ExecScan {
    ExecScan { id: st.id, tokens: st.tokens, exits: st.exits, outputs: st.outputs, broken: true }
}

/// One line of an exec answer: a field, a blank line, or a contradiction.
pub open spec fn exec_step(st: ExecScan, line: Seq<char>) -> ExecScan {
    if st.broken {
        st
    } else if has_prefix(line, "RHOST_TOKEN="@) {
        ExecScan {
            id: st.id,
            tokens: st.tokens.push(after(line, "RHOST_TOKEN="@)),
            exits: st.exits,
            outputs: st.outputs,
            broken: false,
        }
    } else if has_prefix(line, "RHOST_EXIT="@) {
        ExecScan {
            id: st.id,
            tokens: st.tokens,
            exits: st.exits.push(after(line, "RHOST_EXIT="@)),
            outputs: st.outputs,
            broken: false,
        }
    } else if has_prefix(line, "RHOST_OUTPUT="@) {
        ExecScan {
            id: st.id,
            tokens: st.tokens,
            exits: st.exits,
            outputs: st.outputs.push(after(line, "RHOST_OUTPUT="@)),
            broken: false,
        }
    } else if has_prefix(line, "RHOST_ID="@) {
        // A second identity is a contradiction, not the last word.
        if st.id is Some || after(line, "RHOST_ID="@).len() == 0 {
            exec_broken(st)
        } else {
            ExecScan {
                id: Some(after(line, "RHOST_ID="@)),
                tokens: st.tokens,
                exits: st.exits,
                outputs: st.outputs,
                broken: false,
            }
        }
    } else if line.len() == 0 {
        st
    } else {
        exec_broken(st)
    }
}

/// The scan state after the first `n` lines.
pub open spec fn exec_scan(ls: Seq<Seq<char>>) -> ExecScan
    decreases ls.len(),
{
    if ls.len() == 0 {
        exec_scan_start()
    } else {
        exec_step(exec_scan(ls.drop_last()), ls.last())
    }
}

/// A broken scan stays broken, with the identity it had.
pub proof fn lemma_exec_scan_frozen(ls: Seq<Seq<char>>, n: int)
    requires
        0 <= n <= ls.len(),
        exec_scan(ls.take(n)).broken,
    ensures
        exec_scan(ls).broken,
        exec_scan(ls).id == exec_scan(ls.take(n)).id,
    decreases ls.len() - n,
{
    if n == ls.len() {
        assert(ls.take(n) =~= ls);
    } else {
        assert(ls.take(n + 1).drop_last() =~= ls.take(n));
        lemma_exec_scan_frozen(ls, n + 1);
    }
}

/// The completion an exec answer proves, when it proves one: one identity,
/// exactly one token (this invocation's), one canonical status and one
/// decodable output.
pub open spec fn exec_completion(st: ExecScan, token: Seq<char>) -> Option<(Seq<char>, Seq<u8>, u8)> {
    if !st.broken && st.id is Some && st.tokens.len() == 1 && st.exits.len() == 1
        && st.outputs.len() == 1 && st.tokens[0] == token && spec_canonical_exit(st.exits[0]) is Some
        && spec_decode(trim(st.outputs[0])) is Some {
        Some((st.id->0, spec_decode(trim(st.outputs[0]))->0, spec_canonical_exit(st.exits[0])->0))
    } else {
        None
    }
}

/// Completion evidence belongs to one invocation: an answer that proves a
/// completion names exactly one token, and no refusal, so the same output
/// can never prove completions for two different tokens.
pub proof fn lemma_completion_is_bound_to_one_token(r1: ExecResult, r2: ExecResult, stdout: Seq<char>, t1: Seq<char>, t2: Seq<char>)
    requires
        exec_result_is(r1, stdout, t1),
        r1 is Completed,
    ensures
        spec_field(lines(stdout), "RHOST_ERR="@) is None,
        exec_scan(lines(stdout)).tokens == seq![t1],
        exec_result_is(r2, stdout, t2) && r2 is Completed ==> t1 == t2,
{
    let st = exec_scan(lines(stdout));
    assert(st.tokens =~= seq![t1]);
}

pub open spec fn opt_view(o: Option<String>) -> Option<Seq<char>> {
    match o {
        Some(s) => Some(s@),
        None => None,
    }
}

pub open spec fn nonempty(o: Option<Seq<char>>) -> Option<Seq<char>> {
    match o {
        Some(s) => if s.len() > 0 {
            Some(s)
        } else {
            None
        },
        None => None,
    }
}

/// `r` is the answer `parse_exec(stdout, token)` owes.
pub open spec fn exec_result_is(r: ExecResult, stdout: Seq<char>, token: Seq<char>) -> bool {
    let ls = lines(stdout);
    match spec_field(ls, "RHOST_ERR="@) {
        Some(code) => match r {
            ExecResult::Failed { failure, id, foreground, recovered } => {
                &&& decodes_to(failure, code)
                &&& opt_view(id) == nonempty(spec_field(ls, "RHOST_ID="@))
                &&& opt_view(foreground) == nonempty(spec_field(ls, "RHOST_FG="@))
                &&& recovered == (spec_field(ls, "RHOST_RECOVERED="@) == Some("1"@))
            },
            _ => false,
        },
        None => match exec_completion(exec_scan(ls), token) {
            Some((id, output, code)) => match r {
                ExecResult::Completed { id: rid, output: rout, exit_code } => rid@ == id
                    && rout@ == output && exit_code == code,
                _ => false,
            },
            None => match r {
                ExecResult::Failed { failure, id, foreground, recovered } => failure
                    == HelperFailure::Protocol && opt_view(id) == exec_scan(ls).id
                    && foreground is None && !recovered,
                _ => false,
            },
        },
    }
}

fn opt_string(o: Option<Vec<char>>) -> (r: Option<String>)
    ensures
        opt_view(r) == match o {
            Some(v) => Some(v@),
            None => None,
        },
{
    match o {
        Some(v) => Some(string_of(&v)),
        None => None,
    }
}

fn nonempty_string(o: Option<Vec<char>>) -> (r: Option<String>)
    ensures
        opt_view(r) == nonempty(
            match o {
                Some(v) => Some(v@),
                None => None,
            },
        ),
{
    match o {
        Some(v) => if v.len() > 0 {
            Some(string_of(&v))
        } else {
            None
        },
        None => None,
    }
}

fn protocol_failure(id: Option<Vec<char>>) -> (r: ExecAnswer)
    ensures
        match r {
            ExecAnswer::Protocol { id: rid } => opt_view(rid) == match id {
                Some(v) => Some(v@),
                None => None,
            },
            _ => false,
        },
{
    ExecAnswer::Protocol { id: opt_string(id) }
}

/// The refusal an exec answer reports when it carries `RHOST_ERR=`.
fn exec_refusal(ls: &Vec<Vec<char>>, code: Vec<char>) -> (r: ExecAnswer)
    requires
        spec_field(ls@.map_values(|l: Vec<char>| l@), "RHOST_ERR="@) == Some(code@),
    ensures
        exec_answer_is_refusal(r, ls@.map_values(|l: Vec<char>| l@), code@),
{
    let id = field_in(ls, &chars_of("RHOST_ID="));
    let foreground = field_in(ls, &chars_of("RHOST_FG="));
    let recovered = field_in(ls, &chars_of("RHOST_RECOVERED="));
    let recovered = match recovered {
        Some(v) => is_literal(&v, "1"),
        None => false,
    };
    ExecAnswer::Refused {
        code,
        id: nonempty_string(id),
        foreground: nonempty_string(foreground),
        recovered,
    }
}

pub open spec fn exec_answer_is_refusal(r: ExecAnswer, ls: Seq<Seq<char>>, code: Seq<char>) -> bool {
    match r {
        ExecAnswer::Refused { code: c, id, foreground, recovered } => {
            &&& c@ == code
            &&& opt_view(id) == nonempty(spec_field(ls, "RHOST_ID="@))
            &&& opt_view(foreground) == nonempty(spec_field(ls, "RHOST_FG="@))
            &&& recovered == (spec_field(ls, "RHOST_RECOVERED="@) == Some("1"@))
        },
        _ => false,
    }
}

pub open spec fn vec_views(v: Seq<Vec<char>>) -> Seq<Seq<char>> {
    v.map_values(|l: Vec<char>| l@)
}

/// Reads a `session exec` answer against the token this invocation submitted.
pub fn exec_answer(stdout: &str, expected_token: &str) -> (r: ExecAnswer)
    ensures
        exec_answer_is(r, stdout@, expected_token@),
{
    let ls = line_vecs(stdout);
    let ghost all = lines(stdout@);
    let token = chars_of(expected_token);
    let err_key = chars_of("RHOST_ERR=");
    if let Some(code) = field_in(&ls, &err_key) {
        return exec_refusal(&ls, code);
    }
    let token_key = chars_of("RHOST_TOKEN=");
    let exit_key = chars_of("RHOST_EXIT=");
    let output_key = chars_of("RHOST_OUTPUT=");
    let id_key = chars_of("RHOST_ID=");
    let mut id: Option<Vec<char>> = None;
    let mut tokens: Vec<Vec<char>> = Vec::new();
    let mut exits: Vec<Vec<char>> = Vec::new();
    let mut outputs: Vec<Vec<char>> = Vec::new();
    let mut i: usize = 0;
    while i < ls.len()
        invariant
            i <= ls.len(),
            vec_views(ls@) == all,
            all == lines(stdout@),
            spec_field(all, "RHOST_ERR="@) is None,
            token@ == expected_token@,
            token_key@ == "RHOST_TOKEN="@,
            exit_key@ == "RHOST_EXIT="@,
            output_key@ == "RHOST_OUTPUT="@,
            id_key@ == "RHOST_ID="@,
            !exec_scan(all.take(i as int)).broken,
            exec_scan(all.take(i as int)).id == match id {
                Some(v) => Some(v@),
                None => None,
            },
            exec_scan(all.take(i as int)).tokens == vec_views(tokens@),
            exec_scan(all.take(i as int)).exits == vec_views(exits@),
            exec_scan(all.take(i as int)).outputs == vec_views(outputs@),
        decreases ls.len() - i,
    {
        let line = &ls[i];
        let ghost prev = exec_scan(all.take(i as int));
        assert(all.take(i + 1).drop_last() =~= all.take(i as int));
        assert(all.take(i + 1).last() == line@);
        if let Some(value) = strip_key(line, &token_key) {
            tokens.push(value);
            assert(vec_views(tokens@) =~= prev.tokens.push(after(line@, "RHOST_TOKEN="@)));
        } else if let Some(value) = strip_key(line, &exit_key) {
            exits.push(value);
            assert(vec_views(exits@) =~= prev.exits.push(after(line@, "RHOST_EXIT="@)));
        } else if let Some(value) = strip_key(line, &output_key) {
            outputs.push(value);
            assert(vec_views(outputs@) =~= prev.outputs.push(after(line@, "RHOST_OUTPUT="@)));
        } else if let Some(value) = strip_key(line, &id_key) {
            if id.is_some() || value.len() == 0 {
                proof {
                    lemma_exec_scan_frozen(all, i + 1);
                    assert(all.take(all.len() as int) =~= all);
                }
                return protocol_failure(id);
            }
            id = Some(value);
        } else if line.len() == 0 {
        } else {
            proof {
                lemma_exec_scan_frozen(all, i + 1);
                assert(all.take(all.len() as int) =~= all);
            }
            return protocol_failure(id);
        }
        i = i + 1;
    }
    assert(all.take(ls.len() as int) =~= all);
    let ghost st = exec_scan(all);
    let the_id = match id {
        Some(v) => v,
        None => {
            return protocol_failure(None);
        },
    };
    if tokens.len() != 1 || exits.len() != 1 || outputs.len() != 1 {
        return protocol_failure(Some(the_id));
    }
    assert(st.tokens[0] == tokens@[0]@);
    assert(st.exits[0] == exits@[0]@);
    assert(st.outputs[0] == outputs@[0]@);
    if !chars_eq(&tokens[0], &token) {
        return protocol_failure(Some(the_id));
    }
    let exit_code = match canonical_exit(&exits[0]) {
        Some(code) => code,
        None => {
            return protocol_failure(Some(the_id));
        },
    };
    let trimmed = trim_chars(&outputs[0]);
    let output = match decode_chars(&trimmed) {
        Some(bytes) => bytes,
        None => {
            return protocol_failure(Some(the_id));
        },
    };
    ExecAnswer::Completed { id: string_of(&the_id), output, exit_code }
}

/// The records of a `session list` answer, or the helper's refusal. Reading
/// each record's metadata document and ordering the rows is
/// [`crate::session::remote::list::list_entries`].
pub fn list_records(stdout: &str) -> (r: Result<Vec<ListRecord>, HelperFailure>)
    ensures
        match spec_field(lines(stdout@), "RHOST_ERR="@) {
            Some(code) => r matches Err(f) && decodes_to(f, code),
            None => r matches Ok(v) && record_views(v@) == records_of(lines(stdout@), true),
        },
{
    match field(stdout, "RHOST_ERR=") {
        Some(code) => Err(HelperFailure::from_code(code.as_str())),
        None => Ok(scan_records(stdout, true)),
    }
}

/// Parses `session exec` output against the token this invocation submitted.
///
/// The token is what makes completion evidence *this* invocation's: output
/// without it, output carrying another token, or two answers in one stream are
/// all protocol failures rather than a status to report.
pub fn parse_exec(stdout: &str, expected_token: &str) -> (r: ExecResult)
    ensures
        exec_result_is(r, stdout@, expected_token@),
{
    match exec_answer(stdout, expected_token) {
        ExecAnswer::Refused { code, id, foreground, recovered } => ExecResult::Failed {
            failure: HelperFailure::from_chars(&code),
            id,
            foreground,
            recovered,
        },
        ExecAnswer::Protocol { id } => ExecResult::Failed {
            failure: HelperFailure::Protocol,
            id,
            foreground: None,
            recovered: false,
        },
        ExecAnswer::Completed { id, output, exit_code } => ExecResult::Completed {
            id,
            output,
            exit_code,
        },
    }
}


// ---------------------------------------------------------------------------
// read
// ---------------------------------------------------------------------------

/// One incremental read: a cursor window onto the pane log.
#[derive(Debug, Clone)]
pub struct ReadResult {
    pub id: String,
    pub from: u64,
    pub next: u64,
    pub size: u64,
    pub data: Vec<u8>,
}

/// What the read scan has seen so far.
pub struct ReadScan {
    pub id: Option<Seq<char>>,
    pub from: Option<u64>,
    pub next: Option<u64>,
    pub size: Option<u64>,
    pub encoded: Seq<char>,
    pub broken: bool,
}

pub open spec fn read_broken(st: ReadScan) -> ReadScan {
    ReadScan {
        id: st.id,
        from: st.from,
        next: st.next,
        size: st.size,
        encoded: st.encoded,
        broken: true,
    }
}

/// One line of a read answer: an identity, a cursor (each exactly once), a
/// page line, or an unknown field.
pub open spec fn read_step(st: ReadScan, line: Seq<char>) -> ReadScan {
    if st.broken {
        st
    } else if has_prefix(line, "RHOST_ID="@) {
        if st.id is Some || after(line, "RHOST_ID="@).len() == 0 {
            read_broken(st)
        } else {
            ReadScan {
                id: Some(after(line, "RHOST_ID="@)),
                from: st.from,
                next: st.next,
                size: st.size,
                encoded: st.encoded,
                broken: false,
            }
        }
    } else if has_prefix(line, "RHOST_FROM="@) {
        match spec_cursor(after(line, "RHOST_FROM="@), st.from is Some) {
            Some(v) => ReadScan {
                id: st.id,
                from: Some(v),
                next: st.next,
                size: st.size,
                encoded: st.encoded,
                broken: false,
            },
            None => read_broken(st),
        }
    } else if has_prefix(line, "RHOST_NEXT="@) {
        match spec_cursor(after(line, "RHOST_NEXT="@), st.next is Some) {
            Some(v) => ReadScan {
                id: st.id,
                from: st.from,
                next: Some(v),
                size: st.size,
                encoded: st.encoded,
                broken: false,
            },
            None => read_broken(st),
        }
    } else if has_prefix(line, "RHOST_SIZE="@) {
        match spec_cursor(after(line, "RHOST_SIZE="@), st.size is Some) {
            Some(v) => ReadScan {
                id: st.id,
                from: st.from,
                next: st.next,
                size: Some(v),
                encoded: st.encoded,
                broken: false,
            },
            None => read_broken(st),
        }
    } else if has_prefix(line, "RHOST_"@) {
        read_broken(st)
    } else {
        ReadScan {
            id: st.id,
            from: st.from,
            next: st.next,
            size: st.size,
            encoded: st.encoded + trim(line),
            broken: false,
        }
    }
}

pub open spec fn read_scan(ls: Seq<Seq<char>>) -> ReadScan
    decreases ls.len(),
{
    if ls.len() == 0 {
        ReadScan { id: None, from: None, next: None, size: None, encoded: seq![], broken: false }
    } else {
        read_step(read_scan(ls.drop_last()), ls.last())
    }
}

pub proof fn lemma_read_scan_frozen(ls: Seq<Seq<char>>, n: int)
    requires
        0 <= n <= ls.len(),
        read_scan(ls.take(n)).broken,
    ensures
        read_scan(ls).broken,
    decreases ls.len() - n,
{
    if n == ls.len() {
        assert(ls.take(n) =~= ls);
    } else {
        assert(ls.take(n + 1).drop_last() =~= ls.take(n));
        lemma_read_scan_frozen(ls, n + 1);
    }
}

/// The page a read answer proves: every field present, cursors that agree
/// (`from <= next <= size`), a decodable page, and, when `exact` is set, a page
/// exactly `next - from` bytes long.
pub open spec fn read_page(st: ReadScan, exact: bool) -> Option<(Seq<char>, u64, u64, u64, Seq<u8>)> {
    if st.broken || st.id is None || st.from is None || st.next is None || st.size is None {
        None
    } else if st.next->0 < st.from->0 || st.size->0 < st.next->0 {
        None
    } else {
        match spec_decode(st.encoded) {
            Some(data) => if exact && st.next->0 - st.from->0 != data.len() {
                None
            } else {
                Some((st.id->0, st.from->0, st.next->0, st.size->0, data))
            },
            None => None,
        }
    }
}

/// A read answer, before its refusal code is given a type.
pub enum ReadAnswer {
    Refused(Vec<char>),
    Protocol,
    Page(ReadResult),
}

/// `r` is what a read answer in `stdout` says.
pub open spec fn read_answer_is(r: ReadAnswer, stdout: Seq<char>, exact: bool) -> bool {
    let ls = lines(stdout);
    match spec_field(ls, "RHOST_ERR="@) {
        Some(code) => r matches ReadAnswer::Refused(c) && c@ == code,
        None => match read_page(read_scan(ls), exact) {
            Some((id, from, next, size, data)) => match r {
                ReadAnswer::Page(p) => p.id@ == id && p.from == from && p.next == next && p.size
                    == size && p.data@ == data,
                _ => false,
            },
            None => r is Protocol,
        },
    }
}

/// Reads a `session read` answer.
pub fn read_answer(stdout: &str, exact: bool) -> (r: ReadAnswer)
    ensures
        read_answer_is(r, stdout@, exact),
{
    let ls = line_vecs(stdout);
    let ghost all = lines(stdout@);
    if let Some(code) = field_in(&ls, &chars_of("RHOST_ERR=")) {
        return ReadAnswer::Refused(code);
    }
    let id_key = chars_of("RHOST_ID=");
    let from_key = chars_of("RHOST_FROM=");
    let next_key = chars_of("RHOST_NEXT=");
    let size_key = chars_of("RHOST_SIZE=");
    let field_prefix = chars_of("RHOST_");
    let mut id: Option<Vec<char>> = None;
    let mut from: Option<u64> = None;
    let mut next: Option<u64> = None;
    let mut size: Option<u64> = None;
    let mut encoded: Vec<char> = Vec::new();
    let mut i: usize = 0;
    while i < ls.len()
        invariant
            i <= ls.len(),
            vec_views(ls@) == all,
            all == lines(stdout@),
            spec_field(all, "RHOST_ERR="@) is None,
            id_key@ == "RHOST_ID="@,
            from_key@ == "RHOST_FROM="@,
            next_key@ == "RHOST_NEXT="@,
            size_key@ == "RHOST_SIZE="@,
            field_prefix@ == "RHOST_"@,
            !read_scan(all.take(i as int)).broken,
            read_scan(all.take(i as int)).id == match id {
                Some(v) => Some(v@),
                None => None,
            },
            read_scan(all.take(i as int)).from == from,
            read_scan(all.take(i as int)).next == next,
            read_scan(all.take(i as int)).size == size,
            read_scan(all.take(i as int)).encoded == encoded@,
        decreases ls.len() - i,
    {
        let line = &ls[i];
        let ghost prev = read_scan(all.take(i as int));
        assert(all.take(i + 1).drop_last() =~= all.take(i as int));
        assert(all.take(i + 1).last() == line@);
        let mut broken = false;
        if let Some(value) = strip_key(line, &id_key) {
            if id.is_some() || value.len() == 0 {
                broken = true;
            } else {
                id = Some(value);
            }
        } else if let Some(value) = strip_key(line, &from_key) {
            match parse_cursor(&value, from.is_some()) {
                Some(v) => {
                    from = Some(v);
                },
                None => {
                    broken = true;
                },
            }
        } else if let Some(value) = strip_key(line, &next_key) {
            match parse_cursor(&value, next.is_some()) {
                Some(v) => {
                    next = Some(v);
                },
                None => {
                    broken = true;
                },
            }
        } else if let Some(value) = strip_key(line, &size_key) {
            match parse_cursor(&value, size.is_some()) {
                Some(v) => {
                    size = Some(v);
                },
                None => {
                    broken = true;
                },
            }
        } else if starts_with(line, &field_prefix) {
            broken = true;
        } else {
            let t = trim_chars(line);
            let ghost before = encoded@;
            crate::text::append_vec(&mut encoded, &t);
            assert(encoded@ == before + trim(line@));
        }
        if broken {
            proof {
                lemma_read_scan_frozen(all, i + 1);
                assert(all.take(all.len() as int) =~= all);
            }
            return ReadAnswer::Protocol;
        }
        i = i + 1;
    }
    assert(all.take(ls.len() as int) =~= all);
    let (the_id, f, n, z) = match (id, from, next, size) {
        (Some(a), Some(b), Some(c), Some(d)) => (a, b, c, d),
        _ => {
            return ReadAnswer::Protocol;
        },
    };
    if n < f || z < n {
        return ReadAnswer::Protocol;
    }
    let data = match decode_chars(&encoded) {
        Some(d) => d,
        None => {
            return ReadAnswer::Protocol;
        },
    };
    if exact && n - f != data.len() as u64 {
        return ReadAnswer::Protocol;
    }
    ReadAnswer::Page(ReadResult { id: string_of(&the_id), from: f, next: n, size: z, data })
}

/// `r` is the answer `parse_read(stdout)` owes: the helper's own refusal, a
/// protocol failure, or the page.
pub open spec fn read_result_is(r: Result<ReadResult, HelperFailure>, stdout: Seq<char>) -> bool {
    let ls = lines(stdout);
    match spec_field(ls, "RHOST_ERR="@) {
        Some(code) => r matches Err(f) && decodes_to(f, code),
        None => match read_page(read_scan(ls), true) {
            Some((id, from, next, size, data)) => match r {
                Ok(p) => p.id@ == id && p.from == from && p.next == next && p.size == size
                    && p.data@ == data,
                Err(_) => false,
            },
            None => r == Err::<ReadResult, HelperFailure>(HelperFailure::Protocol),
        },
    }
}

/// A page is never accepted with inconsistent cursors: the window starts at
/// `from`, ends at `next` inside a log of `size` bytes, and carries exactly
/// the bytes between them.
pub proof fn lemma_accepted_page_is_consistent(r: Result<ReadResult, HelperFailure>, stdout: Seq<char>)
    requires
        read_result_is(r, stdout),
    ensures
        r matches Ok(page) ==> page.from <= page.next <= page.size && page.data@.len() == page.next - page.from,
{
}

/// Parses `session read` output. Each cursor field must appear exactly once,
/// the three must agree, and the page must be exactly as long as the cursors
/// say; the content is whatever non-field lines carry.
pub fn parse_read(stdout: &str) -> (r: Result<ReadResult, HelperFailure>)
    ensures
        read_result_is(r, stdout@),
{
    match read_answer(stdout, true) {
        ReadAnswer::Refused(code) => Err(HelperFailure::from_chars(&code)),
        ReadAnswer::Protocol => Err(HelperFailure::Protocol),
        ReadAnswer::Page(page) => Ok(page),
    }
}

} // verus!
