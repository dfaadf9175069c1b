//! The first edition of the session helper's line protocol.
//!
//! It reads the same lines as [`crate::session::remote::protocol`], with two
//! differences that belong to the older helper: its closed set of failure codes
//! has no `inputuncertain` and no `closefailed`, and a read page is accepted
//! whatever its length, as long as the cursors agree.
use vstd::prelude::*;
use crate::session::remote::protocol::{
    ExecAnswer, ReadAnswer, exec_answer, exec_completion, exec_scan,
    is_literal, nonempty, opt_view, read_answer, read_page, read_scan, spec_field,
};
use crate::text::lines;
pub use crate::session::remote::list::ListEntry;
use crate::session::remote::list::{records_of, record_views, scan_records, ListRecord};
use crate::text::{chars_of, string_of};

verus! {

/// Every failure this helper reports, as a closed set.
#[derive(Debug, Clone, PartialEq, Eq)]
pub enum HelperFailure {
    NoSession,
    SessionDied,
    Timeout,
    Locked,
    InputFailed,
    Busy,
    UnknownForeground,
    NoTty,
    NotReady,
    NoTmux,
    NoFlock,
    NameInUse,
    InvalidCwd,
    NewFailed,
    Protocol,
    Unknown(String),
}

/// The wire code of each failure.
pub open spec fn failure_code(f: HelperFailure) -> Seq<char> {
    match f {
        HelperFailure::NoSession => "nosession"@,
        HelperFailure::SessionDied => "sessiondied"@,
        HelperFailure::Timeout => "timeout"@,
        HelperFailure::Locked => "locked"@,
        HelperFailure::InputFailed => "inputfailed"@,
        HelperFailure::Busy => "busy"@,
        HelperFailure::UnknownForeground => "unknownfg"@,
        HelperFailure::NoTty => "notty"@,
        HelperFailure::NotReady => "notready"@,
        HelperFailure::NoTmux => "notmux"@,
        HelperFailure::NoFlock => "noflock"@,
        HelperFailure::NameInUse => "nameinuse"@,
        HelperFailure::InvalidCwd => "invalidcwd"@,
        HelperFailure::NewFailed => "newfailed"@,
        HelperFailure::Protocol => "protocol"@,
        HelperFailure::Unknown(code) => code@,
    }
}

/// A code this helper is allowed to print.
pub open spec fn is_known_code(c: Seq<char>) -> bool {
    c == "nosession"@ || c == "sessiondied"@ || c == "timeout"@ || c == "locked"@ || c
        == "inputfailed"@ || c == "busy"@ || c == "unknownfg"@ || c == "notty"@ || c
        == "notready"@ || c == "notmux"@ || c == "noflock"@ || c == "nameinuse"@ || c
        == "invalidcwd"@ || c == "newfailed"@ || c == "protocol"@
}

/// `f` is what `from_code(c)` gives.
pub open spec fn decodes_to(f: HelperFailure, c: Seq<char>) -> bool {
    failure_code(f) == c && (f is Unknown <==> !is_known_code(c))
}

impl HelperFailure {
    pub fn from_code(code: &str) -> (r: Self)
        ensures
            decodes_to(r, code@),
    {
        let c = chars_of(code);
        Self::from_chars(&c)
    }

    pub fn from_chars(c: &[char]) -> (r: Self)
        ensures
            decodes_to(r, c@),
    {
        if is_literal(c, "nosession") {
            Self::NoSession
        } else if is_literal(c, "sessiondied") {
            Self::SessionDied
        } else if is_literal(c, "timeout") {
            Self::Timeout
        } else if is_literal(c, "locked") {
            Self::Locked
        } else if is_literal(c, "inputfailed") {
            Self::InputFailed
        } else if is_literal(c, "busy") {
            Self::Busy
        } else if is_literal(c, "unknownfg") {
            Self::UnknownForeground
        } else if is_literal(c, "notty") {
            Self::NoTty
        } else if is_literal(c, "notready") {
            Self::NotReady
        } else if is_literal(c, "notmux") {
            Self::NoTmux
        } else if is_literal(c, "noflock") {
            Self::NoFlock
        } else if is_literal(c, "nameinuse") {
            Self::NameInUse
        } else if is_literal(c, "invalidcwd") {
            Self::InvalidCwd
        } else if is_literal(c, "newfailed") {
            Self::NewFailed
        } else if is_literal(c, "protocol") {
            Self::Protocol
        } else {
            Self::Unknown(string_of(c))
        }
    }

    pub fn code(&self) -> (r: String)
        ensures
            r@ == failure_code(*self),
    {
        match self {
            Self::NoSession => String::from_str("nosession"),
            Self::SessionDied => String::from_str("sessiondied"),
            Self::Timeout => String::from_str("timeout"),
            Self::Locked => String::from_str("locked"),
            Self::InputFailed => String::from_str("inputfailed"),
            Self::Busy => String::from_str("busy"),
            Self::UnknownForeground => String::from_str("unknownfg"),
            Self::NoTty => String::from_str("notty"),
            Self::NotReady => String::from_str("notready"),
            Self::NoTmux => String::from_str("notmux"),
            Self::NoFlock => String::from_str("noflock"),
            Self::NameInUse => String::from_str("nameinuse"),
            Self::InvalidCwd => String::from_str("invalidcwd"),
            Self::NewFailed => String::from_str("newfailed"),
            Self::Protocol => String::from_str("protocol"),
            Self::Unknown(code) => code.clone(),
        }
    }
}

/// The records of a `session list` answer, or the helper's refusal. This
/// edition's record has no sidecar field: the metadata runs to the end of the
/// line, and no row carries a resolved directory.
pub fn list_records(stdout: &str) -> (r: Result<Vec<ListRecord>, HelperFailure>)
    ensures
        match spec_field(lines(stdout@), "RHOST_ERR="@) {
            Some(code) => r matches Err(f) && decodes_to(f, code),
            None => r matches Ok(v) && record_views(v@) == records_of(lines(stdout@), false),
        },
{
    match field(stdout, "RHOST_ERR=") {
        Some(code) => Err(HelperFailure::from_code(code.as_str())),
        None => Ok(scan_records(stdout, false)),
    }
}

/// One exec attempt, as this helper reports it.
#[derive(Debug, Clone)]
pub enum ExecResult {
    Completed { id: String, output: Vec<u8>, exit_code: u8 },
    Failed {
        failure: HelperFailure,
        id: Option<String>,
        foreground: Option<String>,
        recovered: bool,
    },
}

/// One incremental read: a cursor window onto the pane log.
#[derive(Debug, Clone)]
pub struct ReadResult {
    pub id: String,
    pub from: u64,
    pub next: u64,
    pub size: u64,
    pub data: Vec<u8>,
}

/// The first value of one `KEY=value` line, or `None` when the helper printed
/// no line for that key.
pub fn field(stdout: &str, key: &str) -> (r: Option<String>)
    ensures
        match r {
            Some(v) => spec_field(lines(stdout@), key@) == Some(v@),
            None => spec_field(lines(stdout@), key@) is None,
        },
{
    crate::session::remote::protocol::field(stdout, key)
}

/// `r` is the answer `parse_exec(stdout, token)` owes.
pub open spec fn exec_result_is(r: ExecResult, stdout: Seq<char>, token: Seq<char>) -> bool {
    let ls = lines(stdout);
    match spec_field(ls, "RHOST_ERR="@) {
        Some(code) => match r {
            ExecResult::Failed { failure, id, foreground, recovered } => {
                &&& decodes_to(failure, code)
                &&& opt_view(id) == nonempty(spec_field(ls, "RHOST_ID="@))
                &&& opt_view(foreground) == nonempty(spec_field(ls, "RHOST_FG="@))
                &&& recovered == (spec_field(ls, "RHOST_RECOVERED="@) == Some("1"@))
            },
            _ => false,
        },
        None => match exec_completion(exec_scan(ls), token) {
            Some((id, output, code)) => match r {
                ExecResult::Completed { id: rid, output: rout, exit_code } => rid@ == id
                    && rout@ == output && exit_code == code,
                _ => false,
            },
            None => match r {
                ExecResult::Failed { failure, id, foreground, recovered } => failure
                    == HelperFailure::Protocol && opt_view(id) == exec_scan(ls).id
                    && foreground is None && !recovered,
                _ => false,
            },
        },
    }
}

/// Parses `session exec` output against the token this invocation submitted.
pub fn parse_exec(stdout: &str, expected_token: &str) -> (r: ExecResult)
    ensures
        exec_result_is(r, stdout@, expected_token@),
{
    match exec_answer(stdout, expected_token) {
        ExecAnswer::Refused { code, id, foreground, recovered } => ExecResult::Failed {
            failure: HelperFailure::from_chars(&code),
            id,
            foreground,
            recovered,
        },
        ExecAnswer::Protocol { id } => ExecResult::Failed {
            failure: HelperFailure::Protocol,
            id,
            foreground: None,
            recovered: false,
        },
        ExecAnswer::Completed { id, output, exit_code } => ExecResult::Completed {
            id,
            output,
            exit_code,
        },
    }
}

/// `r` is the answer `parse_read(stdout)` owes: the page length is not
/// checked against the cursors.
pub open spec fn read_result_is(r: Result<ReadResult, HelperFailure>, stdout: Seq<char>) -> bool {
    let ls = lines(stdout);
    match spec_field(ls, "RHOST_ERR="@) {
        Some(code) => r matches Err(f) && decodes_to(f, code),
        None => match read_page(read_scan(ls), false) {
            Some((id, from, next, size, data)) => match r {
                Ok(p) => p.id@ == id && p.from == from && p.next == next && p.size == size
                    && p.data@ == data,
                Err(_) => false,
            },
            None => r == Err::<ReadResult, HelperFailure>(HelperFailure::Protocol),
        },
    }
}

/// Parses `session read` output. Each cursor field must appear exactly once
/// and the three must agree; the content is whatever non-field lines carry.
pub fn parse_read(stdout: &str) -> (r: Result<ReadResult, HelperFailure>)
    ensures
        read_result_is(r, stdout@),
{
    match read_answer(stdout, false) {
        ReadAnswer::Refused(code) => Err(HelperFailure::from_chars(&code)),
        ReadAnswer::Protocol => Err(HelperFailure::Protocol),
        ReadAnswer::Page(page) => Ok(
            ReadResult {
                id: page.id,
                from: page.from,
                next: page.next,
                size: page.size,
                data: page.data,
            },
        ),
    }
}

} // verus!
