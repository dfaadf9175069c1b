//! The schema-v2 view of a session.
//!
//! Two of these carry partial data on failure, because the session's *state* is
//! the answer: an exec that timed out and a recover that found a program still
//! holding the pane both have to say what the session is like now.
use vstd::prelude::*;
use crate::domain::{Execution, SessionExecOutcome, SessionFailure};
use crate::output::{
    error, error_is, execution_dto, failure, host_field, pty_is, spec_execution_dto, Envelope,
    ExecutionDto, OutputDto,
};
use crate::remote::Error;
use crate::session::remote::protocol::opt_view;
use super::ops::{Created, Info, Read, Recover};

verus! {

/// One session record. `session_id` is the canonical identity; the name a
/// caller used is a separate field because it is not one.
#[derive(Debug, Clone)]
pub struct SessionInfoDto {
    pub session_id: String,
    pub name: String,
    pub tmux_session: String,
    pub created_at: String,
    /// Omitted when `None`: a session created without a cwd has none.
    pub initial_cwd: Option<String>,
    pub shell: String,
    pub status: &'static str,
}

/// The document shows a session record as it is.
pub open spec fn info_is(dto: SessionInfoDto, value: Info) -> bool {
    &&& dto.session_id@ == value.id@
    &&& dto.name@ == value.name@
    &&& dto.tmux_session@ == value.tmux_session@
    &&& dto.created_at@ == value.created_at@
    &&& opt_view(dto.initial_cwd) == (if value.initial_cwd@.len() == 0 {
        None
    } else {
        Some(value.initial_cwd@)
    })
    &&& dto.shell@ == value.shell@
    &&& dto.status@ == match value.status {
        crate::session::Status::Alive => "alive"@,
        crate::session::Status::Dead => "dead"@,
        crate::session::Status::Unknown => "unknown"@,
    }
}

pub fn info_dto(value: &Info) -> (r: SessionInfoDto)
    ensures
        info_is(r, *value),
{
    let initial_cwd = if value.initial_cwd.as_str().is_empty() {
        None
    } else {
        Some(value.initial_cwd.clone())
    };
    SessionInfoDto {
        session_id: value.id.clone(),
        name: value.name.clone(),
        tmux_session: value.tmux_session.clone(),
        created_at: value.created_at.clone(),
        initial_cwd,
        shell: value.shell.clone(),
        status: value.status.as_str(),
    }
}

/// The failure shape of `session.create`: the candidate identity this
/// invocation reserved, and what is known about whether the remote created it.
#[derive(Debug)]
pub struct SessionCreateFailureDto {
    pub session_id: String,
    pub session_ref: String,
    pub creation_status: &'static str,
}

/// A successful create always carries the record.
pub fn session_created(host: &str, value: &Created) -> (r: Envelope<SessionInfoDto>)
    requires
        value.info is Some,
    ensures
        r.schema_version == 2,
        r.operation@ == "session.create"@,
        r.ok,
        r.host matches Some(h) && h@ == host@,
        r.error is None,
        info_is(r.data, value.info->0),
{
    let info = match &value.info {
        Some(info) => info_dto(info),
        None => vstd::pervasive::unreached(),
    };
    Envelope {
        schema_version: 2,
        operation: "session.create",
        ok: true,
        host: Some(String::from_str(host)),
        error: None,
        data: info,
    }
}

/// A failed create names the candidate identity, so a caller that lost the
/// answer uses `session list` instead of retrying blind.
pub fn session_create_failure(host: &str, value: &Created) -> (r: Envelope<SessionCreateFailureDto>)
    ensures
        r.schema_version == 2,
        r.operation@ == "session.create"@,
        !r.ok,
        r.host matches Some(h) && h@ == host@,
        match value.error {
            Some(e) => error_is(r.error, e.code@, e.message@, e.retryable),
            None => error_is(r.error, "INTERNAL"@, "missing create failure"@, false),
        },
        r.data.session_id@ == value.candidate_id@,
        r.data.session_ref@ == value.candidate_ref@,
        r.data.creation_status@ == value.creation_status.spec_as_str(),
{
    let err = match &value.error {
        Some(e) => error(e.code, e.message.as_str(), e.retryable),
        None => error("INTERNAL", "missing create failure", false),
    };
    Envelope {
        schema_version: 2,
        operation: "session.create",
        ok: false,
        host: Some(String::from_str(host)),
        data: SessionCreateFailureDto {
            session_id: value.candidate_id.clone(),
            session_ref: value.candidate_ref.clone(),
            creation_status: value.creation_status.as_str(),
        },
        error: Some(err),
    }
}

/// Every session record.
#[derive(Debug)]
pub struct SessionsDto {
    pub sessions: Vec<SessionInfoDto>,
}

/// `session.list`: every record, in the order given.
pub fn sessions(host: &str, rows: &[Info]) -> (r: Envelope<SessionsDto>)
    ensures
        r.schema_version == 2,
        r.operation@ == "session.list"@,
        r.ok,
        r.host matches Some(h) && h@ == host@,
        r.error is None,
        r.data.sessions.len() == rows.len(),
        forall|i: int| 0 <= i < rows.len() ==> info_is(#[trigger] r.data.sessions@[i], rows@[i]),
{
    let mut out: Vec<SessionInfoDto> = Vec::new();
    let mut i: usize = 0;
    while i < rows.len()
        invariant
            i <= rows.len(),
            out.len() == i,
            forall|k: int| 0 <= k < i ==> info_is(#[trigger] out@[k], rows@[k]),
        decreases rows.len() - i,
    {
        out.push(info_dto(&rows[i]));
        i = i + 1;
    }
    Envelope {
        schema_version: 2,
        operation: "session.list",
        ok: true,
        host: Some(String::from_str(host)),
        data: SessionsDto { sessions: out },
        error: None,
    }
}

/// The `session.exec` data.
#[derive(Debug)]
pub struct SessionExecDto {
    pub session_id: Option<String>,
    pub session_ref: String,
    pub execution: ExecutionDto,
    pub output: OutputDto,
    pub session_preserved: bool,
}

/// A refusal names what owns the pane: the caller's next move is to drive or
/// interrupt *that* program.
pub open spec fn spec_busy_message(foreground: Option<Seq<char>>) -> Seq<char> {
    "session foreground is "@ + (match foreground {
        Some(f) => f,
        None => "another program"@,
    }) + ", not the managed shell; use session send/read, or session recover"@
}

fn busy_message(foreground: &Option<String>) -> (r: String)
    ensures
        r@ == spec_busy_message(opt_view(*foreground)),
{
    let mut m = String::from_str("session foreground is ");
    match foreground {
        Some(f) => m.append(f.as_str()),
        None => m.append("another program"),
    }
    m.append(", not the managed shell; use session send/read, or session recover");
    m
}

/// The stable code, message and retryability one session outcome reports.
pub open spec fn spec_session_exec_failure(failure: Option<SessionFailure>, foreground: Option<Seq<char>>) -> Option<(Seq<char>, Seq<char>, bool)> {
    match failure {
        None => None,
        Some(SessionFailure::WriterBusy) => Some(("SESSION_UNHEALTHY"@, "another session writer holds the lock"@, true)),
        Some(SessionFailure::Busy) => Some(("SESSION_BUSY"@, spec_busy_message(foreground), true)),
        Some(SessionFailure::Timeout) => Some(("REMOTE_COMMAND_TIMEOUT"@, "session command deadline exceeded"@, false)),
        Some(SessionFailure::Unhealthy) => Some(("SESSION_UNHEALTHY"@, "session completion evidence is invalid or missing"@, false)),
        Some(SessionFailure::NotFound) => Some(("SESSION_NOT_FOUND"@, "session could not be resolved"@, false)),
    }
}

/// The stable code, message and retryability one session outcome reports.
///
/// It is one function because both renderings read it: the envelope and the
/// human status line must not be able to disagree about why a command did not
/// run.
pub fn session_exec_failure(result: &SessionExecOutcome) -> (r: Option<(&'static str, String, bool)>)
    ensures
        match r {
            Some((code, message, retryable)) => spec_session_exec_failure(result.failure, opt_view(result.foreground))
                == Some((code@, message@, retryable)),
            None => spec_session_exec_failure(result.failure, opt_view(result.foreground)) is None,
        },
{
    match result.failure {
        None => None,
        Some(SessionFailure::WriterBusy) => Some(("SESSION_UNHEALTHY", String::from_str("another session writer holds the lock"), true)),
        Some(SessionFailure::Busy) => Some(("SESSION_BUSY", busy_message(&result.foreground), true)),
        Some(SessionFailure::Timeout) => Some(("REMOTE_COMMAND_TIMEOUT", String::from_str("session command deadline exceeded"), false)),
        Some(SessionFailure::Unhealthy) => Some(("SESSION_UNHEALTHY", String::from_str("session completion evidence is invalid or missing"), false)),
        Some(SessionFailure::NotFound) => Some(("SESSION_NOT_FOUND", String::from_str("session could not be resolved"), false)),
    }
}

/// What the process exits with: the remote command's own status when it
/// completed, 124 when the deadline was hit, and 255 otherwise.
pub open spec fn spec_session_exec_status(failure: Option<SessionFailure>, execution: Execution) -> u8 {
    match failure {
        Some(SessionFailure::Timeout) => 124,
        Some(_) => 255,
        None => match execution {
            Execution::Completed(code) => code,
            _ => 255,
        },
    }
}

pub fn session_exec_status(result: &SessionExecOutcome) -> (r: u8)
    ensures
        r == spec_session_exec_status(result.failure, result.execution),
{
    match session_exec_failure(result) {
        Some((code, _, _)) => {
            let timeout = match result.failure {
                Some(SessionFailure::Timeout) => true,
                _ => false,
            };
            proof {
                reveal_strlit("REMOTE_COMMAND_TIMEOUT");
                reveal_strlit("SESSION_UNHEALTHY");
                reveal_strlit("SESSION_BUSY");
                reveal_strlit("SESSION_NOT_FOUND");
            }
            if timeout {
                124
            } else {
                255
            }
        },
        None => match result.execution {
            Execution::Completed(code) => code,
            _ => 255,
        },
    }
}

/// `session.exec`: `ok` exactly when there was no failure; the session's
/// identity, execution, terminal output and whether it was preserved are
/// reported either way.
pub fn session_exec(host: &str, result: &SessionExecOutcome) -> (r: Envelope<SessionExecDto>)
    ensures
        r.schema_version == 2,
        r.operation@ == "session.exec"@,
        r.ok == (result.failure is None),
        r.host matches Some(h) && h@ == host@,
        match spec_session_exec_failure(result.failure, opt_view(result.foreground)) {
            Some((code, message, retryable)) => error_is(r.error, code, message, retryable),
            None => r.error is None,
        },
        opt_view(r.data.session_id) == opt_view(result.id),
        r.data.session_ref@ == result.reference@,
        r.data.execution == spec_execution_dto(result.execution),
        r.data.session_preserved == result.preserved,
        pty_is(r.data.output, result.output),
{
    let failure = match session_exec_failure(result) {
        Some((code, message, retryable)) => Some(error(code, message.as_str(), retryable)),
        None => None,
    };
    let id = match &result.id {
        Some(id) => Some(id.clone()),
        None => None,
    };
    Envelope {
        schema_version: 2,
        operation: "session.exec",
        ok: result.failure.is_none(),
        host: Some(String::from_str(host)),
        error: failure,
        data: SessionExecDto {
            session_id: id,
            session_ref: result.reference.clone(),
            execution: execution_dto(result.execution),
            session_preserved: result.preserved,
            output: OutputDto::Pty {
                content: result.output.content.clone(),
                bytes: result.output.bytes,
                truncated: result.output.truncated,
            },
        },
    }
}

/// One page of a pane log.
#[derive(Debug)]
pub struct SessionReadDto {
    pub session_id: String,
    pub session_ref: String,
    pub content: String,
    pub encoding: &'static str,
    pub from: u64,
    pub next: u64,
    pub more: bool,
}

/// `session.read`.
pub fn session_read(host: &str, result: &Read) -> (r: Envelope<SessionReadDto>)
    ensures
        r.schema_version == 2,
        r.operation@ == "session.read"@,
        r.ok,
        r.host matches Some(h) && h@ == host@,
        r.error is None,
        r.data.session_id@ == result.id@,
        r.data.session_ref@ == result.reference@,
        r.data.content@ == result.content@,
        r.data.encoding@ == "utf-8"@,
        r.data.from == result.from,
        r.data.next == result.next,
        r.data.more == (result.next < result.size),
{
    Envelope {
        schema_version: 2,
        operation: "session.read",
        ok: true,
        host: Some(String::from_str(host)),
        data: SessionReadDto {
            session_id: result.id.clone(),
            session_ref: result.reference.clone(),
            content: result.content.clone(),
            encoding: "utf-8",
            from: result.from,
            next: result.next,
            more: result.more(),
        },
        error: None,
    }
}

/// A recover's state.
#[derive(Debug)]
pub struct SessionRecoverDto {
    pub session_id: Option<String>,
    pub session_ref: String,
    pub session_preserved: bool,
    /// Omitted when `None`.
    pub foreground: Option<String>,
}

/// Recovery reports its own state on both paths: whether the shell came back
/// is the answer, and a failure without it would be a failure to say.
pub fn session_recover(host: &str, result: &Recover) -> (r: Envelope<SessionRecoverDto>)
    ensures
        r.schema_version == 2,
        r.operation@ == "session.recover"@,
        r.ok == (result.failure is None),
        r.host matches Some(h) && h@ == host@,
        match result.failure {
            Some(e) => error_is(r.error, e.code@, e.message@, e.retryable),
            None => r.error is None,
        },
        opt_view(r.data.session_id) == opt_view(result.id),
        r.data.session_ref@ == result.reference@,
        r.data.session_preserved == result.preserved,
        opt_view(r.data.foreground) == opt_view(result.foreground),
{
    let id = match &result.id {
        Some(id) => Some(id.clone()),
        None => None,
    };
    let foreground = match &result.foreground {
        Some(f) => Some(f.clone()),
        None => None,
    };
    let data = SessionRecoverDto {
        session_id: id,
        session_ref: result.reference.clone(),
        session_preserved: result.preserved,
        foreground,
    };
    match &result.failure {
        None => Envelope {
            schema_version: 2,
            operation: "session.recover",
            ok: true,
            host: Some(String::from_str(host)),
            data,
            error: None,
        },
        Some(f) => Envelope {
            schema_version: 2,
            operation: "session.recover",
            ok: false,
            host: Some(String::from_str(host)),
            data,
            error: Some(error(f.code, f.message.as_str(), f.retryable)),
        },
    }
}

/// The injected data may be sensitive, so the answer never echoes it.
#[derive(Debug)]
pub struct SessionSentDto {
    pub sent: bool,
}

/// `session.send`: `sent` is the whole claim, made only after the helper
/// confirmed the input.
pub fn session_sent(host: &str) -> (r: Envelope<SessionSentDto>)
    ensures
        r.schema_version == 2,
        r.operation@ == "session.send"@,
        r.ok,
        r.host matches Some(h) && h@ == host@,
        r.error is None,
        r.data.sent,
{
    Envelope {
        schema_version: 2,
        operation: "session.send",
        ok: true,
        host: Some(String::from_str(host)),
        data: SessionSentDto { sent: true },
        error: None,
    }
}

#[derive(Debug)]
pub struct SessionClosedDto {
    pub closed: bool,
}

/// `session.close`.
pub fn session_closed(host: &str) -> (r: Envelope<SessionClosedDto>)
    ensures
        r.schema_version == 2,
        r.operation@ == "session.close"@,
        r.ok,
        r.host matches Some(h) && h@ == host@,
        r.error is None,
        r.data.closed,
{
    Envelope {
        schema_version: 2,
        operation: "session.close",
        ok: true,
        host: Some(String::from_str(host)),
        data: SessionClosedDto { closed: true },
        error: None,
    }
}

/// A session failure that carries no partial state, phrased once so the code
/// and its retryability cannot drift between call sites.
pub fn session_failure(operation: &'static str, host: &str, reason: &Error) -> (r: Envelope<Option<()>>)
    ensures
        r.schema_version == 2,
        r.operation == operation,
        !r.ok,
        opt_view(r.host) == host_field(host@),
        r.data is None,
        error_is(r.error, reason.code@, reason.message@, reason.retryable),
{
    failure(operation, host, reason.code, reason.message.as_str(), reason.retryable)
}

} // verus!
