//! The schema-v2 documents: one envelope shape for every answer, and the
//! explicit mapping from domain values to it. Domain values never know how
//! they are printed; serialising an envelope belongs to the program around the
//! library.
pub mod doctor;
pub mod tunnel;

use vstd::prelude::*;
use crate::domain::{
    CancelSignal, CapturedText, CleanupEvidence, ExecFailure, ExecOutcome, Execution, Interruption,
    PreExecFailure, SessionExecOutcome, SessionFailure,
};
use crate::session::remote::protocol::opt_view;

verus! {

/// The one document every operation answers with.
#[derive(Debug)]
pub struct Envelope<T> {
    pub schema_version: u8,
    pub operation: &'static str,
    pub ok: bool,
    /// Omitted from the document when `None`.
    pub host: Option<String>,
    pub data: T,
    pub error: Option<ErrorPayload>,
}

/// A failure as an agent reads it: the stable code it branches on, a message
/// for a person, and whether retrying is safe.
#[derive(Debug, Clone)]
pub struct ErrorPayload {
    pub code: &'static str,
    pub message: String,
    pub retryable: bool,
}

/// `p` says exactly this.
pub open spec fn payload_is(p: ErrorPayload, code: Seq<char>, message: Seq<char>, retryable: bool) -> bool {
    p.code@ == code && p.message@ == message && p.retryable == retryable
}

/// An optional payload says exactly this.
pub open spec fn error_is(e: Option<ErrorPayload>, code: Seq<char>, message: Seq<char>, retryable: bool) -> bool {
    e matches Some(p) && payload_is(p, code, message, retryable)
}

/// Builds one error payload.
pub fn error(code: &'static str, message: &str, retryable: bool) -> (r: ErrorPayload)
    ensures
        payload_is(r, code@, message@, retryable),
{
    ErrorPayload { code, message: String::from_str(message), retryable }
}

/// The host a document names: omitted when the caller named none.
pub open spec fn host_field(host: Seq<char>) -> Option<Seq<char>> {
    if host.len() == 0 {
        None
    } else {
        Some(host)
    }
}

pub(crate) fn host_of(host: &str) -> (r: Option<String>)
    ensures
        opt_view(r) == host_field(host@),
{
    if host.is_empty() {
        None
    } else {
        Some(String::from_str(host))
    }
}

/// A failure that carries no partial state.
pub fn failure(operation: &'static str, host: &str, code: &'static str, message: &str, retryable: bool) -> (r: Envelope<Option<()>>)
    ensures
        r.schema_version == 2,
        r.operation == operation,
        !r.ok,
        opt_view(r.host) == host_field(host@),
        r.data is None,
        error_is(r.error, code@, message@, retryable),
{
    Envelope {
        schema_version: 2,
        operation,
        ok: false,
        host: host_of(host),
        data: None,
        error: Some(error(code, message, retryable)),
    }
}

/// A command line that could not be understood.
pub fn usage(message: &str) -> (r: Envelope<Option<()>>)
    ensures
        r.schema_version == 2,
        r.operation@ == "usage"@,
        !r.ok,
        r.host is None,
        r.data is None,
        error_is(r.error, "USAGE_ERROR"@, message@, false),
{
    Envelope {
        schema_version: 2,
        operation: "usage",
        ok: false,
        host: None,
        data: None,
        error: Some(error("USAGE_ERROR", message, false)),
    }
}

/// The build this binary is.
#[derive(Debug)]
pub struct VersionDto {
    pub version: String,
    pub commit: String,
    pub build_date: String,
    pub schema_version: u8,
}

/// `version`: what this build is. The program around the library supplies
/// the package version and the build's commit and date (`none` and `unknown`
/// when they were not recorded).
pub fn version(package_version: &str, commit: &str, build_date: &str) -> (r: Envelope<VersionDto>)
    ensures
        r.schema_version == 2,
        r.operation@ == "version"@,
        r.ok,
        r.host is None,
        r.error is None,
        r.data.version@ == package_version@,
        r.data.commit@ == commit@,
        r.data.build_date@ == build_date@,
        r.data.schema_version == 2,
{
    Envelope {
        schema_version: 2,
        operation: "version",
        ok: true,
        host: None,
        error: None,
        data: VersionDto {
            version: String::from_str(package_version),
            commit: String::from_str(commit),
            build_date: String::from_str(build_date),
            schema_version: 2,
        },
    }
}

/// What is known of a command's completion, as the document says it.
#[derive(Debug, Clone, Copy, PartialEq, Eq, Structural)]
pub enum ExecutionDto {
    Completed { exit_code: u8 },
    Unknown,
    NotStarted,
}

/// The document's spelling of an execution.
pub open spec fn spec_execution_dto(value: Execution) -> ExecutionDto {
    match value {
        Execution::Completed(code) => ExecutionDto::Completed { exit_code: code },
        Execution::Unknown => ExecutionDto::Unknown,
        Execution::NotStarted => ExecutionDto::NotStarted,
    }
}

pub fn execution_dto(value: Execution) -> (r: ExecutionDto)
    ensures
        r == spec_execution_dto(value),
{
    match value {
        Execution::Completed(code) => ExecutionDto::Completed { exit_code: code },
        Execution::Unknown => ExecutionDto::Unknown,
        Execution::NotStarted => ExecutionDto::NotStarted,
    }
}

/// One captured stream in the document.
#[derive(Debug, Clone)]
pub struct CaptureDto {
    pub content: String,
    pub bytes: u64,
    pub truncated: bool,
}

/// The document carries a capture unchanged.
pub open spec fn capture_is(dto: CaptureDto, value: CapturedText) -> bool {
    dto.content@ == value.content@ && dto.bytes == value.bytes && dto.truncated == value.truncated
}

pub fn capture_dto(value: &CapturedText) -> (r: CaptureDto)
    ensures
        capture_is(r, *value),
{
    CaptureDto { content: value.content.clone(), bytes: value.bytes, truncated: value.truncated }
}

/// A command's output: two streams, or one terminal.
#[derive(Debug, Clone)]
pub enum OutputDto {
    Streams { stdout: CaptureDto, stderr: CaptureDto },
    Pty { content: String, bytes: u64, truncated: bool },
}

/// What a cleanup established, as the document says it.
#[derive(Debug, Clone, Copy)]
pub struct CleanupDto {
    pub status: &'static str,
}

pub open spec fn spec_cleanup_status(value: CleanupEvidence) -> Seq<char> {
    match value {
        CleanupEvidence::NotAttempted => "not_attempted"@,
        CleanupEvidence::ConfirmedStopped => "confirmed_stopped"@,
        CleanupEvidence::Unconfirmed => "unconfirmed"@,
    }
}

/// The `exec` data.
#[derive(Debug)]
pub struct ExecDto {
    pub execution: ExecutionDto,
    pub cleanup: CleanupDto,
    pub output: OutputDto,
    pub duration_ms: u64,
    /// Omitted from the document when `None`.
    pub cancel_signal: Option<&'static str>,
}

/// The code, message and retryability an exec failure reports.
pub open spec fn spec_exec_error(reason: ExecFailure) -> (Seq<char>, Seq<char>, bool) {
    match reason {
        ExecFailure::Interrupted(Interruption::Timeout) => ("REMOTE_COMMAND_TIMEOUT"@, "deadline exceeded; side effects may remain"@, false),
        ExecFailure::Interrupted(Interruption::Cancelled(_)) => ("REMOTE_COMMAND_CANCELLED"@, "local invocation cancelled; side effects may remain"@, false),
        ExecFailure::ExecutionUnknown => ("REMOTE_EXECUTION_UNKNOWN"@, "completion evidence is missing"@, false),
        ExecFailure::OutputWriteFailed => ("OUTPUT_WRITE_FAILED"@, "command output delivery failed"@, false),
        ExecFailure::BeforeSubmission(p) => match p {
            PreExecFailure::Usage => ("USAGE_ERROR"@, "invalid command arguments"@, false),
            PreExecFailure::Config => ("CONFIG_INVALID"@, "invalid configuration"@, false),
            PreExecFailure::HostUnknown => ("HOST_UNKNOWN"@, "target could not be resolved"@, false),
            PreExecFailure::Authentication => ("SSH_AUTH_FAILED"@, "OpenSSH authentication failed"@, false),
            PreExecFailure::HostKey => ("HOST_KEY_FAILED"@, "OpenSSH host key verification failed"@, false),
            PreExecFailure::Connection => ("SSH_UNREACHABLE"@, "connection failed before command submission"@, true),
            PreExecFailure::DependencyMissing => ("REMOTE_DEPENDENCY_MISSING"@, "required remote dependency is unavailable"@, false),
        },
    }
}

fn exec_error(reason: ExecFailure) -> (r: ErrorPayload)
    ensures
        payload_is(r, spec_exec_error(reason).0, spec_exec_error(reason).1, spec_exec_error(reason).2),
{
    match reason {
        ExecFailure::Interrupted(Interruption::Timeout) => error("REMOTE_COMMAND_TIMEOUT", "deadline exceeded; side effects may remain", false),
        ExecFailure::Interrupted(Interruption::Cancelled(_)) => error("REMOTE_COMMAND_CANCELLED", "local invocation cancelled; side effects may remain", false),
        ExecFailure::ExecutionUnknown => error("REMOTE_EXECUTION_UNKNOWN", "completion evidence is missing", false),
        ExecFailure::OutputWriteFailed => error("OUTPUT_WRITE_FAILED", "command output delivery failed", false),
        ExecFailure::BeforeSubmission(p) => match p {
            PreExecFailure::Usage => error("USAGE_ERROR", "invalid command arguments", false),
            PreExecFailure::Config => error("CONFIG_INVALID", "invalid configuration", false),
            PreExecFailure::HostUnknown => error("HOST_UNKNOWN", "target could not be resolved", false),
            PreExecFailure::Authentication => error("SSH_AUTH_FAILED", "OpenSSH authentication failed", false),
            PreExecFailure::HostKey => error("HOST_KEY_FAILED", "OpenSSH host key verification failed", false),
            PreExecFailure::Connection => error("SSH_UNREACHABLE", "connection failed before command submission", true),
            PreExecFailure::DependencyMissing => error("REMOTE_DEPENDENCY_MISSING", "required remote dependency is unavailable", false),
        },
    }
}

/// The signal that cancelled the command, when one did.
pub open spec fn spec_cancel_signal(failure: Option<ExecFailure>) -> Option<Seq<char>> {
    match failure {
        Some(ExecFailure::Interrupted(Interruption::Cancelled(CancelSignal::Int))) => Some("SIGINT"@),
        Some(ExecFailure::Interrupted(Interruption::Cancelled(CancelSignal::Term))) => Some("SIGTERM"@),
        _ => None,
    }
}

/// An optional static text, as characters.
pub open spec fn static_view(o: Option<&'static str>) -> Option<Seq<char>> {
    match o {
        Some(s) => Some(s@),
        None => None,
    }
}

/// The `exec` envelope: `ok` exactly when there was no failure, the failure's
/// code and message, and the command's execution, cleanup, output, duration
/// and cancelling signal.
pub fn exec(host: &str, result: &ExecOutcome) -> (r: Envelope<ExecDto>)
    ensures
        r.schema_version == 2,
        r.operation@ == "exec"@,
        r.ok == (result.failure is None),
        r.host matches Some(h) && h@ == host@,
        match result.failure {
            Some(f) => error_is(r.error, spec_exec_error(f).0, spec_exec_error(f).1, spec_exec_error(f).2),
            None => r.error is None,
        },
        r.data.execution == spec_execution_dto(result.execution),
        r.data.cleanup.status@ == spec_cleanup_status(result.cleanup),
        r.data.output matches OutputDto::Streams { stdout, stderr } && capture_is(stdout, result.stdout)
            && capture_is(stderr, result.stderr),
        r.data.duration_ms == result.duration_ms,
        static_view(r.data.cancel_signal) == spec_cancel_signal(result.failure),
{
    let failure = match result.failure {
        Some(reason) => Some(exec_error(reason)),
        None => None,
    };
    let signal = match result.failure {
        Some(ExecFailure::Interrupted(Interruption::Cancelled(CancelSignal::Int))) => Some("SIGINT"),
        Some(ExecFailure::Interrupted(Interruption::Cancelled(CancelSignal::Term))) => Some("SIGTERM"),
        _ => None,
    };
    let status = match result.cleanup {
        CleanupEvidence::NotAttempted => "not_attempted",
        CleanupEvidence::ConfirmedStopped => "confirmed_stopped",
        CleanupEvidence::Unconfirmed => "unconfirmed",
    };
    Envelope {
        schema_version: 2,
        operation: "exec",
        ok: result.failure.is_none(),
        host: Some(String::from_str(host)),
        error: failure,
        data: ExecDto {
            execution: execution_dto(result.execution),
            cleanup: CleanupDto { status },
            output: OutputDto::Streams { stdout: capture_dto(&result.stdout), stderr: capture_dto(&result.stderr) },
            duration_ms: result.duration_ms,
            cancel_signal: signal,
        },
    }
}

/// The `session.exec` data.
#[derive(Debug)]
pub struct SessionExecDto {
    pub session_id: Option<String>,
    pub session_ref: String,
    pub execution: ExecutionDto,
    pub output: OutputDto,
    pub session_preserved: bool,
}

/// The code, message and retryability a session command failure reports in
/// the plain envelope.
pub open spec fn spec_session_error(reason: SessionFailure) -> (Seq<char>, Seq<char>, bool) {
    match reason {
        SessionFailure::WriterBusy => ("SESSION_UNHEALTHY"@, "another session writer holds the lock"@, true),
        SessionFailure::Busy => ("SESSION_BUSY"@, "managed shell does not own the pane"@, true),
        SessionFailure::Timeout => ("REMOTE_COMMAND_TIMEOUT"@, "session command deadline exceeded"@, false),
        SessionFailure::Unhealthy => ("SESSION_UNHEALTHY"@, "session completion evidence is invalid or missing"@, false),
        SessionFailure::NotFound => ("SESSION_NOT_FOUND"@, "session could not be resolved"@, false),
    }
}

/// The session's terminal output as the document carries it.
pub open spec fn pty_is(dto: OutputDto, value: CapturedText) -> bool {
    dto matches OutputDto::Pty { content, bytes, truncated } && content@ == value.content@ && bytes
        == value.bytes && truncated == value.truncated
}

/// The `session.exec` envelope in its plain form: `ok` exactly when there was
/// no failure, and the session's identity, execution, output and whether it
/// was preserved.
pub fn session_exec(host: &str, result: &SessionExecOutcome) -> (r: Envelope<SessionExecDto>)
    ensures
        r.schema_version == 2,
        r.operation@ == "session.exec"@,
        r.ok == (result.failure is None),
        r.host matches Some(h) && h@ == host@,
        match result.failure {
            Some(f) => error_is(r.error, spec_session_error(f).0, spec_session_error(f).1, spec_session_error(f).2),
            None => r.error is None,
        },
        opt_view(r.data.session_id) == opt_view(result.id),
        r.data.session_ref@ == result.reference@,
        r.data.execution == spec_execution_dto(result.execution),
        r.data.session_preserved == result.preserved,
        pty_is(r.data.output, result.output),
{
    let failure = match result.failure {
        Some(SessionFailure::WriterBusy) => Some(error("SESSION_UNHEALTHY", "another session writer holds the lock", true)),
        Some(SessionFailure::Busy) => Some(error("SESSION_BUSY", "managed shell does not own the pane", true)),
        Some(SessionFailure::Timeout) => Some(error("REMOTE_COMMAND_TIMEOUT", "session command deadline exceeded", false)),
        Some(SessionFailure::Unhealthy) => Some(error("SESSION_UNHEALTHY", "session completion evidence is invalid or missing", false)),
        Some(SessionFailure::NotFound) => Some(error("SESSION_NOT_FOUND", "session could not be resolved", false)),
        None => None,
    };
    let id = match &result.id {
        Some(id) => Some(id.clone()),
        None => None,
    };
    Envelope {
        schema_version: 2,
        operation: "session.exec",
        ok: result.failure.is_none(),
        host: Some(String::from_str(host)),
        error: failure,
        data: SessionExecDto {
            session_id: id,
            session_ref: result.reference.clone(),
            execution: execution_dto(result.execution),
            session_preserved: result.preserved,
            output: OutputDto::Pty {
                content: result.output.content.clone(),
                bytes: result.output.bytes,
                truncated: result.output.truncated,
            },
        },
    }
}

} // verus!
