use rhost::domain::{
    CancelSignal, CapturedText, CleanupEvidence, ExecFailure, ExecOutcome, Execution, Interruption, PreExecFailure,
    SessionExecOutcome, SessionFailure,
};
use rhost::output::{error, exec, execution_dto, failure, session_exec, usage, version, ExecutionDto, OutputDto};

fn captured(content: &str, truncated: bool) -> CapturedText {
    CapturedText { content: content.to_string(), bytes: content.len() as u64, truncated }
}

fn outcome(failure: Option<ExecFailure>, execution: Execution) -> ExecOutcome {
    ExecOutcome {
        failure,
        execution,
        cleanup: CleanupEvidence::NotAttempted,
        stdout: captured("out", false),
        stderr: captured("err", true),
        duration_ms: 12,
    }
}

#[test]
fn a_clean_exec_is_ok_and_carries_both_streams() {
    let envelope = exec("gpu", &outcome(None, Execution::Completed(3)));
    assert_eq!(envelope.schema_version, 2);
    assert_eq!(envelope.operation, "exec");
    assert!(envelope.ok && envelope.error.is_none());
    assert_eq!(envelope.host.as_deref(), Some("gpu"));
    assert_eq!(envelope.data.execution, ExecutionDto::Completed { exit_code: 3 });
    assert_eq!(envelope.data.cleanup.status, "not_attempted");
    assert_eq!(envelope.data.duration_ms, 12);
    assert!(envelope.data.cancel_signal.is_none());
    match envelope.data.output {
        OutputDto::Streams { stdout, stderr } => {
            assert_eq!((stdout.content.as_str(), stdout.bytes, stdout.truncated), ("out", 3, false));
            assert_eq!((stderr.content.as_str(), stderr.truncated), ("err", true));
        }
        other => panic!("{other:?}"),
    }
}

#[test]
fn each_exec_failure_has_its_code_and_retryability() {
    let cancelled = exec("gpu", &outcome(Some(ExecFailure::Interrupted(Interruption::Cancelled(CancelSignal::Int))), Execution::Unknown));
    assert!(!cancelled.ok);
    assert_eq!(cancelled.data.cancel_signal, Some("SIGINT"));
    let payload = cancelled.error.unwrap_or_else(|| panic!("a cancelled run carries an error"));
    assert_eq!(payload.code, "REMOTE_COMMAND_CANCELLED");
    assert_eq!(payload.message, "local invocation cancelled; side effects may remain");
    let timeout = exec("gpu", &outcome(Some(ExecFailure::Interrupted(Interruption::Timeout)), Execution::Unknown));
    assert_eq!(timeout.error.map(|e| e.code), Some("REMOTE_COMMAND_TIMEOUT"));
    let unreachable = exec("gpu", &outcome(Some(ExecFailure::BeforeSubmission(PreExecFailure::Connection)), Execution::NotStarted));
    let payload = unreachable.error.unwrap_or_else(|| panic!("an unreachable host carries an error"));
    assert_eq!((payload.code, payload.retryable), ("SSH_UNREACHABLE", true));
    assert_eq!(unreachable.data.execution, ExecutionDto::NotStarted);
    assert_eq!(execution_dto(Execution::Unknown), ExecutionDto::Unknown);
}

#[test]
fn a_session_command_reports_its_pane_output() {
    let result = SessionExecOutcome {
        failure: Some(SessionFailure::Busy),
        id: Some("s_ab".to_string()),
        reference: "work".to_string(),
        execution: Execution::NotStarted,
        preserved: true,
        output: captured("", false),
        foreground: Some("vim".to_string()),
    };
    let envelope = session_exec("gpu", &result);
    assert_eq!(envelope.operation, "session.exec");
    assert!(!envelope.ok);
    let payload = envelope.error.unwrap_or_else(|| panic!("busy carries an error"));
    assert_eq!((payload.code, payload.retryable), ("SESSION_BUSY", true));
    assert_eq!(envelope.data.session_id.as_deref(), Some("s_ab"));
    assert_eq!(envelope.data.session_ref, "work");
    assert!(envelope.data.session_preserved);
    assert!(matches!(envelope.data.output, OutputDto::Pty { bytes: 0, truncated: false, .. }));
}

#[test]
fn failures_and_usage_carry_no_data() {
    let failed = failure("fs.read", "", "CONFIG_INVALID", "bad", false);
    assert!(!failed.ok && failed.data.is_none() && failed.host.is_none());
    assert_eq!(failed.operation, "fs.read");
    let payload = failed.error.unwrap_or_else(|| panic!("a failure carries an error"));
    assert_eq!((payload.code, payload.message.as_str(), payload.retryable), ("CONFIG_INVALID", "bad", false));
    let hosted = failure("fs.read", "gpu", "INTERNAL", "x", true);
    assert_eq!(hosted.host.as_deref(), Some("gpu"));
    let usage = usage("missing host");
    assert_eq!(usage.operation, "usage");
    assert_eq!(usage.error.map(|e| (e.code, e.message)), Some(("USAGE_ERROR", "missing host".to_string())));
    let payload = error("X", "y", true);
    assert!(payload.retryable);
}

#[test]
fn the_version_document_names_the_build() {
    let v = version("0.4.0", "none", "unknown");
    assert!(v.ok && v.host.is_none() && v.error.is_none());
    assert_eq!(v.operation, "version");
    assert_eq!((v.data.version.as_str(), v.data.commit.as_str(), v.data.build_date.as_str()), ("0.4.0", "none", "unknown"));
    assert_eq!(v.data.schema_version, 2);
}
