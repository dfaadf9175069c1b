use rhost::domain::{CapturedText, CleanupEvidence, ExecFailure, ExecOutcome, Execution};
use rhost::output::doctor::{doctor, doctor_failure, Connection, Report};
use rhost::output::exec;
use rhost::transport::openssh::MasterStatus;

fn report() -> Report {
    Report {
        host: "gpu".to_string(),
        os: "Linux".to_string(),
        kernel: "6.8.0".to_string(),
        arch: "x86_64".to_string(),
        user: "me".to_string(),
        home: "/home/me".to_string(),
        login_shell: "/bin/bash".to_string(),
        state_dir: "/home/me/.local/state/rhost/v4".to_string(),
        online: true,
        state_dir_writable: true,
        wsl: false,
        capabilities: vec![("python3".to_string(), true), ("rsync".to_string(), false)],
        connection: Connection {
            master_status: MasterStatus::Alive,
            control_path: "/tmp/cm-gpu".to_string(),
            master_pid: Some(4242),
            diagnostic: None,
            stopped: false,
        },
        connection_reused: Some(true),
    }
}

fn captured(content: &str) -> CapturedText {
    CapturedText { content: content.to_string(), bytes: content.len() as u64, truncated: false }
}

#[test]
fn a_doctor_report_is_carried_whole() {
    let envelope = doctor(&report());
    assert_eq!(envelope.schema_version, 2);
    assert_eq!(envelope.operation, "doctor");
    assert!(envelope.ok);
    assert_eq!(envelope.host.as_deref(), Some("gpu"));
    assert!(envelope.error.is_none());
    let data = envelope.data;
    assert_eq!(data.host, "gpu");
    assert_eq!(data.kernel, "6.8.0");
    assert_eq!(data.login_shell, "/bin/bash");
    assert!(data.online && data.state_dir_writable && !data.wsl);
    assert_eq!(data.capabilities, vec![("python3".to_string(), true), ("rsync".to_string(), false)]);
    assert_eq!(data.connection.master_status, "alive");
    assert_eq!(data.connection.control_path, "/tmp/cm-gpu");
    assert_eq!(data.connection.master_pid, Some(4242));
    assert_eq!(data.connection_reused, Some(true));
}

#[test]
fn a_failed_doctor_probe_still_reports_what_it_knew() {
    let outcome = ExecOutcome {
        failure: Some(ExecFailure::ExecutionUnknown),
        execution: Execution::Unknown,
        cleanup: CleanupEvidence::NotAttempted,
        stdout: captured(""),
        stderr: captured("broken pipe"),
        duration_ms: 5,
    };
    let envelope = doctor_failure(&report(), &outcome);
    assert!(!envelope.ok);
    assert_eq!(envelope.operation, "doctor");
    let expected = exec("gpu", &outcome).error.map(|e| (e.code, e.message, e.retryable));
    let got = envelope.error.map(|e| (e.code, e.message, e.retryable));
    assert!(got.is_some());
    assert_eq!(got, expected);
    assert_eq!(envelope.data.os, "Linux");
    assert_eq!(envelope.data.connection.master_pid, Some(4242));
}
