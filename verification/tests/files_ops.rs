use rhost::base64;
use rhost::fileops::remote::{command, known_refusal_code, output_budget, Edit, ReadResult, Request, DEFAULT_HELPER_BYTES};
use rhost::fileops::runner::protect_args_decision;
use rhost::files::ops;
use rhost::files::ops::{dependency_verdict, helper_verdict, is_octal_mode, patch, read, Answer, ReadOptions, WriteOptions};
use rhost::files::ops::{AuditRecord, Batch, ManifestEntry, Transfer};
use rhost::remote::Error;

/// A stand-in helper program with the markers the real one carries.
const PROGRAM: &str = "import json\n\ndef run(request):\n    raise SystemExit('CONFIG_INVALID')\n";

#[test]
fn only_gnu_rsync_three_and_later_understand_protect_args() {
    assert!(protect_args_decision("rsync  version 3.2.7  protocol version 31\nfeatures"));
    assert!(protect_args_decision("rsync  version 3.0.9  protocol version 30"));
    assert!(!protect_args_decision("rsync  version 2.6.9  protocol version 29"));
    assert!(!protect_args_decision("openrsync: protocol version 29"));
    assert!(!protect_args_decision("rsync not found"));
    assert!(!protect_args_decision(""));
}

#[test]
fn the_helper_travels_as_one_quoted_argument() {
    let command = command(PROGRAM);
    assert!(command.starts_with("command -v python3"), "{command}");
    assert!(command.contains("python3 -c '"), "{command}");
    assert!(command.trim_end().ends_with('\''), "{command}");
    assert!(command.contains("CONFIG_INVALID"), "the program is embedded");
}

#[test]
fn a_missing_interpreter_is_a_dependency_failure_not_a_silent_run() {
    let command = command(PROGRAM);
    assert!(
        command.contains("command -v python3 >/dev/null 2>&1 || exit 127;"),
        "the helper must refuse to run without python3: {command}"
    );
    assert!(PROGRAM.contains("import json") && PROGRAM.contains("def run("), "the embedded program looks truncated");
    assert!(!command.contains('/') || command.contains("python3 -c"), "the helper must be embedded, not a remote path: {command}");
}

#[test]
fn requests_have_the_helper_protocol_shape() {
    let read_request = read(&ReadOptions { host: "h", path: "~/file", start: 2, lines: 3, max_bytes: 4096, timeout_secs: None });
    match read_request {
        Ok(Request::Read { path, start, lines, max_bytes }) => {
            assert_eq!(path, "~/file");
            assert_eq!((start, lines, max_bytes), (2, 3, 4096));
        }
        other => panic!("{other:?}"),
    }
    let with_mode = ops::write(&WriteOptions {
        host: "h",
        path: "/srv/file",
        content: b"hello\n".to_vec(),
        if_hash: Some("a".repeat(64)),
        parents: true,
        mode: Some("0640".to_string()),
        timeout_secs: None,
    });
    match with_mode {
        Ok(Request::Write { content, file_mode, max_bytes, if_hash, parents, .. }) => {
            assert_eq!(content, "aGVsbG8K", "content travels as standard base64");
            assert_eq!(content, base64::encode(b"hello\n"));
            assert_eq!(file_mode.as_deref(), Some("0640"));
            assert_eq!(max_bytes, DEFAULT_HELPER_BYTES);
            assert_eq!(if_hash, "a".repeat(64));
            assert!(parents);
        }
        other => panic!("{other:?}"),
    }
    let without_mode = ops::write(&WriteOptions {
        host: "h",
        path: "/srv/file",
        content: b"hello\n".to_vec(),
        if_hash: None,
        parents: false,
        mode: None,
        timeout_secs: None,
    });
    match without_mode {
        Ok(Request::Write { file_mode, if_hash, .. }) => {
            assert!(file_mode.is_none(), "an unnamed mode must not invent one");
            assert_eq!(if_hash, "");
        }
        other => panic!("{other:?}"),
    }
    let edits = vec![Edit { start: 2, end: 2, text: "replacement\n".to_string() }];
    match patch("/srv/file", edits, Some("b".repeat(64)), DEFAULT_HELPER_BYTES) {
        Ok(Request::Patch { path, edits, if_hash, max_bytes }) => {
            assert_eq!(path, "/srv/file");
            assert_eq!(edits.len(), 1);
            assert_eq!((edits[0].start, edits[0].end, edits[0].text.as_str()), (2, 2, "replacement\n"));
            assert_eq!(if_hash, "b".repeat(64));
            assert_eq!(max_bytes, DEFAULT_HELPER_BYTES);
        }
        other => panic!("{other:?}"),
    }
}

#[test]
fn answers_are_typed_before_the_caller_uses_them() {
    let page = ReadResult {
        path: "/srv/file".to_string(),
        sha256: "a".to_string(),
        content: "x\n".to_string(),
        start: 1,
        lines: 1,
        total_lines: 1,
        truncated: false,
    };
    match helper_verdict(0, "", Some(Answer::Done(page))) {
        Ok(result) => {
            assert_eq!(result.path, "/srv/file");
            assert_eq!(result.total_lines, 1);
        }
        Err(error) => panic!("a success answer decoded as {error:?}"),
    }
    let refused: Option<Answer<ReadResult>> =
        Some(Answer::Refused { error: "FILE_NOT_FOUND".to_string(), message: Some("gone".to_string()) });
    match helper_verdict(0, "", refused) {
        Err(error) => {
            assert_eq!(error.code, "FILE_NOT_FOUND");
            assert_eq!(error.message, "gone");
        }
        Ok(_) => panic!("a refusal decoded as success"),
    }
    assert_eq!(known_refusal_code("FILE_NOT_FOUND"), Some("FILE_NOT_FOUND"));
    assert_eq!(known_refusal_code("file_not_found"), Some("FILE_NOT_FOUND"));
    assert_eq!(known_refusal_code("INVENTED_ERROR"), None);
    let invented: Option<Answer<ReadResult>> = Some(Answer::Refused { error: "INVENTED_ERROR".to_string(), message: None });
    match helper_verdict(0, "", invented) {
        Err(error) => assert_eq!(error.code, "INTERNAL"),
        Ok(_) => panic!("an invented refusal decoded as success"),
    }
    let drift: Option<Answer<ReadResult>> = None;
    match helper_verdict(0, "noise\nmore", drift) {
        Err(error) => {
            assert_eq!(error.code, "INTERNAL");
            assert_eq!(error.message, "remote file helper returned no usable answer: noise");
        }
        Ok(_) => panic!("an undecodable answer decoded as success"),
    }
}

#[test]
fn octal_modes_are_the_only_permissions_that_travel() {
    assert!(is_octal_mode("0644"));
    assert!(is_octal_mode("755"));
    assert!(is_octal_mode("0000"));
    assert!(is_octal_mode("7777"));
    assert!(!is_octal_mode("abc"));
    assert!(!is_octal_mode("08"));
    assert!(!is_octal_mode("07555"));
    assert!(!is_octal_mode(""));
}

#[test]
fn a_capability_probe_distinguishes_absence_from_failure() {
    assert!(dependency_verdict(0).is_ok());
    let code = |exit| dependency_verdict(exit).err().map(|error| error.0);
    assert_eq!(code(127), Some("REMOTE_DEPENDENCY_MISSING"));
    assert_eq!(code(1), Some("REMOTE_DEPENDENCY_MISSING"));
    assert_eq!(code(255), Some("REMOTE_DEPENDENCY_MISSING"));
}

#[test]
fn a_missing_interpreter_and_a_crash_are_told_apart() {
    let missing: Option<Answer<ReadResult>> = None;
    match helper_verdict(127, "", missing) {
        Err(error) => assert_eq!(error.code, "REMOTE_DEPENDENCY_MISSING"),
        Ok(_) => panic!("a missing interpreter succeeded"),
    }
    let crashed: Option<Answer<ReadResult>> = None;
    match helper_verdict(2, "Traceback\nline", crashed) {
        Err(error) => {
            assert_eq!(error.code, "INTERNAL");
            assert_eq!(error.message, "remote file helper exited 2: Traceback");
        }
        Ok(_) => panic!("a crash succeeded"),
    }
}

#[test]
fn requests_outside_their_limits_are_refused_first() {
    let too_big = read(&ReadOptions { host: "h", path: "f", start: 1, lines: 1, max_bytes: 0, timeout_secs: None });
    assert_eq!(too_big.err().map(|e| e.code), Some("CONFIG_INVALID"));
    let zero_start = read(&ReadOptions { host: "h", path: "f", start: 0, lines: 1, max_bytes: 10, timeout_secs: None });
    assert_eq!(zero_start.err().map(|e| e.message), Some("--start and --lines must be positive".to_string()));
    let bad_mode = ops::write(&WriteOptions {
        host: "h",
        path: "f",
        content: Vec::new(),
        if_hash: None,
        parents: false,
        mode: Some("rwx".to_string()),
        timeout_secs: None,
    });
    assert_eq!(bad_mode.err().map(|e| e.code), Some("CONFIG_INVALID"));
    assert_eq!(patch("f", Vec::new(), Some("h".into()), 10).err().map(|e| e.message), Some("patch document has no edits".to_string()));
    let no_hash = patch("f", vec![Edit { start: 1, end: 1, text: String::new() }], None, 10);
    assert_eq!(no_hash.err().map(|e| e.code), Some("CONFIG_INVALID"));
    assert_eq!(output_budget(10), 60 + 65536);
    assert_eq!(output_budget(usize::MAX), usize::MAX);
}

fn entry(source: &str) -> ManifestEntry {
    ManifestEntry {
        operation: "put",
        source: source.to_string(),
        destination: format!("/srv/{source}"),
        resume: false,
        checksum: false,
    }
}

#[test]
fn a_batch_keeps_each_entrys_own_result_and_goes_on_after_a_failure() {
    let mut batch = Batch::new();
    batch.record(entry("a"), 5, Err(Error::new("TRANSFER_FAILED", "a: no such file")));
    batch.record(
        entry("b"),
        9,
        Ok(Transfer {
            source: "b".to_string(),
            destination: "/srv/b".to_string(),
            backend: "scp",
            size: 12,
            multiplexed: true,
            duration_ms: 9,
            checksum_verified: false,
            resume_enabled: false,
        }),
    );
    assert_eq!((batch.succeeded, batch.failed), (1, 1));
    let first = &batch.items[0];
    assert_eq!(first.source, "a");
    assert!(first.data.is_none());
    let error = first.error.as_ref().map(|e| (e.code, e.message.as_str()));
    assert_eq!(error, Some(("TRANSFER_FAILED", "a: no such file")));
    let second = &batch.items[1];
    assert!(second.error.is_none());
    assert_eq!(second.data.as_ref().map(|t| (t.size, t.backend)), Some((12, "scp")));
    assert_eq!(second.duration_ms, 9);
}

#[test]
fn a_batch_with_a_failed_entry_ends_non_zero_and_audits_each_entry() {
    let mut batch = Batch::new();
    assert_eq!(batch.exit_status(), 0);
    batch.record(
        ManifestEntry { operation: "get", source: "/srv/x".to_string(), destination: "x".to_string(), resume: false, checksum: false },
        3,
        Ok(Transfer {
            source: "/srv/x".to_string(),
            destination: "x".to_string(),
            backend: "scp",
            size: 1,
            multiplexed: false,
            duration_ms: 3,
            checksum_verified: false,
            resume_enabled: false,
        }),
    );
    assert_eq!(batch.exit_status(), 0);
    batch.record(entry("y"), 4, Err(Error::new("FILE_NOT_FOUND", "gone")));
    assert_eq!(batch.exit_status(), 255);
    match batch.items[0].audit() {
        Some(AuditRecord::Completed { operation, summary, duration_ms }) => {
            assert_eq!((operation, summary.as_str(), duration_ms), ("fs.get", "get /srv/x", 3));
        }
        other => panic!("unexpected {other:?}"),
    }
    match batch.items[1].audit() {
        Some(AuditRecord::Refused { operation, code, duration_ms }) => {
            assert_eq!((operation, code, duration_ms), ("fs.put", "FILE_NOT_FOUND", 4));
        }
        other => panic!("unexpected {other:?}"),
    }
}
