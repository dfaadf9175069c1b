use rhost::domain::InvocationToken;
use rhost::session::ops::errors::{
    detail, helper_answer, helper_budget_secs, helper_failure, is_supported_key, record_timestamp, session_error, unhealthy, valid_name,
};
use rhost::session::remote::list::{info_of, ListEntry};
use rhost::session::remote::protocol::HelperFailure;
use rhost::session::{tmux_name, Meta, Status, DEFAULT_SHELL};

#[test]
fn ids_and_tokens_are_hex_of_the_documented_width() {
    let id = "s_0123456789ab";
    assert!(id.starts_with("s_") && id.len() == 14, "{id}");
    assert!(InvocationToken::new("0123456789abcdef".repeat(2)).is_ok());
    assert!(InvocationToken::new("0123456789ABCDEF".repeat(2)).is_err());
    assert!(InvocationToken::new("abc".to_string()).is_err());
    assert_eq!(tmux_name("s_ab"), "rhost_s_s_ab");
}

#[test]
fn metadata_names_its_tmux_session_and_its_writer() {
    let meta = Meta::new("s_ab", "work", "/tmp", DEFAULT_SHELL, "2026-01-01T00:00:00Z");
    assert_eq!(meta.schema_version, 1);
    assert_eq!(meta.id, "s_ab");
    assert_eq!(meta.tmux_session, "rhost_s_s_ab");
    assert_eq!(meta.initial_cwd, "/tmp");
    assert_eq!(meta.created_by, "rhost");
    assert_eq!(meta.shell, "bash");
    assert_eq!(Status::Alive.as_str(), "alive");
}

#[test]
fn each_refusal_has_one_stable_code() {
    let busy = session_error(HelperFailure::Busy);
    assert_eq!((busy.code, busy.retryable), ("SESSION_BUSY", true));
    let gone = session_error(HelperFailure::NoSession);
    assert_eq!((gone.code, gone.message.as_str(), gone.retryable), ("SESSION_NOT_FOUND", "no such session", false));
    let uncertain = session_error(HelperFailure::InputUncertain);
    assert_eq!((uncertain.code, uncertain.retryable), ("SESSION_UNHEALTHY", false));
    assert_eq!(session_error(HelperFailure::NoTmux).code, "REMOTE_DEPENDENCY_MISSING");
    assert_eq!(session_error(HelperFailure::Timeout).code, "REMOTE_COMMAND_TIMEOUT");
    let unknown = session_error(HelperFailure::Unknown("invented".to_string()));
    assert_eq!(unknown.message, "session helper returned incomplete or invalid completion evidence");
    let sick = unhealthy("pane gone");
    assert_eq!((sick.code, sick.message.as_str(), sick.retryable), ("SESSION_UNHEALTHY", "pane gone", true));
}

#[test]
fn a_refusal_line_is_found_anywhere_in_the_answer() {
    assert_eq!(helper_failure("noise\nRHOST_ERR=locked\n"), Some(HelperFailure::Locked));
    assert_eq!(helper_failure("RHOST_ERR=whatever\n"), Some(HelperFailure::Unknown("whatever".to_string())));
    assert_eq!(helper_failure("RHOST_OK=sent\n"), None);
}

#[test]
fn names_and_keys_are_closed_sets() {
    assert!(valid_name("work-1.a_b"));
    assert!(!valid_name(""));
    assert!(!valid_name("has space"));
    assert!(!valid_name(&"x".repeat(65)));
    assert!(valid_name(&"x".repeat(64)));
    assert!(is_supported_key("C-c"));
    assert!(is_supported_key("PageDown"));
    assert!(!is_supported_key("c-c"));
    assert!(!is_supported_key("F13"));
}

#[test]
fn a_detail_is_the_first_line_stderr_says() {
    assert_eq!(detail("\n  first  \nsecond"), ": first");
    assert_eq!(detail("   \n\n"), "");
    assert_eq!(detail(""), "");
}

#[test]
fn a_helper_that_could_not_answer_is_a_session_problem() {
    assert_eq!(helper_answer(0, "RHOST_OK=sent\n".to_string(), "noise").ok().as_deref(), Some("RHOST_OK=sent\n"));
    let failed = helper_answer(3, String::new(), "\n  bash: tmux: not found\n").err().unwrap_or_else(|| panic!("exit 3 succeeded"));
    assert_eq!(failed.code, "SESSION_UNHEALTHY");
    assert_eq!(failed.message, "session helper exited 3: bash: tmux: not found");
    assert!(failed.retryable);
    assert_eq!(helper_answer(-1, String::new(), "").err().map(|e| e.message), Some("session helper exited -1".to_string()));
    assert_eq!(helper_budget_secs(60), 77);
    assert_eq!(record_timestamp(1700000000), "unix:1700000000");
}

#[test]
fn a_listed_session_prefers_the_directory_it_was_created_in() {
    let entry = |alive: bool, resolved: Option<&str>| ListEntry {
        id: "s_ab".to_string(),
        alive,
        meta: Meta::new("s_ab", "work", "~", "bash", "now"),
        resolved_cwd: resolved.map(str::to_string),
    };
    let info = info_of(entry(true, Some("/home/dev")));
    assert_eq!(info.initial_cwd, "/home/dev");
    assert_eq!(info.status, Status::Alive);
    assert_eq!(info.tmux_session, "rhost_s_s_ab");
    let legacy = info_of(entry(false, None));
    assert_eq!(legacy.initial_cwd, "~");
    assert_eq!(legacy.status, Status::Dead);
}
