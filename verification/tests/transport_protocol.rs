use rhost::domain::InvocationToken;
use rhost::transport::protocol::{
    begin_needle, build_script, done_needle, kill_command, marker_token, parse_marker, wrap_script, ExecSpec,
    Separator, DEFAULT_REMOTE_STATE_DIR,
};

fn token(value: &str) -> InvocationToken {
    InvocationToken::new(value.to_string()).unwrap_or_else(|error| panic!("{error}"))
}

fn needle_text(needle: &[u8]) -> String {
    String::from_utf8(needle.to_vec()).unwrap_or_else(|error| panic!("{error}"))
}

#[test]
fn wrapper_records_the_group_and_binds_the_marker() {
    let nonce = token(&"a".repeat(32));
    let env = vec![("ZZ".to_string(), "1".to_string()), ("AA".to_string(), "2".to_string())];
    let script = build_script(
        &ExecSpec { command: "printf hi", cwd: Some("~/work dir"), env: &env, nonce: &nonce, remote_state_dir: None },
        Separator::Nul,
    );
    assert!(script.starts_with(&format!("RHOST_RD=\"${{RHOST_REMOTE_STATE:-{DEFAULT_REMOTE_STATE_DIR}}}\"\n")));
    assert!(script.contains("rhost-"));
    assert!(script.contains("trap 'rm -f \"$RHOST_PF\"' EXIT\n"));
    assert!(script.contains("cd -- \"$HOME\"/'work dir'"));
    assert!(script.contains("export AA='2'\nexport ZZ='1'\n"));
    assert!(script.contains("\\000__RHOST_BEGIN_"));
    assert!(script.contains("\\000__RHOST_DONE_aaa"));
    assert!(script.ends_with("__:%d\\n' \"$RHOST_EC\"\nexit 0\n"));
    assert!(script.contains("(\nprintf hi\n)\nRHOST_EC=$?\n"));
}

#[test]
fn wrapper_and_cleanup_resolve_the_same_remote_state_override() {
    let nonce = token(&"d".repeat(32));
    let script = build_script(
        &ExecSpec { command: "true", cwd: None, env: &[], nonce: &nonce, remote_state_dir: None },
        Separator::Newline,
    );
    let expression = format!("${{RHOST_REMOTE_STATE:-{DEFAULT_REMOTE_STATE_DIR}}}");
    assert!(script.contains(&format!("RHOST_RD=\"{expression}\"")));
    assert!(kill_command(&nonce).contains(&format!("f1=\"{expression}/run/")));
}

#[test]
fn captured_marker_is_split_and_foreign_output_is_not_evidence() {
    let nonce = token(&"b".repeat(32));
    let other = token(&"c".repeat(32));
    let stdout = format!(
        "profile noise{}body\n{}7\n",
        needle_text(&begin_needle(Separator::Newline, &nonce)),
        needle_text(&done_needle(Separator::Newline, &nonce)),
    );
    let (body, code) = parse_marker(stdout.as_bytes(), &nonce).unwrap_or_else(|| panic!("marker missed"));
    assert_eq!(body, b"body\n");
    assert_eq!(code, 7);
    assert!(parse_marker(b"no marker at all", &nonce).is_none());
    let foreign = format!("{}0\n", needle_text(&done_needle(Separator::Newline, &other)));
    assert!(parse_marker(foreign.as_bytes(), &nonce).is_none());
    assert!(parse_marker(
        format!("{}nope\n", needle_text(&done_needle(Separator::Newline, &other))).as_bytes(),
        &other,
    )
    .is_none());
    assert!(parse_marker(&done_needle(Separator::Newline, &other), &other).is_none());
}

#[test]
fn only_ascii_base64_crosses_the_login_shell() {
    let wrapped = wrap_script("echo 'quoted'\n");
    assert!(wrapped.starts_with("exec setsid bash -lc 'eval \"$(printf %s "));
    assert!(wrapped.contains(" | base64 -d)\"'"));
    assert!(wrapped.bytes().all(|byte| byte.is_ascii()));
}

#[test]
fn the_wrapped_script_carries_the_standard_base64_of_the_script() {
    assert_eq!(wrap_script("hi"), "exec setsid bash -lc 'eval \"$(printf %s aGk= | base64 -d)\"'");
}

#[test]
fn a_negative_status_and_a_state_override_are_honoured() {
    let nonce = token(&"e".repeat(32));
    let stdout = format!("{}-3\n", needle_text(&done_needle(Separator::Newline, &nonce)));
    let (body, code) = parse_marker(stdout.as_bytes(), &nonce).unwrap_or_else(|| panic!("marker missed"));
    assert!(body.is_empty());
    assert_eq!(code, -3);
    let script = build_script(
        &ExecSpec { command: "true", cwd: None, env: &[], nonce: &nonce, remote_state_dir: Some("/srv/state") },
        Separator::Newline,
    );
    assert!(script.starts_with("RHOST_RD='/srv/state'\n"));
    assert_eq!(marker_token(&nonce), format!("__RHOST_DONE_{}__", "e".repeat(32)));
}
