use rhost::base64;
use rhost::session::remote::scripts::{close, create, exec, integration_script, list, read, recover, send, SendKind};
use rhost::session::{Meta, DEFAULT_SHELL};
use rhost::transport::protocol::DEFAULT_REMOTE_STATE_DIR;

fn meta() -> Meta {
    Meta::new("s_ab12", "work", "/tmp", DEFAULT_SHELL, "now")
}

fn meta_json() -> String {
    let head = "{\"schema_version\":1,\"id\":\"s_ab12\",\"name\":\"work\",\"tmux_session\":\"rhost_s_s_ab12\",";
    let tail = "\"created_at\":\"now\",\"created_by\":\"rhost\",\"initial_cwd\":\"/tmp\",\"shell\":\"bash\"}";
    format!("{head}{tail}")
}

#[test]
fn every_writer_takes_the_lock_without_waiting_and_resolves_by_name() {
    for script in [exec("work", "true", 60, &"a".repeat(32)), send("work", SendKind::Data, "x"), recover("work", 30), close("work")] {
        assert!(script.contains("flock -n 9 || { echo RHOST_ERR=locked; exit 0; }"), "{script}");
        assert!(script.contains("RHOST_RESOLVE 'work' || { echo RHOST_ERR=nosession; exit 0; }"), "{script}");
        assert!(script.contains("command -v tmux >/dev/null 2>&1"));
        assert!(script.contains("command -v flock >/dev/null 2>&1"));
    }
}

#[test]
fn send_and_close_only_report_success_after_their_effects_are_checked() {
    for script in [send("work", SendKind::Data, "text"), send("work", SendKind::DataEnter, "text"), send("work", SendKind::Key, "C-c")] {
        assert!(script.contains("RHOST_ERR=inputuncertain"), "{script}");
        assert!(script.find("RHOST_ERR=inputuncertain") < script.find("RHOST_OK=sent"));
    }
    assert!(send("work", SendKind::Data, "text").contains("RHOST_ERR=inputfailed"));
    let script = close("work");
    assert!(script.contains("RHOST_ERR=closefailed"), "{script}");
    assert!(script.contains("flock -n 9"), "{script}");
    assert!(script.find("RHOST_ERR=closefailed") < script.find("RHOST_OK=closed"));
}

#[test]
fn exec_pastes_one_compound_command_with_the_token_in_its_marker() {
    let token = "f".repeat(32);
    let script = exec("work", "printf hi", 5, &token);
    let payload = format!("{{\nprintf hi\ncommand printf '\\033]133;R;{token};%d\\007' \"$?\"\n}}");
    assert!(script.contains(&format!("cmd=$(printf '%s' '{}' | base64 -d)", base64::encode(payload.as_bytes()))));
    assert!(script.contains("printf '%s\\n' \"$cmd\" | tmux load-buffer -b \"$BUF\" - \\; paste-buffer -d"));
    assert!(script.contains(&format!("rpat=$(printf '\\033]133;R;{token};')")));
    assert_eq!(script.matches("echo RHOST_ERR=busy").count(), 2);
    assert!(script.contains("RHOST_ERR=inputfailed"));
    assert!(script.contains("RHOST_RECOVERED=$recovered"));
    assert!(script.contains("while [ \"$SECONDS\" -lt 5 ]"));
}

#[test]
fn create_waits_for_readiness_and_refuses_a_duplicate_name() {
    let script = create(&meta(), "bash --noprofile --norc -i", &meta_json());
    let integration = integration_script("s_ab12");
    assert!(
        integration.contains(&format!(": > \"${{RHOST_REMOTE_STATE:-{DEFAULT_REMOTE_STATE_DIR}}}/sessions/s_ab12/ready\"")),
        "{integration}"
    );
    assert!(integration.contains("stty -echo"));
    assert!(integration.contains("PROMPT_COMMAND=__rh_done"));
    assert!(script.contains(&base64::encode(integration.as_bytes())));
    assert!(script.contains("echo RHOST_ERR=nameinuse; exit 0;"));
    assert!(script.contains("echo RHOST_ERR=notready; exit 0;"));
    assert!(script.contains("RHOST_TMUX pipe-pane -t 'rhost_s_s_ab12:0.0' -o \"$QPIPE\""));
    assert!(script.contains("base64 -d > \"$DIR/meta.json\""));
    assert!(script.contains("CWD='/tmp'"));
    assert!(script.contains("RHOST_TMUX() { tmux \"$@\" 8>&-; }\n"));
    for line in script.lines() {
        assert!(!line.trim_start().starts_with("tmux "), "this tmux call keeps the create lock open: {line}");
    }
    assert!(script.ends_with("echo RHOST_OK=created\n"));
    let trap_off = script.find("trap - EXIT HUP INT TERM").unwrap_or(usize::MAX);
    let created_evidence = script.find("RHOST_CREATED=").unwrap_or(usize::MAX);
    assert!(trap_off < created_evidence, "RHOST_CREATED must follow the commit point, not precede it: {script}");
}

#[test]
fn read_reports_cursors_and_bounds_the_page() {
    let script = read("work", 7, 0);
    assert!(script.contains("since=7\n"));
    assert!(script.contains("RHOST_FROM=$since"));
    assert!(script.contains("RHOST_NEXT=$((since + inc))"));
    assert!(script.contains("RHOST_SIZE=$size"));
    assert!(script.contains("head -c 262144"));
    assert!(read("work", 0, 16).contains("head -c 16"));
}

#[test]
fn send_supports_verbatim_text_one_key_and_text_then_enter() {
    let data = send("work", SendKind::Data, "a'b");
    assert!(data.contains(&base64::encode(b"a'b")));
    assert!(!data.contains("send-keys -t \"$TMUX:0.0\" Enter"));
    assert!(send("work", SendKind::DataEnter, "ls").contains("tmux send-keys -t \"$TMUX:0.0\" Enter"));
    assert!(send("work", SendKind::Key, "C-c").contains("tmux send-keys -t \"$TMUX:0.0\" 'C-c'"));
    assert!(data.ends_with("echo RHOST_OK=sent\n"));
}

#[test]
fn close_kills_the_tmux_session_and_removes_the_record() {
    let script = close("s_ab12");
    assert!(script.contains("tmux kill-session -t \"$RHOST_TMUX\" 2>/dev/null"));
    assert!(script.contains("rm -rf \"$RHOST_DIR\""));
    assert!(script.ends_with("echo RHOST_OK=closed\n"));
}

#[test]
fn the_create_script_carries_the_metadata_document() {
    let script = create(&meta(), "bash --noprofile --norc -i", &meta_json());
    assert!(script.contains(&base64::encode(meta_json().as_bytes())));
    assert!(list().contains("RHOST_META"));
    assert!(recover("work", 30).contains("RHOST_RESOLVE 'work'"));
}
