use rhost::transport::openssh::{
    probe_diagnostic, reset_after_stop, reset_without_stop, Client, Config, ConnectionStatus, MasterStatus,
};
use rhost::tunnel::master::{complaint, control_verdict, launch_verdict, reason, started_verdict, Control, Master};
use rhost::tunnel::record::Fault;

fn strings(values: &[&str]) -> Vec<String> {
    values.iter().map(|v| v.to_string()).collect()
}

fn config(batch_mode: bool, connect_timeout_secs: u64) -> Config {
    Config {
        ssh_bin: "ssh".to_string(),
        control_path: "/tmp/cm-%C".to_string(),
        control_persist: "15m".to_string(),
        connect_timeout_secs,
        batch_mode,
        log_level: "ERROR".to_string(),
    }
}

#[test]
fn every_ssh_run_carries_the_shared_options() {
    let client = Client::new(config(true, 15));
    assert_eq!(client.control_path(), "/tmp/cm-%C");
    assert_eq!(client.ssh_bin(), "ssh");
    let shared = strings(&[
        "-o", "ControlMaster=auto", "-o", "ControlPersist=15m", "-o", "ControlPath=/tmp/cm-%C", "-o", "LogLevel=ERROR",
        "-o", "ConnectTimeout=15", "-o", "BatchMode=yes",
    ]);
    assert_eq!(client.ssh_options(), shared);
    let mut exec = shared.clone();
    exec.extend(strings(&["-T", "--", "gpu", "echo hi"]));
    assert_eq!(client.exec_argv("gpu", "echo hi", false), exec);
    let mut check = shared.clone();
    check.extend(strings(&["-O", "check", "--", "gpu"]));
    assert_eq!(client.check_argv("gpu"), check);
    let mut stop = shared;
    stop.extend(strings(&["-O", "stop", "--", "gpu"]));
    assert_eq!(client.stop_argv("gpu"), stop);
}

#[test]
fn a_fresh_connection_shares_nothing_and_the_timeout_is_at_least_one_second() {
    let client = Client::new(config(false, 0));
    assert_eq!(
        client.options(true),
        strings(&[
            "-o", "ControlMaster=no", "-o", "ControlPersist=no", "-o", "ControlPath=none", "-o", "LogLevel=ERROR",
            "-o", "ConnectTimeout=1",
        ])
    );
}

#[test]
fn a_check_answer_is_read_case_insensitively() {
    let alive = ConnectionStatus::inspect("/p".to_string(), "Master running (pid=4242)\r\n", Some(0));
    assert_eq!(alive.master_status, MasterStatus::Alive);
    assert_eq!(alive.master_pid, Some(4242));
    assert_eq!(alive.diagnostic, "Master running (pid=4242)");
    assert!(!alive.stopped);
    let silent = ConnectionStatus::inspect("/p".to_string(), "", Some(0));
    assert_eq!((silent.master_status, silent.master_pid), (MasterStatus::Alive, None));
    let absent = ConnectionStatus::inspect("/p".to_string(), "Control socket connect(/p): No such file or directory", Some(255));
    assert_eq!(absent.master_status, MasterStatus::Absent);
    let refused = ConnectionStatus::inspect("/p".to_string(), "control socket connect(/p): Connection refused", Some(255));
    assert_eq!(refused.master_status, MasterStatus::Absent);
    let odd = ConnectionStatus::inspect("/p".to_string(), "something else", Some(255));
    assert_eq!((odd.master_status, odd.master_pid), (MasterStatus::Unknown, None));
    assert_eq!(MasterStatus::Absent.as_str(), "absent");
}

#[test]
fn both_streams_make_one_trimmed_diagnostic() {
    assert_eq!(probe_diagnostic(b"  out ", b"err\n"), "out err");
    assert_eq!(probe_diagnostic(b"", b"\xffx"), "\u{FFFD}x");
}

fn status(master_status: MasterStatus) -> ConnectionStatus {
    ConnectionStatus {
        master_status,
        control_path: "/p".to_string(),
        master_pid: Some(7),
        diagnostic: "said".to_string(),
        stopped: false,
    }
}

#[test]
fn a_reset_stops_only_a_live_master() {
    let absent = reset_without_stop(status(MasterStatus::Absent)).unwrap_or_else(|_| panic!("absent needs no stop"));
    assert!(absent.error.is_none());
    let unknown = reset_without_stop(status(MasterStatus::Unknown)).unwrap_or_else(|_| panic!("unknown needs no stop"));
    assert_eq!(unknown.error.as_deref(), Some("said"));
    let alive = match reset_without_stop(status(MasterStatus::Alive)) {
        Err(live) => live,
        Ok(_) => panic!("a live master must be stopped"),
    };
    let stopped = reset_after_stop(alive, "ok".to_string(), Some(0));
    assert!(stopped.status.stopped && stopped.error.is_none());
    assert_eq!(stopped.status.master_status, MasterStatus::Alive);
    let failed = reset_after_stop(status(MasterStatus::Alive), String::new(), Some(255));
    assert_eq!(failed.error.as_deref(), Some("ssh -O stop failed (exit Some(255))"));
    assert_eq!(failed.status.master_status, MasterStatus::Unknown);
    let killed = reset_after_stop(status(MasterStatus::Alive), String::new(), None);
    assert_eq!(killed.error.as_deref(), Some("ssh -O stop failed (exit None)"));
}

#[test]
fn a_tunnel_master_carries_exactly_one_forward() {
    let options = strings(&["-o", "LogLevel=ERROR"]);
    let master = Master { ssh_bin: "ssh", options: &options };
    assert_eq!(
        master.start_argv("/s", "-L", "localhost:1:db:2", "gpu"),
        strings(&[
            "-o", "ControlPath=/s", "-o", "ControlMaster=yes", "-o", "ControlPersist=yes", "-o",
            "ExitOnForwardFailure=yes", "-o", "ServerAliveInterval=15", "-o", "ServerAliveCountMax=3", "-o",
            "LogLevel=ERROR", "-fNT", "-L", "localhost:1:db:2", "--", "gpu",
        ])
    );
    assert_eq!(master.control_argv("/s", "gpu", "exit"), strings(&["-S", "/s", "-O", "exit", "--", "gpu"]));
}

#[test]
fn tunnel_verdicts_keep_ssh_words() {
    assert_eq!(complaint("bind failed", Some("x"), true, None), "bind failed");
    assert_eq!(complaint("", Some("not found"), false, None), "cannot run ssh: not found");
    assert_eq!(complaint("", None, true, None), "ssh did not finish in time");
    assert_eq!(complaint("", None, false, Some(-2)), "ssh exited with status -2 and said nothing");
    assert_eq!(complaint("", None, false, None), "ssh was stopped without reporting a status");
    assert!(matches!(control_verdict("check", Some(0), "x"), Control::Answered));
    let uncertain = control_verdict("check", Some(1), "refused");
    assert_eq!(reason(&uncertain), "ssh -O check: refused");
    assert_eq!(reason(&Control::SocketAbsent), "its control socket is absent");
    assert!(launch_verdict(false, Some(0), "x").is_none());
    assert!(matches!(launch_verdict(true, None, "slow"), Some(Fault::Uncertain(m)) if m == "tunnel startup timed out: slow"));
    assert!(matches!(launch_verdict(false, Some(255), "no"), Some(Fault::Transport(m)) if m == "cannot open tunnel: no"));
    assert!(started_verdict(&Control::Answered).is_ok());
    assert!(matches!(
        started_verdict(&Control::SocketAbsent),
        Err(Fault::Transport(m)) if m == "tunnel started but its OpenSSH master is not answering: its control socket is absent"
    ));
}
