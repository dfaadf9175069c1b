use rhost::domain::{CancelSignal, Interruption};
use rhost::signals::Interrupt;
use rhost::tunnel::flow::{close_after_stop, close_needs_stop, list_status, stop_after_exit};
use rhost::tunnel::flow::{recover_failed_start, removal_failed, Recovery};
use rhost::tunnel::master::Control;
use rhost::tunnel::record::{Fault, Status};
use rhost::tunnel::record::{id_of_file, is_id, Kind};
use rhost::tunnel::{listen_ip, Request};

/// Whether the address part of `listen` is a loopback IP literal, for the
/// addresses these tests use.
fn loopback(listen: &str) -> bool {
    match listen_ip(listen) {
        Some(ip) => ip == "::1" || ip.starts_with("127."),
        None => false,
    }
}

fn request<'a>(host: &'a str, kind: &str, listen: &str, destination: &str, expose: bool) -> bool {
    Request::new(host, kind, listen, destination, expose, loopback(listen)).is_ok()
}

#[test]
fn ids_are_the_reference_shape_and_fresh_each_time() {
    let first = format!("t_{}", "0123456789abcdef".repeat(2));
    let second = format!("t_{}", "fedcba9876543210".repeat(2));
    assert!(is_id(&first) && is_id(&second), "{first}");
    assert_ne!(first, second);
    assert!(!is_id("t_AB") && !is_id(&first[..33]));
}

#[test]
fn a_socks_forward_carries_no_destination_and_the_others_must_have_one() {
    let socks = Request::new("gpu", "socks", "localhost:1080", "", false, false)
        .unwrap_or_else(|_| panic!("socks binds loopback"));
    assert_eq!(socks.forward(), "localhost:1080");
    assert!(!request("gpu", "socks", "localhost:1080", "localhost:80", false));
    assert!(!request("gpu", "local", "localhost:8080", "", false));
    let local = Request::new("gpu", "local", "localhost:8080", "localhost:80", false, false)
        .unwrap_or_else(|_| panic!("local binds loopback"));
    assert_eq!(local.forward(), "localhost:8080:localhost:80");
}

#[test]
fn only_loopback_binds_are_free_and_the_rest_have_to_be_asked_for() {
    for allowed in ["localhost:80", "127.0.0.1:80", "[::1]:80"] {
        assert!(request("gpu", "local", allowed, "localhost:80", false), "{allowed}");
    }
    for refused in ["0.0.0.0:80", "[::]:80", "192.0.2.9:80", ":80"] {
        assert!(!request("gpu", "local", refused, "localhost:80", false), "{refused} must need --allow-exposure");
        assert!(request("gpu", "local", refused, "localhost:80", true), "{refused} with --allow-exposure");
    }
}

#[test]
fn portless_and_zero_ports_are_refused_before_ssh_sees_them() {
    for bad in ["localhost", "localhost:", "localhost:0", "localhost:no"] {
        assert!(!request("gpu", "local", bad, "localhost:80", false), "{bad}");
    }
    assert!(!request("gpu", "unknown", "localhost:80", "localhost:80", false));
}

#[test]
fn the_listen_ip_drops_one_pair_of_brackets() {
    assert_eq!(listen_ip("[::1]:80").as_deref(), Some("::1"));
    assert_eq!(listen_ip("127.0.0.1:80").as_deref(), Some("127.0.0.1"));
    assert_eq!(listen_ip("localhost"), None);
}

#[test]
fn record_files_are_named_by_their_id() {
    let id = format!("t_{}", "a".repeat(32));
    assert_eq!(id_of_file(&format!("{id}.json")).as_deref(), Some(id.as_str()));
    assert_eq!(id_of_file(&format!("{id}.tmp")), None);
    assert_eq!(id_of_file("t_x.json"), None);
    assert_eq!(Kind::parse("reverse").map(|k| k.flag()), Some("-R"));
    assert_eq!(Kind::parse("socks").map(|k| k.as_str()), Some("socks"));
    assert!(Kind::parse("Local").is_none());
}

#[test]
fn a_reverse_forward_keeps_its_destination() {
    let reverse = Request::new("gpu", "reverse", "localhost:9000", "db:5432", false, false)
        .unwrap_or_else(|_| panic!("reverse binds loopback"));
    assert_eq!(reverse.forward(), "localhost:9000:db:5432");
}

#[test]
fn a_master_that_does_not_answer_is_never_reported_alive_or_stale() {
    assert!(matches!(list_status(Control::Answered), Ok(Status::Alive)));
    assert!(matches!(list_status(Control::SocketAbsent), Ok(Status::Stale)));
    assert!(matches!(list_status(Control::Uncertain("mute".into())), Err(Fault::Transport(m)) if m == "mute"));
    assert!(matches!(close_needs_stop(Control::Answered), Ok(true)));
    assert!(matches!(close_needs_stop(Control::SocketAbsent), Ok(false)));
    assert!(matches!(close_needs_stop(Control::Uncertain("x".into())), Err(Fault::Transport(_))));
    assert!(close_after_stop(Ok(())).is_ok());
    assert!(matches!(close_after_stop(Err("stuck".into())), Err(Fault::Uncertain(m)) if m == "stuck"));
    assert!(stop_after_exit(Control::Answered).is_none());
    assert_eq!(stop_after_exit(Control::SocketAbsent), Some(Ok(())));
    assert_eq!(stop_after_exit(Control::Uncertain("why".into())), Some(Err("why".to_string())));
}

#[test]
fn a_failed_start_keeps_its_record_unless_the_failure_was_definite() {
    let id = "t_0123456789abcdef0123456789abcdef";
    match recover_failed_start(id, Fault::Transport("bind refused".into()), Ok(())) {
        Recovery::RemoveThenReport(Fault::Transport(m)) => assert_eq!(m, "bind refused"),
        _ => panic!("a definite failure removes its record"),
    }
    match recover_failed_start(id, Fault::Uncertain("slow".into()), Ok(())) {
        Recovery::Report(Fault::Uncertain(m)) => {
            assert_eq!(m, format!("tunnel {id} startup was uncertain; its record remains for inspection"))
        }
        _ => panic!("an uncertain start keeps its record"),
    }
    match recover_failed_start(id, Fault::Transport("x".into()), Err("socket remains".into())) {
        Recovery::Report(Fault::Uncertain(m)) => {
            assert_eq!(m, format!("tunnel {id} may still be running after startup failed: socket remains"))
        }
        _ => panic!("an unconfirmed stop keeps its record"),
    }
    assert!(matches!(removal_failed(id, "Transport(\"gone\")"), Fault::Uncertain(m)
        if m == format!("tunnel {id} did not start, but its record could not be removed: Transport(\"gone\")")));
}

#[test]
fn an_interruption_names_the_signal_that_arrived() {
    let quiet = Interrupt::default();
    assert!(!quiet.requested());
    assert_eq!(quiet.signal(), None);
    let int = Interrupt { interrupted: true, term: false };
    assert_eq!(int.signal(), Some(CancelSignal::Int));
    let term = Interrupt { interrupted: true, term: true };
    assert_eq!(term.interruption(), Some(Interruption::Cancelled(CancelSignal::Term)));
}

#[test]
fn every_kind_reads_back_from_its_word() {
    for kind in [Kind::Local, Kind::Reverse, Kind::Socks] {
        assert_eq!(Kind::parse(kind.as_str()), Some(kind));
    }
}

#[test]
fn a_cancelled_invocation_exits_with_the_shell_convention() {
    assert_eq!(rhost::signals::exit_status(CancelSignal::Int), 130);
    assert_eq!(rhost::signals::exit_status(CancelSignal::Term), 143);
}
