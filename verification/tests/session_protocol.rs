use rhost::base64;
use rhost::session::protocol::{field, parse_exec, parse_read, ExecResult, HelperFailure};

fn token() -> String {
    "a".repeat(32)
}

#[test]
fn protocol_an_exec_result_needs_this_invocations_token_and_one_status() {
    let good = format!("RHOST_ID=s_ab\nRHOST_TOKEN={}\nRHOST_EXIT=7\nRHOST_OUTPUT={}\n", token(), base64::encode(b"out\n"));
    match parse_exec(&good, &token()) {
        ExecResult::Completed { id, output, exit_code } => {
            assert_eq!(id, "s_ab");
            assert_eq!(output, b"out\n");
            assert_eq!(exit_code, 7);
        }
        other => panic!("{other:?}"),
    }
    for broken in [
        format!("RHOST_ID=s_ab\nRHOST_TOKEN={}\nRHOST_EXIT=0\nRHOST_OUTPUT=\n", "b".repeat(32)),
        format!("RHOST_ID=s_ab\nRHOST_TOKEN={0}\nRHOST_EXIT=0\nRHOST_EXIT=1\nRHOST_OUTPUT=\n", token()),
        format!("RHOST_ID=s_ab\nRHOST_TOKEN={}\nRHOST_EXIT=07\nRHOST_OUTPUT=\n", token()),
        format!("RHOST_TOKEN={}\nRHOST_EXIT=0\nRHOST_OUTPUT=\n", token()),
        format!("RHOST_ID=s_ab\nRHOST_TOKEN={}\nRHOST_EXIT=0\nRHOST_OUTPUT=\nnoise\n", token()),
        format!("RHOST_ID=s_ab\nRHOST_ID=s_cd\nRHOST_TOKEN={}\nRHOST_EXIT=0\nRHOST_OUTPUT=\n", token()),
    ] {
        assert!(
            matches!(parse_exec(&broken, &token()), ExecResult::Failed { failure: HelperFailure::Protocol, .. }),
            "{broken}"
        );
    }
}

#[test]
fn protocol_a_refusal_carries_what_owns_the_pane_and_whether_the_shell_came_back() {
    match parse_exec("RHOST_ID=s_ab\nRHOST_FG=cat\nRHOST_ERR=busy\n", &token()) {
        ExecResult::Failed { failure, id, foreground, recovered } => {
            assert_eq!(failure, HelperFailure::Busy);
            assert_eq!(id.as_deref(), Some("s_ab"));
            assert_eq!(foreground.as_deref(), Some("cat"));
            assert!(!recovered);
        }
        other => panic!("{other:?}"),
    }
    match parse_exec("RHOST_ID=s_ab\nRHOST_RECOVERED=1\nRHOST_ERR=timeout\n", &token()) {
        ExecResult::Failed { failure, recovered, .. } => {
            assert_eq!(failure, HelperFailure::Timeout);
            assert!(recovered);
        }
        other => panic!("{other:?}"),
    }
}

#[test]
fn protocol_a_read_needs_consistent_cursors_and_decodes_its_page() {
    let ok = format!("RHOST_ID=s_ab\nRHOST_FROM=4\nRHOST_NEXT=9\nRHOST_SIZE=20\n{}\n", base64::encode(b"hello"));
    let read = parse_read(&ok).unwrap_or_else(|failure| panic!("{failure:?}"));
    assert_eq!((read.from, read.next, read.size), (4, 9, 20));
    assert_eq!(read.data, b"hello");
    for broken in [
        "RHOST_ID=s_ab\nRHOST_FROM=9\nRHOST_NEXT=4\nRHOST_SIZE=20\n\n",
        "RHOST_ID=s_ab\nRHOST_FROM=0\nRHOST_NEXT=9\nRHOST_SIZE=4\n\n",
        "RHOST_ID=s_ab\nRHOST_FROM=0\nRHOST_SIZE=4\n\n",
        "RHOST_ID=s_ab\nRHOST_FROM=0\nRHOST_FROM=0\nRHOST_NEXT=0\nRHOST_SIZE=0\n\n",
        "RHOST_ID=s_ab\nRHOST_FROM=0\nRHOST_NEXT=0\nRHOST_SIZE=0\nRHOST_WHAT=1\n\n",
        "RHOST_FROM=0\nRHOST_NEXT=0\nRHOST_SIZE=0\n\n",
    ] {
        assert_eq!(parse_read(broken).err(), Some(HelperFailure::Protocol), "{broken}");
    }
    assert_eq!(parse_read("RHOST_ERR=nosession\n").err(), Some(HelperFailure::NoSession));
}

#[test]
fn protocol_fields_and_codes_round_trip() {
    assert_eq!(field("RHOST_A=1\nRHOST_B=2\nRHOST_A=3\n", "RHOST_A=").as_deref(), Some("1"));
    assert_eq!(field("RHOST_B=2\n", "RHOST_A="), None);
    assert_eq!(HelperFailure::from_code("locked"), HelperFailure::Locked);
    assert_eq!(HelperFailure::from_code("nosession").code(), "nosession");
    assert_eq!(HelperFailure::from_code("invented").code(), "invented");
    let unchecked = format!("RHOST_ID=s_ab\nRHOST_FROM=4\nRHOST_NEXT=10\nRHOST_SIZE=20\n{}\n", base64::encode(b"hello"));
    assert!(parse_read(&unchecked).is_ok());
}
