//! The dedicated OpenSSH master one tunnel owns.
//!
//! Every other command rides the one shared `%C` master. A tunnel deliberately
//! does not: `tunnel close` has to stop exactly one forward without dropping the
//! multiplexed connection that `exec` and `session` traffic is using. Running
//! ssh belongs to the program around the library; the argv and what each
//! answer means are here.
use vstd::prelude::*;
use crate::text::{push_str, signed_decimal, signed_decimal_string, string_views};
use super::record::{Fault, FaultView};

verus! {

/// How long ssh may take to authenticate, bind the forward and hand it to a
/// background master, in seconds.
pub const START_TIMEOUT_SECS: u64 = 30;

/// The budget for one `ssh -O` request, in seconds.
pub const CONTROL_TIMEOUT_SECS: u64 = 15;

/// How long an accepted exit may take to remove the socket, in seconds.
pub const STOP_TIMEOUT_SECS: u64 = 5;

/// What one control exchange established.
#[derive(Debug)]
pub enum Control {
    /// The master answered: this forward exists.
    Answered,
    /// The socket is not there. This is the only observation that proves the
    /// recorded master is gone.
    SocketAbsent,
    /// Something is there and did not answer. That is not evidence of death, and
    /// rhost must not act as though it were.
    Uncertain(String),
}

/// One tunnel's master: the ssh program and rhost's ordinary options, passed
/// *after* the tunnel's own so the tunnel's `ControlPath` and `ControlMaster`
/// win (OpenSSH keeps the first value it is given).
pub struct Master<'a> {
    pub ssh_bin: &'a str,
    pub options: &'a [String],
}

/// The ssh argv that starts a dedicated master carrying exactly one forward.
pub open spec fn spec_start_argv(options: Seq<Seq<char>>, socket: Seq<char>, flag: Seq<char>, forward: Seq<char>, host: Seq<char>) -> Seq<Seq<char>> {
    seq![
        "-o"@, "ControlPath="@ + socket,
        "-o"@, "ControlMaster=yes"@,
        "-o"@, "ControlPersist=yes"@,
        "-o"@, "ExitOnForwardFailure=yes"@,
        "-o"@, "ServerAliveInterval=15"@,
        "-o"@, "ServerAliveCountMax=3"@,
    ] + options + seq!["-fNT"@, flag, forward, "--"@, host]
}

/// The ssh argv for one control request to one tunnel's master.
pub open spec fn spec_control_argv(socket: Seq<char>, action: Seq<char>, host: Seq<char>) -> Seq<Seq<char>> {
    seq!["-S"@, socket, "-O"@, action, "--"@, host]
}

impl<'a> Master<'a> {
    /// The argv that starts the dedicated master. `ExitOnForwardFailure=yes`
    /// makes a refused bind an error instead of a master that is up with no
    /// forward; `-f` backgrounds the master once the forward is up, `-N` runs no
    /// remote command.
    pub fn start_argv(&self, socket: &str, kind_flag: &str, forward: &str, host: &str) -> (r: Vec<String>)
        ensures
            string_views(r@) == spec_start_argv(string_views(self.options@), socket@, kind_flag@, forward@, host@),
    {
        let mut args: Vec<String> = Vec::new();
        push_str(&mut args, "-o");
        let mut path = String::from_str("ControlPath=");
        path.append(socket);
        push_str(&mut args, path.as_str());
        push_str(&mut args, "-o");
        push_str(&mut args, "ControlMaster=yes");
        push_str(&mut args, "-o");
        push_str(&mut args, "ControlPersist=yes");
        push_str(&mut args, "-o");
        push_str(&mut args, "ExitOnForwardFailure=yes");
        push_str(&mut args, "-o");
        push_str(&mut args, "ServerAliveInterval=15");
        push_str(&mut args, "-o");
        push_str(&mut args, "ServerAliveCountMax=3");
        let ghost head = string_views(args@);
        let mut i: usize = 0;
        while i < self.options.len()
            invariant
                i <= self.options.len(),
                string_views(args@) == head + string_views(self.options@).take(i as int),
            decreases self.options.len() - i,
        {
            push_str(&mut args, self.options[i].as_str());
            assert(string_views(self.options@).take(i + 1) =~= string_views(self.options@).take(i as int).push(self.options@[i as int]@));
            i = i + 1;
        }
        assert(string_views(self.options@).take(i as int) =~= string_views(self.options@));
        push_str(&mut args, "-fNT");
        push_str(&mut args, kind_flag);
        push_str(&mut args, forward);
        push_str(&mut args, "--");
        push_str(&mut args, host);
        assert(string_views(args@) =~= spec_start_argv(string_views(self.options@), socket@, kind_flag@, forward@, host@));
        args
    }

    /// The argv for `check` or `exit` on this tunnel's socket only, so the
    /// shared connection and every other tunnel keep running.
    pub fn control_argv(&self, socket: &str, host: &str, action: &str) -> (r: Vec<String>)
        ensures
            string_views(r@) == spec_control_argv(socket@, action@, host@),
    {
        let mut args: Vec<String> = Vec::new();
        push_str(&mut args, "-S");
        push_str(&mut args, socket);
        push_str(&mut args, "-O");
        push_str(&mut args, action);
        push_str(&mut args, "--");
        push_str(&mut args, host);
        assert(string_views(args@) =~= spec_control_argv(socket@, action@, host@));
        args
    }
}

/// Why an ssh run said nothing useful, in OpenSSH's own words where it gave
/// any: the words are the actionable part.
pub open spec fn spec_complaint(diagnostic: Seq<char>, spawn_error: Option<Seq<char>>, timed_out: bool, exit: Option<i32>) -> Seq<char> {
    if diagnostic.len() > 0 {
        diagnostic
    } else if spawn_error is Some {
        "cannot run ssh: "@ + spawn_error->0
    } else if timed_out {
        "ssh did not finish in time"@
    } else {
        match exit {
            Some(code) => "ssh exited with status "@ + signed_decimal(code as int) + " and said nothing"@,
            None => "ssh was stopped without reporting a status"@,
        }
    }
}

/// An optional text, as characters.
pub open spec fn opt_str(o: Option<&str>) -> Option<Seq<char>> {
    match o {
        Some(s) => Some(s@),
        None => None,
    }
}

/// Why an ssh run produced no answer.
pub fn complaint(diagnostic: &str, spawn_error: Option<&str>, timed_out: bool, exit: Option<i32>) -> (r: String)
    ensures
        r@ == spec_complaint(diagnostic@, opt_str(spawn_error), timed_out, exit),
{
    if !diagnostic.is_empty() {
        return String::from_str(diagnostic);
    }
    if let Some(error) = spawn_error {
        let mut out = String::from_str("cannot run ssh: ");
        out.append(error);
        return out;
    }
    if timed_out {
        return String::from_str("ssh did not finish in time");
    }
    match exit {
        Some(code) => {
            let mut out = String::from_str("ssh exited with status ");
            let d = signed_decimal_string(code);
            out.append(d.as_str());
            out.append(" and said nothing");
            out
        },
        None => String::from_str("ssh was stopped without reporting a status"),
    }
}

/// A control request's answer: exit 0 is the master answering; anything else
/// leaves its state unknown, in ssh's words.
pub fn control_verdict(action: &str, exit: Option<i32>, complaint: &str) -> (r: Control)
    ensures
        exit == Some(0i32) ==> r is Answered,
        exit != Some(0i32) ==> (r matches Control::Uncertain(m) && m@ == "ssh -O "@ + action@ + ": "@ + complaint@),
{
    if exit == Some(0i32) {
        Control::Answered
    } else {
        let mut m = String::from_str("ssh -O ");
        m.append(action);
        m.append(": ");
        m.append(complaint);
        Control::Uncertain(m)
    }
}

/// Why a control exchange produced no answer.
pub fn reason(control: &Control) -> (r: String)
    ensures
        r@ == match control {
            Control::Uncertain(reason) => reason@,
            Control::SocketAbsent => "its control socket is absent"@,
            Control::Answered => "it answered"@,
        },
{
    match control {
        Control::Uncertain(reason) => reason.clone(),
        Control::SocketAbsent => String::from_str("its control socket is absent"),
        Control::Answered => String::from_str("it answered"),
    }
}

/// What the start request's own run says: a timeout leaves the forward
/// uncertain, any other failure is a transport fault, and success still has to
/// be confirmed by a `check`.
pub fn launch_verdict(timed_out: bool, exit: Option<i32>, complaint: &str) -> (r: Option<Fault>)
    ensures
        timed_out ==> (r matches Some(f) && f@ == FaultView::Uncertain("tunnel startup timed out: "@ + complaint@)),
        !timed_out && exit != Some(0i32) ==> (r matches Some(f) && f@ == FaultView::Transport("cannot open tunnel: "@ + complaint@)),
        !timed_out && exit == Some(0i32) ==> r is None,
{
    if timed_out {
        let mut m = String::from_str("tunnel startup timed out: ");
        m.append(complaint);
        return Some(Fault::Uncertain(m));
    }
    if exit != Some(0i32) {
        let mut m = String::from_str("cannot open tunnel: ");
        m.append(complaint);
        return Some(Fault::Transport(m));
    }
    None
}

/// A started master counts only once it answered a `check`.
pub fn started_verdict(check: &Control) -> (r: Result<(), Fault>)
    ensures
        check is Answered ==> r is Ok,
        !(check is Answered) ==> (r matches Err(f) && f@ == FaultView::Transport(
            "tunnel started but its OpenSSH master is not answering: "@ + match check {
                Control::Uncertain(reason) => reason@,
                Control::SocketAbsent => "its control socket is absent"@,
                Control::Answered => "it answered"@,
            },
        )),
{
    match check {
        Control::Answered => Ok(()),
        _ => {
            let why = reason(check);
            let mut m = String::from_str("tunnel started but its OpenSSH master is not answering: ");
            m.append(why.as_str());
            Err(Fault::Transport(m))
        },
    }
}

} // verus!
