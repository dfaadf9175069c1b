//! The system OpenSSH client, driven as a child process.
//!
//! OpenSSH owns resolution, authentication and host-key policy: rhost passes
//! options, never a password, and never disables host-key checking.
//! ControlMaster plus ControlPersist plus a `%C` ControlPath give transport
//! reuse that outlives any single rhost process, without a daemon. Running the
//! child belongs to the program around the library; the argv and the reading
//! of OpenSSH's answers are here.
use vstd::prelude::*;
use crate::text::{
    chars_of, decimal, lower_text, decimal_string, find_chars, find_first, is_digit, lemma_find_first,
    parse_bounded, parse_unsigned, push_str, string_of, string_views, trim, trim_chars,
};

verus! {

/// Connection reuse outlives one invocation, but not forever.
pub const CONTROL_PERSIST: &'static str = "15m";

/// How long OpenSSH may take to connect, in seconds.
pub const CONNECT_TIMEOUT_SECS: u64 = 15;

/// How long an `ssh -O` control exchange may take, in seconds.
pub const CONTROL_TIMEOUT_SECS: u64 = 5;

/// How this process drives OpenSSH.
pub struct Config {
    pub ssh_bin: String,
    pub control_path: String,
    pub control_persist: String,
    /// Whole seconds.
    pub connect_timeout_secs: u64,
    pub batch_mode: bool,
    pub log_level: String,
}

/// The connect timeout OpenSSH is given: at least one second.
pub open spec fn spec_connect_secs(secs: u64) -> nat {
    if secs < 1 {
        1
    } else {
        secs as nat
    }
}

/// The OpenSSH options for a configuration: a shared master (or none at all
/// for a fresh connection), the log level, the connect timeout, and batch mode.
pub open spec fn spec_options(cfg: Config, fresh: bool) -> Seq<Seq<char>> {
    let master = if fresh { "no"@ } else { "auto"@ };
    let persist = if fresh { "no"@ } else { cfg.control_persist@ };
    let path = if fresh { "none"@ } else { cfg.control_path@ };
    seq![
        "-o"@, "ControlMaster="@ + master,
        "-o"@, "ControlPersist="@ + persist,
        "-o"@, "ControlPath="@ + path,
        "-o"@, "LogLevel="@ + cfg.log_level@,
        "-o"@, "ConnectTimeout="@ + decimal(spec_connect_secs(cfg.connect_timeout_secs)),
    ] + if cfg.batch_mode {
        seq!["-o"@, "BatchMode=yes"@]
    } else {
        Seq::empty()
    }
}

/// One remote command: the options, no pseudo-terminal, and the command as a
/// single argument after the target.
pub open spec fn spec_exec_argv(cfg: Config, target: Seq<char>, command: Seq<char>, fresh: bool) -> Seq<Seq<char>> {
    spec_options(cfg, fresh) + seq!["-T"@, "--"@, target, command]
}

/// A control-protocol request (`check` or `stop`) for the shared master.
pub open spec fn spec_control_argv(cfg: Config, op: Seq<char>, target: Seq<char>) -> Seq<Seq<char>> {
    spec_options(cfg, false) + seq!["-O"@, op, "--"@, target]
}

fn concat(a: &str, b: &str) -> (r: String)
    ensures
        r@ == a@ + b@,
{
    let mut out = String::from_str(a);
    out.append(b);
    out
}

/// The OpenSSH client every remote capability goes through.
pub struct Client {
    cfg: Config,
}

impl Client {
    /// The configuration this client runs with.
    pub closed spec fn config(&self) -> Config {
        self.cfg
    }

    pub fn new(cfg: Config) -> (r: Self)
        ensures
            r.config() == cfg,
    {
        Client { cfg }
    }

    /// The ControlPath template handed to OpenSSH.
    pub fn control_path(&self) -> (r: &str)
        ensures
            r@ == self.config().control_path@,
    {
        self.cfg.control_path.as_str()
    }

    /// The OpenSSH program every command under this client runs. A dedicated
    /// tunnel master is started by the same client, so it must be the same
    /// binary rather than a second, private resolution of "ssh".
    pub fn ssh_bin(&self) -> (r: &str)
        ensures
            r@ == self.config().ssh_bin@,
    {
        self.cfg.ssh_bin.as_str()
    }

    /// The OpenSSH options rhost passes to ssh, in argv form.
    ///
    /// No caller builds its own ssh argument list from scratch: transport reuse
    /// depends on these being the only ones. `scp` takes them directly and
    /// `rsync` carries them inside a single `-e` string.
    pub fn options(&self, fresh: bool) -> (r: Vec<String>)
        ensures
            string_views(r@) == spec_options(self.config(), fresh),
    {
        let (master, persist, path) = if fresh {
            ("no", "no", "none")
        } else {
            ("auto", self.cfg.control_persist.as_str(), self.cfg.control_path.as_str())
        };
        let mut options: Vec<String> = Vec::new();
        push_str(&mut options, "-o");
        let s = concat("ControlMaster=", master);
        push_str(&mut options, s.as_str());
        push_str(&mut options, "-o");
        let s = concat("ControlPersist=", persist);
        push_str(&mut options, s.as_str());
        push_str(&mut options, "-o");
        let s = concat("ControlPath=", path);
        push_str(&mut options, s.as_str());
        push_str(&mut options, "-o");
        let s = concat("LogLevel=", self.cfg.log_level.as_str());
        push_str(&mut options, s.as_str());
        push_str(&mut options, "-o");
        let secs = if self.cfg.connect_timeout_secs < 1 {
            1
        } else {
            self.cfg.connect_timeout_secs
        };
        let d = decimal_string(secs);
        let s = concat("ConnectTimeout=", d.as_str());
        push_str(&mut options, s.as_str());
        if self.cfg.batch_mode {
            // Never prompt: agents run non-interactively. Authentication must
            // come from keys or ssh-agent.
            push_str(&mut options, "-o");
            push_str(&mut options, "BatchMode=yes");
        }
        assert(string_views(options@) =~= spec_options(self.config(), fresh));
        options
    }

    /// The options for a connection that shares the master.
    pub fn ssh_options(&self) -> (r: Vec<String>)
        ensures
            string_views(r@) == spec_options(self.config(), false),
    {
        self.options(false)
    }

    /// The ssh argv for one remote command. The remote command string is one
    /// argument, so exactly one shell program crosses the boundary.
    pub fn exec_argv(&self, target: &str, remote_command: &str, fresh: bool) -> (r: Vec<String>)
        ensures
            string_views(r@) == spec_exec_argv(self.config(), target@, remote_command@, fresh),
    {
        let mut args = self.options(fresh);
        push_str(&mut args, "-T");
        push_str(&mut args, "--");
        push_str(&mut args, target);
        push_str(&mut args, remote_command);
        assert(string_views(args@) =~= spec_exec_argv(self.config(), target@, remote_command@, fresh));
        args
    }

    /// The argv that asks OpenSSH whether the shared master is answering. It
    /// never creates a master.
    pub fn check_argv(&self, target: &str) -> (r: Vec<String>)
        ensures
            string_views(r@) == spec_control_argv(self.config(), "check"@, target@),
    {
        self.control_argv("check", target)
    }

    /// The argv that stops a shared master accepting new requests: `stop`,
    /// never `exit`, so channels already accepted keep running.
    pub fn stop_argv(&self, target: &str) -> (r: Vec<String>)
        ensures
            string_views(r@) == spec_control_argv(self.config(), "stop"@, target@),
    {
        self.control_argv("stop", target)
    }

    fn control_argv(&self, op: &str, target: &str) -> (r: Vec<String>)
        ensures
            string_views(r@) == spec_control_argv(self.config(), op@, target@),
    {
        let mut args = self.options(false);
        push_str(&mut args, "-O");
        push_str(&mut args, op);
        push_str(&mut args, "--");
        push_str(&mut args, target);
        assert(string_views(args@) =~= spec_control_argv(self.config(), op@, target@));
        args
    }
}

} // verus!

verus! {

/// What OpenSSH says about the shared master.
#[derive(Debug, Clone, Copy, PartialEq, Eq, Structural)]
pub enum MasterStatus {
    Alive,
    Absent,
    Unknown,
}

impl MasterStatus {
    pub open spec fn spec_as_str(self) -> Seq<char> {
        match self {
            MasterStatus::Alive => "alive"@,
            MasterStatus::Absent => "absent"@,
            MasterStatus::Unknown => "unknown"@,
        }
    }

    pub fn as_str(self) -> (r: &'static str)
        ensures
            r@ == self.spec_as_str(),
    {
        match self {
            MasterStatus::Alive => "alive",
            MasterStatus::Absent => "absent",
            MasterStatus::Unknown => "unknown",
        }
    }
}

/// Evidence returned by OpenSSH's multiplexing control protocol. `control_path`
/// is the template passed to OpenSSH; `master_pid` is present only when OpenSSH
/// reported it explicitly.
#[derive(Debug, Clone)]
pub struct ConnectionStatus {
    pub master_status: MasterStatus,
    pub control_path: String,
    pub master_pid: Option<u32>,
    pub diagnostic: String,
    pub stopped: bool,
}

pub const PID_MARK: &'static str = "master running (pid=";

/// `needle` occurs in `hay`.
pub open spec fn mentions(hay: Seq<char>, needle: Seq<char>) -> bool {
    find_first(hay, needle) is Some
}

/// The answers by which OpenSSH says there is no master to talk to, read in
/// lowercase.
pub open spec fn says_absent(lower: Seq<char>) -> bool {
    mentions(lower, "no such file or directory"@) || mentions(lower, "no control master"@) || (
    mentions(lower, "control socket connect"@) && mentions(lower, "connection refused"@))
}

/// The leading run of ASCII digits of `s`.
pub open spec fn digit_run(s: Seq<char>) -> Seq<char>
    decreases s.len(),
{
    if s.len() > 0 && is_digit(s[0]) {
        seq![s[0]] + digit_run(s.drop_first())
    } else {
        Seq::empty()
    }
}

/// The pid in OpenSSH's `master running (pid=N)` answer, read from the
/// lowercase text where the mark was found.
pub open spec fn spec_master_pid(lower: Seq<char>) -> Option<nat> {
    match find_first(lower, PID_MARK@) {
        None => None,
        Some(at) => {
            let run = digit_run(lower.skip(at + PID_MARK@.len()));
            if run.len() == 0 {
                None
            } else {
                parse_unsigned(run, 4294967295)
            }
        },
    }
}

pub proof fn lemma_digit_run(s: Seq<char>, i: int)
    requires
        0 <= i <= s.len(),
        forall|k: int| 0 <= k < i ==> is_digit(#[trigger] s[k]),
    ensures
        digit_run(s) == s.take(i) + digit_run(s.skip(i)),
    decreases i,
{
    if i > 0 {
        lemma_digit_run(s.drop_first(), i - 1);
        assert(s.drop_first().skip(i - 1) =~= s.skip(i));
        assert(seq![s[0]] + s.drop_first().take(i - 1) =~= s.take(i));
    } else {
        assert(s.skip(0) =~= s);
        assert(s.take(0) + digit_run(s) =~= digit_run(s));
    }
}

/// A run of `n` digits followed by a non-digit (or the end) is the digit run.
pub proof fn lemma_digit_run_prefix(s: Seq<char>, n: int)
    requires
        0 <= n <= s.len(),
        forall|k: int| 0 <= k < n ==> is_digit(#[trigger] s[k]),
        n < s.len() ==> !is_digit(s[n]),
    ensures
        digit_run(s) == s.take(n),
{
    lemma_digit_run(s, n);
    if n < s.len() {
        assert(s.skip(n)[0] == s[n]);
    }
    assert(digit_run(s.skip(n)) =~= Seq::<char>::empty());
    assert(s.take(n) + Seq::<char>::empty() =~= s.take(n));
}

fn master_pid(lower: &[char]) -> (r: Option<u32>)
    ensures
        match r {
            Some(p) => spec_master_pid(lower@) == Some(p as nat),
            None => spec_master_pid(lower@) is None,
        },
{
    let mark = chars_of(PID_MARK);
    let at = match find_chars(lower, mark.as_slice()) {
        Some(at) => at,
        None => return None,
    };
    proof {
        lemma_find_first(lower@, mark@);
        assert(at + mark.len() <= lower.len());
    }
    let start = at + mark.len();
    let mut end = start;
    while end < lower.len() && '0' <= lower[end] && lower[end] <= '9'
        invariant
            start <= end <= lower.len(),
            forall|k: int| start <= k < end ==> is_digit(#[trigger] lower@[k]),
        decreases lower.len() - end,
    {
        end = end + 1;
    }
    let ghost tail = lower@.skip(start as int);
    proof {
        assert forall|k: int| 0 <= k < end - start implies is_digit(#[trigger] tail[k]) by {
            assert(tail[k] == lower@[start + k]);
        }
        lemma_digit_run(tail, end - start);
        if end < lower.len() {
            assert(tail.skip(end - start)[0] == lower@[end as int]);
        }
        assert(digit_run(tail.skip(end - start)) =~= Seq::<char>::empty());
        assert(tail.take(end - start) =~= lower@.subrange(start as int, end as int));
    }
    if end == start {
        return None;
    }
    let run = crate::text::slice_chars(lower, start, end);
    match parse_bounded(run.as_slice(), 4294967295) {
        Some(p) => Some(p as u32),
        None => None,
    }
}

fn mentions_exec(hay: &[char], needle: &str) -> (r: bool)
    ensures
        r == mentions(hay@, needle@),
{
    let n = chars_of(needle);
    find_chars(hay, n.as_slice()).is_some()
}

impl ConnectionStatus {
    /// Reads one `ssh -O check` answer: exit 0 is a live master (with its pid
    /// when OpenSSH names it); the known "no master" answers are absence;
    /// anything else is unknown.
    pub fn inspect(control_path: String, combined: &str, exit: Option<i32>) -> (r: Self)
        ensures
            r.control_path@ == control_path@,
            r.diagnostic@ == trim(combined@),
            !r.stopped,
            exit == Some(0i32) ==> r.master_status == MasterStatus::Alive && match r.master_pid {
                Some(p) => spec_master_pid(lower_text(combined@)) == Some(p as nat),
                None => spec_master_pid(lower_text(combined@)) is None,
            },
            exit != Some(0i32) ==> r.master_pid is None && r.master_status == (if says_absent(
                lower_text(combined@),
            ) {
                MasterStatus::Absent
            } else {
                MasterStatus::Unknown
            }),
    {
        let lower_text = crate::text::to_lowercase(combined);
        let lower = chars_of(lower_text.as_str());
        let (master_status, master_pid) = if exit == Some(0i32) {
            (MasterStatus::Alive, master_pid(lower.as_slice()))
        } else {
            let absent = mentions_exec(lower.as_slice(), "no such file or directory")
                || mentions_exec(lower.as_slice(), "no control master")
                || (mentions_exec(lower.as_slice(), "control socket connect")
                    && mentions_exec(lower.as_slice(), "connection refused"));
            (if absent { MasterStatus::Absent } else { MasterStatus::Unknown }, None)
        };
        let chars = chars_of(combined);
        let trimmed = trim_chars(chars.as_slice());
        ConnectionStatus {
            master_status,
            control_path,
            master_pid,
            diagnostic: string_of(trimmed.as_slice()),
            stopped: false,
        }
    }
}

/// One control-protocol answer as text: OpenSSH writes it on stderr, so both
/// streams are read together, then trimmed.
pub fn probe_diagnostic(stdout: &[u8], stderr: &[u8]) -> (r: String)
    ensures
        r@ == trim(crate::text::utf8_lossy(stdout@ + stderr@)),
{
    let mut combined: Vec<u8> = Vec::new();
    crate::text::append_bytes(&mut combined, stdout);
    crate::text::append_bytes(&mut combined, stderr);
    let text = crate::text::lossy_text(combined.as_slice());
    let chars = chars_of(text.as_str());
    let trimmed = trim_chars(chars.as_slice());
    string_of(trimmed.as_slice())
}

/// A reset attempt: the state it acted on, plus why it did not land.
pub struct Reset {
    pub status: ConnectionStatus,
    pub error: Option<String>,
}

/// `Option<i32>` as `{:?}` prints it.
pub open spec fn spec_debug_exit(exit: Option<i32>) -> Seq<char> {
    match exit {
        Some(c) => "Some("@ + crate::text::signed_decimal(c as int) + ")"@,
        None => "None"@,
    }
}

/// What a reset concludes from the status alone: no master means nothing to
/// stop, an unknown state is reported as the error; a live master has to be
/// stopped, so its status comes back unchanged.
pub fn reset_without_stop(status: ConnectionStatus) -> (r: Result<Reset, ConnectionStatus>)
    ensures
        match status.master_status {
            MasterStatus::Absent => r matches Ok(reset) && reset.status == status && reset.error is None,
            MasterStatus::Unknown => r matches Ok(reset) && reset.status == status && (reset.error
                matches Some(e) && e@ == status.diagnostic@),
            MasterStatus::Alive => r matches Err(s) && s == status,
        },
{
    match status.master_status {
        MasterStatus::Absent => Ok(Reset { status, error: None }),
        MasterStatus::Unknown => {
            let error = status.diagnostic.clone();
            Ok(Reset { error: Some(error), status })
        },
        MasterStatus::Alive => Err(status),
    }
}

/// What a reset concludes once `ssh -O stop` answered. The status always
/// describes what the reset acted on: a stop that landed marks the master
/// stopped; one that did not leaves its state unknown, with OpenSSH's words as
/// the error (or the exit status when it said nothing).
pub fn reset_after_stop(status: ConnectionStatus, diagnostic: String, exit: Option<i32>) -> (r: Reset)
    ensures
        r.status.control_path == status.control_path,
        r.status.master_pid == status.master_pid,
        r.status.diagnostic@ == diagnostic@,
        exit == Some(0i32) ==> r.status.stopped && r.error is None && r.status.master_status
            == status.master_status,
        exit != Some(0i32) ==> r.status.stopped == status.stopped && r.status.master_status
            == MasterStatus::Unknown && (r.error matches Some(e) && e@ == (if diagnostic@.len() == 0 {
            "ssh -O stop failed (exit "@ + spec_debug_exit(exit) + ")"@
        } else {
            diagnostic@
        })),
{
    let mut status = status;
    status.diagnostic = diagnostic.clone();
    if exit == Some(0i32) {
        status.stopped = true;
        Reset { status, error: None }
    } else {
        status.master_status = MasterStatus::Unknown;
        let error = if diagnostic.as_str().is_empty() {
            let mut text = String::from_str("ssh -O stop failed (exit ");
            match exit {
                Some(c) => {
                    text.append("Some(");
                    let d = crate::text::signed_decimal_string(c);
                    text.append(d.as_str());
                    text.append(")");
                },
                None => {
                    text.append("None");
                },
            }
            text.append(")");
            text
        } else {
            diagnostic
        };
        Reset { error: Some(error), status }
    }
}

} // verus!
