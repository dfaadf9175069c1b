//! One helper refusal, one code: every use-case looks its refusal up here, so
//! the same cause reports the same `error.code` whichever operation hit it.
use vstd::prelude::*;
use crate::remote::Error;
use crate::session::remote::protocol::{HelperFailure, decodes_to, spec_field};
use crate::text::{chars_of, lines, trim_chars};

verus! {

/// The code, message and retryability a helper failure reports.
pub open spec fn failure_error(f: HelperFailure) -> (Seq<char>, Seq<char>, bool) {
    match f {
        HelperFailure::NoSession => ("SESSION_NOT_FOUND"@, "no such session"@, false),
        HelperFailure::SessionDied => (
            "SESSION_NOT_FOUND"@,
            "session shell exited (the command likely ran `exit`)"@,
            false,
        ),
        HelperFailure::Timeout => (
            "REMOTE_COMMAND_TIMEOUT"@,
            "command exceeded timeout in session"@,
            false,
        ),
        HelperFailure::Locked => (
            "SESSION_UNHEALTHY"@,
            "session is busy (another writer holds the lock)"@,
            true,
        ),
        HelperFailure::InputFailed => (
            "SESSION_UNHEALTHY"@,
            "could not submit command input to session"@,
            true,
        ),
        HelperFailure::InputUncertain => (
            "SESSION_UNHEALTHY"@,
            "session input may have been partly delivered; read the session before retrying"@,
            false,
        ),
        HelperFailure::CloseFailed => (
            "SESSION_UNHEALTHY"@,
            "the session could not be confirmed closed"@,
            true,
        ),
        HelperFailure::Busy => (
            "SESSION_BUSY"@,
            "session foreground is not the managed shell; use session send/read, or session recover"@,
            true,
        ),
        HelperFailure::UnknownForeground => (
            "SESSION_UNHEALTHY"@,
            "could not read the pane's foreground command"@,
            true,
        ),
        HelperFailure::NoTty => ("SESSION_UNHEALTHY"@, "could not open the pane's terminal"@, true),
        HelperFailure::NotReady => (
            "SESSION_UNHEALTHY"@,
            "session shell did not become ready"@,
            true,
        ),
        HelperFailure::NoTmux => ("REMOTE_DEPENDENCY_MISSING"@, "remote host is missing tmux"@, false),
        HelperFailure::NoFlock => (
            "REMOTE_DEPENDENCY_MISSING"@,
            "remote host is missing flock (util-linux)"@,
            false,
        ),
        HelperFailure::NameInUse => ("CONFIG_INVALID"@, "session name is already in use"@, false),
        HelperFailure::InvalidCwd => (
            "CONFIG_INVALID"@,
            "initial working directory is not accessible"@,
            false,
        ),
        HelperFailure::NewFailed => (
            "SESSION_UNHEALTHY"@,
            "could not create the tmux session"@,
            true,
        ),
        HelperFailure::Protocol | HelperFailure::Unknown(_) => (
            "SESSION_UNHEALTHY"@,
            "session helper returned incomplete or invalid completion evidence"@,
            false,
        ),
    }
}

/// The stable error a helper refusal maps to.
pub fn session_error(failure: HelperFailure) -> (r: Error)
    ensures
        (r.code@, r.message@, r.retryable) == failure_error(failure),
{
    match failure {
        HelperFailure::NoSession => Error::new("SESSION_NOT_FOUND", "no such session"),
        HelperFailure::SessionDied => Error::new(
            "SESSION_NOT_FOUND",
            "session shell exited (the command likely ran `exit`)",
        ),
        HelperFailure::Timeout => Error::new(
            "REMOTE_COMMAND_TIMEOUT",
            "command exceeded timeout in session",
        ),
        HelperFailure::Locked => Error::new(
            "SESSION_UNHEALTHY",
            "session is busy (another writer holds the lock)",
        ).retryable(),
        HelperFailure::InputFailed => Error::new(
            "SESSION_UNHEALTHY",
            "could not submit command input to session",
        ).retryable(),
        HelperFailure::InputUncertain => Error::new(
            "SESSION_UNHEALTHY",
            "session input may have been partly delivered; read the session before retrying",
        ),
        HelperFailure::CloseFailed => Error::new(
            "SESSION_UNHEALTHY",
            "the session could not be confirmed closed",
        ).retryable(),
        HelperFailure::Busy => Error::new(
            "SESSION_BUSY",
            "session foreground is not the managed shell; use session send/read, or session recover",
        ).retryable(),
        HelperFailure::UnknownForeground => Error::new(
            "SESSION_UNHEALTHY",
            "could not read the pane's foreground command",
        ).retryable(),
        HelperFailure::NoTty => Error::new(
            "SESSION_UNHEALTHY",
            "could not open the pane's terminal",
        ).retryable(),
        HelperFailure::NotReady => Error::new(
            "SESSION_UNHEALTHY",
            "session shell did not become ready",
        ).retryable(),
        HelperFailure::NoTmux => Error::new(
            "REMOTE_DEPENDENCY_MISSING",
            "remote host is missing tmux",
        ),
        HelperFailure::NoFlock => Error::new(
            "REMOTE_DEPENDENCY_MISSING",
            "remote host is missing flock (util-linux)",
        ),
        HelperFailure::NameInUse => Error::new("CONFIG_INVALID", "session name is already in use"),
        HelperFailure::InvalidCwd => Error::new(
            "CONFIG_INVALID",
            "initial working directory is not accessible",
        ),
        HelperFailure::NewFailed => Error::new(
            "SESSION_UNHEALTHY",
            "could not create the tmux session",
        ).retryable(),
        HelperFailure::Protocol | HelperFailure::Unknown(_) => Error::new(
            "SESSION_UNHEALTHY",
            "session helper returned incomplete or invalid completion evidence",
        ),
    }
}

/// A session problem that is worth retrying.
pub fn unhealthy(message: &str) -> (r: Error)
    ensures
        r.code@ == "SESSION_UNHEALTHY"@,
        r.message@ == message@,
        r.retryable,
{
    Error::new("SESSION_UNHEALTHY", message).retryable()
}

/// The helper's refusal, when it reported one. A code outside the closed set is
/// kept as an unknown failure rather than silently treated as success.
pub fn helper_failure(stdout: &str) -> (r: Option<HelperFailure>)
    ensures
        match spec_field(lines(stdout@), "RHOST_ERR="@) {
            Some(code) => r matches Some(f) && decodes_to(f, code),
            None => r is None,
        },
{
    match crate::session::remote::protocol::field(stdout, "RHOST_ERR=") {
        Some(code) => Some(HelperFailure::from_code(code.as_str())),
        None => None,
    }
}

pub open spec fn is_name_char(c: char) -> bool {
    ('a' <= c && c <= 'z') || ('A' <= c && c <= 'Z') || ('0' <= c && c <= '9') || c == '_' || c
        == '.' || c == '-'
}

/// A session name: 1 to 64 characters from `[A-Za-z0-9_.-]`.
pub open spec fn spec_valid_name(name: Seq<char>) -> bool {
    0 < name.len() <= 64 && forall|k: int| 0 <= k < name.len() ==> is_name_char(#[trigger] name[k])
}

pub fn valid_name(name: &str) -> (r: bool)
    ensures
        r == spec_valid_name(name@),
{
    let v = chars_of(name);
    if v.len() == 0 || v.len() > 64 {
        return false;
    }
    let mut i: usize = 0;
    while i < v.len()
        invariant
            i <= v.len(),
            v@ == name@,
            forall|k: int| 0 <= k < i ==> is_name_char(#[trigger] v@[k]),
        decreases v.len() - i,
    {
        let c = v[i];
        if !(('a' <= c && c <= 'z') || ('A' <= c && c <= 'Z') || ('0' <= c && c <= '9') || c
            == '_' || c == '.' || c == '-') {
            assert(!is_name_char(v@[i as int]));
            return false;
        }
        i = i + 1;
    }
    true
}

/// The key names rhost injects: a closed allowlist rather than a passthrough.
pub open spec fn spec_supported_key(key: Seq<char>) -> bool {
    key == "C-c"@ || key == "C-d"@ || key == "C-z"@ || key == "C-\\"@ || key == "C-u"@ || key
        == "C-l"@ || key == "C-a"@ || key == "C-e"@ || key == "C-w"@ || key == "Enter"@ || key
        == "Tab"@ || key == "BTab"@ || key == "Space"@ || key == "BSpace"@ || key == "Escape"@
        || key == "Up"@ || key == "Down"@ || key == "Left"@ || key == "Right"@ || key
        == "Home"@ || key == "End"@ || key == "PageUp"@ || key == "PageDown"@
}

/// A tmux key name for a control key: `C-` and one of `c d z \ u l a e w`.
pub open spec fn tmux_control_key(k: Seq<char>) -> bool {
    k.len() == 3 && k[0] == 'C' && k[1] == '-' && (k[2] == 'c' || k[2] == 'd' || k[2] == 'z' || k[2]
        == '\\' || k[2] == 'u' || k[2] == 'l' || k[2] == 'a' || k[2] == 'e' || k[2] == 'w')
}

/// A tmux name for a named key: Enter, Tab, BTab, Space, BSpace, Escape, the
/// four arrows, Home, End, PageUp and PageDown, spelled as tmux spells them.
pub open spec fn tmux_named_key(k: Seq<char>) -> bool {
    k == seq!['E', 'n', 't', 'e', 'r']
        || k == seq!['T', 'a', 'b']
        || k == seq!['B', 'T', 'a', 'b']
        || k == seq!['S', 'p', 'a', 'c', 'e']
        || k == seq!['B', 'S', 'p', 'a', 'c', 'e']
        || k == seq!['E', 's', 'c', 'a', 'p', 'e']
        || k == seq!['U', 'p']
        || k == seq!['D', 'o', 'w', 'n']
        || k == seq!['L', 'e', 'f', 't']
        || k == seq!['R', 'i', 'g', 'h', 't']
        || k == seq!['H', 'o', 'm', 'e']
        || k == seq!['E', 'n', 'd']
        || k == seq!['P', 'a', 'g', 'e', 'U', 'p']
        || k == seq!['P', 'a', 'g', 'e', 'D', 'o', 'w', 'n']
}

/// The allowlist is exactly those tmux key names, in tmux's own spelling and
/// case: `Enter` is accepted, `enter` and `C-x` are not.
pub proof fn lemma_supported_keys_are_the_tmux_names(k: Seq<char>)
    ensures
        spec_supported_key(k) <==> tmux_control_key(k) || tmux_named_key(k),
{
    reveal_strlit("C-c");
    reveal_strlit("C-d");
    reveal_strlit("C-z");
    reveal_strlit("C-\\");
    reveal_strlit("C-u");
    reveal_strlit("C-l");
    reveal_strlit("C-a");
    reveal_strlit("C-e");
    reveal_strlit("C-w");
    reveal_strlit("Enter");
    reveal_strlit("Tab");
    reveal_strlit("BTab");
    reveal_strlit("Space");
    reveal_strlit("BSpace");
    reveal_strlit("Escape");
    reveal_strlit("Up");
    reveal_strlit("Down");
    reveal_strlit("Left");
    reveal_strlit("Right");
    reveal_strlit("Home");
    reveal_strlit("End");
    reveal_strlit("PageUp");
    reveal_strlit("PageDown");
    assert("C-c"@ =~= seq!['C', '-', 'c']);
    assert("C-d"@ =~= seq!['C', '-', 'd']);
    assert("C-z"@ =~= seq!['C', '-', 'z']);
    assert("C-\\"@ =~= seq!['C', '-', '\\']);
    assert("C-u"@ =~= seq!['C', '-', 'u']);
    assert("C-l"@ =~= seq!['C', '-', 'l']);
    assert("C-a"@ =~= seq!['C', '-', 'a']);
    assert("C-e"@ =~= seq!['C', '-', 'e']);
    assert("C-w"@ =~= seq!['C', '-', 'w']);
    assert("Enter"@ =~= seq!['E', 'n', 't', 'e', 'r']);
    assert("Tab"@ =~= seq!['T', 'a', 'b']);
    assert("BTab"@ =~= seq!['B', 'T', 'a', 'b']);
    assert("Space"@ =~= seq!['S', 'p', 'a', 'c', 'e']);
    assert("BSpace"@ =~= seq!['B', 'S', 'p', 'a', 'c', 'e']);
    assert("Escape"@ =~= seq!['E', 's', 'c', 'a', 'p', 'e']);
    assert("Up"@ =~= seq!['U', 'p']);
    assert("Down"@ =~= seq!['D', 'o', 'w', 'n']);
    assert("Left"@ =~= seq!['L', 'e', 'f', 't']);
    assert("Right"@ =~= seq!['R', 'i', 'g', 'h', 't']);
    assert("Home"@ =~= seq!['H', 'o', 'm', 'e']);
    assert("End"@ =~= seq!['E', 'n', 'd']);
    assert("PageUp"@ =~= seq!['P', 'a', 'g', 'e', 'U', 'p']);
    assert("PageDown"@ =~= seq!['P', 'a', 'g', 'e', 'D', 'o', 'w', 'n']);
    if tmux_control_key(k) {
        assert(k =~= seq!['C', '-', k[2]]);
    }
}

pub fn is_supported_key(key: &str) -> (r: bool)
    ensures
        r == spec_supported_key(key@),
{
    let v = chars_of(key);
    let known: [&'static str; 23] = [
        "C-c",
        "C-d",
        "C-z",
        "C-\\",
        "C-u",
        "C-l",
        "C-a",
        "C-e",
        "C-w",
        "Enter",
        "Tab",
        "BTab",
        "Space",
        "BSpace",
        "Escape",
        "Up",
        "Down",
        "Left",
        "Right",
        "Home",
        "End",
        "PageUp",
        "PageDown",
    ];
    let mut i: usize = 0;
    while i < 23
        invariant
            i <= 23,
            v@ == key@,
            known@ == seq![
                "C-c",
                "C-d",
                "C-z",
                "C-\\",
                "C-u",
                "C-l",
                "C-a",
                "C-e",
                "C-w",
                "Enter",
                "Tab",
                "BTab",
                "Space",
                "BSpace",
                "Escape",
                "Up",
                "Down",
                "Left",
                "Right",
                "Home",
                "End",
                "PageUp",
                "PageDown",
            ],
            forall|k: int| 0 <= k < i ==> key@ != (#[trigger] known@[k])@,
        decreases 23 - i,
    {
        if crate::session::remote::protocol::is_literal(&v, known[i]) {
            return true;
        }
        i = i + 1;
    }
    assert(!spec_supported_key(key@)) by {
        assert(key@ != known@[0]@);
        assert(key@ != known@[1]@);
        assert(key@ != known@[2]@);
        assert(key@ != known@[3]@);
        assert(key@ != known@[4]@);
        assert(key@ != known@[5]@);
        assert(key@ != known@[6]@);
        assert(key@ != known@[7]@);
        assert(key@ != known@[8]@);
        assert(key@ != known@[9]@);
        assert(key@ != known@[10]@);
        assert(key@ != known@[11]@);
        assert(key@ != known@[12]@);
        assert(key@ != known@[13]@);
        assert(key@ != known@[14]@);
        assert(key@ != known@[15]@);
        assert(key@ != known@[16]@);
        assert(key@ != known@[17]@);
        assert(key@ != known@[18]@);
        assert(key@ != known@[19]@);
        assert(key@ != known@[20]@);
        assert(key@ != known@[21]@);
        assert(key@ != known@[22]@);
    }
    false
}

/// `": " + first non-empty trimmed line of stderr`, or nothing when stderr says
/// nothing.
pub open spec fn spec_detail(stderr: Seq<char>) -> Seq<char> {
    match first_nonempty(lines(stderr)) {
        Some(line) => ": "@ + line,
        None => seq![],
    }
}

/// The first line that is not empty once trimmed, trimmed.
pub open spec fn first_nonempty(ls: Seq<Seq<char>>) -> Option<Seq<char>>
    decreases ls.len(),
{
    if ls.len() == 0 {
        None
    } else if crate::text::trim(ls[0]).len() > 0 {
        Some(crate::text::trim(ls[0]))
    } else {
        first_nonempty(ls.drop_first())
    }
}

/// The first non-empty trimmed line of `text`.
pub fn first_line_chars(text: &str) -> (r: Option<Vec<char>>)
    ensures
        match r {
            Some(v) => first_nonempty(lines(text@)) == Some(v@),
            None => first_nonempty(lines(text@)) is None,
        },
{
    let ls = crate::session::remote::protocol::line_vecs(text);
    let ghost all = lines(text@);
    let mut i: usize = 0;
    assert(all.subrange(0, all.len() as int) =~= all);
    while i < ls.len()
        invariant
            i <= ls.len(),
            ls@.map_values(|l: Vec<char>| l@) == all,
            all == lines(text@),
            first_nonempty(all) == first_nonempty(all.subrange(i as int, all.len() as int)),
        decreases ls.len() - i,
    {
        let ghost rest = all.subrange(i as int, all.len() as int);
        assert(all[i as int] == ls@[i as int]@);
        assert(rest[0] == ls@[i as int]@);
        assert(rest.drop_first() =~= all.subrange(i + 1, all.len() as int));
        let t = trim_chars(&ls[i]);
        if t.len() > 0 {
            return Some(t);
        }
        i = i + 1;
    }
    None
}

/// `": <first line of stderr>"`, or an empty string.
pub fn detail(stderr: &str) -> (r: String)
    ensures
        r@ == spec_detail(stderr@),
{
    match first_line_chars(stderr) {
        Some(line) => {
            let mut out = String::from_str(": ");
            crate::text::append_chars(&mut out, &line);
            out
        },
        None => String::new(),
    }
}

/// A helper's output is a few line-protocol fields, except exec's, which
/// carries the command's own terminal output inline. The bound is the capture
/// the transport keeps, so a runaway log cannot become an unbounded local
/// allocation.
pub const FIELD_CAPTURE: usize = 4194304;

/// The transport budget for one helper, in seconds: the helper's own worst
/// case is a non-blocking lock, up to five seconds waiting for the pane to go
/// idle, then the caller's deadline, and the transport has to outlive that or
/// it would kill the helper before it could report whether the session
/// survived.
pub fn helper_budget_secs(user_secs: u64) -> (r: u64)
    requires
        user_secs <= u64::MAX - 17,
    ensures
        r == user_secs + 17,
{
    user_secs + 2 + 5 + 10
}

/// What one helper run answered: its output, or, when the helper could not
/// report its own result at all, a session problem rather than a caller
/// mistake.
pub fn helper_answer(code: i32, stdout: String, stderr: &str) -> (r: Result<String, Error>)
    ensures
        code == 0 ==> r == Ok::<String, Error>(stdout),
        code != 0 ==> (r matches Err(e) && e.code@ == "SESSION_UNHEALTHY"@ && e.retryable && e.message@
            == "session helper exited "@ + crate::text::signed_decimal(code as int) + spec_detail(stderr@)),
{
    if code != 0 {
        let mut message = String::from_str("session helper exited ");
        let d = crate::text::signed_decimal_string(code);
        message.append(d.as_str());
        let rest = detail(stderr);
        message.append(rest.as_str());
        return Err(unhealthy(message.as_str()));
    }
    Ok(stdout)
}

/// A record's timestamp: when rhost created it, by this machine's clock, in
/// whole seconds since the Unix epoch. The remote host's clock stays the
/// authority.
pub fn record_timestamp(seconds: u64) -> (r: String)
    ensures
        r@ == "unix:"@ + crate::text::decimal(seconds as nat),
{
    let mut out = String::from_str("unix:");
    let d = crate::text::decimal_string(seconds);
    out.append(d.as_str());
    out
}

} // verus!
