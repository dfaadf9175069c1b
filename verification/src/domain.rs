//! Values that several capabilities share: the token that binds completion
//! evidence to one invocation, and the outcome of one remote command.
use vstd::prelude::*;
use crate::text::chars_of;

verus! {

/// A lowercase hexadecimal digit.
pub open spec fn is_lower_hex(c: char) -> bool {
    ('0' <= c && c <= '9') || ('a' <= c && c <= 'f')
}

/// A well-formed invocation token: 32 lowercase hex digits, 128 bits.
pub open spec fn spec_is_token(s: Seq<char>) -> bool {
    s.len() == 32 && forall|i: int| 0 <= i < s.len() ==> is_lower_hex(#[trigger] s[i])
}

/// The per-submission token that binds completion evidence to one invocation.
/// It is unguessable, so ordinary command output cannot forge a completion
/// for an invocation it is not part of.
pub struct InvocationToken {
    value: String,
}

impl View for InvocationToken {
    type V = Seq<char>;

    closed spec fn view(&self) -> Seq<char> {
        self.value@
    }
}

impl InvocationToken {
    #[verifier::type_invariant]
    closed spec fn well_formed(self) -> bool {
        spec_is_token(self.value@)
    }

    /// Accepts exactly 32 lowercase hexadecimal digits.
    pub fn new(value: String) -> (r: Result<InvocationToken, String>)
        ensures
            match r {
                Ok(token) => token@ == value@,
                Err(_) => !spec_is_token(value@),
            },
            r is Ok <==> spec_is_token(value@),
    {
        let chars = chars_of(value.as_str());
        if chars.len() != 32 {
            return Err(String::from_str("invocation token must be 32 lowercase hex digits"));
        }
        let mut i: usize = 0;
        while i < chars.len()
            invariant
                i <= chars.len(),
                chars@ == value@,
                forall|k: int| 0 <= k < i ==> is_lower_hex(#[trigger] chars@[k]),
            decreases chars.len() - i,
        {
            let c = chars[i];
            if !(('0' <= c && c <= '9') || ('a' <= c && c <= 'f')) {
                assert(!is_lower_hex(value@[i as int]));
                return Err(String::from_str("invocation token must be 32 lowercase hex digits"));
            }
            i = i + 1;
        }
        Ok(InvocationToken { value })
    }

    /// The token's text.
    pub fn as_str(&self) -> (r: &str)
        ensures
            r@ == self@,
            spec_is_token(self@),
    {
        proof {
            use_type_invariant(self);
        }
        self.value.as_str()
    }

}

/// The signal that cancelled a local invocation.
#[derive(Debug, Clone, Copy, PartialEq, Eq, Structural)]
pub enum CancelSignal {
    Int,
    Term,
}

/// Why a run was interrupted before it finished: its deadline, or a person.
#[derive(Debug, Clone, Copy, PartialEq, Eq, Structural)]
pub enum Interruption {
    Timeout,
    Cancelled(CancelSignal),
}

/// What is known about whether a remote command ran to completion.
#[derive(Debug, Clone, Copy, PartialEq, Eq, Structural)]
pub enum Execution {
    /// It completed with this exit status.
    Completed(u8),
    /// It may have run; there is no completion evidence either way.
    Unknown,
    /// It was never submitted.
    NotStarted,
}

/// Why a command could not be submitted at all.
#[derive(Debug, Clone, Copy, PartialEq, Eq, Structural)]
pub enum PreExecFailure {
    Usage,
    Config,
    HostUnknown,
    Authentication,
    HostKey,
    Connection,
    DependencyMissing,
}

/// Why a remote command did not give a clean answer.
#[derive(Debug, Clone, Copy, PartialEq, Eq, Structural)]
pub enum ExecFailure {
    Interrupted(Interruption),
    ExecutionUnknown,
    OutputWriteFailed,
    BeforeSubmission(PreExecFailure),
}

/// What a timed-out or cancelled command's cleanup established.
#[derive(Debug, Clone, Copy, PartialEq, Eq, Structural)]
pub enum CleanupEvidence {
    NotAttempted,
    ConfirmedStopped,
    Unconfirmed,
}

/// One captured stream: its text, its size in source bytes, and whether the
/// text is a truncated prefix.
#[derive(Debug, Clone)]
pub struct CapturedText {
    pub content: String,
    pub bytes: u64,
    pub truncated: bool,
}

/// The outcome of one foreground remote command.
#[derive(Debug, Clone)]
pub struct ExecOutcome {
    pub failure: Option<ExecFailure>,
    pub execution: Execution,
    pub cleanup: CleanupEvidence,
    pub stdout: CapturedText,
    pub stderr: CapturedText,
    pub duration_ms: u64,
}

/// Why a command in a session did not give a clean answer.
#[derive(Debug, Clone, Copy, PartialEq, Eq, Structural)]
pub enum SessionFailure {
    WriterBusy,
    Busy,
    Timeout,
    Unhealthy,
    NotFound,
}

/// The outcome of one command run inside a session.
#[derive(Debug, Clone)]
pub struct SessionExecOutcome {
    pub failure: Option<SessionFailure>,
    /// The canonical id, once the session was resolved.
    pub id: Option<String>,
    /// The name or id the caller used.
    pub reference: String,
    pub execution: Execution,
    pub preserved: bool,
    pub output: CapturedText,
    /// What owned the pane when the session refused the command.
    pub foreground: Option<String>,
}

} // verus!
