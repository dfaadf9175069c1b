//! Persistent sessions: a remote tmux session rhost can come back to.
//!
//! A session is owned entirely by remote tmux and remote files, so it survives
//! the CLI process, an SSH disconnect and the client machine rebooting. rhost
//! finds sessions by reading the remote state directory, and the id printed by
//! `create` is the canonical identity every later call is resolved against.
//!
//! On the remote host each session owns
//!
//! ```text
//! $RHOST_REMOTE_STATE/sessions/<id>/
//!     meta.json   discovery metadata (authoritative)
//!     pty.log     raw pane output, appended by `tmux pipe-pane`
//!     lock        flock target serialising writers
//! ```
use vstd::prelude::*;



pub mod dto;
pub mod ops;
pub mod protocol;
pub mod remote;

verus! {

/// The interactive shell a managed pane runs.
pub const DEFAULT_SHELL: &'static str = "bash";

/// The namespaced tmux session name for an id.
pub open spec fn spec_tmux_name(id: Seq<char>) -> Seq<char> {
    "rhost_s_"@ + id
}

/// The namespaced tmux session name for a session id.
pub fn tmux_name(id: &str) -> (r: String)
    ensures
        r@ == spec_tmux_name(id@),
{
    let mut out = String::from_str("rhost_s_");
    out.append(id);
    out
}

/// One session's discovery metadata. The remote helper writes it; every later
/// call reads it back over the same connection it was created on.
#[derive(Debug, Clone)]
pub struct Meta {
    pub schema_version: u32,
    pub id: String,
    pub name: String,
    pub tmux_session: String,
    pub created_at: String,
    pub created_by: String,
    pub initial_cwd: String,
    pub shell: String,
}

impl Meta {
    pub fn new(id: &str, name: &str, cwd: &str, shell_name: &str, created_at: &str) -> (r: Self)
        ensures
            r.schema_version == 1,
            r.id@ == id@,
            r.name@ == name@,
            r.tmux_session@ == spec_tmux_name(id@),
            r.created_at@ == created_at@,
            r.created_by@ == "rhost"@,
            r.initial_cwd@ == cwd@,
            r.shell@ == shell_name@,
    {
        Self {
            schema_version: 1,
            id: String::from_str(id),
            name: String::from_str(name),
            tmux_session: tmux_name(id),
            created_at: String::from_str(created_at),
            created_by: String::from_str("rhost"),
            initial_cwd: String::from_str(cwd),
            shell: String::from_str(shell_name),
        }
    }
}

/// Whether the tmux session behind a record is still there.
#[derive(Debug, Clone, Copy, PartialEq, Eq)]
pub enum Status {
    Alive,
    Dead,
    /// The record exists and its liveness could not be read.
    Unknown,
}

impl Status {
    pub fn as_str(self) -> (r: &'static str)
        ensures
            r@ == match self {
                Status::Alive => "alive"@,
                Status::Dead => "dead"@,
                Status::Unknown => "unknown"@,
            },
    {
        match self {
            Self::Alive => "alive",
            Self::Dead => "dead",
            Self::Unknown => "unknown",
        }
    }
}

} // verus!
