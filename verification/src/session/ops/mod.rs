//! What every session use-case agrees on: one refusal, one code, and the
//! values the use cases report.
pub mod errors;

use vstd::prelude::*;
use crate::remote::Error;
use super::Status;

verus! {

/// One session record as a caller sees it.
#[derive(Debug, Clone)]
pub struct Info {
    pub id: String,
    pub name: String,
    pub tmux_session: String,
    pub created_at: String,
    /// Empty when the session was created without a working directory.
    pub initial_cwd: String,
    pub shell: String,
    pub status: Status,
}

/// What is known about whether a create reached the remote host.
#[derive(Debug, Clone, Copy, PartialEq, Eq, Structural)]
pub enum CreationStatus {
    /// The remote committed the record.
    Created,
    /// The remote certainly did not create it.
    NotCreated,
    /// The answer was lost: the candidate id is how to find out.
    Unknown,
}

impl CreationStatus {
    pub open spec fn spec_as_str(self) -> Seq<char> {
        match self {
            CreationStatus::Created => "created"@,
            CreationStatus::NotCreated => "not_created"@,
            CreationStatus::Unknown => "unknown"@,
        }
    }

    pub fn as_str(self) -> (r: &'static str)
        ensures
            r@ == self.spec_as_str(),
    {
        match self {
            CreationStatus::Created => "created",
            CreationStatus::NotCreated => "not_created",
            CreationStatus::Unknown => "unknown",
        }
    }
}

/// The outcome of one create: the record on success, the failure otherwise,
/// and always the candidate identity this invocation reserved.
#[derive(Debug)]
pub struct Created {
    pub info: Option<Info>,
    pub error: Option<Error>,
    pub candidate_id: String,
    pub candidate_ref: String,
    pub creation_status: CreationStatus,
}

/// One page of a session's pane log, with its cursors.
#[derive(Debug)]
pub struct Read {
    pub id: String,
    pub reference: String,
    pub content: String,
    pub from: u64,
    pub next: u64,
    /// The log's size when it was read.
    pub size: u64,
}

impl Read {
    /// Whether the log holds more than this page reached.
    pub fn more(&self) -> (r: bool)
        ensures
            r == (self.next < self.size),
    {
        self.next < self.size
    }
}

/// The outcome of one recover: whether the shell came back is the answer,
/// on both paths.
#[derive(Debug)]
pub struct Recover {
    pub id: Option<String>,
    pub reference: String,
    pub preserved: bool,
    pub foreground: Option<String>,
    pub failure: Option<Error>,
}

} // verus!
