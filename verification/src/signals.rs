//! Local interruption: the two signals a caller uses to stop an invocation.
//!
//! The program around the library installs the handlers; what it hands here is
//! what they recorded: *that* a signal arrived and whether `SIGTERM` was among
//! them. The reported reason and the process status then come from what
//! actually happened rather than from a guess made afterwards.
use vstd::prelude::*;
use crate::domain::{CancelSignal, Interruption};

verus! {

/// What the signal handlers have recorded so far.
#[derive(Debug, Clone, Copy)]
pub struct Interrupt {
    /// `SIGINT` or `SIGTERM` arrived.
    pub interrupted: bool,
    /// `SIGTERM` arrived.
    pub term: bool,
}

/// The signal an observation reports: none before any arrived, `SIGTERM` when
/// it was among them, `SIGINT` otherwise.
pub open spec fn spec_signal(interrupted: bool, term: bool) -> Option<CancelSignal> {
    if !interrupted {
        None
    } else if term {
        Some(CancelSignal::Term)
    } else {
        Some(CancelSignal::Int)
    }
}

impl Default for Interrupt {
    /// Nothing has arrived yet.
    fn default() -> (r: Self)
        ensures
            !r.interrupted,
            !r.term,
    {
        Interrupt { interrupted: false, term: false }
    }
}

impl Interrupt {
    /// Whether the caller asked this invocation to stop.
    pub fn requested(&self) -> (r: bool)
        ensures
            r == self.interrupted,
    {
        self.interrupted
    }

    /// The signal that arrived, if any. `SIGTERM` is distinguished from
    /// `SIGINT`; anything else is reported as a cancellation without pretending
    /// to know which.
    pub fn signal(&self) -> (r: Option<CancelSignal>)
        ensures
            r == spec_signal(self.interrupted, self.term),
    {
        if !self.requested() {
            return None;
        }
        Some(if self.term {
            CancelSignal::Term
        } else {
            CancelSignal::Int
        })
    }

    /// The interruption to report, if the caller asked to stop.
    pub fn interruption(&self) -> (r: Option<Interruption>)
        ensures
            r == match spec_signal(self.interrupted, self.term) {
                Some(s) => Some(Interruption::Cancelled(s)),
                None => None::<Interruption>,
            },
    {
        match self.signal() {
            Some(s) => Some(Interruption::Cancelled(s)),
            None => None,
        }
    }
}

/// The process status a cancelled invocation exits with: the shell's
/// convention of 128 plus the signal's number, so 130 for `SIGINT` and 143 for
/// `SIGTERM`.
pub fn exit_status(signal: CancelSignal) -> (r: u8)
    ensures
        r == (match signal {
            CancelSignal::Int => 130u8,
            CancelSignal::Term => 143u8,
        }),
{
    match signal {
        CancelSignal::Int => 130,
        CancelSignal::Term => 143,
    }
}

} // verus!
