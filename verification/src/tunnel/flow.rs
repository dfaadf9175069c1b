//! What each answer from a tunnel's master means for `tunnel open`, `tunnel
//! list` and `tunnel close`. The program around the library asks the master
//! and touches the record on disk; these functions decide what happens next.
use vstd::prelude::*;
use super::master::Control;
use super::record::{Fault, FaultView, Status};

verus! {

/// A listed record's status: a master that answered is alive, one whose socket
/// is gone is stale, and one that did not answer leaves its state unknown,
/// which a list may not invent a status for.
pub fn list_status(check: Control) -> (r: Result<Status, Fault>)
    ensures
        match check {
            Control::Answered => r == Ok::<Status, Fault>(Status::Alive),
            Control::SocketAbsent => r == Ok::<Status, Fault>(Status::Stale),
            Control::Uncertain(reason) => r matches Err(f) && f@ == FaultView::Transport(reason@),
        },
{
    match check {
        Control::Answered => Ok(Status::Alive),
        Control::SocketAbsent => Ok(Status::Stale),
        Control::Uncertain(reason) => Err(Fault::Transport(reason)),
    }
}

/// Whether closing a tunnel has to stop its master first (`Ok(true)`), can
/// remove the record straight away because the master is gone (`Ok(false)`),
/// or must give up because the master did not answer.
pub fn close_needs_stop(check: Control) -> (r: Result<bool, Fault>)
    ensures
        match check {
            Control::Answered => r == Ok::<bool, Fault>(true),
            Control::SocketAbsent => r == Ok::<bool, Fault>(false),
            Control::Uncertain(reason) => r matches Err(f) && f@ == FaultView::Transport(reason@),
        },
{
    match check {
        Control::Answered => Ok(true),
        Control::SocketAbsent => Ok(false),
        Control::Uncertain(reason) => Err(Fault::Transport(reason)),
    }
}

/// A master that could not be confirmed stopped leaves the close uncertain:
/// the record stays, because the forward may still be running.
pub fn close_after_stop(stop: Result<(), String>) -> (r: Result<(), Fault>)
    ensures
        match stop {
            Ok(()) => r is Ok,
            Err(reason) => r matches Err(f) && f@ == FaultView::Uncertain(reason@),
        },
{
    match stop {
        Ok(()) => Ok(()),
        Err(reason) => Err(Fault::Uncertain(reason)),
    }
}

/// What an `exit` request settles by itself: a socket already gone is a
/// stopped master, a master that did not answer is the reason the stop failed,
/// and an accepted exit (`None`) still has to be followed by watching the
/// socket disappear.
pub fn stop_after_exit(exit: Control) -> (r: Option<Result<(), String>>)
    ensures
        match exit {
            Control::Answered => r is None,
            Control::SocketAbsent => r == Some(Ok::<(), String>(())),
            Control::Uncertain(reason) => r matches Some(Err(m)) && m@ == reason@,
        },
{
    match exit {
        Control::Answered => None,
        Control::SocketAbsent => Some(Ok(())),
        Control::Uncertain(reason) => Some(Err(reason)),
    }
}

/// What a failed start leaves to do, once the master was asked to stop.
pub enum Recovery {
    /// The master is gone and the start failure was definite: remove the
    /// record, then report the start failure.
    RemoveThenReport(Fault),
    /// Report this, and leave the record in place as evidence.
    Report(Fault),
}

/// `"tunnel "`, the id, and the rest of a sentence.
pub open spec fn about(id: Seq<char>, rest: Seq<char>) -> Seq<char> {
    "tunnel "@ + id + rest
}

fn sentence(id: &str, rest: &str) -> (r: String)
    ensures
        r@ == about(id@, rest@),
{
    let mut out = String::from_str("tunnel ");
    out.append(id);
    out.append(rest);
    out
}

/// Decides what a failed `tunnel open` reports. A master that could not be
/// confirmed stopped may still hold the forward; a start that was itself
/// uncertain keeps its record for inspection; only a definite failure whose
/// master is gone removes the record.
pub fn recover_failed_start(id: &str, start_error: Fault, stop: Result<(), String>) -> (r: Recovery)
    ensures
        match stop {
            Err(reason) => r matches Recovery::Report(f) && f@ == FaultView::Uncertain(
                about(id@, " may still be running after startup failed: "@ + reason@),
            ),
            Ok(()) => if start_error is Uncertain {
                r matches Recovery::Report(f) && f@ == FaultView::Uncertain(
                    about(id@, " startup was uncertain; its record remains for inspection"@),
                )
            } else {
                r matches Recovery::RemoveThenReport(f) && f@ == start_error@
            },
        },
{
    match stop {
        Err(reason) => {
            let mut rest = String::from_str(" may still be running after startup failed: ");
            rest.append(reason.as_str());
            Recovery::Report(Fault::Uncertain(sentence(id, rest.as_str())))
        },
        Ok(()) => match start_error {
            Fault::Uncertain(_) => Recovery::Report(
                Fault::Uncertain(sentence(id, " startup was uncertain; its record remains for inspection")),
            ),
            other => Recovery::RemoveThenReport(other),
        },
    }
}

/// A record that outlived a failed start because it could not be removed.
/// `error` is the removal failure as the caller describes it.
pub fn removal_failed(id: &str, error: &str) -> (r: Fault)
    ensures
        r@ == FaultView::Uncertain(about(id@, " did not start, but its record could not be removed: "@ + error@)),
{
    let mut rest = String::from_str(" did not start, but its record could not be removed: ");
    rest.append(error);
    Fault::Uncertain(sentence(id, rest.as_str()))
}

} // verus!
