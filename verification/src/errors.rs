//! What becomes of an error that reaches the watcher while it runs.

use vstd::prelude::*;

verus! {

/// The errors that the watcher tells apart.
#[derive(Clone, Copy, Debug, PartialEq, Eq, Structural)]
pub enum RuntimeFault {
    /// Waiting on the job's process group failed.
    WaitingOnProcessGroup,
    /// The source of file events could not be made.
    WatcherCreate,
    /// The source of file events ran out of watches.
    TooManyWatches,
    /// The source of file events ran out of handles.
    TooManyHandles,
    /// Any other error.
    Other,
}

/// What is done about an error.
#[derive(Clone, Copy, Debug, PartialEq, Eq, Structural)]
pub enum FaultAction {
    /// Note it in the log and go on.
    Log,
    /// Make it fatal.
    Elevate,
    /// Tell the user that it is not fatal, and go on.
    Report,
}

/// What is done about the error: a failed wait on the process group is
/// often spurious and only logged; a source of file events that cannot work
/// is fatal; anything else is reported.
pub open spec fn action_for(fault: RuntimeFault) -> FaultAction {
    match fault {
        RuntimeFault::WaitingOnProcessGroup => FaultAction::Log,
        RuntimeFault::WatcherCreate => FaultAction::Elevate,
        RuntimeFault::TooManyWatches => FaultAction::Elevate,
        RuntimeFault::TooManyHandles => FaultAction::Elevate,
        RuntimeFault::Other => FaultAction::Report,
    }
}

/// Decides what is done about an error.
pub fn init(fault: RuntimeFault) -> (action: FaultAction)
    ensures
        action == action_for(fault),
{
    match fault {
        RuntimeFault::WaitingOnProcessGroup => FaultAction::Log,
        RuntimeFault::WatcherCreate => FaultAction::Elevate,
        RuntimeFault::TooManyWatches => FaultAction::Elevate,
        RuntimeFault::TooManyHandles => FaultAction::Elevate,
        RuntimeFault::Other => FaultAction::Report,
    }
}

} // verus!
