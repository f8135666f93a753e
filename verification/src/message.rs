//! What travels through the dispatch queue, and what a worker is told to do next.

use vstd::prelude::*;

verus! {

/// One entry of the dispatch queue: a unit of work, or the order to stop.
///
/// The pool never looks inside a job; `J` is whatever the caller runs.
#[derive(Debug)]
pub enum Message<J> {
    Job(J),
    Terminate,
}

/// What a worker does after asking the pool for its next step.
#[derive(Debug)]
pub enum Action<J> {
    /// Run this job, then report how it ended.
    Run(J),
    /// Nothing to do yet: block until the pool changes, then ask again.
    Wait,
    /// Leave the loop and let the thread end.
    Exit,
}

/// How the run of one job ended.
#[derive(Clone, Copy, Debug, PartialEq, Eq, Structural)]
pub enum JobOutcome {
    /// The job returned.
    Completed,
    /// The job aborted; the fault was caught at the worker's boundary.
    Faulted,
}

/// How the attempt to join one worker thread ended.
#[derive(Clone, Copy, Debug, PartialEq, Eq, Structural)]
pub enum JoinOutcome {
    /// The thread had left its loop and was joined.
    Clean,
    /// The thread could not be joined cleanly.
    Failed,
}

/// What became of a reported join.
#[derive(Clone, Copy, Debug, PartialEq, Eq, Structural)]
pub enum JoinReply {
    /// The worker had left its loop and is now joined.
    Joined,
    /// The join failed; the worker is given up on. Worth a warning.
    Lost,
    /// The report was not taken: the pool is not shutting down, there is no
    /// such worker, it has not left its loop, or it was joined before.
    Refused,
}

} // verus!
