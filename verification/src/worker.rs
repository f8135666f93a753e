//! The record the pool keeps of one worker thread.

use vstd::prelude::*;

verus! {

/// Where a worker stands in its life.
#[derive(Clone, Copy, Debug, PartialEq, Eq, Structural)]
pub enum WorkerStatus {
    /// Waiting for a message.
    Idle,
    /// Running a job.
    Busy,
    /// Has left its loop; the thread can be joined.
    Exited,
    /// Joined after leaving its loop.
    Joined,
    /// Could not be joined cleanly.
    Lost,
}

impl WorkerStatus {
    /// The worker still takes messages or runs a job.
    pub open spec fn is_live(self) -> bool {
        self is Idle || self is Busy
    }

    /// The worker left its loop because it was told to.
    pub open spec fn has_retired(self) -> bool {
        self is Exited || self is Joined
    }

    /// Nothing more will happen to the worker.
    pub open spec fn is_final(self) -> bool {
        self is Joined || self is Lost
    }
}

/// One worker: its number, fixed for life, and its status.
///
/// The thread itself belongs to whoever spawned it; the pool decides what the
/// thread does next and records what it reported.
#[derive(Debug)]
pub struct Worker {
    id: usize,
    status: WorkerStatus,
}

impl Worker {
    /// The worker's number.
    pub closed spec fn spec_id(&self) -> usize {
        self.id
    }

    /// The worker's status.
    pub closed spec fn spec_status(&self) -> WorkerStatus {
        self.status
    }

    /// A worker with the given number, waiting for its first message.
    pub fn new(id: usize) -> (w: Worker)
        ensures
            w.spec_id() == id,
            w.spec_status() == WorkerStatus::Idle,
    {
        Worker { id, status: WorkerStatus::Idle }
    }

    /// The worker's number.
    #[verifier::when_used_as_spec(spec_id)]
    pub fn id(&self) -> (id: usize)
        ensures
            id == self.spec_id(),
    {
        self.id
    }

    /// The worker's status.
    #[verifier::when_used_as_spec(spec_status)]
    pub fn status(&self) -> (s: WorkerStatus)
        ensures
            s == self.spec_status(),
    {
        self.status
    }

    /// The same worker in another status.
    pub(crate) fn in_status(&self, status: WorkerStatus) -> (w: Worker)
        ensures
            w.spec_id() == self.spec_id(),
            w.spec_status() == status,
    {
        Worker { id: self.id, status }
    }
}

} // verus!
