//! The pool as a mathematical state machine.
//!
//! Every operation of the executable pool is stated as a function on
//! [`PoolModel`]; the invariant [`PoolModel::wf`] holds of every state the
//! operations can reach.

use vstd::prelude::*;
use crate::lifecycle::PoolState;
use crate::message::{Action, JobOutcome, JoinOutcome, Message};
use crate::worker::WorkerStatus;

verus! {

/// Number of workers in `workers` that are in status `status`.
pub open spec fn count_of(workers: Seq<WorkerStatus>, status: WorkerStatus) -> nat
    decreases workers.len(),
{
    if workers.len() == 0 {
        0
    } else {
        count_of(workers.drop_last(), status) + if workers.last() == status {
            1nat
        } else {
            0nat
        }
    }
}

/// Every worker in `workers` has been joined or given up on.
pub open spec fn all_final(workers: Seq<WorkerStatus>) -> bool {
    forall|i: int| 0 <= i < workers.len() ==> (#[trigger] workers[i]).is_final()
}

/// Some worker in `workers` has left its loop because it was told to.
pub open spec fn some_retired(workers: Seq<WorkerStatus>) -> bool {
    exists|i: int| 0 <= i < workers.len() && (#[trigger] workers[i]).has_retired()
}

/// Anything that can happen to a pool.
pub enum Event<J> {
    /// A producer submits a job.
    Submit(J),
    /// A worker asks for its next step.
    Take(int),
    /// A worker reports the end of its job.
    Finish(int, JobOutcome),
    /// The shutdown is asked for.
    Shutdown,
    /// The attempt to join a worker's thread is reported.
    Join(int, JoinOutcome),
}

/// The jobs submitted in `events`, in order.
pub open spec fn jobs_submitted<J>(events: Seq<Event<J>>) -> Seq<J>
    decreases events.len(),
{
    if events.len() == 0 {
        Seq::empty()
    } else {
        match events.last() {
            Event::Submit(job) => jobs_submitted(events.drop_last()).push(job),
            _ => jobs_submitted(events.drop_last()),
        }
    }
}

/// No shutdown is asked for in `events`.
pub open spec fn no_shutdown<J>(events: Seq<Event<J>>) -> bool {
    forall|i: int| 0 <= i < events.len() ==> !((#[trigger] events[i]) is Shutdown)
}

/// The state of a pool.
///
/// The dispatch queue is not stored: it always holds the accepted jobs that
/// have not been handed out, oldest first, followed by the `Terminate`
/// messages that have not been taken (see [`PoolModel::messages`]).
pub struct PoolModel<J> {
    pub state: PoolState,
    /// The status of each worker, by worker number.
    pub workers: Seq<WorkerStatus>,
    /// Every job ever accepted, in the order of acceptance.
    pub accepted: Seq<J>,
    /// How many of the accepted jobs have been handed to a worker.
    pub started: nat,
    /// How many `Terminate` messages wait in the queue.
    pub terminates: nat,
    /// How many jobs have run to their end, by returning or by a fault.
    pub finished: nat,
    /// How many of the finished jobs ended by a fault.
    pub faulted: nat,
    /// How many jobs were in flight on a worker that was then lost.
    pub abandoned: nat,
}

impl<J> PoolModel<J> {
    /// A pool under construction with `size` workers.
    pub open spec fn created(size: nat) -> Self {
        PoolModel {
            state: PoolState::Created,
            workers: Seq::new(size, |i: int| WorkerStatus::Idle),
            accepted: Seq::empty(),
            started: 0,
            terminates: 0,
            finished: 0,
            faulted: 0,
            abandoned: 0,
        }
    }

    /// The step from `Created` to `Running`.
    pub open spec fn start(self) -> Self {
        if self.state is Created {
            PoolModel { state: PoolState::Running, ..self }
        } else {
            self
        }
    }

    /// A pool of `size` workers right after construction.
    pub open spec fn fresh(size: nat) -> Self {
        Self::created(size).start()
    }

    /// The accepted jobs that no worker has taken yet, oldest first.
    pub open spec fn pending(self) -> Seq<J> {
        self.accepted.skip(self.started as int)
    }

    /// The contents of the dispatch queue, front first.
    pub open spec fn messages(self) -> Seq<Message<J>> {
        Seq::new(
            self.pending().len() + self.terminates,
            |i: int|
                if i < self.pending().len() {
                    Message::Job(self.pending()[i])
                } else {
                    Message::Terminate
                },
        )
    }

    /// Number of workers running a job.
    pub open spec fn busy(self) -> nat {
        count_of(self.workers, WorkerStatus::Busy)
    }

    /// Number of workers that could not be joined cleanly.
    pub open spec fn lost(self) -> nat {
        count_of(self.workers, WorkerStatus::Lost)
    }

    /// Number of workers that still take messages or run a job.
    pub open spec fn live(self) -> nat {
        count_of(self.workers, WorkerStatus::Idle) + count_of(self.workers, WorkerStatus::Busy)
    }

    /// Whether a submission would be taken.
    pub open spec fn accepts(self) -> bool {
        self.state is Running
    }

    /// Submission of `job`: taken while `Running`, refused without effect otherwise.
    pub open spec fn submit(self, job: J) -> Self {
        if self.accepts() {
            PoolModel { accepted: self.accepted.push(job), ..self }
        } else {
            self
        }
    }

    /// Start of the shutdown: from `Running`, one `Terminate` per worker is
    /// queued behind the pending jobs. In any other phase nothing changes.
    pub open spec fn shutdown(self) -> Self {
        if self.state is Running {
            PoolModel { state: PoolState::ShuttingDown, terminates: self.workers.len(), ..self }
        } else {
            self
        }
    }

    /// The same pool with worker `id` in status `status`.
    pub open spec fn with_worker(self, id: int, status: WorkerStatus) -> Self {
        PoolModel { workers: self.workers.update(id, status), ..self }
    }

    /// What worker `id` is told when it asks for its next step.
    pub open spec fn next_action(self, id: int) -> Action<J> {
        if !(0 <= id < self.workers.len()) {
            Action::Exit
        } else if self.workers[id] is Busy {
            Action::Wait
        } else if !(self.workers[id] is Idle) {
            Action::Exit
        } else if self.pending().len() > 0 {
            Action::Run(self.pending()[0])
        } else if self.terminates > 0 {
            Action::Exit
        } else if self.state.is_open() {
            Action::Wait
        } else {
            Action::Exit
        }
    }

    /// The pool after worker `id` has asked for its next step.
    ///
    /// An idle worker takes the front of the queue: a job makes it busy, a
    /// `Terminate` makes it leave. On an empty queue it waits while the pool
    /// is open and leaves once it is not. Any other worker changes nothing.
    pub open spec fn take(self, id: int) -> Self {
        if !(0 <= id < self.workers.len()) || !(self.workers[id] is Idle) {
            self
        } else if self.pending().len() > 0 {
            PoolModel { started: self.started + 1, ..self.with_worker(id, WorkerStatus::Busy) }
        } else if self.terminates > 0 {
            PoolModel {
                terminates: (self.terminates - 1) as nat,
                ..self.with_worker(id, WorkerStatus::Exited)
            }
        } else if self.state.is_open() {
            self
        } else {
            self.with_worker(id, WorkerStatus::Exited)
        }
    }

    /// Whether a report that worker `id` has ended a job is taken.
    pub open spec fn can_finish(self, id: int) -> bool {
        0 <= id < self.workers.len() && self.workers[id] is Busy
    }

    /// The pool after worker `id` has reported the end of its job.
    ///
    /// The worker is idle again whether the job returned or faulted. A report
    /// from a worker that runs no job changes nothing.
    pub open spec fn finish(self, id: int, outcome: JobOutcome) -> Self {
        if self.can_finish(id) {
            PoolModel {
                finished: self.finished + 1,
                faulted: self.faulted + if outcome is Faulted { 1nat } else { 0nat },
                ..self.with_worker(id, WorkerStatus::Idle)
            }
        } else {
            self
        }
    }

    /// The status worker `id` gets when a join with `outcome` is reported, if
    /// the report is taken.
    ///
    /// A clean join is taken only of a worker that has left its loop. A failed
    /// join is taken of any worker not yet joined or lost. Outside
    /// `ShuttingDown` no report is taken.
    pub open spec fn join_status(self, id: int, outcome: JoinOutcome) -> Option<WorkerStatus> {
        if !(self.state is ShuttingDown) || !(0 <= id < self.workers.len()) {
            None
        } else if self.workers[id].is_final() {
            None
        } else if outcome is Failed {
            Some(WorkerStatus::Lost)
        } else if self.workers[id] is Exited {
            Some(WorkerStatus::Joined)
        } else {
            None
        }
    }

    /// The pool after a join of worker `id` with `outcome` has been reported.
    ///
    /// With the last worker joined or lost the pool is `Stopped`.
    pub open spec fn join(self, id: int, outcome: JoinOutcome) -> Self {
        match self.join_status(id, outcome) {
            None => self,
            Some(status) => {
                let next = PoolModel {
                    abandoned: self.abandoned + if self.workers[id] is Busy { 1nat } else { 0nat },
                    ..self.with_worker(id, status)
                };
                if all_final(next.workers) {
                    PoolModel { state: PoolState::Stopped, ..next }
                } else {
                    next
                }
            },
        }
    }

    /// The pool after `event`.
    pub open spec fn apply(self, event: Event<J>) -> Self {
        match event {
            Event::Submit(job) => self.submit(job),
            Event::Take(id) => self.take(id),
            Event::Finish(id, outcome) => self.finish(id, outcome),
            Event::Shutdown => self.shutdown(),
            Event::Join(id, outcome) => self.join(id, outcome),
        }
    }

    /// The pool after `events`, in order: any interleaving of what producers,
    /// workers and the owner of the pool do.
    pub open spec fn run(self, events: Seq<Event<J>>) -> Self
        decreases events.len(),
    {
        if events.len() == 0 {
            self
        } else {
            self.run(events.drop_last()).apply(events.last())
        }
    }

    /// Worker `id` takes its next step and is then joined cleanly.
    pub open spec fn retire(self, id: int) -> Self {
        self.take(id).join(id, JoinOutcome::Clean)
    }

    /// Workers `0` to `n - 1` retire, one after the other.
    pub open spec fn retire_first(self, n: nat) -> Self
        decreases n,
    {
        if n == 0 {
            self
        } else {
            self.retire_first((n - 1) as nat).retire(n - 1)
        }
    }

    /// The invariant of the pool.
    pub open spec fn wf(self) -> bool {
        &&& self.workers.len() > 0
        &&& self.started <= self.accepted.len()
        &&& self.started == self.finished + self.abandoned + self.busy()
        &&& self.faulted <= self.finished
        &&& self.abandoned <= self.lost()
        &&& self.terminates <= self.workers.len()
        &&& !self.state.is_open() ==> self.live() <= self.terminates
        &&& self.state is Created ==> self.accepted.len() == 0 && forall|i: int|
            0 <= i < self.workers.len() ==> (#[trigger] self.workers[i]) is Idle
        &&& self.state.is_open() ==> self.terminates == 0 && forall|i: int|
            0 <= i < self.workers.len() ==> (#[trigger] self.workers[i]).is_live()
        &&& self.state is ShuttingDown ==> !all_final(self.workers)
        &&& self.state is Stopped ==> all_final(self.workers)
        &&& some_retired(self.workers) ==> self.started == self.accepted.len()
    }
}

} // verus!
