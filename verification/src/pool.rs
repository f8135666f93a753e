//! The executable pool: the dispatch queue, the workers' records and the
//! lifecycle, with every operation tied to its step in the model.
//!
//! The queue is unbounded: a submission never blocks and is refused only
//! when the pool no longer runs. On shutdown the queue is drained: every job
//! accepted before the shutdown is handed out before any worker is told to stop.

use std::collections::VecDeque;
use vstd::prelude::*;
use crate::laws::{
    lemma_finish_wf, lemma_fresh_wf, lemma_join_wf, lemma_shutdown_wf, lemma_start_wf,
    lemma_submit_wf, lemma_take_wf,
};
use crate::lifecycle::PoolState;
use crate::message::{Action, JobOutcome, JoinOutcome, JoinReply, Message};
use crate::model::{all_final, PoolModel};
use crate::report::Report;
use crate::worker::{Worker, WorkerStatus};

verus! {

/// A pool was asked for with no workers.
#[derive(Clone, Copy, Debug, PartialEq, Eq, Structural)]
pub struct ConstructionError;

/// A submission was refused because the pool does not run any more. The job
/// comes back to the caller.
#[derive(Debug)]
pub struct SubmissionRejected<J> {
    pub job: J,
    /// The phase the pool was in.
    pub state: PoolState,
}

/// A fixed set of workers and the queue that feeds them.
pub struct ThreadPool<J> {
    state: PoolState,
    workers: Vec<Worker>,
    queue: VecDeque<Message<J>>,
    model: Ghost<PoolModel<J>>,
}

impl<J> View for ThreadPool<J> {
    type V = PoolModel<J>;

    closed spec fn view(&self) -> PoolModel<J> {
        self.model@
    }
}

impl<J> ThreadPool<J> {
    /// The status of each worker, by worker number.
    spec fn statuses(&self) -> Seq<WorkerStatus> {
        Seq::new(self.workers.len() as nat, |i: int| self.workers[i].spec_status())
    }

    /// Every worker carries its place in the pool as its number.
    spec fn numbered(&self) -> bool {
        forall|i: int| 0 <= i < self.workers.len() ==> (#[trigger] self.workers[i]).spec_id() == i
    }

    /// The records agree with the model, and the model keeps its invariant.
    pub closed spec fn wf(&self) -> bool {
        &&& self.model@.wf()
        &&& self.state == self.model@.state
        &&& self.statuses() =~= self.model@.workers
        &&& self.numbered()
        &&& self.queue@ =~= self.model@.messages()
    }

    /// A well-formed pool stands for a model that keeps its invariant.
    pub proof fn lemma_view_wf(&self)
        requires
            self.wf(),
        ensures
            self@.wf(),
    {
    }

    /// The records of `size` idle workers, numbered from zero.
    fn spawn_records(size: usize) -> (workers: Vec<Worker>)
        ensures
            workers.len() == size,
            forall|i: int|
                0 <= i < size ==> {
                    &&& (#[trigger] workers[i]).spec_id() == i
                    &&& workers[i].spec_status() == WorkerStatus::Idle
                },
    {
        let mut workers: Vec<Worker> = Vec::new();
        let mut id: usize = 0;
        while id < size
            invariant
                id <= size,
                workers.len() == id,
                forall|i: int|
                    0 <= i < id ==> {
                        &&& (#[trigger] workers[i]).spec_id() == i
                        &&& workers[i].spec_status() == WorkerStatus::Idle
                    },
            decreases size - id,
        {
            workers.push(Worker::new(id));
            id += 1;
        }
        workers
    }

    /// The step from `Created` to `Running`.
    fn start(&mut self)
        requires
            old(self).wf(),
        ensures
            final(self).wf(),
            final(self)@ == old(self)@.start(),
    {
        proof {
            lemma_start_wf(self@);
        }
        if self.state == PoolState::Created {
            self.state = PoolState::Running;
            proof {
                self.model@ = self.model@.start();
            }
        }
    }

    /// A pool of `size` workers, running, with an empty queue.
    ///
    /// A pool without workers could never run a job: `size == 0` is an error.
    pub fn new(size: usize) -> (r: Result<ThreadPool<J>, ConstructionError>)
        ensures
            r is Err <==> size == 0,
            r matches Ok(pool) ==> pool.wf() && pool@ == PoolModel::<J>::fresh(size as nat),
    {
        if size == 0 {
            return Err(ConstructionError);
        }
        let workers = Self::spawn_records(size);
        proof {
            lemma_fresh_wf::<J>(size as nat);
        }
        let mut pool = ThreadPool {
            state: PoolState::Created,
            workers,
            queue: VecDeque::new(),
            model: Ghost(PoolModel::created(size as nat)),
        };
        pool.start();
        Ok(pool)
    }

    /// The phase the pool is in.
    pub fn state(&self) -> (s: PoolState)
        requires
            self.wf(),
        ensures
            s == self@.state,
    {
        self.state
    }

    /// The number of workers, fixed at construction.
    pub fn size(&self) -> (n: usize)
        requires
            self.wf(),
        ensures
            n == self@.workers.len(),
            n > 0,
    {
        self.workers.len()
    }

    /// The number of messages in the queue: pending jobs and `Terminate`s.
    pub fn queued(&self) -> (n: usize)
        requires
            self.wf(),
        ensures
            n == self@.pending().len() + self@.terminates,
    {
        self.queue.len()
    }

    /// The status of worker `id`, if there is such a worker.
    pub fn worker_status(&self, id: usize) -> (s: Option<WorkerStatus>)
        requires
            self.wf(),
        ensures
            s == (if id < self@.workers.len() {
                Some(self@.workers[id as int])
            } else {
                None
            }),
    {
        if id < self.workers.len() {
            Some(self.workers[id].status())
        } else {
            None
        }
    }

    /// Puts worker `id` in status `status`.
    fn set_worker(&mut self, id: usize, status: WorkerStatus)
        requires
            id < old(self).workers.len(),
        ensures
            final(self).state == old(self).state,
            final(self).queue == old(self).queue,
            final(self).model == old(self).model,
            final(self).statuses() == old(self).statuses().update(id as int, status),
            old(self).numbered() ==> final(self).numbered(),
    {
        let worker = self.workers[id].in_status(status);
        self.workers.set(id, worker);
        assert(self.statuses() =~= old(self).statuses().update(id as int, status));
    }

    /// Submits `job`. While the pool runs, the job joins the end of the queue;
    /// otherwise it comes back in the error and nothing changes.
    pub fn execute(&mut self, job: J) -> (r: Result<(), SubmissionRejected<J>>)
        requires
            old(self).wf(),
        ensures
            final(self).wf(),
            final(self)@ == old(self)@.submit(job),
            r is Ok <==> old(self)@.accepts(),
            r matches Err(e) ==> e.job == job && e.state == old(self)@.state,
    {
        proof {
            lemma_submit_wf(self@, job);
        }
        if self.state.accepts_work() {
            self.queue.push_back(Message::Job(job));
            proof {
                self.model@ = self.model@.submit(job);
            }
            Ok(())
        } else {
            Err(SubmissionRejected { job, state: self.state })
        }
    }

    /// Starts the shutdown. From `Running` the pool stops taking submissions
    /// and queues one `Terminate` per worker behind the pending jobs, so that
    /// every accepted job is handed out before a worker is told to leave.
    /// In any other phase the call changes nothing.
    ///
    /// Returns whether this call started the shutdown.
    pub fn shutdown(&mut self) -> (started: bool)
        requires
            old(self).wf(),
        ensures
            final(self).wf(),
            final(self)@ == old(self)@.shutdown(),
            started == (old(self)@.state is Running),
    {
        proof {
            lemma_shutdown_wf(self@);
        }
        if self.state != PoolState::Running {
            return false;
        }
        let size = self.workers.len();
        let ghost before = self.queue@;
        let mut sent: usize = 0;
        while sent < size
            invariant
                sent <= size,
                self.queue@ =~= before + Seq::new(sent as nat, |i: int| Message::<J>::Terminate),
                self.state == old(self).state,
                self.workers == old(self).workers,
                self.model == old(self).model,
            decreases size - sent,
        {
            self.queue.push_back(Message::Terminate);
            sent += 1;
        }
        self.state = PoolState::ShuttingDown;
        proof {
            self.model@ = self.model@.shutdown();
        }
        true
    }

    /// Tells worker `id` what to do next, and records it.
    ///
    /// An idle worker gets the front of the queue: the oldest pending job, or
    /// the order to leave once no job is pending. With nothing queued it waits
    /// while the pool runs and leaves once the pool has shut down. A worker
    /// that is running a job is told to wait; one that has left, or an unknown
    /// one, is told to leave.
    pub fn next_action(&mut self, id: usize) -> (action: Action<J>)
        requires
            old(self).wf(),
        ensures
            final(self).wf(),
            final(self)@ == old(self)@.take(id as int),
            action == old(self)@.next_action(id as int),
    {
        proof {
            lemma_take_wf(self@, id as int);
        }
        if id >= self.workers.len() {
            return Action::Exit;
        }
        match self.workers[id].status() {
            WorkerStatus::Idle => {},
            WorkerStatus::Busy => {
                return Action::Wait;
            },
            _ => {
                return Action::Exit;
            },
        }
        let ghost before = self@;
        match self.queue.pop_front() {
            Some(Message::Job(job)) => {
                self.set_worker(id, WorkerStatus::Busy);
                proof {
                    self.model@ = before.take(id as int);
                }
                Action::Run(job)
            },
            Some(Message::Terminate) => {
                self.set_worker(id, WorkerStatus::Exited);
                proof {
                    self.model@ = before.take(id as int);
                }
                Action::Exit
            },
            None => {
                if self.state == PoolState::Running || self.state == PoolState::Created {
                    Action::Wait
                } else {
                    self.set_worker(id, WorkerStatus::Exited);
                    proof {
                        self.model@ = before.take(id as int);
                    }
                    Action::Exit
                }
            },
        }
    }

    /// Records that worker `id` has ended its job with `outcome`. The worker
    /// is idle again whether the job returned or faulted: a fault ends that
    /// job only. A report from a worker that runs no job changes nothing.
    ///
    /// Returns the fault to report, if the job faulted.
    pub fn job_finished(&mut self, id: usize, outcome: JobOutcome) -> (fault: Option<Report>)
        requires
            old(self).wf(),
        ensures
            final(self).wf(),
            final(self)@ == old(self)@.finish(id as int, outcome),
            fault == (if old(self)@.can_finish(id as int) && outcome is Faulted {
                Some(Report::JobFault { worker: id })
            } else {
                None
            }),
    {
        proof {
            lemma_finish_wf(self@, id as int, outcome);
        }
        if id >= self.workers.len() {
            return None;
        }
        if self.workers[id].status() != WorkerStatus::Busy {
            return None;
        }
        let ghost before = self@;
        self.set_worker(id, WorkerStatus::Idle);
        proof {
            self.model@ = before.finish(id as int, outcome);
        }
        match outcome {
            JobOutcome::Faulted => Some(Report::JobFault { worker: id }),
            JobOutcome::Completed => None,
        }
    }

    /// Whether every worker has been joined or given up on.
    fn all_workers_final(&self) -> (b: bool)
        ensures
            b == all_final(self.statuses()),
    {
        let mut i: usize = 0;
        while i < self.workers.len()
            invariant
                i <= self.workers.len(),
                forall|k: int| 0 <= k < i ==> (#[trigger] self.statuses()[k]).is_final(),
            decreases self.workers.len() - i,
        {
            let status = self.workers[i].status();
            if status != WorkerStatus::Joined && status != WorkerStatus::Lost {
                assert(!self.statuses()[i as int].is_final());
                return false;
            }
            i += 1;
        }
        true
    }

    /// Records the attempt to join the thread of worker `id`.
    ///
    /// Reports are taken only during the shutdown and once per worker. A clean
    /// join is taken of a worker that has left its loop; a failed join is
    /// taken of any worker, which is then given up on while the others are
    /// still joined. With the last worker joined or lost the pool is `Stopped`.
    pub fn join_worker(&mut self, id: usize, outcome: JoinOutcome) -> (reply: JoinReply)
        requires
            old(self).wf(),
        ensures
            final(self).wf(),
            final(self)@ == old(self)@.join(id as int, outcome),
            reply == (match old(self)@.join_status(id as int, outcome) {
                None => JoinReply::Refused,
                Some(WorkerStatus::Lost) => JoinReply::Lost,
                Some(_) => JoinReply::Joined,
            }),
    {
        proof {
            lemma_join_wf(self@, id as int, outcome);
        }
        if self.state != PoolState::ShuttingDown || id >= self.workers.len() {
            return JoinReply::Refused;
        }
        let status = self.workers[id].status();
        let reply = match (status, outcome) {
            (WorkerStatus::Joined, _) | (WorkerStatus::Lost, _) => JoinReply::Refused,
            (_, JoinOutcome::Failed) => JoinReply::Lost,
            (WorkerStatus::Exited, JoinOutcome::Clean) => JoinReply::Joined,
            (_, JoinOutcome::Clean) => JoinReply::Refused,
        };
        let ghost before = self@;
        match reply {
            JoinReply::Refused => {},
            JoinReply::Lost => {
                self.set_worker(id, WorkerStatus::Lost);
            },
            JoinReply::Joined => {
                self.set_worker(id, WorkerStatus::Joined);
            },
        }
        if reply != JoinReply::Refused {
            let done = self.all_workers_final();
            proof {
                self.model@ = before.join(id as int, outcome);
            }
            if done {
                self.state = PoolState::Stopped;
            }
        }
        reply
    }
}

} // verus!
