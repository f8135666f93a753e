//! What the pool has to say to the log: a job that faulted, a worker that
//! could not be joined.

use vstd::prelude::*;
use vstd::string::StringExecFns;
use crate::log::Level;
use crate::message::JoinReply;
use crate::text::{decimal, push_decimal};

verus! {

/// Something the pool contained and that is worth a line in the log.
#[derive(Clone, Copy, Debug, PartialEq, Eq, Structural)]
pub enum Report {
    /// A job aborted on this worker; the worker goes on.
    JobFault { worker: usize },
    /// This worker's thread could not be joined cleanly; the shutdown goes on.
    JoinFailure { worker: usize },
}

impl Report {
    /// The level at which the report is logged: a fault is an error, a
    /// failed join a warning.
    pub open spec fn spec_level(&self) -> Level {
        match *self {
            Report::JobFault { .. } => Level::Error,
            Report::JoinFailure { .. } => Level::Warning,
        }
    }

    /// The worker the report is about.
    pub open spec fn spec_worker(&self) -> usize {
        match *self {
            Report::JobFault { worker } => worker,
            Report::JoinFailure { worker } => worker,
        }
    }

    /// The text of the report.
    pub open spec fn text(self) -> Seq<char> {
        match self {
            Report::JobFault { worker } => "worker "@ + decimal(worker as nat)
                + ": job faulted, worker continues"@,
            Report::JoinFailure { worker } => "worker "@ + decimal(worker as nat)
                + ": thread could not be joined cleanly"@,
        }
    }

    /// The report that a join of worker `worker` calls for: one for a worker
    /// that was lost, none otherwise.
    pub open spec fn of_join(worker: usize, reply: JoinReply) -> Option<Report> {
        if reply is Lost {
            Some(Report::JoinFailure { worker })
        } else {
            None
        }
    }

    /// The report that a join of worker `worker` calls for.
    pub fn for_join(worker: usize, reply: JoinReply) -> (report: Option<Report>)
        ensures
            report == Self::of_join(worker, reply),
    {
        match reply {
            JoinReply::Lost => Some(Report::JoinFailure { worker }),
            _ => None,
        }
    }

    /// The level at which the report is logged.
    #[verifier::when_used_as_spec(spec_level)]
    pub fn level(&self) -> (level: Level)
        ensures
            level == self.spec_level(),
    {
        match self {
            Report::JobFault { .. } => Level::Error,
            Report::JoinFailure { .. } => Level::Warning,
        }
    }

    /// The worker the report is about.
    #[verifier::when_used_as_spec(spec_worker)]
    pub fn worker(&self) -> (worker: usize)
        ensures
            worker == self.spec_worker(),
    {
        match self {
            Report::JobFault { worker } => *worker,
            Report::JoinFailure { worker } => *worker,
        }
    }

    /// The text of the report.
    pub fn message(&self) -> (message: String)
        ensures
            message@ == self.text(),
    {
        let mut message = String::from_str("worker ");
        match self {
            Report::JobFault { worker } => {
                push_decimal(&mut message, *worker as u64);
                message.append(": job faulted, worker continues");
            },
            Report::JoinFailure { worker } => {
                push_decimal(&mut message, *worker as u64);
                message.append(": thread could not be joined cleanly");
            },
        }
        message
    }
}

} // verus!
