//! What holds of every pool: the invariant is kept by every step, and what
//! follows from it for submission, fault isolation, draining and shutdown.

use vstd::prelude::*;
use crate::lifecycle::PoolState;
use crate::message::{Action, JobOutcome, JoinOutcome};
use crate::model::{
    all_final, count_of, jobs_submitted, no_shutdown, some_retired, Event, PoolModel,
};
use crate::worker::WorkerStatus;

verus! {

/// Changing one worker's status changes the count for a status by that
/// worker alone.
pub proof fn lemma_count_update(
    workers: Seq<WorkerStatus>,
    id: int,
    status: WorkerStatus,
    counted: WorkerStatus,
)
    requires
        0 <= id < workers.len(),
    ensures
        count_of(workers.update(id, status), counted) + (if workers[id] == counted {
            1nat
        } else {
            0nat
        }) == count_of(workers, counted) + (if status == counted {
            1nat
        } else {
            0nat
        }),
    decreases workers.len(),
{
    let updated = workers.update(id, status);
    if id == workers.len() - 1 {
        assert(updated.drop_last() =~= workers.drop_last());
    } else {
        assert(updated.drop_last() =~= workers.drop_last().update(id, status));
        lemma_count_update(workers.drop_last(), id, status, counted);
    }
}

/// No more workers are in a status than there are workers, and none is
/// exactly where the count is zero.
pub proof fn lemma_count_bounds(workers: Seq<WorkerStatus>, counted: WorkerStatus)
    ensures
        count_of(workers, counted) <= workers.len(),
        count_of(workers, counted) == 0 <==> forall|i: int|
            0 <= i < workers.len() ==> (#[trigger] workers[i]) != counted,
    decreases workers.len(),
{
    if workers.len() > 0 {
        let init = workers.drop_last();
        lemma_count_bounds(init, counted);
        if count_of(workers, counted) == 0 {
            assert forall|i: int| 0 <= i < workers.len() implies (#[trigger] workers[i])
                != counted by {
                if i < workers.len() - 1 {
                    assert(init[i] == workers[i]);
                }
            }
        }
        if forall|i: int| 0 <= i < workers.len() ==> (#[trigger] workers[i]) != counted {
            assert forall|i: int| 0 <= i < init.len() implies (#[trigger] init[i]) != counted by {
                assert(init[i] == workers[i]);
            }
        }
    }
}

/// Changing one worker's status changes each count of the pool by that
/// worker alone.
proof fn lemma_counts_after<J>(m: PoolModel<J>, id: int, status: WorkerStatus)
    requires
        0 <= id < m.workers.len(),
    ensures
        m.with_worker(id, status).busy() + (if m.workers[id] is Busy { 1nat } else { 0nat })
            == m.busy() + (if status is Busy { 1nat } else { 0nat }),
        m.with_worker(id, status).lost() + (if m.workers[id] is Lost { 1nat } else { 0nat })
            == m.lost() + (if status is Lost { 1nat } else { 0nat }),
        m.with_worker(id, status).live() + (if m.workers[id].is_live() { 1nat } else { 0nat })
            == m.live() + (if status.is_live() { 1nat } else { 0nat }),
{
    lemma_count_update(m.workers, id, status, WorkerStatus::Busy);
    lemma_count_update(m.workers, id, status, WorkerStatus::Lost);
    lemma_count_update(m.workers, id, status, WorkerStatus::Idle);
}

/// A pool under construction, and the pool it becomes, keep the invariant.
pub proof fn lemma_fresh_wf<J>(size: nat)
    requires
        size > 0,
    ensures
        PoolModel::<J>::created(size).wf(),
        PoolModel::<J>::fresh(size).wf(),
        PoolModel::<J>::fresh(size).state is Running,
        PoolModel::<J>::fresh(size).workers.len() == size,
        PoolModel::<J>::fresh(size).messages().len() == 0,
{
    let m = PoolModel::<J>::created(size);
    lemma_count_bounds(m.workers, WorkerStatus::Busy);
    lemma_count_bounds(m.workers, WorkerStatus::Lost);
}

/// `start` keeps the invariant.
pub proof fn lemma_start_wf<J>(m: PoolModel<J>)
    requires
        m.wf(),
    ensures
        m.start().wf(),
{
}

/// `submit` keeps the invariant.
pub proof fn lemma_submit_wf<J>(m: PoolModel<J>, job: J)
    requires
        m.wf(),
    ensures
        m.submit(job).wf(),
{
}

/// `shutdown` keeps the invariant.
pub proof fn lemma_shutdown_wf<J>(m: PoolModel<J>)
    requires
        m.wf(),
    ensures
        m.shutdown().wf(),
{
    if m.state is Running {
        assert(m.workers[0].is_live());
        lemma_live_bound(m.workers);
    }
}

/// `take` keeps the invariant.
pub proof fn lemma_take_wf<J>(m: PoolModel<J>, id: int)
    requires
        m.wf(),
    ensures
        m.take(id).wf(),
{
    let n = m.take(id);
    if 0 <= id < m.workers.len() && m.workers[id] is Idle {
        if m.pending().len() > 0 {
            lemma_counts_after(m, id, WorkerStatus::Busy);
            assert(!some_retired(n.workers));
            lemma_keeps_not_all_final(m.workers, id, WorkerStatus::Busy);
            if m.state.is_open() {
                lemma_keeps_live(m.workers, id, WorkerStatus::Busy);
            }
        } else if m.terminates > 0 || !m.state.is_open() {
            lemma_counts_after(m, id, WorkerStatus::Exited);
            lemma_keeps_not_all_final(m.workers, id, WorkerStatus::Exited);
        }
    }
}

/// No more workers are live than there are workers.
proof fn lemma_live_bound(workers: Seq<WorkerStatus>)
    ensures
        count_of(workers, WorkerStatus::Idle) + count_of(workers, WorkerStatus::Busy)
            <= workers.len(),
    decreases workers.len(),
{
    if workers.len() > 0 {
        lemma_live_bound(workers.drop_last());
    }
}

/// A worker set to a status that is not final keeps the pool from being all final.
proof fn lemma_keeps_not_all_final(workers: Seq<WorkerStatus>, id: int, status: WorkerStatus)
    requires
        0 <= id < workers.len(),
        !status.is_final(),
    ensures
        !all_final(workers.update(id, status)),
{
    assert(!(workers.update(id, status)[id]).is_final());
}

/// A worker set to a live status keeps a pool of live workers live.
proof fn lemma_keeps_live(workers: Seq<WorkerStatus>, id: int, status: WorkerStatus)
    requires
        0 <= id < workers.len(),
        status.is_live(),
        forall|i: int| 0 <= i < workers.len() ==> (#[trigger] workers[i]).is_live(),
    ensures
        forall|i: int|
            0 <= i < workers.len() ==> (#[trigger] workers.update(id, status)[i]).is_live(),
{
    assert forall|i: int| 0 <= i < workers.len() implies (#[trigger] workers.update(
        id,
        status,
    )[i]).is_live() by {
        assert(i != id ==> workers.update(id, status)[i] == workers[i]);
    }
}

/// `finish` keeps the invariant.
pub proof fn lemma_finish_wf<J>(m: PoolModel<J>, id: int, outcome: JobOutcome)
    requires
        m.wf(),
    ensures
        m.finish(id, outcome).wf(),
{
    let n = m.finish(id, outcome);
    if m.can_finish(id) {
        lemma_counts_after(m, id, WorkerStatus::Idle);
        lemma_keeps_not_all_final(m.workers, id, WorkerStatus::Idle);
        if m.state.is_open() {
            lemma_keeps_live(m.workers, id, WorkerStatus::Idle);
        }
        if some_retired(n.workers) {
            let i = choose|i: int|
                0 <= i < n.workers.len() && (#[trigger] n.workers[i]).has_retired();
            assert(m.workers[i].has_retired());
        }
    }
}

/// `join` keeps the invariant.
pub proof fn lemma_join_wf<J>(m: PoolModel<J>, id: int, outcome: JoinOutcome)
    requires
        m.wf(),
    ensures
        m.join(id, outcome).wf(),
{
    let n = m.join(id, outcome);
    match m.join_status(id, outcome) {
        None => {},
        Some(status) => {
            lemma_counts_after(m, id, status);
            if some_retired(n.workers) {
                let i = choose|i: int|
                    0 <= i < n.workers.len() && (#[trigger] n.workers[i]).has_retired();
                assert(m.workers[i].has_retired());
            }
        },
    }
}

/// Every step keeps the invariant.
pub proof fn lemma_apply_wf<J>(m: PoolModel<J>, event: Event<J>)
    requires
        m.wf(),
    ensures
        m.apply(event).wf(),
{
    match event {
        Event::Submit(job) => lemma_submit_wf(m, job),
        Event::Take(id) => lemma_take_wf(m, id),
        Event::Finish(id, outcome) => lemma_finish_wf(m, id, outcome),
        Event::Shutdown => lemma_shutdown_wf(m),
        Event::Join(id, outcome) => lemma_join_wf(m, id, outcome),
    }
}

/// The invariant holds after any sequence of steps, in any interleaving.
pub proof fn law_invariant_holds_throughout<J>(m: PoolModel<J>, events: Seq<Event<J>>)
    requires
        m.wf(),
    ensures
        m.run(events).wf(),
    decreases events.len(),
{
    if events.len() > 0 {
        law_invariant_holds_throughout(m, events.drop_last());
        lemma_apply_wf(m.run(events.drop_last()), events.last());
    }
}

/// The lifecycle only moves forward, one phase at a time, and `Stopped` is
/// final. The number of workers never changes.
pub proof fn law_lifecycle_moves_forward<J>(m: PoolModel<J>, event: Event<J>)
    requires
        m.wf(),
    ensures
        m.state.rank() <= m.apply(event).state.rank() <= m.state.rank() + 1,
        m.state is Stopped ==> m.apply(event) == m,
        m.apply(event).workers.len() == m.workers.len(),
{
}

/// A second call of `shutdown` changes nothing.
pub proof fn law_shutdown_is_idempotent<J>(m: PoolModel<J>)
    ensures
        m.shutdown().shutdown() == m.shutdown(),
        !m.shutdown().accepts(),
{
}

/// Once the pool has stopped taking submissions it never takes one again:
/// whatever happens, a submission is refused and the accepted jobs stay as
/// they are.
pub proof fn law_closed_pool_stays_closed<J>(m: PoolModel<J>, events: Seq<Event<J>>)
    requires
        !m.state.is_open(),
    ensures
        !m.run(events).state.is_open(),
        m.run(events).accepted == m.accepted,
    decreases events.len(),
{
    if events.len() > 0 {
        law_closed_pool_stays_closed(m, events.drop_last());
    }
}

/// While no shutdown is asked for, a fresh pool runs and accepts every job
/// submitted, in the order of submission.
pub proof fn law_running_pool_accepts_all<J>(size: nat, events: Seq<Event<J>>)
    requires
        size > 0,
        no_shutdown(events),
    ensures
        PoolModel::<J>::fresh(size).run(events).state is Running,
        PoolModel::<J>::fresh(size).run(events).accepted == jobs_submitted(events),
    decreases events.len(),
{
    if events.len() > 0 {
        let init = events.drop_last();
        assert forall|i: int| 0 <= i < init.len() implies !((#[trigger] init[i]) is Shutdown) by {
            assert(init[i] == events[i]);
        }
        law_running_pool_accepts_all::<J>(size, init);
        assert(!(events.last() is Shutdown));
    }
}

/// Jobs are handed out in the order in which they were accepted, each to
/// one worker: the job a worker is given is the oldest one not yet started,
/// and it then counts as started.
pub proof fn law_jobs_leave_in_order<J>(m: PoolModel<J>, id: int)
    requires
        m.wf(),
        m.next_action(id) is Run,
    ensures
        m.next_action(id) == Action::Run(m.accepted[m.started as int]),
        m.take(id).started == m.started + 1,
        m.take(id).accepted == m.accepted,
        m.take(id).workers[id] is Busy,
        m.take(id).busy() == m.busy() + 1,
{
    lemma_counts_after(m, id, WorkerStatus::Busy);
}

/// A fault ends one job and nothing else. The worker is idle again exactly as
/// after a job that returned, the queue is untouched, and the next job is
/// handed to it as to any idle worker.
pub proof fn law_fault_is_isolated<J>(m: PoolModel<J>, id: int)
    requires
        m.wf(),
        m.can_finish(id),
    ensures
        m.finish(id, JobOutcome::Faulted) == (PoolModel {
            faulted: m.faulted + 1,
            ..m.finish(id, JobOutcome::Completed)
        }),
        m.finish(id, JobOutcome::Faulted).workers[id] is Idle,
        m.finish(id, JobOutcome::Faulted).messages() == m.messages(),
        m.finish(id, JobOutcome::Faulted).finished == m.finished + 1,
        m.pending().len() > 0 ==> m.finish(id, JobOutcome::Faulted).next_action(id) == Action::Run(
            m.pending()[0],
        ),
{
}

/// After the shutdown has begun no idle worker is told to wait: it gets a
/// job, or leaves once no job is pending. There is a `Terminate` in the
/// queue for every worker that has not left, so none leaves for want of one.
pub proof fn law_no_wait_after_shutdown<J>(m: PoolModel<J>, id: int)
    requires
        m.wf(),
        !m.state.is_open(),
        0 <= id < m.workers.len(),
        m.workers[id] is Idle,
    ensures
        !(m.next_action(id) is Wait),
        m.next_action(id) is Exit <==> m.pending().len() == 0,
        m.terminates >= m.live() > 0,
{
    lemma_count_bounds(m.workers, WorkerStatus::Idle);
}

/// A worker that runs a job is left alone until the job has ended: asked
/// for its next step it is told to wait, and a clean join of it is refused.
/// So the shutdown cannot be over while a job is in flight.
pub proof fn law_shutdown_waits_for_running_jobs<J>(m: PoolModel<J>, id: int)
    requires
        m.wf(),
        0 <= id < m.workers.len(),
        m.workers[id] is Busy,
    ensures
        m.next_action(id) is Wait,
        m.take(id) == m,
        m.join(id, JoinOutcome::Clean) == m,
        !(m.state is Stopped),
{
}

/// Every accepted job is in exactly one place: pending in the queue, in
/// flight on a busy worker, run to its end, or abandoned with a worker that
/// was lost. None is counted twice and none is missing.
pub proof fn law_every_job_is_accounted_for<J>(m: PoolModel<J>)
    requires
        m.wf(),
    ensures
        m.accepted.len() == m.pending().len() + m.busy() + m.finished + m.abandoned,
        m.accepted == m.accepted.take(m.started as int) + m.pending(),
        m.faulted <= m.finished,
        m.abandoned <= m.lost(),
{
    assert(m.accepted =~= m.accepted.take(m.started as int) + m.pending());
}

/// In a stopped pool no job is in flight: every job that was handed out has
/// run to its end or was on a worker that was lost. If a worker was joined
/// cleanly, no job is left in the queue; if no worker was lost, none was
/// abandoned. So where every worker was joined cleanly, every accepted job
/// has run to its end, exactly once.
pub proof fn law_stopped_pool_is_drained<J>(m: PoolModel<J>)
    requires
        m.wf(),
        m.state is Stopped,
    ensures
        m.busy() == 0,
        m.accepted.len() == m.pending().len() + m.finished + m.abandoned,
        some_retired(m.workers) ==> m.pending().len() == 0,
        m.lost() == 0 ==> m.abandoned == 0,
        (forall|i: int| 0 <= i < m.workers.len() ==> (#[trigger] m.workers[i]) is Joined) ==> {
            &&& m.pending().len() == 0
            &&& m.abandoned == 0
            &&& m.finished == m.accepted.len()
        },
{
    lemma_count_bounds(m.workers, WorkerStatus::Busy);
    assert forall|i: int| 0 <= i < m.workers.len() implies (#[trigger] m.workers[i])
        != WorkerStatus::Busy by {
        assert(m.workers[i].is_final());
    }
    if forall|i: int| 0 <= i < m.workers.len() ==> (#[trigger] m.workers[i]) is Joined {
        lemma_count_bounds(m.workers, WorkerStatus::Lost);
        assert(m.workers[0].has_retired());
    }
}

/// Jobs submitted to a running pool, whatever else happens meanwhile, have
/// all run exactly once when the pool has been shut down and every worker
/// joined cleanly: as many jobs have run to their end as were submitted.
pub proof fn law_every_submitted_job_runs_once<J>(
    size: nat,
    before: Seq<Event<J>>,
    after: Seq<Event<J>>,
)
    requires
        size > 0,
        no_shutdown(before),
        ({
            let end = PoolModel::<J>::fresh(size).run(before).shutdown().run(after);
            &&& end.state is Stopped
            &&& forall|i: int| 0 <= i < end.workers.len() ==> (#[trigger] end.workers[i]) is Joined
        }),
    ensures
        ({
            let end = PoolModel::<J>::fresh(size).run(before).shutdown().run(after);
            &&& end.accepted == jobs_submitted(before)
            &&& end.finished == jobs_submitted(before).len()
            &&& end.started == jobs_submitted(before).len()
            &&& end.abandoned == 0
        }),
{
    let fresh = PoolModel::<J>::fresh(size);
    lemma_fresh_wf::<J>(size);
    law_running_pool_accepts_all::<J>(size, before);
    law_invariant_holds_throughout(fresh, before);
    let closing = fresh.run(before).shutdown();
    lemma_shutdown_wf(fresh.run(before));
    law_closed_pool_stays_closed(closing, after);
    law_invariant_holds_throughout(closing, after);
    law_stopped_pool_is_drained(closing.run(after));
}

/// A fresh pool that is shut down at once stops: each worker in turn is told
/// to leave, never to wait, and is joined; after the last one the pool is
/// `Stopped` with every worker joined and no job ever started.
pub proof fn law_immediate_shutdown_stops<J>(size: nat, n: nat)
    requires
        size > 0,
        n <= size,
    ensures
        ({
            let m = PoolModel::<J>::fresh(size).shutdown().retire_first(n);
            &&& m.wf()
            &&& m.state == (if n == size { PoolState::Stopped } else { PoolState::ShuttingDown })
            &&& m.workers.len() == size
            &&& forall|i: int| 0 <= i < n ==> (#[trigger] m.workers[i]) is Joined
            &&& forall|i: int| n <= i < size ==> (#[trigger] m.workers[i]) is Idle
            &&& forall|i: int| n <= i < size ==> m.next_action(i) is Exit
            &&& m.terminates == size - n
            &&& m.accepted.len() == 0
            &&& m.started == 0
        }),
    decreases n,
{
    let start = PoolModel::<J>::fresh(size).shutdown();
    lemma_fresh_wf::<J>(size);
    lemma_shutdown_wf(PoolModel::<J>::fresh(size));
    if n > 0 {
        let k = (n - 1) as nat;
        law_immediate_shutdown_stops::<J>(size, k);
        let before = start.retire_first(k);
        let taken = before.take(k as int);
        lemma_take_wf(before, k as int);
        lemma_join_wf(taken, k as int, JoinOutcome::Clean);
        let m = before.retire(k as int);
        assert(taken.workers[k as int] is Exited);
        assert forall|i: int| 0 <= i < n implies (#[trigger] m.workers[i]) is Joined by {
            assert(i < k ==> before.workers[i] is Joined);
        }
        assert forall|i: int| n <= i < size implies (#[trigger] m.workers[i]) is Idle by {
            assert(before.workers[i] is Idle);
        }
        if n == size {
            assert forall|i: int| 0 <= i < size implies (#[trigger] m.workers[i]).is_final() by {
                assert(m.workers[i] is Joined);
            }
        } else {
            assert(!m.workers[n as int].is_final());
        }
    }
}

} // verus!
