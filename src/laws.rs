//! Properties that hold of every well-formed pool.
use vstd::prelude::*;
use crate::pool::{Phase, ThreadPool};
use crate::worker::{
    lemma_live_count_zero, lemma_running_count_bounded, lemma_running_count_zero, running_count,
};

verus! {

/// At any moment, no more jobs run than the pool has workers.
pub proof fn running_jobs_within_size<J>(p: ThreadPool<J>)
    requires
        p.wf(),
    ensures
        running_count(p.workers()) <= p.workers().len(),
{
    lemma_running_count_bounded(p.workers());
}

/// Once a pool has terminated, every job it ever accepted has run to the end:
/// none waits in the queue, none is running, and as many were reported
/// finished as were submitted.
pub proof fn terminated_pool_ran_every_job<J>(p: ThreadPool<J>)
    requires
        p.wf(),
        p.phase_of() == Phase::Terminated,
    ensures
        p.queue().len() == 0,
        running_count(p.workers()) == 0,
        p.dispatched_count() == p.submitted_count(),
        p.completed_count() == p.submitted_count(),
{
    let ws = p.workers();
    assert(ws[0] is Exited);
    assert forall|i: int| 0 <= i < ws.len() implies !(#[trigger] ws[i]).is_busy() by {
        assert(ws[i] is Exited);
    }
    lemma_running_count_zero(ws);
}

/// Every accepted job is in exactly one place. A job that was not yet handed
/// out waits in the queue and no worker runs it; a job runs on at most one
/// worker; and the job handed out next is run by no worker yet.
pub proof fn each_job_in_one_place<J>(p: ThreadPool<J>, t: nat)
    requires
        p.wf(),
        t < p.submitted_count(),
    ensures
        t >= p.dispatched_count() ==> {
            &&& t - p.dispatched_count() < p.queue().len()
            &&& forall|i: int| 0 <= i < p.workers().len() ==> !(#[trigger] p.workers()[i]).runs(t)
        },
        forall|i: int, j: int|
            0 <= i < p.workers().len() && 0 <= j < p.workers().len() && (#[trigger] p.workers()[i].runs(t))
                && (#[trigger] p.workers()[j].runs(t)) ==> i == j,
        forall|i: int|
            0 <= i < p.workers().len() ==> !(#[trigger] p.workers()[i]).runs(p.dispatched_count()),
{
}

/// A closed pool with no work left has every worker out of its loop, so it
/// can terminate; and every job it accepted has been finished. Since each
/// step of a worker in a closed pool lowers the work left, and no worker of a
/// closed pool is told to wait, the drain always comes to this point.
pub proof fn drained_pool_can_terminate<J>(p: ThreadPool<J>)
    requires
        p.wf(),
        p.phase_of() != Phase::Running,
        p.work_left() == 0,
    ensures
        forall|i: int| 0 <= i < p.workers().len() ==> (#[trigger] p.workers()[i]) is Exited,
        p.completed_count() == p.submitted_count(),
{
    lemma_live_count_zero(p.workers());
}

} // verus!
