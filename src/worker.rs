//! What a worker is doing, and what it is told to do next.
use vstd::prelude::*;

verus! {

/// The state of one worker.
#[derive(Clone, Copy, Debug, PartialEq, Eq, Structural)]
pub enum WorkerState {
    /// Waiting for a job.
    Idle,
    /// Running the job with the given ticket.
    Busy(u64),
    /// Saw the queue closed and empty, and left its loop for good.
    Exited,
}

impl WorkerState {
    /// The worker is running the job with ticket `t`.
    pub open spec fn runs(self, t: nat) -> bool {
        match self {
            WorkerState::Busy(u) => u as nat == t,
            _ => false,
        }
    }

    /// The worker is running some job.
    pub open spec fn is_busy(self) -> bool {
        self is Busy
    }

    /// Whether the worker is running a job.
    pub fn has_job(&self) -> (r: bool)
        ensures
            r == self.is_busy(),
    {
        match self {
            WorkerState::Busy(_) => true,
            _ => false,
        }
    }

    /// Whether the worker has left its loop.
    pub fn is_exited(&self) -> (r: bool)
        ensures
            r == (*self is Exited),
    {
        match self {
            WorkerState::Exited => true,
            _ => false,
        }
    }
}

/// What an idle worker is told to do.
pub enum Step<J> {
    /// Run `job`, the job with ticket `ticket`, then report it finished.
    Run { ticket: u64, job: J },
    /// Nothing is queued yet: block until a job arrives or shutdown begins.
    Wait,
    /// The queue is closed and drained: leave the loop.
    Exit,
}

/// The number of workers in `ws` that are running a job.
pub open spec fn running_count(ws: Seq<WorkerState>) -> nat
    decreases ws.len(),
{
    if ws.len() == 0 {
        0
    } else {
        running_count(ws.drop_last()) + if ws.last().is_busy() {
            1nat
        } else {
            0nat
        }
    }
}

/// No more workers run jobs than there are workers.
pub proof fn lemma_running_count_bounded(ws: Seq<WorkerState>)
    ensures
        running_count(ws) <= ws.len(),
    decreases ws.len(),
{
    if ws.len() > 0 {
        lemma_running_count_bounded(ws.drop_last());
    }
}

/// Replacing the state of one worker changes the count by what left and what came.
pub proof fn lemma_running_count_update(ws: Seq<WorkerState>, i: int, s: WorkerState)
    requires
        0 <= i < ws.len(),
    ensures
        running_count(ws.update(i, s)) + (if ws[i].is_busy() { 1nat } else { 0nat })
            == running_count(ws) + (if s.is_busy() { 1nat } else { 0nat }),
    decreases ws.len(),
{
    let u = ws.update(i, s);
    if i == ws.len() - 1 {
        assert(u.drop_last() =~= ws.drop_last());
    } else {
        lemma_running_count_update(ws.drop_last(), i, s);
        assert(u.drop_last() =~= ws.drop_last().update(i, s));
    }
}

/// A sequence in which no worker is busy has a count of zero.
pub proof fn lemma_running_count_zero(ws: Seq<WorkerState>)
    requires
        forall|i: int| 0 <= i < ws.len() ==> !(#[trigger] ws[i]).is_busy(),
    ensures
        running_count(ws) == 0,
    decreases ws.len(),
{
    if ws.len() > 0 {
        lemma_running_count_zero(ws.drop_last());
    }
}

/// The number of workers in `ws` that have not left their loop.
pub open spec fn live_count(ws: Seq<WorkerState>) -> nat
    decreases ws.len(),
{
    if ws.len() == 0 {
        0
    } else {
        live_count(ws.drop_last()) + if ws.last() is Exited {
            0nat
        } else {
            1nat
        }
    }
}

/// Replacing the state of one worker changes the live count by what left and what came.
pub proof fn lemma_live_count_update(ws: Seq<WorkerState>, i: int, s: WorkerState)
    requires
        0 <= i < ws.len(),
    ensures
        live_count(ws.update(i, s)) + (if ws[i] is Exited { 0nat } else { 1nat })
            == live_count(ws) + (if s is Exited { 0nat } else { 1nat }),
    decreases ws.len(),
{
    let u = ws.update(i, s);
    if i == ws.len() - 1 {
        assert(u.drop_last() =~= ws.drop_last());
    } else {
        lemma_live_count_update(ws.drop_last(), i, s);
        assert(u.drop_last() =~= ws.drop_last().update(i, s));
    }
}

/// A sequence with no live worker has every worker exited.
pub proof fn lemma_live_count_zero(ws: Seq<WorkerState>)
    requires
        live_count(ws) == 0,
    ensures
        forall|i: int| 0 <= i < ws.len() ==> (#[trigger] ws[i]) is Exited,
    decreases ws.len(),
{
    if ws.len() > 0 {
        lemma_live_count_zero(ws.drop_last());
        assert forall|i: int| 0 <= i < ws.len() implies (#[trigger] ws[i]) is Exited by {
            if i < ws.len() - 1 {
                assert(ws.drop_last()[i] == ws[i]);
            }
        }
    }
}

} // verus!
