//! The pool: a fixed set of workers, one shared job queue, and a lifecycle that
//! runs from `Running` through `Draining` to `Terminated`.
use vstd::prelude::*;
use std::collections::VecDeque;
use crate::error::{ExecuteError, PoolCreationError};
use crate::worker::{
    Step, WorkerState, live_count, running_count, lemma_live_count_update,
    lemma_running_count_update, lemma_running_count_zero,
};

verus! {

/// Where a pool stands in its lifecycle. It never moves back.
#[derive(Clone, Copy, Debug, PartialEq, Eq, Structural)]
pub enum Phase {
    /// Jobs are taken.
    Running,
    /// Shutdown has begun: no job is taken, the workers drain the queue.
    Draining,
    /// Every worker has left its loop.
    Terminated,
}

/// The coordination state of a pool of workers that run jobs of type `J`.
///
/// Every submitted job gets a ticket, the number of jobs submitted before it.
/// Jobs wait in the queue in ticket order; a worker takes the one at the front.
pub struct ThreadPool<J> {
    workers: Vec<WorkerState>,
    queue: VecDeque<J>,
    submitted: u64,
    dispatched: u64,
    completed: u64,
    phase: Phase,
}

impl<J> ThreadPool<J> {
    /// What each worker is doing, by worker id.
    pub closed spec fn workers(&self) -> Seq<WorkerState> {
        self.workers@
    }

    /// The jobs waiting, front first.
    pub closed spec fn queue(&self) -> Seq<J> {
        self.queue@
    }

    /// How many jobs were ever accepted.
    pub closed spec fn submitted_count(&self) -> nat {
        self.submitted as nat
    }

    /// How many jobs were ever handed to a worker.
    pub closed spec fn dispatched_count(&self) -> nat {
        self.dispatched as nat
    }

    /// How many jobs were reported finished.
    pub closed spec fn completed_count(&self) -> nat {
        self.completed as nat
    }

    /// Where the pool stands in its lifecycle.
    pub closed spec fn phase_of(&self) -> Phase {
        self.phase
    }

    /// The pool's invariant.
    ///
    /// The queue holds exactly the tickets from `dispatched_count` up to
    /// `submitted_count`; a running ticket was dispatched, and no two workers
    /// run the same one; every dispatched job is running or finished; a worker
    /// exits only once the queue is closed and empty; and a terminated pool
    /// has no worker left.
    pub open spec fn wf(&self) -> bool {
        let ws = self.workers();
        &&& ws.len() >= 1
        &&& self.dispatched_count() <= self.submitted_count()
        &&& self.queue().len() == self.submitted_count() - self.dispatched_count()
        &&& forall|i: int, t: nat|
            0 <= i < ws.len() && (#[trigger] ws[i].runs(t)) ==> t < self.dispatched_count()
        &&& forall|i: int, j: int, t: nat|
            0 <= i < ws.len() && 0 <= j < ws.len() && (#[trigger] ws[i].runs(t)) && (
            #[trigger] ws[j].runs(t)) ==> i == j
        &&& self.completed_count() + running_count(ws) == self.dispatched_count()
        &&& forall|i: int|
            0 <= i < ws.len() && (#[trigger] ws[i]) is Exited ==> self.phase_of() != Phase::Running
                && self.queue().len() == 0
        &&& self.phase_of() == Phase::Terminated ==> forall|i: int|
            0 <= i < ws.len() ==> (#[trigger] ws[i]) is Exited
    }

    /// What is left before a closed pool can terminate: each queued job is
    /// still to be taken and finished, each running job to be finished, and
    /// each worker still in its loop to exit.
    pub open spec fn work_left(&self) -> nat {
        2 * self.queue().len() + running_count(self.workers()) + live_count(self.workers())
    }

    /// Builds a pool of `size` idle workers with an empty queue.
    pub fn build(size: usize) -> (r: Result<ThreadPool<J>, PoolCreationError>)
        ensures
            match r {
                Ok(p) => {
                    &&& size > 0
                    &&& p.wf()
                    &&& p.workers().len() == size
                    &&& forall|i: int| 0 <= i < size ==> (#[trigger] p.workers()[i]) == WorkerState::Idle
                    &&& p.queue().len() == 0
                    &&& p.submitted_count() == 0
                    &&& p.dispatched_count() == 0
                    &&& p.completed_count() == 0
                    &&& p.phase_of() == Phase::Running
                },
                Err(e) => size == 0 && e == PoolCreationError::ZeroSizedPool,
            },
    {
        if size == 0 {
            return Err(PoolCreationError::ZeroSizedPool);
        }
        let mut workers: Vec<WorkerState> = Vec::new();
        let mut id: usize = 0;
        while id < size
            invariant
                id <= size,
                workers@.len() == id,
                forall|i: int| 0 <= i < id ==> (#[trigger] workers@[i]) == WorkerState::Idle,
            decreases size - id,
        {
            workers.push(WorkerState::Idle);
            id = id + 1;
        }
        let p = ThreadPool {
            workers,
            queue: VecDeque::new(),
            submitted: 0,
            dispatched: 0,
            completed: 0,
            phase: Phase::Running,
        };
        proof {
            lemma_running_count_zero(p.workers@);
        }
        Ok(p)
    }

    /// Submits `job`. While the pool is running the job joins the back of the
    /// queue and its ticket comes back; once shutdown has begun nothing changes
    /// and the call fails with `PoolClosed`.
    pub fn execute(&mut self, job: J) -> (r: Result<u64, ExecuteError>)
        requires
            old(self).wf(),
            old(self).submitted_count() < u64::MAX,
        ensures
            final(self).wf(),
            match r {
                Ok(t) => {
                    &&& old(self).phase_of() == Phase::Running
                    &&& t == old(self).submitted_count()
                    &&& final(self).queue() == old(self).queue().push(job)
                    &&& final(self).submitted_count() == old(self).submitted_count() + 1
                    &&& final(self).workers() == old(self).workers()
                    &&& final(self).dispatched_count() == old(self).dispatched_count()
                    &&& final(self).completed_count() == old(self).completed_count()
                    &&& final(self).phase_of() == old(self).phase_of()
                },
                Err(e) => {
                    &&& old(self).phase_of() != Phase::Running
                    &&& e == ExecuteError::PoolClosed
                    &&& *final(self) == *old(self)
                },
            },
    {
        if self.phase != Phase::Running {
            return Err(ExecuteError::PoolClosed);
        }
        let ticket = self.submitted;
        self.queue.push_back(job);
        self.submitted = self.submitted + 1;
        Ok(ticket)
    }

    /// Tells idle worker `id` what to do next. It takes the job at the front of
    /// the queue if there is one; else it waits while the pool runs, and exits
    /// once shutdown has begun.
    pub fn next_job(&mut self, id: usize) -> (r: Step<J>)
        requires
            old(self).wf(),
            id < old(self).workers().len(),
            old(self).workers()[id as int] == WorkerState::Idle,
        ensures
            final(self).wf(),
            final(self).submitted_count() == old(self).submitted_count(),
            final(self).completed_count() == old(self).completed_count(),
            final(self).phase_of() == old(self).phase_of(),
            old(self).phase_of() != Phase::Running ==> final(self).work_left() < old(self).work_left(),
            match r {
                Step::Run { ticket, job } => {
                    &&& old(self).queue().len() > 0
                    &&& job == old(self).queue()[0]
                    &&& ticket == old(self).dispatched_count()
                    &&& final(self).queue() == old(self).queue().drop_first()
                    &&& final(self).dispatched_count() == old(self).dispatched_count() + 1
                    &&& final(self).workers() == old(self).workers().update(
                        id as int,
                        WorkerState::Busy(ticket),
                    )
                },
                Step::Wait => {
                    &&& old(self).queue().len() == 0
                    &&& old(self).phase_of() == Phase::Running
                    &&& *final(self) == *old(self)
                },
                Step::Exit => {
                    &&& old(self).queue().len() == 0
                    &&& old(self).phase_of() != Phase::Running
                    &&& final(self).queue() == old(self).queue()
                    &&& final(self).dispatched_count() == old(self).dispatched_count()
                    &&& final(self).workers() == old(self).workers().update(
                        id as int,
                        WorkerState::Exited,
                    )
                },
            },
    {
        proof {
            if self.phase == Phase::Terminated {
                assert(self.workers@[id as int] is Exited);
            }
        }
        if self.queue.len() == 0 {
            if self.phase == Phase::Running {
                return Step::Wait;
            }
            proof {
                lemma_running_count_update(self.workers@, id as int, WorkerState::Exited);
                lemma_live_count_update(self.workers@, id as int, WorkerState::Exited);
            }
            self.workers.set(id, WorkerState::Exited);
            proof {
                let ws = self.workers@;
                assert forall|i: int, j: int, t: nat|
                    0 <= i < ws.len() && 0 <= j < ws.len() && (#[trigger] ws[i].runs(t)) && (
                    #[trigger] ws[j].runs(t)) implies i == j by {
                    assert(old(self).workers@[i].runs(t));
                    assert(old(self).workers@[j].runs(t));
                }
                assert forall|i: int, t: nat|
                    0 <= i < ws.len() && (#[trigger] ws[i].runs(t)) implies t
                    < self.dispatched as nat by {
                    assert(old(self).workers@[i].runs(t));
                }
            }
            return Step::Exit;
        }
        let job = self.queue.pop_front().unwrap();
        let ticket = self.dispatched;
        proof {
            lemma_running_count_update(self.workers@, id as int, WorkerState::Busy(ticket));
            lemma_live_count_update(self.workers@, id as int, WorkerState::Busy(ticket));
        }
        self.workers.set(id, WorkerState::Busy(ticket));
        self.dispatched = self.dispatched + 1;
        proof {
            assert(self.queue@ =~= old(self).queue@.drop_first());
            let ws = self.workers@;
            assert forall|i: int, t: nat|
                0 <= i < ws.len() && (#[trigger] ws[i].runs(t)) implies t
                < self.dispatched as nat by {
                if i != id as int {
                    assert(old(self).workers@[i].runs(t));
                }
            }
            assert forall|i: int, j: int, t: nat|
                0 <= i < ws.len() && 0 <= j < ws.len() && (#[trigger] ws[i].runs(t)) && (
                #[trigger] ws[j].runs(t)) implies i == j by {
                if i != id as int {
                    assert(old(self).workers@[i].runs(t));
                }
                if j != id as int {
                    assert(old(self).workers@[j].runs(t));
                }
            }
        }
        Step::Run { ticket, job }
    }

    /// Worker `id` reports that its job is done, and is idle again. The ticket
    /// of the finished job comes back.
    pub fn finish(&mut self, id: usize) -> (r: u64)
        requires
            old(self).wf(),
            id < old(self).workers().len(),
            old(self).workers()[id as int] is Busy,
        ensures
            final(self).wf(),
            old(self).workers()[id as int] == WorkerState::Busy(r),
            final(self).workers() == old(self).workers().update(id as int, WorkerState::Idle),
            final(self).completed_count() == old(self).completed_count() + 1,
            final(self).work_left() < old(self).work_left(),
            final(self).queue() == old(self).queue(),
            final(self).submitted_count() == old(self).submitted_count(),
            final(self).dispatched_count() == old(self).dispatched_count(),
            final(self).phase_of() == old(self).phase_of(),
    {
        let ticket = match self.workers[id] {
            WorkerState::Busy(t) => t,
            _ => 0,
        };
        proof {
            assert(self.workers@[id as int].runs(ticket as nat));
            lemma_running_count_update(self.workers@, id as int, WorkerState::Idle);
            lemma_live_count_update(self.workers@, id as int, WorkerState::Idle);
        }
        self.workers.set(id, WorkerState::Idle);
        self.completed = self.completed + 1;
        proof {
            let ws = self.workers@;
            assert forall|i: int, j: int, t: nat|
                0 <= i < ws.len() && 0 <= j < ws.len() && (#[trigger] ws[i].runs(t)) && (
                #[trigger] ws[j].runs(t)) implies i == j by {
                assert(old(self).workers@[i].runs(t));
                assert(old(self).workers@[j].runs(t));
            }
            assert forall|i: int, t: nat|
                0 <= i < ws.len() && (#[trigger] ws[i].runs(t)) implies t
                < self.dispatched as nat by {
                assert(old(self).workers@[i].runs(t));
            }
        }
        ticket
    }

    /// Begins shutdown: closes the queue to new jobs. The workers still run
    /// what is queued. Calling it again, or on a terminated pool, changes nothing.
    pub fn shutdown(&mut self)
        requires
            old(self).wf(),
        ensures
            final(self).wf(),
            final(self).phase_of() == if old(self).phase_of() == Phase::Running {
                Phase::Draining
            } else {
                old(self).phase_of()
            },
            final(self).workers() == old(self).workers(),
            final(self).queue() == old(self).queue(),
            final(self).submitted_count() == old(self).submitted_count(),
            final(self).dispatched_count() == old(self).dispatched_count(),
            final(self).completed_count() == old(self).completed_count(),
    {
        if self.phase == Phase::Running {
            self.phase = Phase::Draining;
        }
    }

    /// Whether every worker has left its loop.
    pub fn all_exited(&self) -> (r: bool)
        ensures
            r == forall|i: int| 0 <= i < self.workers().len() ==> (#[trigger] self.workers()[i]) is Exited,
    {
        let mut i: usize = 0;
        while i < self.workers.len()
            invariant
                i <= self.workers@.len(),
                forall|k: int| 0 <= k < i ==> (#[trigger] self.workers@[k]) is Exited,
            decreases self.workers@.len() - i,
        {
            if !self.workers[i].is_exited() {
                return false;
            }
            i = i + 1;
        }
        true
    }

    /// Ends shutdown once every worker has exited: the pool is then
    /// terminated, and `true` comes back. Before that nothing changes and the
    /// answer is `false`.
    pub fn try_terminate(&mut self) -> (r: bool)
        requires
            old(self).wf(),
        ensures
            final(self).wf(),
            r == (old(self).phase_of() != Phase::Running && forall|i: int|
                0 <= i < old(self).workers().len() ==> (#[trigger] old(self).workers()[i]) is Exited),
            final(self).phase_of() == if r {
                Phase::Terminated
            } else {
                old(self).phase_of()
            },
            final(self).workers() == old(self).workers(),
            final(self).queue() == old(self).queue(),
            final(self).submitted_count() == old(self).submitted_count(),
            final(self).dispatched_count() == old(self).dispatched_count(),
            final(self).completed_count() == old(self).completed_count(),
    {
        if self.phase == Phase::Running || !self.all_exited() {
            return false;
        }
        self.phase = Phase::Terminated;
        true
    }

    /// The number of workers running a job right now.
    pub fn running(&self) -> (r: usize)
        ensures
            r == running_count(self.workers()),
    {
        let mut n: usize = 0;
        let mut i: usize = 0;
        while i < self.workers.len()
            invariant
                i <= self.workers@.len(),
                n == running_count(self.workers@.subrange(0, i as int)),
                n <= i,
            decreases self.workers@.len() - i,
        {
            proof {
                let ws = self.workers@;
                assert(ws.subrange(0, i + 1).drop_last() =~= ws.subrange(0, i as int));
            }
            if self.workers[i].has_job() {
                n = n + 1;
            }
            i = i + 1;
        }
        proof {
            assert(self.workers@.subrange(0, i as int) =~= self.workers@);
        }
        n
    }

    /// The number of workers, fixed when the pool was built.
    pub fn size(&self) -> (r: usize)
        ensures
            r == self.workers().len(),
    {
        self.workers.len()
    }

    /// Where the pool stands in its lifecycle.
    pub fn phase(&self) -> (r: Phase)
        ensures
            r == self.phase_of(),
    {
        self.phase
    }

    /// The number of jobs accepted so far.
    pub fn submitted(&self) -> (r: u64)
        ensures
            r == self.submitted_count(),
    {
        self.submitted
    }

    /// The number of jobs reported finished so far.
    pub fn completed(&self) -> (r: u64)
        ensures
            r == self.completed_count(),
    {
        self.completed
    }

    /// The number of jobs waiting in the queue.
    pub fn pending(&self) -> (r: usize)
        ensures
            r == self.queue().len(),
    {
        self.queue.len()
    }

    /// What worker `id` is doing.
    pub fn worker_state(&self, id: usize) -> (r: WorkerState)
        requires
            id < self.workers().len(),
        ensures
            r == self.workers()[id as int],
    {
        self.workers[id]
    }
}

} // verus!
