use tcpproxy::{ExecuteError, Phase, PoolCreationError, Step, ThreadPool, WorkerState};

fn take(p: &mut ThreadPool<&'static str>, id: usize) -> (u64, &'static str) {
    match p.next_job(id) {
        Step::Run { ticket, job } => (ticket, job),
        Step::Wait => panic!("worker {} was told to wait", id),
        Step::Exit => panic!("worker {} was told to exit", id),
    }
}

#[test]
fn build_zero_is_rejected() {
    let r = ThreadPool::<u64>::build(0);
    assert!(matches!(r, Err(PoolCreationError::ZeroSizedPool)));
}

#[test]
fn build_gives_that_many_idle_workers() {
    for size in [1usize, 2, 4, 7, 64] {
        let p = ThreadPool::<u64>::build(size).unwrap();
        assert_eq!(p.size(), size);
        for id in 0..size {
            assert_eq!(p.worker_state(id), WorkerState::Idle);
        }
        assert_eq!(p.phase(), Phase::Running);
        assert_eq!(p.pending(), 0);
        assert_eq!(p.running(), 0);
        assert_eq!(p.submitted(), 0);
        assert_eq!(p.completed(), 0);
    }
}

#[test]
fn execute_hands_out_tickets_in_order() {
    let mut p = ThreadPool::build(2).unwrap();
    assert_eq!(p.execute("a"), Ok(0));
    assert_eq!(p.execute("b"), Ok(1));
    assert_eq!(p.execute("c"), Ok(2));
    assert_eq!(p.pending(), 3);
    assert_eq!(p.submitted(), 3);
}

#[test]
fn idle_worker_waits_on_empty_running_pool() {
    let mut p = ThreadPool::<u64>::build(1).unwrap();
    assert!(matches!(p.next_job(0), Step::Wait));
    assert_eq!(p.worker_state(0), WorkerState::Idle);
}

#[test]
fn two_workers_run_jobs_at_once() {
    let mut p = ThreadPool::build(2).unwrap();
    p.execute("A").unwrap();
    p.execute("B").unwrap();
    let a = take(&mut p, 0);
    let b = take(&mut p, 1);
    assert_eq!(a, (0, "A"));
    assert_eq!(b, (1, "B"));
    assert_eq!(p.running(), 2);
    // B ends while A still runs.
    assert_eq!(p.finish(1), 1);
    assert_eq!(p.worker_state(0), WorkerState::Busy(0));
    assert_eq!(p.completed(), 1);
    assert_eq!(p.finish(0), 0);
    assert_eq!(p.completed(), 2);
}

#[test]
fn single_worker_runs_in_submission_order() {
    let mut p = ThreadPool::build(1).unwrap();
    for i in 0..3u64 {
        p.execute(i).unwrap();
    }
    let mut log = Vec::new();
    while let Step::Run { ticket, job } = p.next_job(0) {
        log.push(job);
        assert_eq!(p.finish(0), ticket);
    }
    assert_eq!(log, vec![0, 1, 2]);
}

#[test]
fn shutdown_waits_for_running_job() {
    let mut p = ThreadPool::build(1).unwrap();
    p.execute("long").unwrap();
    let (t, _) = take(&mut p, 0);
    p.shutdown();
    assert_eq!(p.phase(), Phase::Draining);
    assert!(!p.try_terminate());
    assert_eq!(p.phase(), Phase::Draining);
    p.finish(0);
    assert!(!p.try_terminate());
    assert!(matches!(p.next_job(0), Step::Exit));
    assert!(p.try_terminate());
    assert_eq!(p.phase(), Phase::Terminated);
    assert_eq!(t, 0);
    assert_eq!(p.completed(), 1);
}

#[test]
fn execute_after_shutdown_is_pool_closed() {
    let mut p = ThreadPool::build(2).unwrap();
    p.execute(1u64).unwrap();
    p.shutdown();
    assert_eq!(p.execute(2), Err(ExecuteError::PoolClosed));
    assert_eq!(p.submitted(), 1);
    assert_eq!(p.pending(), 1);
}

#[test]
fn shutdown_twice_changes_nothing() {
    let mut p = ThreadPool::<u64>::build(1).unwrap();
    p.shutdown();
    p.shutdown();
    assert_eq!(p.phase(), Phase::Draining);
    assert!(matches!(p.next_job(0), Step::Exit));
    assert!(p.try_terminate());
    p.shutdown();
    assert_eq!(p.phase(), Phase::Terminated);
}

#[test]
fn draining_worker_finishes_queue_before_exit() {
    let mut p = ThreadPool::build(2).unwrap();
    p.execute("x").unwrap();
    p.execute("y").unwrap();
    p.shutdown();
    assert_eq!(take(&mut p, 0), (0, "x"));
    assert_eq!(take(&mut p, 1), (1, "y"));
    p.finish(1);
    assert!(matches!(p.next_job(1), Step::Exit));
    assert!(!p.try_terminate());
    p.finish(0);
    assert!(matches!(p.next_job(0), Step::Exit));
    assert!(p.try_terminate());
    assert_eq!(p.completed(), 2);
}

#[test]
fn running_jobs_never_exceed_size() {
    let mut p = ThreadPool::build(3).unwrap();
    for i in 0..10u64 {
        p.execute(i).unwrap();
    }
    for id in 0..3 {
        assert!(matches!(p.next_job(id), Step::Run { .. }));
    }
    assert_eq!(p.running(), 3);
    assert!(p.running() <= p.size());
    assert_eq!(p.pending(), 7);
}

#[test]
fn every_job_runs_exactly_once() {
    let n: u64 = 25;
    let mut p = ThreadPool::build(4).unwrap();
    for i in 0..n {
        assert_eq!(p.execute(i * 10), Ok(i));
    }
    p.shutdown();
    let mut seen = vec![0u32; n as usize];
    let mut live = 4;
    let mut id = 0;
    while live > 0 {
        if matches!(p.worker_state(id), WorkerState::Busy(_)) {
            let t = p.finish(id);
            seen[t as usize] += 1;
        }
        if p.worker_state(id) == WorkerState::Idle {
            match p.next_job(id) {
                Step::Run { ticket, job } => assert_eq!(job, ticket * 10),
                Step::Exit => live -= 1,
                Step::Wait => panic!("a draining pool never waits"),
            }
        }
        assert!(p.running() <= 4);
        id = (id + 1) % 4;
    }
    assert!(seen.iter().all(|c| *c == 1));
    assert!(p.try_terminate());
    assert_eq!(p.completed(), n);
}

#[test]
fn interleaved_submitters_lose_and_duplicate_nothing() {
    let mut p = ThreadPool::build(2).unwrap();
    let mut tickets = Vec::new();
    for round in 0..5u64 {
        tickets.push(p.execute(("first", round)).unwrap());
        tickets.push(p.execute(("second", round)).unwrap());
    }
    assert_eq!(tickets, (0..10).collect::<Vec<u64>>());
    let mut got = Vec::new();
    for _ in 0..10 {
        let Step::Run { ticket, job } = p.next_job(0) else { panic!("queue ran dry") };
        got.push(job);
        p.finish(0);
        assert!(ticket < 10);
    }
    for round in 0..5u64 {
        assert_eq!(got[2 * round as usize], ("first", round));
        assert_eq!(got[2 * round as usize + 1], ("second", round));
    }
    assert!(matches!(p.next_job(1), Step::Wait));
}
