use blog::pool::{PoolCreationError, PoolState, WorkerPhase};

#[test]
fn zero_size_is_refused_and_makes_no_workers() {
    let r = PoolState::build(0);
    match r {
        Err(e) => assert_eq!(e, PoolCreationError::InvalidSize),
        Ok(_) => panic!("a zero-sized pool must be refused"),
    }
}

#[test]
fn build_makes_the_requested_workers() {
    let p = PoolState::build(4).unwrap();
    assert_eq!(p.workers.len(), 4);
    assert!(p.workers.iter().all(|w| *w == WorkerPhase::Idle));
    assert!(!p.closed);
    assert_eq!(p.pending.len(), 0);
}

#[test]
fn creation_error_message() {
    assert_eq!(
        PoolCreationError::InvalidSize.message(),
        "The pool size must be greater than 0"
    );
}

#[test]
fn delivery_is_fifo() {
    let mut p = PoolState::new(2);
    let a = p.execute();
    let b = p.execute();
    assert_eq!(a, 0);
    assert_eq!(b, 1);
    assert_eq!(p.worker_fetch(0), Some(0));
    assert_eq!(p.worker_fetch(1), Some(1));
}

#[test]
fn more_work_than_workers_all_executed_exactly_once() {
    // N = 2 workers, M = 5 units of work.
    let mut p = PoolState::new(2);
    for _ in 0..5 {
        p.execute();
    }
    // Drive both workers until the queue drains and closes.
    let mut fetched: Vec<u64> = Vec::new();
    p.close();
    loop {
        let mut progressed = false;
        for w in 0..2 {
            if p.workers[w] == WorkerPhase::Idle && (p.pending.len() > 0 || p.closed) {
                if let Some(job) = p.worker_fetch(w) {
                    fetched.push(job);
                    // While this worker is busy, never more than two units
                    // are in execution at once.
                    let busy = p
                        .workers
                        .iter()
                        .filter(|ph| matches!(ph, WorkerPhase::Busy(_)))
                        .count();
                    assert!(busy <= 2);
                    p.worker_finish(w);
                }
                progressed = true;
            }
        }
        if !progressed {
            break;
        }
    }
    // Every unit was executed exactly once.
    let mut executed = p.executed.clone();
    executed.sort();
    assert_eq!(executed, vec![0, 1, 2, 3, 4]);
    assert_eq!(fetched, vec![0, 1, 2, 3, 4]);
}

#[test]
fn closure_is_observed_only_after_the_queue_drains() {
    let mut p = PoolState::new(1);
    p.execute();
    p.close();
    // The pending unit is still delivered after the close.
    assert_eq!(p.worker_fetch(0), Some(0));
    p.worker_finish(0);
    // Only now does the worker observe closure.
    assert_eq!(p.worker_fetch(0), None);
    assert_eq!(p.workers[0], WorkerPhase::Done);
}

#[test]
fn teardown_joins_every_worker() {
    let mut p = PoolState::new(3);
    p.close();
    for w in 0..3 {
        assert_eq!(p.worker_fetch(w), None);
    }
    p.join_all();
    assert_eq!(p.workers.len(), 3);
    assert!(p.workers.iter().all(|w| *w == WorkerPhase::Joined));
}
