use std::cell::Cell;
use std::rc::Rc;
use std::sync::mpsc;

use thread_pool::error::PoolError;
use thread_pool::pool::{Teardown, ThreadPool};
use thread_pool::queue::Received;
use thread_pool::worker::WorkerState;

type Job = Box<dyn FnOnce()>;

/// Lets the worker `id` take one job and run it to its end. Says whether it
/// got one.
fn run_one(pool: &mut ThreadPool<Job>, id: usize) -> bool {
    match pool.receive(id) {
        Some(Received::Job(job)) => {
            job();
            assert!(pool.complete(id));
            true
        }
        _ => false,
    }
}

/// Lets every worker see the disconnection and return.
fn retire_all<J>(pool: &mut ThreadPool<J>, size: usize) {
    for id in 0..size {
        assert!(matches!(pool.receive(id), Some(Received::Disconnected)));
        assert!(pool.retire(id));
    }
}

#[test]
fn construct_zero_fails() {
    let result = ThreadPool::<u32>::new(0);
    assert!(matches!(result, Err(PoolError::InvalidSize)));
}

#[test]
fn construct_one_succeeds() {
    let pool = ThreadPool::<u32>::new(1).unwrap();
    assert_eq!(pool.size(), 1);
    assert!(pool.is_open());
    assert_eq!(pool.pending(), 0);
}

#[test]
fn new_pool_has_running_idle_workers() {
    let pool = ThreadPool::<u32>::new(4).unwrap();
    assert_eq!(pool.size(), 4);
    for id in 0..4 {
        let worker = pool.worker(id).unwrap();
        assert_eq!(worker.id(), id);
        assert_eq!(worker.state(), WorkerState::Running);
        assert!(!worker.is_busy());
    }
    assert!(pool.worker(4).is_none());
}

#[test]
fn counter_equals_number_of_jobs() {
    for size in 1..5usize {
        for jobs in 0..9usize {
            let counter = Rc::new(Cell::new(0usize));
            let mut pool = ThreadPool::<Job>::new(size).unwrap();
            for _ in 0..jobs {
                let counter = Rc::clone(&counter);
                assert_eq!(pool.execute(Box::new(move || counter.set(counter.get() + 1))), Ok(()));
            }
            assert_eq!(pool.pending(), jobs);
            assert_eq!(pool.teardown(), Teardown::WaitingFor(0));
            let mut id = 0;
            while pool.pending() > 0 {
                assert!(run_one(&mut pool, id));
                id = (id + 1) % size;
            }
            retire_all(&mut pool, size);
            assert_eq!(pool.teardown(), Teardown::Complete);
            assert_eq!(counter.get(), jobs);
        }
    }
}

#[test]
fn teardown_without_jobs_does_not_wait() {
    let mut pool = ThreadPool::<u32>::new(3).unwrap();
    assert_eq!(pool.teardown(), Teardown::WaitingFor(0));
    for id in 0..3 {
        assert!(matches!(pool.receive(id), Some(Received::Disconnected)));
        assert!(pool.retire(id));
    }
    assert_eq!(pool.teardown(), Teardown::Complete);
    assert_eq!(pool.teardown(), Teardown::Complete);
}

#[test]
fn jobs_start_before_any_finishes() {
    let mut pool = ThreadPool::<u32>::new(4).unwrap();
    for job in [10, 20, 30] {
        assert_eq!(pool.execute(job), Ok(()));
    }
    assert!(matches!(pool.receive(2), Some(Received::Job(10))));
    assert!(matches!(pool.receive(0), Some(Received::Job(20))));
    assert!(matches!(pool.receive(3), Some(Received::Job(30))));
    assert!(pool.worker(0).unwrap().is_busy());
    assert!(pool.worker(2).unwrap().is_busy());
    assert!(pool.worker(3).unwrap().is_busy());
    assert!(!pool.worker(1).unwrap().is_busy());
    assert_eq!(pool.pending(), 0);
    assert!(pool.complete(0));
    assert!(pool.complete(2));
    assert!(pool.complete(3));
}

#[test]
fn long_job_blocks_teardown() {
    let mut pool = ThreadPool::<u32>::new(2).unwrap();
    assert_eq!(pool.execute(7), Ok(()));
    assert!(matches!(pool.receive(1), Some(Received::Job(7))));
    assert_eq!(pool.teardown(), Teardown::WaitingFor(0));
    assert!(matches!(pool.receive(0), Some(Received::Disconnected)));
    assert!(pool.retire(0));
    assert_eq!(pool.teardown(), Teardown::WaitingFor(1));
    assert_eq!(pool.teardown(), Teardown::WaitingFor(1));
    assert!(!pool.retire(1));
    assert!(pool.complete(1));
    assert_eq!(pool.teardown(), Teardown::WaitingFor(1));
    assert!(matches!(pool.receive(1), Some(Received::Disconnected)));
    assert_eq!(pool.teardown(), Teardown::WaitingFor(1));
    assert!(pool.retire(1));
    assert_eq!(pool.teardown(), Teardown::Complete);
}

#[test]
fn submit_after_shutdown_fails() {
    let mut pool = ThreadPool::<u32>::new(2).unwrap();
    assert_eq!(pool.execute(1), Ok(()));
    pool.shutdown();
    assert!(!pool.is_open());
    assert_eq!(pool.execute(2), Err(PoolError::ShuttingDown));
    assert_eq!(pool.execute(3), Err(PoolError::ShuttingDown));
    assert_eq!(pool.pending(), 1);
    assert_eq!(PoolError::ShuttingDown.message(), "pool is shutting down");
}

#[test]
fn submit_after_teardown_fails() {
    let mut pool = ThreadPool::<u32>::new(1).unwrap();
    assert_eq!(pool.teardown(), Teardown::WaitingFor(0));
    assert_eq!(pool.execute(5), Err(PoolError::ShuttingDown));
    retire_all(&mut pool, 1);
    assert_eq!(pool.teardown(), Teardown::Complete);
    assert_eq!(pool.execute(6), Err(PoolError::ShuttingDown));
    assert_eq!(pool.pending(), 0);
}

#[test]
fn two_jobs_send_distinct_integers() {
    let (results, collected) = mpsc::channel::<i32>();
    let mut pool = ThreadPool::<Job>::new(4).unwrap();
    for value in [1, 2] {
        let results = results.clone();
        assert_eq!(pool.execute(Box::new(move || results.send(value).unwrap())), Ok(()));
    }
    drop(results);
    assert_eq!(pool.teardown(), Teardown::WaitingFor(0));
    assert!(run_one(&mut pool, 3));
    assert!(run_one(&mut pool, 1));
    retire_all(&mut pool, 4);
    assert_eq!(pool.teardown(), Teardown::Complete);
    let mut received: Vec<i32> = collected.iter().collect();
    received.sort();
    assert_eq!(received, vec![1, 2]);
}

#[test]
fn jobs_are_delivered_in_submission_order() {
    let mut pool = ThreadPool::<u32>::new(2).unwrap();
    for job in 0..6 {
        assert_eq!(pool.execute(job), Ok(()));
    }
    let mut delivered = Vec::new();
    for turn in 0..6 {
        let id = if turn % 3 == 0 { 1 } else { 0 };
        match pool.receive(id) {
            Some(Received::Job(job)) => delivered.push(job),
            _ => panic!("a pending job was not delivered"),
        }
        assert!(pool.complete(id));
    }
    assert_eq!(delivered, vec![0, 1, 2, 3, 4, 5]);
}

#[test]
fn pending_jobs_survive_shutdown() {
    let mut pool = ThreadPool::<u32>::new(1).unwrap();
    assert_eq!(pool.execute(41), Ok(()));
    assert_eq!(pool.execute(42), Ok(()));
    pool.shutdown();
    assert_eq!(pool.pending(), 2);
    assert!(matches!(pool.receive(0), Some(Received::Job(41))));
    assert!(pool.complete(0));
    assert!(matches!(pool.receive(0), Some(Received::Job(42))));
    assert!(pool.complete(0));
    assert!(matches!(pool.receive(0), Some(Received::Disconnected)));
    assert_eq!(pool.worker(0).unwrap().state(), WorkerState::ShuttingDown);
    assert!(pool.retire(0));
    assert_eq!(pool.worker(0).unwrap().state(), WorkerState::Terminated);
    assert_eq!(pool.teardown(), Teardown::Complete);
}

#[test]
fn open_pool_with_nothing_pending_tells_worker_to_wait() {
    let mut pool = ThreadPool::<u32>::new(2).unwrap();
    assert!(matches!(pool.receive(0), Some(Received::Empty)));
    assert_eq!(pool.worker(0).unwrap().state(), WorkerState::Running);
    assert!(!pool.worker(0).unwrap().is_busy());
    assert_eq!(pool.execute(9), Ok(()));
    assert!(matches!(pool.receive(0), Some(Received::Job(9))));
}

#[test]
fn moves_out_of_turn_change_nothing() {
    let mut pool = ThreadPool::<u32>::new(2).unwrap();
    assert_eq!(pool.execute(1), Ok(()));
    assert_eq!(pool.execute(2), Ok(()));
    assert!(pool.receive(2).is_none());
    assert!(!pool.complete(0));
    assert!(!pool.complete(2));
    assert!(!pool.retire(0));
    assert!(!pool.retire(2));
    assert!(matches!(pool.receive(0), Some(Received::Job(1))));
    assert!(pool.receive(0).is_none());
    assert_eq!(pool.pending(), 1);
    assert!(pool.complete(0));
    assert!(!pool.complete(0));
    pool.shutdown();
    assert!(matches!(pool.receive(1), Some(Received::Job(2))));
    assert!(pool.complete(1));
    assert!(matches!(pool.receive(1), Some(Received::Disconnected)));
    assert!(pool.receive(1).is_none());
    assert!(pool.retire(1));
    assert!(!pool.retire(1));
    assert!(pool.receive(1).is_none());
    assert_eq!(pool.worker(1).unwrap().state(), WorkerState::Terminated);
}

#[test]
fn workers_are_joined_in_ascending_order() {
    let mut pool = ThreadPool::<u32>::new(3).unwrap();
    pool.shutdown();
    assert!(matches!(pool.receive(2), Some(Received::Disconnected)));
    assert!(pool.retire(2));
    assert_eq!(pool.teardown(), Teardown::WaitingFor(0));
    assert!(matches!(pool.receive(0), Some(Received::Disconnected)));
    assert!(pool.retire(0));
    assert_eq!(pool.teardown(), Teardown::WaitingFor(1));
    assert!(matches!(pool.receive(1), Some(Received::Disconnected)));
    assert_eq!(pool.teardown(), Teardown::WaitingFor(1));
    assert!(pool.retire(1));
    assert_eq!(pool.teardown(), Teardown::Complete);
}

#[test]
fn error_messages() {
    assert_eq!(PoolError::InvalidSize.message(), "pool size must be greater than zero");
    assert_eq!(PoolError::ShuttingDown.message(), "pool is shutting down");
}

#[test]
fn teardown_takes_as_many_moves_as_are_left() {
    let size = 3;
    let jobs = 4;
    let mut pool = ThreadPool::<usize>::new(size).unwrap();
    for job in 0..jobs {
        assert_eq!(pool.execute(job), Ok(()));
    }
    pool.shutdown();

    // Always make the next move of the first worker that is not joined yet.
    let mut moves = 0;
    let mut joined = 0;
    loop {
        match pool.teardown() {
            Teardown::Complete => {
                moves += size - joined;
                break;
            }
            Teardown::WaitingFor(id) => {
                moves += id - joined;
                joined = id;
                let worker = pool.worker(id).unwrap();
                match worker.state() {
                    WorkerState::Running if worker.is_busy() => assert!(pool.complete(id)),
                    WorkerState::Running => assert!(pool.receive(id).is_some()),
                    WorkerState::ShuttingDown => assert!(pool.retire(id)),
                    WorkerState::Terminated => unreachable!(),
                }
                moves += 1;
            }
        }
    }
    // Two moves for each pending job, two for each idle worker, one join for
    // each worker.
    assert_eq!(moves, 2 * jobs + 2 * size + size);
    assert_eq!(pool.pending(), 0);
}
