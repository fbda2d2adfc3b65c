use thread_pool::{Received, ThreadPool, Worker, WorkerState};

#[test]
fn fresh_worker_is_running_and_idle() {
    let worker = Worker::new(3);
    assert_eq!(worker.id(), 3);
    assert_eq!(worker.state(), WorkerState::Running);
    assert!(!worker.is_busy());
}

#[test]
fn worker_walks_through_its_states_in_order() {
    let mut pool = ThreadPool::<char>::new(1).unwrap();
    assert_eq!(pool.execute('a'), Ok(()));

    assert!(matches!(pool.receive(0), Some(Received::Job('a'))));
    let worker = pool.worker(0).unwrap();
    assert_eq!(worker.state(), WorkerState::Running);
    assert!(worker.is_busy());

    assert!(pool.complete(0));
    let worker = pool.worker(0).unwrap();
    assert_eq!(worker.state(), WorkerState::Running);
    assert!(!worker.is_busy());

    pool.shutdown();
    assert!(matches!(pool.receive(0), Some(Received::Disconnected)));
    let worker = pool.worker(0).unwrap();
    assert_eq!(worker.state(), WorkerState::ShuttingDown);
    assert!(!worker.is_busy());

    assert!(pool.retire(0));
    let worker = pool.worker(0).unwrap();
    assert_eq!(worker.id(), 0);
    assert_eq!(worker.state(), WorkerState::Terminated);
    assert!(!worker.is_busy());
}

#[test]
fn no_more_jobs_in_flight_than_workers() {
    let mut pool = ThreadPool::<u8>::new(2).unwrap();
    for job in [1, 2, 3] {
        assert_eq!(pool.execute(job), Ok(()));
    }
    assert!(matches!(pool.receive(0), Some(Received::Job(1))));
    assert!(matches!(pool.receive(1), Some(Received::Job(2))));
    assert!(pool.receive(0).is_none());
    assert!(pool.receive(1).is_none());
    assert_eq!(pool.pending(), 1);
    assert!(pool.complete(1));
    assert!(matches!(pool.receive(1), Some(Received::Job(3))));
    assert_eq!(pool.pending(), 0);
}

#[test]
fn submissions_and_deliveries_interleave_in_order() {
    let mut pool = ThreadPool::<u8>::new(2).unwrap();
    assert_eq!(pool.execute(1), Ok(()));
    assert!(matches!(pool.receive(1), Some(Received::Job(1))));
    assert!(matches!(pool.receive(0), Some(Received::Empty)));
    assert_eq!(pool.execute(2), Ok(()));
    assert_eq!(pool.execute(3), Ok(()));
    assert!(pool.complete(1));
    assert!(matches!(pool.receive(1), Some(Received::Job(2))));
    assert!(matches!(pool.receive(0), Some(Received::Job(3))));
    assert!(matches!(pool.receive(0), None));
    assert!(pool.complete(0));
    assert!(matches!(pool.receive(0), Some(Received::Empty)));
}
