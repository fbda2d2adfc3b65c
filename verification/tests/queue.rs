use thread_pool::queue::{DispatchQueue, Lifecycle, Received};

#[test]
fn new_queue_is_open_and_empty() {
    let mut queue = DispatchQueue::<u8>::new();
    assert_eq!(queue.len(), 0);
    assert_eq!(queue.lifecycle(), Lifecycle::Open);
    assert!(matches!(queue.receive(), Received::Empty));
}

#[test]
fn queue_is_first_in_first_out() {
    let mut queue = DispatchQueue::<u8>::new();
    assert_eq!(queue.send(3), Ok(()));
    assert_eq!(queue.send(1), Ok(()));
    assert_eq!(queue.send(2), Ok(()));
    assert_eq!(queue.len(), 3);
    assert!(matches!(queue.receive(), Received::Job(3)));
    assert!(matches!(queue.receive(), Received::Job(1)));
    assert_eq!(queue.len(), 1);
    assert!(matches!(queue.receive(), Received::Job(2)));
    assert!(matches!(queue.receive(), Received::Empty));
}

#[test]
fn closed_queue_hands_the_job_back() {
    let mut queue = DispatchQueue::<String>::new();
    queue.close();
    assert_eq!(queue.lifecycle(), Lifecycle::Closed);
    assert_eq!(queue.send("late".to_string()), Err("late".to_string()));
    assert_eq!(queue.len(), 0);
}

#[test]
fn closed_queue_drains_before_it_disconnects() {
    let mut queue = DispatchQueue::<u8>::new();
    assert_eq!(queue.send(5), Ok(()));
    assert_eq!(queue.send(6), Ok(()));
    queue.close();
    queue.close();
    assert_eq!(queue.len(), 2);
    assert!(matches!(queue.receive(), Received::Job(5)));
    assert!(matches!(queue.receive(), Received::Job(6)));
    assert!(matches!(queue.receive(), Received::Disconnected));
    assert!(matches!(queue.receive(), Received::Disconnected));
}
