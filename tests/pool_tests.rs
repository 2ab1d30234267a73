use std::cell::Cell;

use thread_pool::pool::{PoolError, ThreadPool};
use thread_pool::queue::DispatchQueue;
use thread_pool::worker::{next_action, WorkerAction, WorkerMessage};

type Job<'a> = Box<dyn FnOnce() + 'a>;

/// Runs one worker loop on the current thread until it stops or the queue is
/// empty; returns whether it stopped.
fn drive_worker(queue: &mut DispatchQueue<WorkerMessage<Job<'_>>>) -> bool {
    while let Some(message) = queue.receive() {
        match next_action(message) {
            WorkerAction::Run(job) => job(),
            WorkerAction::Stop => return true,
        }
    }
    false
}

#[test]
fn zero_threads_is_refused() {
    let r = ThreadPool::new(0, |id: usize| id);
    assert!(matches!(r, Err(PoolError::ZeroThreads)));
}

#[test]
fn new_assigns_ids_from_one() {
    let pool = ThreadPool::new(3, |id: usize| id * 10).unwrap();
    assert_eq!(pool.thread_count(), 3);
    assert_eq!(pool.worker_ids(), vec![1, 2, 3]);
}

#[test]
fn queue_is_first_in_first_out() {
    let mut q: DispatchQueue<u32> = DispatchQueue::new();
    assert!(q.is_empty());
    for i in 0..5u32 {
        q.send(i);
    }
    assert_eq!(q.len(), 5);
    let mut out = Vec::new();
    while let Some(x) = q.receive() {
        out.push(x);
    }
    assert_eq!(out, vec![0, 1, 2, 3, 4]);
    assert_eq!(q.receive(), None);
}

#[test]
fn dequeue_order_matches_submission_order() {
    let log = std::cell::RefCell::new(Vec::new());
    let mut q: DispatchQueue<WorkerMessage<Job<'_>>> = DispatchQueue::new();
    let pool = ThreadPool::new(2, |id: usize| id).unwrap();
    for i in 0..20usize {
        let log = &log;
        pool.execute(&mut q, Box::new(move || log.borrow_mut().push(i)));
    }
    drive_worker(&mut q);
    assert_eq!(*log.borrow(), (0..20).collect::<Vec<usize>>());
}

#[test]
fn next_action_runs_jobs_and_stops_on_shutdown() {
    assert!(matches!(next_action(WorkerMessage::NewJob(7u8)), WorkerAction::Run(7)));
    assert!(matches!(next_action(WorkerMessage::<u8>::Shutdown), WorkerAction::Stop));
}

#[test]
fn resize_to_current_size_changes_nothing() {
    let mut q: DispatchQueue<WorkerMessage<u8>> = DispatchQueue::new();
    let mut pool = ThreadPool::new(3, |id: usize| id + 100).unwrap();
    pool.set_thread_count(3, &mut q, |id: usize| id + 200);
    assert_eq!(pool.worker_ids(), vec![1, 2, 3]);
    assert!(q.is_empty());
    let handles = pool.teardown(&mut q);
    assert_eq!(handles, vec![103, 102, 101]);
}

#[test]
fn grow_continues_ids_and_shrink_signals_removed_workers() {
    let mut q: DispatchQueue<WorkerMessage<u8>> = DispatchQueue::new();
    let mut pool = ThreadPool::new(2, |id: usize| id).unwrap();
    pool.set_thread_count(5, &mut q, |id: usize| id + 10);
    assert_eq!(pool.worker_ids(), vec![1, 2, 3, 4, 5]);
    assert!(q.is_empty());
    pool.set_thread_count(3, &mut q, |id: usize| id);
    assert_eq!(pool.worker_ids(), vec![1, 2, 3]);
    assert_eq!(q.len(), 2);
    pool.set_thread_count(4, &mut q, |id: usize| id + 20);
    assert_eq!(pool.worker_ids(), vec![1, 2, 3, 4]);
    let handles = pool.teardown(&mut q);
    // Tracked threads last added first, then the two retired ones.
    assert_eq!(handles, vec![24, 13, 2, 1, 15, 14]);
    assert_eq!(q.len(), 6);
    assert_eq!(pool.thread_count(), 0);
}

#[test]
fn teardown_sends_one_shutdown_per_worker() {
    let mut q: DispatchQueue<WorkerMessage<u8>> = DispatchQueue::new();
    let mut pool = ThreadPool::new(4, |id: usize| id).unwrap();
    let handles = pool.teardown(&mut q);
    assert_eq!(handles.len(), 4);
    let mut shutdowns = 0;
    while let Some(m) = q.receive() {
        assert!(matches!(m, WorkerMessage::Shutdown));
        shutdowns += 1;
    }
    assert_eq!(shutdowns, 4);
    // A second teardown finds nothing left.
    assert!(pool.teardown(&mut q).is_empty());
    assert!(q.is_empty());
}

#[test]
fn hundred_jobs_on_four_workers() {
    let counter = Cell::new(0u32);
    let mut q: DispatchQueue<WorkerMessage<Job<'_>>> = DispatchQueue::new();
    let mut pool = ThreadPool::new(4, |id: usize| id).unwrap();
    for _ in 0..100 {
        let counter = &counter;
        pool.execute(&mut q, Box::new(move || counter.set(counter.get() + 1)));
    }
    let handles = pool.teardown(&mut q);
    let mut stopped = 0;
    for _ in &handles {
        if drive_worker(&mut q) {
            stopped += 1;
        }
    }
    assert_eq!(counter.get(), 100);
    assert_eq!(stopped, 4);
    assert!(q.is_empty());
}

#[test]
fn resize_then_jobs_then_shrink() {
    let counter = Cell::new(0u32);
    let mut q: DispatchQueue<WorkerMessage<Job<'_>>> = DispatchQueue::new();
    let mut pool = ThreadPool::new(2, |id: usize| id).unwrap();
    pool.set_thread_count(5, &mut q, |id: usize| id);
    assert_eq!(pool.thread_count(), 5);
    for _ in 0..10 {
        let counter = &counter;
        pool.execute(&mut q, Box::new(move || counter.set(counter.get() + 1)));
    }
    pool.set_thread_count(1, &mut q, |id: usize| id);
    assert_eq!(pool.worker_ids(), vec![1]);
    let handles = pool.teardown(&mut q);
    assert_eq!(handles.len(), 5);
    let mut stopped = 0;
    for _ in &handles {
        if drive_worker(&mut q) {
            stopped += 1;
        }
    }
    assert_eq!(counter.get(), 10);
    assert_eq!(stopped, 5);
    assert!(q.is_empty());
}
