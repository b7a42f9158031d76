use rust_lang_book::channel::DispatchFailure;
use rust_lang_book::thread_pool::{ThreadPool, Turn};
use std::sync::{Arc, Mutex};

type Job = Box<dyn FnOnce() + Send + 'static>;

fn logging_job(log: &Arc<Mutex<Vec<usize>>>, index: usize) -> Job {
    let log = Arc::clone(log);
    Box::new(move || log.lock().unwrap().push(index))
}

#[test]
fn four_items_on_two_workers_each_run_once() {
    let log = Arc::new(Mutex::new(Vec::new()));
    let mut pool: ThreadPool<Job> = ThreadPool::new(2);
    for index in 0..4 {
        pool.execute(logging_job(&log, index));
    }
    assert_eq!(pool.pending(), 4);

    pool.shutdown();

    let mut seen = log.lock().unwrap().clone();
    seen.sort();
    assert_eq!(seen, vec![0, 1, 2, 3]);
    assert_eq!(pool.live_workers(), 0);
    assert_eq!(pool.pending(), 0);
}

#[test]
fn shutdown_with_empty_queue_returns() {
    let mut pool: ThreadPool<Job> = ThreadPool::new(3);
    assert_eq!(pool.live_workers(), 3);

    pool.shutdown();

    assert_eq!(pool.live_workers(), 0);
    assert_eq!(pool.size(), 3);
}

#[test]
fn late_submission_is_a_dispatch_failure() {
    let log = Arc::new(Mutex::new(Vec::new()));
    let mut pool: ThreadPool<Job> = ThreadPool::new(2);
    pool.shutdown();

    assert_eq!(pool.submit(logging_job(&log, 7)), Err(DispatchFailure));

    assert_eq!(pool.pending(), 0);
    assert!(log.lock().unwrap().is_empty());
}

#[test]
fn new_pool_has_every_worker_alive() {
    for size in 1..6 {
        let pool: ThreadPool<Job> = ThreadPool::new(size);
        assert_eq!(pool.size(), size);
        assert_eq!(pool.live_workers(), size);
        assert_eq!(pool.pending(), 0);
    }
}

#[test]
fn pool_without_workers_is_refused() {
    assert!(ThreadPool::<Job>::try_new(0).is_none());
    let pool = ThreadPool::<Job>::try_new(1).expect("one worker is enough");
    assert_eq!(pool.live_workers(), 1);
}

#[test]
fn submission_does_not_run_the_item() {
    let log = Arc::new(Mutex::new(Vec::new()));
    let mut pool: ThreadPool<Job> = ThreadPool::new(1);
    assert_eq!(pool.submit(logging_job(&log, 1)), Ok(()));
    assert!(log.lock().unwrap().is_empty());
    assert_eq!(pool.pending(), 1);
}

#[test]
fn workers_take_items_in_order_of_submission() {
    let log = Arc::new(Mutex::new(Vec::new()));
    let mut pool: ThreadPool<Job> = ThreadPool::new(2);
    for index in 0..3 {
        pool.execute(logging_job(&log, index));
    }

    assert_eq!(pool.turn(1), Turn::Ran);
    assert_eq!(*log.lock().unwrap(), vec![0]);
    assert_eq!(pool.turn(0), Turn::Ran);
    assert_eq!(*log.lock().unwrap(), vec![0, 1]);
    assert_eq!(pool.turn(1), Turn::Ran);
    assert_eq!(*log.lock().unwrap(), vec![0, 1, 2]);
    assert_eq!(pool.pending(), 0);
    assert_eq!(pool.live_workers(), 2);
}

#[test]
fn worker_blocks_on_empty_queue_and_stops_after_teardown() {
    let mut pool: ThreadPool<Job> = ThreadPool::new(2);
    assert_eq!(pool.turn(0), Turn::Blocked);
    assert_eq!(pool.turn(2), Turn::Stopped);

    pool.shutdown();

    assert_eq!(pool.turn(0), Turn::Stopped);
    assert_eq!(pool.turn(1), Turn::Stopped);
}

#[test]
fn items_taken_before_teardown_are_not_run_again() {
    let log = Arc::new(Mutex::new(Vec::new()));
    let mut pool: ThreadPool<Job> = ThreadPool::new(3);
    for index in 0..5 {
        pool.execute(logging_job(&log, index));
    }
    assert_eq!(pool.turn(2), Turn::Ran);
    assert_eq!(pool.turn(0), Turn::Ran);

    pool.shutdown();

    assert_eq!(*log.lock().unwrap(), vec![0, 1, 2, 3, 4]);
    assert_eq!(pool.live_workers(), 0);
}

#[test]
fn second_shutdown_changes_nothing() {
    let log = Arc::new(Mutex::new(Vec::new()));
    let mut pool: ThreadPool<Job> = ThreadPool::new(2);
    pool.execute(logging_job(&log, 0));
    pool.shutdown();
    pool.shutdown();
    assert_eq!(*log.lock().unwrap(), vec![0]);
    assert_eq!(pool.live_workers(), 0);
    assert_eq!(pool.size(), 2);
}
