use worker_pool::pool::ThreadPool;
use worker_pool::worker::WorkerState;

#[test]
fn pool_starts_all_workers() {
    let pool: ThreadPool<u32> = ThreadPool::new(5);
    assert_eq!(pool.workers.len(), 5);
    for (i, w) in pool.workers.iter().enumerate() {
        assert_eq!(w.id, i);
        assert_eq!(w.state, WorkerState::Running);
    }
    assert_eq!(pool.running_count(), 5);
    assert!(pool.accepting);
    assert_eq!(pool.queue.len(), 0);
}

#[test]
fn smallest_pool_has_one_running_worker() {
    let pool: ThreadPool<u32> = ThreadPool::new(1);
    assert_eq!(pool.workers.len(), 1);
    assert_eq!(pool.workers[0].id, 0);
    assert_eq!(pool.workers[0].state, WorkerState::Running);
    assert_eq!(pool.running_count(), 1);
}

#[test]
fn fifo_delivery_order() {
    let mut pool: ThreadPool<u32> = ThreadPool::new(2);
    pool.execute(1);
    pool.execute(2);
    pool.execute(3);
    // Whichever worker is next to acquire the queue, jobs come out in
    // submission order.
    assert_eq!(pool.worker_receive(0), Some(1));
    assert_eq!(pool.worker_receive(1), Some(2));
    assert_eq!(pool.worker_receive(0), Some(3));
    assert_eq!(pool.queue.len(), 0);
}

#[test]
fn ten_jobs_delivered_exactly_once() {
    let mut pool: ThreadPool<usize> = ThreadPool::new(4);
    for index in 0..10 {
        pool.execute(index);
    }
    pool.shutdown();
    let accumulator = pool.drain();
    assert_eq!(accumulator.len(), 10);
    for index in 0..10 {
        let occurrences = accumulator.iter().filter(|&&j| j == index).count();
        assert_eq!(occurrences, 1);
    }
    assert_eq!(pool.running_count(), 0);
}

#[test]
fn single_worker_serializes() {
    let mut pool: ThreadPool<&str> = ThreadPool::new(1);
    pool.execute("job_a");
    pool.execute("job_b");
    // One worker, one queue: the first job runs to completion before
    // the second is even delivered.
    assert_eq!(pool.worker_receive(0), Some("job_a"));
    assert_eq!(pool.worker_receive(0), Some("job_b"));
}

#[test]
fn panicking_job_removes_only_its_worker() {
    let mut pool: ThreadPool<u32> = ThreadPool::new(2);
    pool.execute(7);
    assert_eq!(pool.worker_receive(0), Some(7));
    // The job panics while worker 0 runs it: the worker's thread dies
    // with it and is out of service for good.
    pool.worker_failed(0);
    assert_eq!(pool.workers[0].state, WorkerState::Failed);
    // The other worker keeps accepting and completing new jobs.
    pool.execute(8);
    pool.execute(9);
    assert_eq!(pool.worker_receive(1), Some(8));
    assert_eq!(pool.worker_receive(1), Some(9));
    assert_eq!(pool.workers[1].state, WorkerState::Running);
    assert_eq!(pool.running_count(), 1);
    pool.shutdown();
    let leftover = pool.drain();
    assert_eq!(leftover.len(), 0);
    assert_eq!(pool.workers[0].state, WorkerState::Failed);
    assert_eq!(pool.workers[1].state, WorkerState::Stopped);
    assert_eq!(pool.running_count(), 0);
}

#[test]
fn teardown_drains_pending_jobs_then_stops_all() {
    let mut pool: ThreadPool<u32> = ThreadPool::new(3);
    pool.execute(10);
    pool.execute(20);
    pool.execute(30);
    pool.shutdown();
    assert!(!pool.accepting);
    // Jobs already enqueued are still delivered after the producer
    // handle is gone; only then do the workers observe disconnect.
    let drained = pool.drain();
    assert_eq!(drained, vec![10, 20, 30]);
    assert_eq!(pool.queue.len(), 0);
    assert_eq!(pool.running_count(), 0);
    for w in pool.workers.iter() {
        assert_eq!(w.state, WorkerState::Stopped);
    }
}

#[test]
fn shutdown_is_idempotent() {
    let mut pool: ThreadPool<u32> = ThreadPool::new(2);
    pool.shutdown();
    assert!(!pool.accepting);
    pool.shutdown();
    assert!(!pool.accepting);
    assert_eq!(pool.running_count(), 2);
}

#[test]
fn drain_with_nothing_pending() {
    let mut pool: ThreadPool<u32> = ThreadPool::new(2);
    pool.shutdown();
    let drained = pool.drain();
    assert_eq!(drained.len(), 0);
    assert_eq!(pool.running_count(), 0);
    for w in pool.workers.iter() {
        assert_eq!(w.state, WorkerState::Stopped);
    }
}

#[test]
fn interleaved_submission_and_delivery() {
    let mut pool: ThreadPool<u32> = ThreadPool::new(2);
    pool.execute(1);
    pool.execute(2);
    assert_eq!(pool.worker_receive(1), Some(1));
    pool.execute(3);
    assert_eq!(pool.worker_receive(0), Some(2));
    pool.execute(4);
    pool.shutdown();
    let rest = pool.drain();
    assert_eq!(rest, vec![3, 4]);
    assert_eq!(pool.running_count(), 0);
}
