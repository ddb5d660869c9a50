use thread_pool::pool::ShutdownError;
use thread_pool::pool::ThreadPool;
use thread_pool::task::Task;
use thread_pool::worker::WorkerState;

fn job(id: u64) -> Task {
    Task { id, aborts: false }
}

fn aborting_job(id: u64) -> Task {
    Task { id, aborts: true }
}

#[test]
fn construction_spawns_exactly_n_live_workers() {
    for n in 1..6usize {
        let p = ThreadPool::new(n);
        assert_eq!(p.workers.len(), n);
        for (i, w) in p.workers.iter().enumerate() {
            assert_eq!(w.id, i);
            assert_eq!(w.state, WorkerState::Running);
        }
        assert!(!p.queue.closed);
        assert!(p.queue.pending.is_empty());
        assert!(p.completed.is_empty());
    }
}

#[test]
fn ten_tasks_four_workers_all_run_exactly_once() {
    let mut p = ThreadPool::new(4);
    for i in 0..10u64 {
        p.execute(job(i));
    }
    let r = p.shutdown();
    assert_eq!(r, Ok(()));
    let expected: Vec<u64> = (0..10).collect();
    assert_eq!(p.completed, expected);
}

#[test]
fn single_worker_serializes_in_submission_order() {
    let mut p = ThreadPool::new(1);
    let record_a = 10u64;
    let record_b = 11u64;
    p.execute(job(record_a));
    p.execute(job(record_b));
    let r = p.shutdown();
    assert_eq!(r, Ok(()));
    assert_eq!(p.completed, vec![record_a, record_b]);
}

#[test]
fn teardown_is_blocking_and_terminal() {
    let mut p = ThreadPool::new(3);
    p.execute(job(1));
    p.execute(job(2));
    let r = p.shutdown();
    assert_eq!(r, Ok(()));
    assert!(p.queue.closed);
    assert!(p.queue.pending.is_empty());
    for w in p.workers.iter() {
        assert_eq!(w.state, WorkerState::Stopped);
    }
    // No further task can be accepted once teardown has run.
    let refused = p.queue.send(job(3));
    assert!(refused.is_err());
    assert_eq!(refused.unwrap_err().task, job(3));
    assert!(p.queue.pending.is_empty());
}

#[test]
fn aborting_task_fails_teardown_without_hanging_the_other_worker() {
    let mut p = ThreadPool::new(2);
    p.execute(aborting_job(100));
    p.execute(job(7));
    let r = p.shutdown();
    // Teardown completed: every worker thread exited, the queue is drained
    // and closed, and the failure names the worker the task tore down.
    assert_eq!(r, Err(ShutdownError { worker_id: 0 }));
    assert!(p.queue.closed);
    assert!(p.queue.pending.is_empty());
    assert_eq!(p.workers[0].state, WorkerState::Aborted);
    assert_eq!(p.workers[1].state, WorkerState::Stopped);
    // The surviving worker still ran the other task; the aborted one
    // recorded nothing.
    assert_eq!(p.completed, vec![7]);
}

#[test]
fn empty_pool_shutdown_is_clean() {
    let mut p = ThreadPool::new(2);
    let r = p.shutdown();
    assert_eq!(r, Ok(()));
    assert!(p.completed.is_empty());
    for w in p.workers.iter() {
        assert_eq!(w.state, WorkerState::Stopped);
    }
}

#[test]
fn dispatch_next_runs_oldest_task_first() {
    let mut p = ThreadPool::new(2);
    assert!(!p.dispatch_next());
    p.execute(job(5));
    p.execute(job(6));
    assert!(p.dispatch_next());
    assert_eq!(p.completed, vec![5]);
    assert!(p.dispatch_next());
    assert_eq!(p.completed, vec![5, 6]);
    assert!(!p.dispatch_next());
    assert_eq!(p.completed, vec![5, 6]);
}

#[test]
fn all_workers_aborted_leaves_later_tasks_undelivered() {
    let mut p = ThreadPool::new(1);
    p.execute(aborting_job(1));
    p.execute(job(2));
    let r = p.shutdown();
    assert_eq!(r, Err(ShutdownError { worker_id: 0 }));
    assert_eq!(p.workers[0].state, WorkerState::Aborted);
    // With no worker left, the second task was never delivered.
    assert_eq!(p.queue.pending, vec![job(2)]);
    assert!(p.completed.is_empty());
}
