use thread_pool::queue::Delivery;
use thread_pool::queue::JobQueue;
use thread_pool::task::Task;
use thread_pool::worker::on_delivery;
use thread_pool::worker::Worker;
use thread_pool::worker::WorkerAction;
use thread_pool::worker::WorkerState;

fn job(id: u64) -> Task {
    Task { id, aborts: false }
}

#[test]
fn delivery_is_fifo() {
    let mut q = JobQueue::new();
    assert!(q.send(job(1)).is_ok());
    assert!(q.send(job(2)).is_ok());
    assert!(q.send(job(3)).is_ok());
    assert_eq!(q.receive(), Delivery::Job(job(1)));
    assert_eq!(q.receive(), Delivery::Job(job(2)));
    assert!(q.send(job(4)).is_ok());
    assert_eq!(q.receive(), Delivery::Job(job(3)));
    assert_eq!(q.receive(), Delivery::Job(job(4)));
}

#[test]
fn empty_open_queue_would_block() {
    let mut q = JobQueue::new();
    assert_eq!(q.receive(), Delivery::WouldBlock);
    assert!(q.send(job(9)).is_ok());
    assert_eq!(q.receive(), Delivery::Job(job(9)));
    assert_eq!(q.receive(), Delivery::WouldBlock);
}

#[test]
fn closing_is_terminal_and_refuses_sends() {
    let mut q = JobQueue::new();
    assert!(q.send(job(1)).is_ok());
    q.close();
    // Pending work is still delivered after closure...
    assert_eq!(q.receive(), Delivery::Job(job(1)));
    // ...then every receive reports closure, forever.
    assert_eq!(q.receive(), Delivery::Closed);
    assert_eq!(q.receive(), Delivery::Closed);
    // No task can be enqueued any more; the task comes back in the error.
    let refused = q.send(job(2));
    assert_eq!(refused.unwrap_err().task, job(2));
    assert!(q.pending.is_empty());
}

#[test]
fn worker_loop_decisions() {
    assert_eq!(on_delivery(Delivery::Job(job(8))), WorkerAction::Execute(job(8)));
    assert_eq!(on_delivery(Delivery::Closed), WorkerAction::Exit);
    assert_eq!(on_delivery(Delivery::WouldBlock), WorkerAction::Wait);
}

#[test]
fn worker_state_machine() {
    let mut w = Worker::new(3);
    assert_eq!(w.id, 3);
    assert_eq!(w.state, WorkerState::Running);
    assert!(w.run_task(job(1)));
    assert_eq!(w.state, WorkerState::Running);
    w.acknowledge_closed();
    assert_eq!(w.state, WorkerState::Stopped);

    let mut v = Worker::new(0);
    assert!(!v.run_task(Task { id: 2, aborts: true }));
    assert_eq!(v.state, WorkerState::Aborted);
}
