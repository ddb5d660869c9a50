use vstd::prelude::*;

use crate::queue::Delivery;
use crate::task::Task;

verus! {

/// A worker's lifecycle: it runs its receive-execute loop, stops for good
/// once the queue reports closure, or is aborted by a task whose execution
/// tears down its thread. `Stopped` and `Aborted` are terminal: no method
/// leaves either state.
#[derive(Clone, Copy, PartialEq, Eq, Structural, Debug)]
pub enum WorkerState {
    Running,
    Stopped,
    Aborted,
}

/// What a running worker does with what a receive attempt yielded:
/// execute the task, exit its loop for good, or wait and try again.
#[derive(Clone, Copy, PartialEq, Eq, Structural, Debug)]
pub enum WorkerAction {
    Execute(Task),
    Exit,
    Wait,
}

/// The one decision of the worker loop: a delivered task is executed
/// (outside the queue lock), the closed signal ends the loop, and an
/// empty open queue means wait for more work. A worker never
/// self-initiates shutdown; it only reacts to queue closure.
pub fn on_delivery(d: Delivery) -> (a: WorkerAction)
    ensures
        d matches Delivery::Job(t) ==> a == WorkerAction::Execute(t),
        d is Closed ==> a == WorkerAction::Exit,
        d is WouldBlock ==> a == WorkerAction::Wait,
{
    match d {
        Delivery::Job(t) => WorkerAction::Execute(t),
        Delivery::Closed => WorkerAction::Exit,
        Delivery::WouldBlock => WorkerAction::Wait,
    }
}

/// One persistent consumer of the job queue: a stable identifier assigned
/// at construction, never changed, and the state of its background thread.
#[derive(Clone, Copy, PartialEq, Eq, Structural, Debug)]
pub struct Worker {
    pub id: usize,
    pub state: WorkerState,
}

impl Worker {
    /// A freshly spawned worker: alive and waiting for work.
    pub fn new(id: usize) -> (w: Worker)
        ensures
            w.id == id,
            w.state == WorkerState::Running,
    {
        Worker { id, state: WorkerState::Running }
    }

    /// Run one task to completion on this worker's thread. The result says
    /// whether the task completed; a task that aborts tears the thread
    /// down, leaving the worker permanently aborted, and records nothing.
    pub fn run_task(&mut self, t: Task) -> (completed: bool)
        requires
            old(self).state == WorkerState::Running,
        ensures
            final(self).id == old(self).id,
            completed == !t.aborts,
            final(self).state == if t.aborts {
                WorkerState::Aborted
            } else {
                WorkerState::Running
            },
    {
        if t.aborts {
            self.state = WorkerState::Aborted;
            false
        } else {
            true
        }
    }

    /// The queue reported closure: the worker leaves its loop and its
    /// thread terminates cleanly. Terminal — the worker never runs again.
    pub fn acknowledge_closed(&mut self)
        requires
            old(self).state == WorkerState::Running,
        ensures
            final(self).id == old(self).id,
            final(self).state == WorkerState::Stopped,
    {
        self.state = WorkerState::Stopped;
    }
}

/// How many workers of `ws` are still running.
pub open spec fn running_count(ws: Seq<Worker>) -> nat
    decreases ws.len(),
{
    if ws.len() == 0 {
        0
    } else {
        running_count(ws.drop_last()) + (if ws.last().state is Running {
            1nat
        } else {
            0nat
        })
    }
}

/// No worker is running exactly when the running count is zero.
pub proof fn lemma_running_count_zero(ws: Seq<Worker>)
    ensures
        running_count(ws) == 0 <==> (forall|i: int|
            0 <= i < ws.len() ==> !((#[trigger] ws[i]).state is Running)),
    decreases ws.len(),
{
    if ws.len() > 0 {
        lemma_running_count_zero(ws.drop_last());
        if running_count(ws) == 0 {
            assert forall|i: int| 0 <= i < ws.len() implies !((#[trigger] ws[i]).state
                is Running) by {
                if i < ws.len() - 1 {
                    assert(ws.drop_last()[i] == ws[i]);
                }
            }
        } else {
            if !(ws.last().state is Running) {
                let j = choose|i: int|
                    0 <= i < ws.drop_last().len() && (#[trigger] ws.drop_last()[i]).state
                        is Running;
                assert(ws[j].state is Running);
            }
        }
    }
}

/// A worker that is running keeps the running count positive.
pub proof fn lemma_running_count_positive(ws: Seq<Worker>, i: int)
    requires
        0 <= i < ws.len(),
        ws[i].state is Running,
    ensures
        running_count(ws) >= 1,
    decreases ws.len(),
{
    if i == ws.len() - 1 {
    } else {
        assert(ws.drop_last()[i] == ws[i]);
        lemma_running_count_positive(ws.drop_last(), i);
    }
}

/// Replacing one running worker by one that is not lowers the running
/// count by exactly one.
pub proof fn lemma_running_count_update(ws: Seq<Worker>, j: int, w: Worker)
    requires
        0 <= j < ws.len(),
        ws[j].state is Running,
        !(w.state is Running),
    ensures
        running_count(ws.update(j, w)) + 1 == running_count(ws),
    decreases ws.len(),
{
    if j == ws.len() - 1 {
        assert(ws.update(j, w).drop_last() =~= ws.drop_last());
        assert(ws.update(j, w).last() == w);
    } else {
        assert(ws.update(j, w).drop_last() =~= ws.drop_last().update(j, w));
        assert(ws.update(j, w).last() == ws.last());
        assert(ws.drop_last()[j] == ws[j]);
        lemma_running_count_update(ws.drop_last(), j, w);
    }
}

} // verus!
