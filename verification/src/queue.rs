use vstd::prelude::*;

use crate::task::Task;

verus! {

/// The error a send returns once the queue is closed: the consumer side
/// can never again be reached, so the task is handed back.
#[derive(Clone, Copy, PartialEq, Eq, Structural, Debug)]
pub struct SendError {
    pub task: Task,
}

/// What one receive attempt yields: the next task, the distinguished
/// "closed" signal once the producer side is gone and nothing is pending,
/// or nothing yet (the caller would block and try again).
#[derive(Clone, Copy, PartialEq, Eq, Structural, Debug)]
pub enum Delivery {
    Job(Task),
    Closed,
    WouldBlock,
}

/// An unbounded ordered channel of tasks: the pool's producer side pushes,
/// exactly one worker at a time pops from the front, and closing is
/// terminal. `delivered` is the ghost history of tasks already handed to
/// a worker, so `submitted()` — delivered then pending — is the full
/// record of every task ever accepted, in submission order.
pub struct JobQueue {
    pub pending: Vec<Task>,
    pub closed: bool,
    pub delivered: Ghost<Seq<Task>>,
}

impl JobQueue {
    /// Every task ever accepted, in submission order.
    pub open spec fn submitted(&self) -> Seq<Task> {
        self.delivered@ + self.pending@
    }

    /// Whether the producer side has been relinquished.
    pub open spec fn is_closed(&self) -> bool {
        self.closed
    }

    /// A fresh, open, empty queue.
    pub fn new() -> (q: JobQueue)
        ensures
            !q.closed,
            q.pending@ == Seq::<Task>::empty(),
            q.delivered@ == Seq::<Task>::empty(),
    {
        JobQueue { pending: Vec::new(), closed: false, delivered: Ghost(Seq::empty()) }
    }

    /// Enqueue a task for delivery to exactly one consumer. Succeeds if and
    /// only if the queue is still open; insertion order is kept, and the
    /// producer never blocks. On a closed queue nothing changes and the
    /// task comes back in the error.
    pub fn send(&mut self, t: Task) -> (r: Result<(), SendError>)
        ensures
            r is Ok <==> !old(self).closed,
            old(self).closed ==> r == Result::<(), SendError>::Err(SendError { task: t }),
            old(self).closed ==> *final(self) == *old(self),
            !old(self).closed ==> final(self).pending@ == old(self).pending@.push(t),
            !old(self).closed ==> !final(self).closed,
            final(self).delivered@ == old(self).delivered@,
            !old(self).closed ==> final(self).submitted() == old(self).submitted().push(t),
    {
        if self.closed {
            Err(SendError { task: t })
        } else {
            self.pending.push(t);
            proof {
                assert(self.delivered@ + self.pending@ =~= (old(self).delivered@
                    + old(self).pending@).push(t));
            }
            Ok(())
        }
    }

    /// One attempt by a worker holding the receiving end: the oldest
    /// pending task if there is one; the terminal closed signal if the
    /// queue is closed and drained; otherwise nothing yet.
    pub fn receive(&mut self) -> (r: Delivery)
        ensures
            final(self).closed == old(self).closed,
            final(self).submitted() == old(self).submitted(),
            old(self).pending@.len() > 0 ==> r == Delivery::Job(old(self).pending@[0]),
            old(self).pending@.len() > 0 ==> final(self).pending@ == old(
                self,
            ).pending@.drop_first(),
            old(self).pending@.len() > 0 ==> final(self).delivered@ == old(self).delivered@.push(
                old(self).pending@[0],
            ),
            old(self).pending@.len() == 0 ==> *final(self) == *old(self),
            old(self).pending@.len() == 0 && old(self).closed ==> r == Delivery::Closed,
            old(self).pending@.len() == 0 && !old(self).closed ==> r == Delivery::WouldBlock,
    {
        if self.pending.len() == 0 {
            if self.closed {
                Delivery::Closed
            } else {
                Delivery::WouldBlock
            }
        } else {
            let t = self.pending.remove(0);
            proof {
                self.delivered@ = self.delivered@.push(t);
                assert(self.pending@ =~= old(self).pending@.drop_first());
                assert(self.delivered@ + self.pending@ =~= old(self).delivered@ + old(
                    self,
                ).pending@);
            }
            Delivery::Job(t)
        }
    }

    /// Relinquish the producer side: terminal and irreversible. Pending
    /// tasks stay for delivery; nothing can be enqueued afterwards.
    pub fn close(&mut self)
        ensures
            final(self).closed,
            final(self).pending@ == old(self).pending@,
            final(self).delivered@ == old(self).delivered@,
    {
        self.closed = true;
    }

    /// Delivery is first-in, first-out: at every point the tasks already
    /// handed to workers are exactly the oldest submitted ones, in
    /// submission order — order is preserved to the point of delivery.
    pub proof fn lemma_fifo_delivery(&self)
        ensures
            self.delivered@ == self.submitted().take(self.delivered@.len() as int),
    {
        assert(self.delivered@ =~= self.submitted().take(self.delivered@.len() as int));
    }
}

} // verus!
