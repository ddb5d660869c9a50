use vstd::prelude::*;

use crate::queue::Delivery;
use crate::queue::JobQueue;
use crate::task::Task;
use crate::task::aborting_count;
use crate::task::completions;
use crate::task::lemma_aborting_count_drop_first;
use crate::task::lemma_completions_push;
use crate::task::lemma_no_aborts_completions;
use crate::task::no_aborts;
use crate::task::task_ids;
use crate::worker::Worker;
use crate::worker::WorkerState;
use crate::worker::lemma_running_count_positive;
use crate::worker::lemma_running_count_update;
use crate::worker::lemma_running_count_zero;
use crate::worker::running_count;

verus! {

/// The terminal failure of a teardown: reclaiming one worker's thread
/// failed because a task had aborted it. The lowest such worker
/// identifier is reported.
#[derive(Clone, Copy, PartialEq, Eq, Structural, Debug)]
pub struct ShutdownError {
    pub worker_id: usize,
}

/// A fixed-size worker pool: a bounded set of long-lived workers that
/// pull tasks from one shared queue and run them to completion, one at a
/// time per worker, until the pool is shut down.
///
/// `completed` is the observable record of executions: the identifier of
/// each task that ran to completion, in the order the workers ran them.
pub struct ThreadPool {
    pub workers: Vec<Worker>,
    pub queue: JobQueue,
    pub completed: Vec<u64>,
}

impl ThreadPool {
    /// Well-formedness: workers carry their construction index as their
    /// stable identifier, and the completion record is exactly what the
    /// delivered tasks recorded.
    pub open spec fn wf(&self) -> bool {
        &&& forall|i: int| 0 <= i < self.workers@.len() ==> (#[trigger] self.workers@[i]).id == i
        &&& self.completed@ == completions(self.queue.delivered@)
    }

    /// Every task ever accepted, in submission order.
    pub open spec fn submitted(&self) -> Seq<Task> {
        self.queue.submitted()
    }

    /// Whether teardown has begun: the producer side of the queue has
    /// been relinquished, so no task can be accepted any more.
    pub open spec fn is_shut_down(&self) -> bool {
        self.queue.is_closed()
    }

    /// Every worker thread has exited, cleanly or by abort.
    pub open spec fn all_exited(&self) -> bool {
        forall|i: int|
            0 <= i < self.workers@.len() ==> !((#[trigger] self.workers@[i]).state is Running)
    }

    /// Every worker thread exited cleanly.
    pub open spec fn all_stopped(&self) -> bool {
        forall|i: int|
            0 <= i < self.workers@.len() ==> (#[trigger] self.workers@[i]).state is Stopped
    }

    /// Every worker is still alive and waiting for work.
    pub open spec fn all_running(&self) -> bool {
        forall|i: int|
            0 <= i < self.workers@.len() ==> (#[trigger] self.workers@[i]).state is Running
    }

    /// Create a new pool. `size` is the number of workers; it must be
    /// positive — a pool of size zero is a programmer error, rejected
    /// before any worker exists, and the embedding program stops on it.
    /// Exactly `size` workers are spawned, numbered 0 up to `size - 1`
    /// in construction order, every one alive before any task can be
    /// submitted, all sharing one open, empty queue.
    pub fn new(size: usize) -> (p: ThreadPool)
        requires
            size >= 1,
        ensures
            p.wf(),
            p.workers@.len() == size,
            forall|i: int| 0 <= i < size ==> (#[trigger] p.workers@[i]).state is Running,
            running_count(p.workers@) == size,
            !p.is_shut_down(),
            p.queue.pending@ == Seq::<Task>::empty(),
            p.queue.delivered@ == Seq::<Task>::empty(),
            p.completed@ == Seq::<u64>::empty(),
    {
        let mut workers: Vec<Worker> = Vec::new();
        let mut id: usize = 0;
        while id < size
            invariant
                id <= size,
                workers@.len() == id,
                forall|i: int| 0 <= i < id ==> (#[trigger] workers@[i]).id == i,
                forall|i: int| 0 <= i < id ==> (#[trigger] workers@[i]).state is Running,
                running_count(workers@) == id,
            decreases size - id,
        {
            let ghost prev = workers@;
            let w = Worker::new(id);
            workers.push(w);
            proof {
                assert(workers@.drop_last() =~= prev);
            }
            id += 1;
        }
        ThreadPool { workers, queue: JobQueue::new(), completed: Vec::new() }
    }

    /// Submit one task. The pool must not have begun shutdown —
    /// submitting afterwards is a programmer error that stops the
    /// embedding program, so it is a precondition here, checked by the
    /// caller. The task joins the back of the queue; nothing waits for
    /// it to run, and nothing else changes.
    pub fn execute(&mut self, t: Task)
        requires
            old(self).wf(),
            !old(self).is_shut_down(),
        ensures
            final(self).wf(),
            !final(self).is_shut_down(),
            final(self).queue.pending@ == old(self).queue.pending@.push(t),
            final(self).queue.delivered@ == old(self).queue.delivered@,
            final(self).submitted() == old(self).submitted().push(t),
            final(self).workers@ == old(self).workers@,
            final(self).completed@ == old(self).completed@,
    {
        match self.queue.send(t) {
            Ok(()) => {},
            Err(_) => {
                proof {
                    assert(false);
                }
            },
        }
    }

    /// Deliver the oldest pending task to the first still-running worker
    /// and run it there to completion. Returns whether anything was done:
    /// nothing happens when no task is pending or no worker is left
    /// running. A completing task appends its identifier to the record; a
    /// task that aborts leaves its worker permanently aborted instead,
    /// recording nothing, and the running count drops by one.
    pub fn dispatch_next(&mut self) -> (progress: bool)
        requires
            old(self).wf(),
        ensures
            final(self).wf(),
            progress == (old(self).queue.pending@.len() > 0 && running_count(old(self).workers@)
                > 0),
            final(self).queue.closed == old(self).queue.closed,
            final(self).submitted() == old(self).submitted(),
            final(self).workers@.len() == old(self).workers@.len(),
            !progress ==> *final(self) == *old(self),
            progress ==> final(self).queue.pending@ == old(self).queue.pending@.drop_first(),
            progress ==> final(self).queue.delivered@ == old(self).queue.delivered@.push(
                old(self).queue.pending@[0],
            ),
            progress && !old(self).queue.pending@[0].aborts ==> final(self).workers@ == old(self).workers@,
            progress && !old(self).queue.pending@[0].aborts ==> final(self).completed@ == old(self).completed@.push(old(self).queue.pending@[0].id),
            progress && old(self).queue.pending@[0].aborts ==> final(self).completed@ == old(self).completed@,
            progress && old(self).queue.pending@[0].aborts ==> exists|j: int|
                0 <= j < old(self).workers@.len() && (#[trigger] old(self).workers@[j]).state
                    is Running && final(self).workers@ == old(self).workers@.update(
                    j,
                    (Worker { id: old(self).workers@[j].id, state: WorkerState::Aborted }),
                ),
            running_count(final(self).workers@) + (if progress
                && old(self).queue.pending@[0].aborts {
                1nat
            } else {
                0nat
            }) == running_count(old(self).workers@),
    {
        if self.queue.pending.len() == 0 {
            return false;
        }
        match first_running_worker(&self.workers) {
            None => {
                proof {
                    lemma_running_count_zero(self.workers@);
                }
                false
            },
            Some(j) => {
                proof {
                    lemma_running_count_positive(self.workers@, j as int);
                }
                match self.queue.receive() {
                    Delivery::Job(t) => {
                        let ghost prev = self.workers@;
                        let mut w = self.workers[j];
                        let completed = w.run_task(t);
                        self.workers[j] = w;
                        if completed {
                            self.completed.push(t.id);
                        }
                        proof {
                            lemma_completions_push(old(self).queue.delivered@, t);
                            if t.aborts {
                                lemma_running_count_update(prev, j as int, w);
                            } else {
                                assert(self.workers@ =~= prev);
                            }
                        }
                        true
                    },
                    Delivery::Closed => {
                        proof {
                            assert(false);
                        }
                        false
                    },
                    Delivery::WouldBlock => {
                        proof {
                            assert(false);
                        }
                        false
                    },
                }
            },
        }
    }

    /// Tear the pool down: relinquish the producer side of the queue —
    /// the only stop signal the workers ever receive — let the remaining
    /// workers drain the pending tasks, then reclaim every worker's
    /// thread in construction order. Blocking and terminal: when this
    /// returns, every worker thread has exited and no task can be
    /// accepted any more. As long as the running workers outnumber the
    /// pending aborting tasks, every pending task is delivered before the
    /// workers see closure. Reclaiming succeeds if and only if every
    /// worker exited cleanly; otherwise the lowest aborted worker is
    /// reported as a terminal error, the one failure teardown can meet.
    pub fn shutdown(&mut self) -> (r: Result<(), ShutdownError>)
        requires
            old(self).wf(),
        ensures
            final(self).wf(),
            final(self).is_shut_down(),
            final(self).all_exited(),
            final(self).workers@.len() == old(self).workers@.len(),
            final(self).submitted() == old(self).submitted(),
            aborting_count(old(self).queue.pending@) < running_count(old(self).workers@)
                ==> final(self).queue.pending@.len() == 0,
            final(self).queue.pending@.len() == 0 ==> final(self).queue.delivered@
                == old(self).submitted(),
            r is Ok <==> final(self).all_stopped(),
            r matches Err(e) ==> e.worker_id < final(self).workers@.len()
                && final(self).workers@[e.worker_id as int].state is Aborted,
            r matches Err(e) ==> forall|k: int|
                0 <= k < e.worker_id ==> !((#[trigger] final(self).workers@[k]).state is Aborted),
            old(self).all_running() && aborting_count(old(self).queue.pending@) == 0
                ==> final(self).all_stopped(),
            aborting_count(old(self).queue.pending@) > 0 && aborting_count(
                old(self).queue.pending@,
            ) < running_count(old(self).workers@) ==> !final(self).all_stopped(),
    {
        let ghost init = *old(self);
        self.queue.close();
        loop
            invariant
                self.wf(),
                self.queue.closed,
                self.workers@.len() == init.workers@.len(),
                self.submitted() == init.submitted(),
                aborting_count(init.queue.pending@) < running_count(init.workers@)
                    ==> aborting_count(self.queue.pending@) < running_count(self.workers@),
                init.all_running() && aborting_count(init.queue.pending@) == 0
                    ==> self.workers@ == init.workers@ && aborting_count(self.queue.pending@)
                    == 0,
                aborting_count(self.queue.pending@) < aborting_count(init.queue.pending@)
                    ==> exists|k: int|
                    0 <= k < self.workers@.len() && (#[trigger] self.workers@[k]).state
                        is Aborted,
            ensures
                self.wf(),
                self.queue.closed,
                self.workers@.len() == init.workers@.len(),
                self.submitted() == init.submitted(),
                aborting_count(init.queue.pending@) < running_count(init.workers@)
                    ==> aborting_count(self.queue.pending@) < running_count(self.workers@),
                init.all_running() && aborting_count(init.queue.pending@) == 0
                    ==> self.workers@ == init.workers@ && aborting_count(self.queue.pending@)
                    == 0,
                aborting_count(self.queue.pending@) < aborting_count(init.queue.pending@)
                    ==> exists|k: int|
                    0 <= k < self.workers@.len() && (#[trigger] self.workers@[k]).state
                        is Aborted,
                self.queue.pending@.len() == 0 || running_count(self.workers@) == 0,
            decreases self.queue.pending@.len(),
        {
            let ghost before = *self;
            let progress = self.dispatch_next();
            if !progress {
                proof {
                    lemma_running_count_zero(self.workers@);
                }
                break;
            }
            proof {
                lemma_aborting_count_drop_first(before.queue.pending@);
                if before.queue.pending@[0].aborts {
                    let j = choose|j: int|
                        0 <= j < before.workers@.len() && (#[trigger] before.workers@[j]).state
                            is Running && self.workers@ == before.workers@.update(
                            j,
                            (Worker { id: before.workers@[j].id, state: WorkerState::Aborted }),
                        );
                    assert(self.workers@[j].state is Aborted);
                }
            }
        }
        proof {
            if aborting_count(init.queue.pending@) < running_count(init.workers@) {
                assert(self.queue.pending@.len() == 0);
            }
        }
        let ghost drained = *self;
        let n: usize = self.workers.len();
        let mut failure: Option<ShutdownError> = None;
        let mut i: usize = 0;
        while i < n
            invariant
                self.wf(),
                self.queue.closed,
                n == self.workers@.len(),
                i <= n,
                self.workers@.len() == init.workers@.len(),
                self.submitted() == init.submitted(),
                self.queue.pending@ == drained.queue.pending@,
                self.queue.delivered@ == drained.queue.delivered@,
                self.queue.pending@.len() == 0 || running_count(self.workers@) == 0,
                forall|k: int|
                    0 <= k < i ==> !((#[trigger] self.workers@[k]).state is Running),
                failure is None <==> (forall|k: int|
                    0 <= k < i ==> (#[trigger] self.workers@[k]).state is Stopped),
                failure matches Some(e) ==> e.worker_id < i
                    && self.workers@[e.worker_id as int].state is Aborted,
                failure matches Some(e) ==> forall|k: int|
                    0 <= k < e.worker_id ==> !((#[trigger] self.workers@[k]).state is Aborted),
                init.all_running() && aborting_count(init.queue.pending@) == 0 ==> (forall|k: int|
                    0 <= k < i ==> (#[trigger] self.workers@[k]).state is Stopped) && (forall|
                    k: int,
                |
                    i <= k < n ==> (#[trigger] self.workers@[k]).state is Running),
                aborting_count(drained.queue.pending@) < aborting_count(init.queue.pending@)
                    ==> exists|k: int|
                    0 <= k < self.workers@.len() && (#[trigger] self.workers@[k]).state
                        is Aborted,
            decreases n - i,
        {
            let st = self.workers[i].state;
            if st == WorkerState::Running {
                proof {
                    lemma_running_count_positive(self.workers@, i as int);
                }
                let d = self.queue.receive();
                proof {
                    assert(d is Closed);
                }
                let ghost prev = self.workers@;
                let mut w = self.workers[i];
                w.acknowledge_closed();
                self.workers[i] = w;
                proof {
                    lemma_running_count_update(prev, i as int, w);
                    lemma_running_count_zero(self.workers@);
                    if aborting_count(drained.queue.pending@) < aborting_count(
                        init.queue.pending@,
                    ) {
                        let k = choose|k: int|
                            0 <= k < prev.len() && (#[trigger] prev[k]).state is Aborted;
                        assert(self.workers@[k].state is Aborted);
                    }
                }
            } else if st == WorkerState::Aborted {
                if failure.is_none() {
                    failure = Some(ShutdownError { worker_id: i });
                }
            }
            i += 1;
        }
        proof {
            if self.queue.pending@.len() == 0 {
                assert(self.queue.delivered@ =~= self.queue.delivered@ + self.queue.pending@);
            }
            if aborting_count(init.queue.pending@) > 0 && aborting_count(init.queue.pending@)
                < running_count(init.workers@) {
                let k = choose|k: int|
                    0 <= k < self.workers@.len() && (#[trigger] self.workers@[k]).state
                        is Aborted;
                assert(!(self.workers@[k].state is Stopped));
            }
        }
        match failure {
            None => Ok(()),
            Some(e) => Err(e),
        }
    }

    /// After a complete drain in which no delivered task aborted, the
    /// completion record is exactly the submitted identifiers, in
    /// submission order: every submitted task was executed exactly once —
    /// none lost, none run twice.
    pub proof fn lemma_exactly_once(&self)
        requires
            self.wf(),
            self.queue.pending@.len() == 0,
            no_aborts(self.submitted()),
        ensures
            self.completed@ == task_ids(self.submitted()),
    {
        assert(self.submitted() =~= self.queue.delivered@);
        lemma_no_aborts_completions(self.queue.delivered@);
    }
}

/// The index of the first worker still running, if any: the model's
/// stand-in for whichever worker wins the race for the queue lock.
fn first_running_worker(workers: &Vec<Worker>) -> (r: Option<usize>)
    ensures
        r matches Some(j) ==> j < workers@.len() && workers@[j as int].state is Running,
        r is None ==> forall|k: int|
            0 <= k < workers@.len() ==> !((#[trigger] workers@[k]).state is Running),
{
    let n: usize = workers.len();
    let mut i: usize = 0;
    while i < n
        invariant
            n == workers@.len(),
            i <= n,
            forall|k: int| 0 <= k < i ==> !((#[trigger] workers@[k]).state is Running),
        decreases n - i,
    {
        if workers[i].state == WorkerState::Running {
            return Some(i);
        }
        i += 1;
    }
    None
}

} // verus!
