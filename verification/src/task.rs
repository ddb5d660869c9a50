use vstd::prelude::*;

verus! {

/// A single-invocation unit of work, reduced to the data the pool's logic
/// reads: a caller-chosen identifier, recorded when the task runs to
/// completion, and whether running the task aborts the thread executing it.
///
/// A task is executed at most once, by exactly one worker, and never
/// re-queued; the pool neither inspects nor retries a task that aborts.
#[derive(Clone, Copy, PartialEq, Eq, Structural, Debug)]
pub struct Task {
    pub id: u64,
    pub aborts: bool,
}

/// The identifiers of the tasks of `s`, in order.
pub open spec fn task_ids(s: Seq<Task>) -> Seq<u64> {
    s.map_values(|t: Task| t.id)
}

/// Whether no task of `s` aborts the worker that runs it.
pub open spec fn no_aborts(s: Seq<Task>) -> bool {
    forall|i: int| 0 <= i < s.len() ==> !(#[trigger] s[i]).aborts
}

/// The identifiers of the tasks of `s` that run to completion, in order:
/// a task that aborts its worker is cut short and records nothing.
pub open spec fn completions(s: Seq<Task>) -> Seq<u64>
    decreases s.len(),
{
    if s.len() == 0 {
        Seq::empty()
    } else if s.last().aborts {
        completions(s.drop_last())
    } else {
        completions(s.drop_last()).push(s.last().id)
    }
}

/// How many tasks of `s` abort the worker that runs them.
pub open spec fn aborting_count(s: Seq<Task>) -> nat
    decreases s.len(),
{
    if s.len() == 0 {
        0
    } else {
        aborting_count(s.drop_last()) + (if s.last().aborts {
            1nat
        } else {
            0nat
        })
    }
}

/// Appending one task extends the completion record by its identifier
/// exactly when the task does not abort.
pub proof fn lemma_completions_push(s: Seq<Task>, t: Task)
    ensures
        completions(s.push(t)) == if t.aborts {
            completions(s)
        } else {
            completions(s).push(t.id)
        },
{
    assert(s.push(t).drop_last() =~= s);
}

/// Taking the first task off the front splits the aborting count.
pub proof fn lemma_aborting_count_drop_first(s: Seq<Task>)
    requires
        s.len() > 0,
    ensures
        aborting_count(s) == aborting_count(s.drop_first()) + (if s[0].aborts {
            1nat
        } else {
            0nat
        }),
    decreases s.len(),
{
    if s.len() == 1 {
        assert(s.drop_last() =~= s.drop_first());
        assert(s.drop_first().len() == 0);
    } else {
        lemma_aborting_count_drop_first(s.drop_last());
        assert(s.drop_last().drop_first() =~= s.drop_first().drop_last());
        assert(s.drop_first().last() == s.last());
        assert(s.drop_last()[0] == s[0]);
    }
}

/// When no task of `s` aborts, every task records its completion, so the
/// completion record is the identifiers of `s` themselves, in order.
pub proof fn lemma_no_aborts_completions(s: Seq<Task>)
    requires
        no_aborts(s),
    ensures
        completions(s) == task_ids(s),
    decreases s.len(),
{
    if s.len() == 0 {
        assert(completions(s) =~= task_ids(s));
    } else {
        assert(!s.last().aborts);
        lemma_no_aborts_completions(s.drop_last());
        assert(task_ids(s.drop_last()).push(s.last().id) =~= task_ids(s));
    }
}

} // verus!
