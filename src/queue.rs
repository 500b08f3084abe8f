//! The queue of pending tasks that the workers of a run drain.

use crate::task::TaskType;
use std::collections::VecDeque;
use vstd::prelude::*;

verus! {

/// A first-in first-out queue of pending tasks, loaded once with a batch and
/// then drained from the front.
///
/// Beside the pending tasks it keeps, as ghost state, the tasks already taken
/// from the front, in the order they were taken.
pub struct TaskQueue {
    items: VecDeque<TaskType>,
    taken: Ghost<Seq<TaskType>>,
}

impl View for TaskQueue {
    type V = Seq<TaskType>;

    closed spec fn view(&self) -> Seq<TaskType> {
        self.items@
    }
}

impl TaskQueue {
    /// The tasks popped so far, in the order of the pops.
    pub closed spec fn taken(&self) -> Seq<TaskType> {
        self.taken@
    }

    /// Every task that was ever put in the queue, in order: those popped, then
    /// those pending.
    pub open spec fn loaded(&self) -> Seq<TaskType> {
        self.taken() + self@
    }

    /// An empty queue.
    pub fn new() -> (q: TaskQueue)
        ensures
            q@ == Seq::<TaskType>::empty(),
            q.taken() == Seq::<TaskType>::empty(),
    {
        TaskQueue { items: VecDeque::new(), taken: Ghost(Seq::empty()) }
    }

    /// A queue that holds the tasks of `batch`, in order.
    pub fn from_batch(batch: &[TaskType]) -> (q: TaskQueue)
        ensures
            q@ == batch@,
            q.taken() == Seq::<TaskType>::empty(),
            q.loaded() == batch@,
    {
        let mut q = TaskQueue::new();
        let mut i: usize = 0;
        while i < batch.len()
            invariant
                i <= batch@.len(),
                q@ == batch@.subrange(0, i as int),
                q.taken() == Seq::<TaskType>::empty(),
            decreases batch@.len() - i,
        {
            q.push_back(batch[i]);
            i = i + 1;
            assert(q@ =~= batch@.subrange(0, i as int));
        }
        assert(q@ =~= batch@);
        assert(q.loaded() =~= batch@);
        q
    }

    /// Adds `task` at the back.
    pub fn push_back(&mut self, task: TaskType)
        ensures
            final(self)@ == old(self)@.push(task),
            final(self).taken() == old(self).taken(),
    {
        self.items.push_back(task);
    }

    /// Takes the task at the front, or `None` where the queue is empty. What
    /// was ever loaded stays the same; a taken task joins the taken ones.
    pub fn pop_front(&mut self) -> (r: Option<TaskType>)
        ensures
            old(self)@.len() == 0 ==> {
                &&& r is None
                &&& final(self)@ == old(self)@
                &&& final(self).taken() == old(self).taken()
            },
            old(self)@.len() > 0 ==> {
                &&& r == Some(old(self)@[0])
                &&& final(self)@ == old(self)@.drop_first()
                &&& final(self).taken() == old(self).taken().push(old(self)@[0])
            },
            final(self).loaded() == old(self).loaded(),
    {
        let r = self.items.pop_front();
        proof {
            if old(self)@.len() > 0 {
                assert(self@ =~= old(self)@.drop_first());
                self.taken@ = self.taken@.push(old(self)@[0]);
                assert(self.loaded() =~= old(self).loaded());
            }
        }
        r
    }

    /// The number of pending tasks.
    pub fn len(&self) -> (r: usize)
        ensures
            r == self@.len(),
    {
        self.items.len()
    }

    /// Whether no task is pending.
    pub fn is_empty(&self) -> (r: bool)
        ensures
            r == (self@.len() == 0),
    {
        self.items.len() == 0
    }
}

/// Popping a queue until it is empty hands out what was loaded into it, each
/// task once and in the order of loading: once no task is pending, the tasks
/// taken are exactly those loaded (for a queue built by `from_batch`, the batch).
pub proof fn lemma_drained_queue_gave_all(q: TaskQueue)
    requires
        q@.len() == 0,
    ensures
        q.taken() == q.loaded(),
{
    assert(q.loaded() =~= q.taken());
}

} // verus!
