//! The ready queue of a simple FIFO scheduler.
use vstd::prelude::*;
use std::collections::VecDeque;

verus! {

/// The tasks that are ready to run, in the order they became ready; the
/// first to become ready is the first to run.
///
/// `T` is the kernel's handle to a task.
pub struct TaskManager<T> {
    ready_queue: VecDeque<T>,
}

/// `fetch` took `old` to `new` and answered `r`: the front task is taken
/// out, or nothing happens when no task waits.
pub open spec fn fetched<T>(old: Seq<T>, new: Seq<T>, r: Option<T>) -> bool {
    &&& r == if old.len() == 0 { None } else { Some(old[0]) }
    &&& new == if old.len() == 0 { old } else { old.drop_first() }
}

impl<T> TaskManager<T> {
    /// The tasks waiting, first ready first.
    pub closed spec fn queue(&self) -> Seq<T> {
        self.ready_queue@
    }

    /// An empty ready queue.
    pub fn new() -> (r: Self)
        ensures
            r.queue() == Seq::<T>::empty(),
    {
        TaskManager { ready_queue: VecDeque::new() }
    }

    /// Puts `task` at the end of the ready queue.
    pub fn add(&mut self, task: T)
        ensures
            final(self).queue() == old(self).queue().push(task),
    {
        self.ready_queue.push_back(task);
    }

    /// The number of tasks waiting.
    pub fn len(&self) -> (r: usize)
        ensures
            r == self.queue().len(),
    {
        self.ready_queue.len()
    }

    /// Takes the front task out of the ready queue; `None` when no task
    /// waits.
    pub fn fetch(&mut self) -> (r: Option<T>)
        ensures
            fetched(old(self).queue(), final(self).queue(), r),
    {
        let r = self.ready_queue.pop_front();
        proof {
            if old(self).queue().len() > 0 {
                assert(old(self).queue().subrange(1, old(self).queue().len() as int) =~= old(self).queue().drop_first());
            }
        }
        r
    }
}

/// Puts `task` at the end of `manager`'s ready queue.
pub fn add_task<T>(manager: &mut TaskManager<T>, task: T)
    ensures
        final(manager).queue() == old(manager).queue().push(task),
{
    manager.add(task);
}

/// Takes the front task out of `manager`'s ready queue.
pub fn fetch_task<T>(manager: &mut TaskManager<T>) -> (r: Option<T>)
    ensures
        fetched(old(manager).queue(), final(manager).queue(), r),
{
    manager.fetch()
}

/// The queue is first in, first out: a task added behind the waiting ones
/// comes out after them, and a task added to an empty queue is the next one
/// taken out, leaving the queue empty again.
pub proof fn lemma_fetch_is_fifo<T>(queue: Seq<T>, task: T, after: Seq<T>, r: Option<T>)
    requires
        fetched(queue.push(task), after, r),
    ensures
        queue.len() == 0 ==> r == Some(task) && after == queue,
        queue.len() > 0 ==> r == Some(queue[0]) && after == queue.drop_first().push(task),
{
    if queue.len() > 0 {
        assert(queue.push(task).drop_first() =~= queue.drop_first().push(task));
    } else {
        assert(queue.push(task).drop_first() =~= queue);
    }
}

/// Adding tasks one after another and then taking them out gives them back
/// in the order they were added.
pub proof fn lemma_fetch_order<T>(a: T, b: T, q1: Seq<T>, r1: Option<T>, q2: Seq<T>, r2: Option<T>)
    requires
        fetched(Seq::<T>::empty().push(a).push(b), q1, r1),
        fetched(q1, q2, r2),
    ensures
        r1 == Some(a),
        r2 == Some(b),
        q2 == Seq::<T>::empty(),
{
    assert(Seq::<T>::empty().push(a).push(b).drop_first() =~= seq![b]);
    assert(seq![b].drop_first() =~= Seq::<T>::empty());
}

/// What is taken out was the front of the queue, and everything else keeps
/// waiting in the same order: the waiting tasks before are the one taken
/// followed by those after.
pub proof fn lemma_fetch_keeps_others<T>(old: Seq<T>, new: Seq<T>, r: Option<T>)
    requires
        fetched(old, new, r),
    ensures
        r is Some <==> old.len() > 0,
        r is Some ==> old == seq![r->0] + new,
        r is None ==> new == old,
{
    if old.len() > 0 {
        assert(old =~= seq![old[0]] + old.drop_first());
    }
}

} // verus!
