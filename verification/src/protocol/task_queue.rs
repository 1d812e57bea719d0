//! A first-in first-out queue that numbers the tasks it receives.
use std::collections::VecDeque;
use vstd::prelude::*;

verus! {

/// A queue of tasks, each with the number it was given when it was pushed.
#[derive(Debug)]
pub struct TaskQueue<T> {
    queue: VecDeque<(usize, T)>,
    next_id: usize,
}

impl<T> TaskQueue<T> {
    /// The queued tasks, most recently pushed first.
    pub closed spec fn tasks(&self) -> Seq<(usize, T)> {
        self.queue@
    }

    /// The number the next pushed task receives.
    pub closed spec fn spec_next_id(&self) -> usize {
        self.next_id
    }

    /// Creates an empty queue whose first task receives number zero.
    pub fn new() -> (res: Self)
        ensures
            res.tasks() == Seq::<(usize, T)>::empty(),
            res.spec_next_id() == 0,
    {
        Self { queue: VecDeque::new(), next_id: 0 }
    }

    /// Enqueues a task and returns the number it received.
    pub fn push(&mut self, item: T) -> (res: usize)
        requires
            old(self).spec_next_id() < usize::MAX,
        ensures
            res == old(self).spec_next_id(),
            final(self).spec_next_id() == old(self).spec_next_id() + 1,
            final(self).tasks() == seq![(res, item)] + old(self).tasks(),
    {
        let id = self.next_id;
        self.next_id = self.next_id + 1;
        self.queue.push_front((id, item));
        assert(self.queue@ =~= seq![(id, item)] + old(self).queue@);
        id
    }

    /// Dequeues the task that has waited longest, if any.
    pub fn pop(&mut self) -> (res: Option<(usize, T)>)
        ensures
            final(self).spec_next_id() == old(self).spec_next_id(),
            old(self).tasks().len() == 0 ==> res is None && final(self).tasks() == old(self).tasks(),
            old(self).tasks().len() > 0 ==> res == Some(old(self).tasks().last())
                && final(self).tasks() == old(self).tasks().drop_last(),
    {
        self.queue.pop_back()
    }
}

/// The tasks held after pushing `items`, in order, onto an empty queue.
pub open spec fn spec_pushed<T>(items: Seq<(usize, T)>) -> Seq<(usize, T)>
    decreases items.len(),
{
    if items.len() == 0 {
        Seq::empty()
    } else {
        seq![items.last()] + spec_pushed(items.drop_last())
    }
}

/// First in, first out: after pushing tasks onto an empty queue, the task that `pop`
/// takes (the last one held) is the first pushed, and what remains is the queue of the
/// tasks pushed after it.
pub proof fn lemma_fifo<T>(items: Seq<(usize, T)>)
    requires
        items.len() > 0,
    ensures
        spec_pushed(items).last() == items[0],
        spec_pushed(items).drop_last() == spec_pushed(items.drop_first()),
    decreases items.len(),
{
    if items.len() == 1 {
        assert(spec_pushed(items.drop_last()) =~= Seq::<(usize, T)>::empty());
        assert(spec_pushed(items) =~= seq![items[0]]);
        assert(items.drop_first() =~= Seq::<(usize, T)>::empty());
        assert(spec_pushed(items).drop_last() =~= Seq::<(usize, T)>::empty());
    } else {
        lemma_fifo(items.drop_last());
        assert(items.drop_last().drop_first() =~= items.drop_first().drop_last());
        assert(items.drop_first().last() == items.last());
        assert(spec_pushed(items).drop_last() =~= seq![items.last()] + spec_pushed(
            items.drop_last(),
        ).drop_last());
    }
}

} // verus!
