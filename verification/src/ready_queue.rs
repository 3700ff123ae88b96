//! The executor's ready queue: a bounded, first-in first-out list of tasks
//! that are eligible to be polled now. A full queue refuses a new entry and
//! hands it back — back-pressure, never a silent drop.

use vstd::prelude::*;
use std::collections::VecDeque;

verus! {

broadcast use vstd::std_specs::vecdeque::group_vec_dequeue_axioms;

/// A first-in first-out queue that never holds more than `capacity` entries.
pub struct ReadyQueue<T> {
    items: VecDeque<T>,
    capacity: usize,
}

impl<T> ReadyQueue<T> {
    /// The entries, oldest first.
    pub closed spec fn contents(&self) -> Seq<T> {
        self.items@
    }

    /// The bound the queue was created with.
    pub closed spec fn cap(&self) -> nat {
        self.capacity as nat
    }

    /// The queue never exceeds its bound.
    pub open spec fn wf(&self) -> bool {
        self.contents().len() <= self.cap()
    }

    /// An empty queue with the given bound.
    pub fn new(capacity: usize) -> (q: ReadyQueue<T>)
        ensures
            q.contents() == Seq::<T>::empty(),
            q.cap() == capacity,
            q.wf(),
    {
        ReadyQueue { items: VecDeque::new(), capacity }
    }

    /// How many entries are waiting.
    pub fn len(&self) -> (n: usize)
        ensures
            n == self.contents().len(),
    {
        self.items.len()
    }

    /// Append an entry at the back, unless the queue is at its bound; a
    /// refused entry comes back to the caller unchanged, so that the caller
    /// can block and retry rather than lose it.
    pub fn try_push(&mut self, value: T) -> (r: Result<(), T>)
        requires
            old(self).wf(),
        ensures
            final(self).wf(),
            final(self).cap() == old(self).cap(),
            old(self).contents().len() < old(self).cap() ==> {
                &&& r is Ok
                &&& final(self).contents() == old(self).contents().push(value)
            },
            old(self).contents().len() >= old(self).cap() ==> {
                &&& r == Result::<(), T>::Err(value)
                &&& final(self).contents() == old(self).contents()
            },
    {
        if self.items.len() < self.capacity {
            self.items.push_back(value);
            Ok(())
        } else {
            Err(value)
        }
    }

    /// Remove and return the oldest entry, or nothing if the queue is empty.
    pub fn pop(&mut self) -> (r: Option<T>)
        requires
            old(self).wf(),
        ensures
            final(self).wf(),
            final(self).cap() == old(self).cap(),
            old(self).contents().len() == 0 ==> {
                &&& r is None
                &&& final(self).contents() == old(self).contents()
            },
            old(self).contents().len() > 0 ==> {
                &&& r == Some(old(self).contents()[0])
                &&& final(self).contents() == old(self).contents().drop_first()
            },
    {
        self.items.pop_front()
    }
}

} // verus!
