//! The bounded queue between the resolver and the workers.
//!
//! The queue holds at most `capacity` items, hands them out in the order in
//! which they came, and can be closed. A push on a full queue and a pop on an
//! empty one do not wait: they report that the caller has to, which is how the
//! resolver is kept from running ahead of the workers.

use vstd::prelude::*;
use std::collections::VecDeque;

verus! {

/// The content of a [`WorkQueue`].
pub struct WorkQueueView<T> {
    /// The waiting items, oldest first.
    pub items: Seq<T>,
    /// The most items that may wait at once.
    pub capacity: nat,
    /// Whether the producer has signalled the end of its input.
    pub closed: bool,
}

impl<T> WorkQueueView<T> {
    /// The depth of the queue never passes its capacity.
    pub open spec fn inv(self) -> bool {
        self.items.len() <= self.capacity
    }

    pub open spec fn is_full(self) -> bool {
        self.items.len() >= self.capacity
    }
}

/// A bounded first-in first-out queue that can be closed.
pub struct WorkQueue<T> {
    items: VecDeque<T>,
    capacity: usize,
    closed: bool,
}

/// Why a push did not store its item. The item comes back with the reason.
pub enum PushError<T> {
    /// The queue is at capacity: the producer has to wait for a pop.
    Full(T),
    /// The queue has been closed and takes no more items.
    Closed(T),
}

/// What a pop found.
pub enum Popped<T> {
    /// The oldest waiting item.
    Item(T),
    /// Nothing waits, but more may come: the consumer has to wait.
    Empty,
    /// Nothing waits and nothing will come: the end of the stream.
    EndOfStream,
}

impl<T> View for WorkQueue<T> {
    type V = WorkQueueView<T>;

    closed spec fn view(&self) -> WorkQueueView<T> {
        WorkQueueView {
            items: self.items@,
            capacity: self.capacity as nat,
            closed: self.closed,
        }
    }
}

impl<T> WorkQueue<T> {
    /// Whether the queue is in a state that its operations produce.
    pub open spec fn wf(&self) -> bool {
        self@.inv()
    }

    /// An open, empty queue for at most `capacity` items.
    pub fn new(capacity: usize) -> (queue: WorkQueue<T>)
        ensures
            queue.wf(),
            queue@ == (WorkQueueView::<T> {
                items: Seq::empty(),
                capacity: capacity as nat,
                closed: false,
            }),
    {
        WorkQueue { items: VecDeque::new(), capacity, closed: false }
    }

    /// How many items wait.
    pub fn len(&self) -> (len: usize)
        requires
            self.wf(),
        ensures
            len == self@.items.len(),
            len <= self@.capacity,
    {
        self.items.len()
    }

    pub fn capacity(&self) -> (capacity: usize)
        ensures
            capacity == self@.capacity,
    {
        self.capacity
    }

    pub fn is_empty(&self) -> (empty: bool)
        requires
            self.wf(),
        ensures
            empty == (self@.items.len() == 0),
    {
        self.items.len() == 0
    }

    pub fn is_full(&self) -> (full: bool)
        requires
            self.wf(),
        ensures
            full == self@.is_full(),
    {
        self.items.len() >= self.capacity
    }

    pub fn is_closed(&self) -> (closed: bool)
        ensures
            closed == self@.closed,
    {
        self.closed
    }

    /// Appends `item`, unless the queue is closed or full.
    pub fn push(&mut self, item: T) -> (pushed: Result<(), PushError<T>>)
        requires
            old(self).wf(),
        ensures
            final(self).wf(),
            final(self)@.capacity == old(self)@.capacity,
            final(self)@.closed == old(self)@.closed,
            match pushed {
                Ok(()) => {
                    &&& !old(self)@.closed
                    &&& !old(self)@.is_full()
                    &&& final(self)@.items == old(self)@.items.push(item)
                },
                Err(PushError::Closed(back)) => {
                    &&& old(self)@.closed
                    &&& back == item
                    &&& final(self)@.items == old(self)@.items
                },
                Err(PushError::Full(back)) => {
                    &&& !old(self)@.closed
                    &&& old(self)@.is_full()
                    &&& back == item
                    &&& final(self)@.items == old(self)@.items
                },
            },
    {
        if self.closed {
            Err(PushError::Closed(item))
        } else if self.items.len() >= self.capacity {
            Err(PushError::Full(item))
        } else {
            self.items.push_back(item);
            Ok(())
        }
    }

    /// Removes the oldest item. On an empty queue it says whether more may
    /// come.
    pub fn pop(&mut self) -> (popped: Popped<T>)
        requires
            old(self).wf(),
        ensures
            final(self).wf(),
            final(self)@.capacity == old(self)@.capacity,
            final(self)@.closed == old(self)@.closed,
            match popped {
                Popped::Item(item) => {
                    &&& old(self)@.items.len() > 0
                    &&& item == old(self)@.items[0]
                    &&& final(self)@.items == old(self)@.items.drop_first()
                },
                Popped::Empty => {
                    &&& old(self)@.items.len() == 0
                    &&& !old(self)@.closed
                    &&& final(self)@.items == old(self)@.items
                },
                Popped::EndOfStream => {
                    &&& old(self)@.items.len() == 0
                    &&& old(self)@.closed
                    &&& final(self)@.items == old(self)@.items
                },
            },
    {
        match self.items.pop_front() {
            Some(item) => Popped::Item(item),
            None => {
                if self.closed {
                    Popped::EndOfStream
                } else {
                    Popped::Empty
                }
            },
        }
    }

    /// Signals the end of the input. What waits can still be popped; nothing
    /// more can be pushed.
    pub fn close(&mut self)
        requires
            old(self).wf(),
        ensures
            final(self).wf(),
            final(self)@ == (WorkQueueView { closed: true, ..old(self)@ }),
    {
        self.closed = true;
    }
}

/// At no time does a queue hold more items than its capacity allows.
pub proof fn lemma_depth_within_capacity<T>(queue: WorkQueue<T>)
    requires
        queue.wf(),
    ensures
        queue@.items.len() <= queue@.capacity,
{
}

} // verus!
