//! The queues between the orchestrator and the workers.

use vstd::prelude::*;
use std::collections::VecDeque;
use crate::error::CrablerError;

verus! {

/// What a receive on a queue gave.
pub enum Received<T> {
    /// The oldest item of the queue.
    Item(T),
    /// The queue is open and holds nothing: a receiver would wait.
    Empty,
    /// The queue is closed and holds nothing: nothing will ever come.
    Closed,
}

/// An unbounded first-in, first-out queue that can be closed.
///
/// A send never waits for room. Once the queue is closed it takes no more
/// items; those that it holds can still be received.
pub struct Channels<T> {
    items: VecDeque<T>,
    closed: bool,
}

impl<T> View for Channels<T> {
    type V = Seq<T>;

    /// The items that wait in the queue, oldest first.
    closed spec fn view(&self) -> Seq<T> {
        self.items@
    }
}

impl<T> Channels<T> {
    /// Whether the queue has been closed.
    pub closed spec fn closed(&self) -> bool {
        self.closed
    }

    /// An open queue that holds nothing.
    pub fn new() -> (queue: Self)
        ensures
            queue@ == Seq::<T>::empty(),
            !queue.closed(),
    {
        Channels { items: VecDeque::new(), closed: false }
    }

    /// Puts `item` behind the items that wait. A closed queue refuses it.
    pub fn send(&mut self, item: T) -> (sent: Result<(), CrablerError>)
        ensures
            final(self).closed() == old(self).closed(),
            old(self).closed() ==> sent == Err::<(), CrablerError>(CrablerError::QueueClosed)
                && final(self)@ == old(self)@,
            !old(self).closed() ==> sent is Ok && final(self)@ == old(self)@.push(item),
    {
        if self.closed {
            Err(CrablerError::QueueClosed)
        } else {
            self.items.push_back(item);
            Ok(())
        }
    }

    /// Takes the oldest item, if there is one, and says otherwise whether
    /// more can come.
    pub fn recv(&mut self) -> (received: Received<T>)
        ensures
            final(self).closed() == old(self).closed(),
            old(self)@.len() > 0 ==> received == Received::Item(old(self)@.first())
                && final(self)@ == old(self)@.drop_first(),
            old(self)@.len() == 0 ==> final(self)@ == old(self)@,
            old(self)@.len() == 0 && !old(self).closed() ==> received is Empty,
            old(self)@.len() == 0 && old(self).closed() ==> received is Closed,
    {
        match self.items.pop_front() {
            Some(item) => Received::Item(item),
            None => if self.closed {
                Received::Closed
            } else {
                Received::Empty
            },
        }
    }

    /// Closes the queue. Closing a closed queue changes nothing.
    pub fn close(&mut self)
        ensures
            final(self).closed(),
            final(self)@ == old(self)@,
            old(self).closed() ==> *final(self) == *old(self),
    {
        self.closed = true;
    }

    /// The oldest item, if there is one, left where it is.
    pub fn peek(&self) -> (oldest: Option<&T>)
        ensures
            self@.len() == 0 ==> oldest is None,
            self@.len() > 0 ==> oldest == Some(&self@.first()),
    {
        if self.items.len() == 0 {
            None
        } else {
            Some(&self.items[0])
        }
    }

    /// A queue holds no more items than a machine can count.
    pub proof fn lemma_len_fits(&self)
        ensures
            self@.len() <= usize::MAX,
    {
        vstd::std_specs::vecdeque::axiom_spec_len(&self.items);
    }

    /// Whether the queue has been closed.
    pub fn is_closed(&self) -> (closed: bool)
        ensures
            closed == self.closed(),
    {
        self.closed
    }

    /// How many items wait in the queue.
    pub fn len(&self) -> (len: usize)
        ensures
            len == self@.len(),
    {
        self.items.len()
    }

    /// Whether no item waits in the queue.
    pub fn is_empty(&self) -> (empty: bool)
        ensures
            empty == (self@.len() == 0),
    {
        self.items.len() == 0
    }
}

} // verus!
