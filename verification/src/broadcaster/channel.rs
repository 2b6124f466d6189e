//! The bounded queue behind one subscription.
//!
//! The queue is split the way a channel is, into a producer end and a consumer
//! end, but under single ownership: the [`Sender`] holds the buffer, and the
//! [`Receiver`] is the token that names it. Items leave in the order in which
//! they were accepted.
//!
//! The two ends of a channel that is shared between threads hold one state
//! between them: what is done at one end shows at the other, and a contract
//! of one end alone cannot say so. The broadcaster therefore owns its queues
//! whole, and what it delivers to whom is stated and proved. Channels that
//! are shared serve where nothing is claimed of delivery, on the egress
//! side, through [`crate::channel::sender::Sender`].

use std::collections::VecDeque;
use vstd::prelude::*;

verus! {

/// How one send ended.
#[derive(Clone, Copy, Debug, PartialEq, Eq, Structural)]
pub enum SendResult {
    /// The item is in the queue.
    Success,
    /// The receiver is gone; the item was dropped.
    Failure,
}

/// What a receiver gets when it asks for its next item.
#[derive(Debug)]
pub enum RecvResult<T> {
    /// The oldest item that waited.
    Item(T),
    /// Nothing waits, but more may come.
    Pending,
    /// Nothing waits and nothing will come: the stream has ended.
    Closed,
}

/// The producer end of one bounded queue, together with the items that wait in it.
pub struct Sender<T> {
    buffer: VecDeque<T>,
    capacity: usize,
    connected: bool,
    sent: Ghost<nat>,
}

/// The consumer end of one bounded queue: the token that names the queue among
/// those of its broadcaster.
#[derive(Debug)]
pub struct Receiver<T> {
    index: usize,
    item: core::marker::PhantomData<T>,
}

/// A queue of room `buffer_size`, as its two ends. The consumer end carries
/// `index`, the place of the queue among those of its broadcaster.
pub(crate) fn new<T>(buffer_size: usize, index: usize) -> (ends: (Sender<T>, Receiver<T>))
    ensures
        ends.0.wf(),
        ends.0.queue() == Seq::<T>::empty(),
        ends.0.capacity() == buffer_size,
        ends.0.connected(),
        ends.0.sent() == 0,
        ends.1.index() == index,
{
    (
        Sender { buffer: VecDeque::new(), capacity: buffer_size, connected: true, sent: Ghost(0) },
        Receiver { index, item: core::marker::PhantomData },
    )
}

impl<T> Sender<T> {
    /// The items that wait in the queue, oldest first.
    pub closed spec fn queue(&self) -> Seq<T> {
        self.buffer@
    }

    /// The number of items the queue has room for.
    pub closed spec fn capacity(&self) -> nat {
        self.capacity as nat
    }

    /// Whether the consumer end is still alive.
    pub closed spec fn connected(&self) -> bool {
        self.connected
    }

    /// The number of items accepted since the queue was made.
    pub closed spec fn sent(&self) -> nat {
        self.sent@
    }

    /// Whether the queue has no room left.
    pub open spec fn full(&self) -> bool {
        self.queue().len() >= self.capacity()
    }

    /// The queue holds no more than it has room for, nothing that was never
    /// sent, and nothing once its consumer end is gone.
    pub closed spec fn wf(&self) -> bool {
        &&& self.buffer@.len() <= self.capacity
        &&& self.buffer@.len() <= self.sent@
        &&& !self.connected ==> self.buffer@.len() == 0
    }

    /// A well-formed queue never holds more than its room.
    pub proof fn lemma_bounded(&self)
        requires
            self.wf(),
        ensures
            self.queue().len() <= self.capacity(),
            self.queue().len() <= self.sent(),
            !self.connected() ==> self.queue().len() == 0,
    {
    }

    /// Whether the consumer end is still alive.
    pub fn is_connected(&self) -> (alive: bool)
        ensures
            alive == self.connected(),
    {
        self.connected
    }

    /// Whether the queue has no room left.
    pub fn is_full(&self) -> (full: bool)
        ensures
            full == self.full(),
    {
        self.buffer.len() >= self.capacity
    }

    /// The number of items that wait in the queue.
    pub fn len(&self) -> (len: usize)
        ensures
            len == self.queue().len(),
    {
        self.buffer.len()
    }

    /// Offers `value` to the queue.
    ///
    /// With the consumer end gone the value is dropped and the send has failed.
    /// With room in the queue the value is appended. Without room nothing
    /// changes and the value comes back, for the caller to offer again.
    pub fn send(&mut self, value: T) -> (result: Result<SendResult, T>)
        requires
            old(self).wf(),
        ensures
            final(self).wf(),
            final(self).capacity() == old(self).capacity(),
            final(self).connected() == old(self).connected(),
            match result {
                Ok(SendResult::Success) => {
                    &&& old(self).connected()
                    &&& !old(self).full()
                    &&& final(self).queue() == old(self).queue().push(value)
                    &&& final(self).sent() == old(self).sent() + 1
                },
                Ok(SendResult::Failure) => {
                    &&& !old(self).connected()
                    &&& final(self).queue() == old(self).queue()
                    &&& final(self).sent() == old(self).sent()
                },
                Err(back) => {
                    &&& old(self).connected()
                    &&& old(self).full()
                    &&& back == value
                    &&& final(self).queue() == old(self).queue()
                    &&& final(self).sent() == old(self).sent()
                },
            },
    {
        if !self.connected {
            Ok(SendResult::Failure)
        } else if self.buffer.len() >= self.capacity {
            Err(value)
        } else {
            self.buffer.push_back(value);
            proof {
                self.sent@ = self.sent@ + 1;
            }
            Ok(SendResult::Success)
        }
    }

    /// Takes the oldest waiting item out of the queue, if there is one.
    pub fn take(&mut self) -> (item: Option<T>)
        requires
            old(self).wf(),
        ensures
            final(self).wf(),
            final(self).capacity() == old(self).capacity(),
            final(self).connected() == old(self).connected(),
            final(self).sent() == old(self).sent(),
            match item {
                Some(first) => {
                    &&& old(self).queue().len() > 0
                    &&& first == old(self).queue()[0]
                    &&& final(self).queue() == old(self).queue().drop_first()
                },
                None => {
                    &&& old(self).queue().len() == 0
                    &&& final(self).queue() == old(self).queue()
                },
            },
    {
        self.buffer.pop_front()
    }

    /// Records that the consumer end is gone: what still waited is dropped, and
    /// every later send fails.
    pub fn disconnect(&mut self)
        requires
            old(self).wf(),
        ensures
            final(self).wf(),
            !final(self).connected(),
            final(self).queue() == Seq::<T>::empty(),
            final(self).capacity() == old(self).capacity(),
            final(self).sent() == old(self).sent(),
    {
        self.connected = false;
        self.buffer.clear();
    }
}

impl<T> Receiver<T> {
    /// The place of this receiver's queue among those of its broadcaster.
    pub closed spec fn index(&self) -> nat {
        self.index as nat
    }

    /// The place of this receiver's queue among those of its broadcaster.
    pub fn position(&self) -> (index: usize)
        ensures
            index == self.index(),
    {
        self.index
    }
}

} // verus!
