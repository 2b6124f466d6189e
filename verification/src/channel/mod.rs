//! The transport abstraction: a bounded point-to-point queue seen from its two ends.

use crate::channel::receiver::NoOpReceiver;
use crate::channel::sender::NoOpSender;
use vstd::prelude::*;

pub mod receiver;
pub mod sender;

verus! {

/// A maker of queues.
pub trait Channel {
    type Item;

    type Sender: sender::Sender<Item = Self::Item>;

    type Receiver: receiver::Receiver<Item = Self::Item>;

    /// A new queue with room for `buffer_size` items, as its two ends.
    fn create_channel(&self, buffer_size: usize) -> (Self::Sender, Self::Receiver);
}

/// The maker of queues that carry nothing: the sender always fails and the
/// receiver is closed from the start.
pub struct NoOpChannel<T> {
    item: core::marker::PhantomData<T>,
}

impl<T> NoOpChannel<T> {
    /// The maker of queues that carry nothing.
    pub fn new() -> (channel: Self) {
        NoOpChannel { item: core::marker::PhantomData }
    }
}

impl<T> Channel for NoOpChannel<T> {
    type Item = T;

    type Sender = NoOpSender<T>;

    type Receiver = NoOpReceiver<T>;

    fn create_channel(&self, _buffer_size: usize) -> (ends: (NoOpSender<T>, NoOpReceiver<T>)) {
        (NoOpSender::new(), NoOpReceiver::new())
    }
}

} // verus!
