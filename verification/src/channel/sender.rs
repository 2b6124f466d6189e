//! The producer end of a transport.

use vstd::prelude::*;

verus! {

/// How one send ended.
pub enum Result {
    /// The item was accepted.
    Success,
    /// The receiver is gone; the item was dropped.
    Failure,
}

/// The producer end of a point-to-point queue.
///
/// What a send gives rests with the queue and with its other end, so the
/// library claims nothing of it. A sender may wait for room; its receiver
/// then has to be drained elsewhere, since the library calls `send` and
/// goes on only when it returns.
pub trait Sender {
    type Item;

    /// Offers `item` to the queue and reports whether it was accepted.
    fn send(&self, item: Self::Item) -> Result;
}

/// A sender with no receiver: every send fails.
pub struct NoOpSender<T> {
    item: core::marker::PhantomData<T>,
}

impl<T> NoOpSender<T> {
    /// A sender whose every send fails.
    pub fn new() -> (tx: Self) {
        NoOpSender { item: core::marker::PhantomData }
    }
}

impl<T> Sender for NoOpSender<T> {
    type Item = T;

    fn send(&self, _item: T) -> (result: Result)
        ensures
            result is Failure,
    {
        Result::Failure
    }
}

} // verus!
