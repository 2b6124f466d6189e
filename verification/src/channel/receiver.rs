//! The consumer end of a transport.

use vstd::prelude::*;

verus! {

/// A run of items that are still to come.
pub type Pending<T> = Seq<T>;

/// The consumer end of a point-to-point queue: a stream of items that ends.
pub trait Receiver {
    type Item;

    /// The items that are still to come, in the order in which they come.
    spec fn pending(&self) -> Pending<Self::Item>;

    /// Waits for the next item; `None` once the queue is closed, and from
    /// then on.
    fn recv(&mut self) -> (item: Option<Self::Item>)
        ensures
            match item {
                Some(item) => {
                    &&& old(self).pending().len() > 0
                    &&& item == old(self).pending()[0]
                    &&& final(self).pending() == old(self).pending().drop_first()
                },
                None => {
                    &&& old(self).pending().len() == 0
                    &&& final(self).pending().len() == 0
                },
            },
    ;
}

/// A receiver with no sender: it is closed from the start.
pub struct NoOpReceiver<T> {
    pub item: core::marker::PhantomData<T>,
}

impl<T> NoOpReceiver<T> {
    /// A receiver that is closed.
    pub fn new() -> (rx: Self) {
        NoOpReceiver { item: core::marker::PhantomData }
    }
}

impl<T> Receiver for NoOpReceiver<T> {
    type Item = T;

    open spec fn pending(&self) -> Seq<T> {
        Seq::empty()
    }

    fn recv(&mut self) -> (item: Option<T>) {
        None
    }
}

/// Everything that `rx` still yields, in the order in which it yields it.
pub fn into_stream<Rx: Receiver>(rx: Rx) -> (items: Vec<Rx::Item>)
    ensures
        items@ == rx.pending(),
{
    let mut stream = rx;
    let mut items: Vec<Rx::Item> = Vec::new();
    loop
        invariant
            items@ + stream.pending() == rx.pending(),
        decreases stream.pending().len(),
    {
        let ghost before = stream.pending();
        match stream.recv() {
            Some(item) => {
                items.push(item);
                proof {
                    assert(items@ + stream.pending() =~= items@.drop_last() + before);
                }
            },
            None => {
                proof {
                    assert(items@ + before =~= items@);
                }
                return items;
            },
        }
    }
}

} // verus!
