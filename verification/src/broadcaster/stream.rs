//! Broadcasting everything that a stream yields.

use crate::broadcaster::{Broadcast, Broadcaster};
use crate::channel::receiver::Receiver;
use vstd::prelude::*;

verus! {

/// The payloads of the first `n` items of `items`, all of which are `Ok`.
pub open spec fn payloads<T, E>(items: Seq<Result<T, E>>, n: int) -> Seq<T> {
    Seq::new(n as nat, |i: int| items[i]->Ok_0)
}

/// Broadcasts the items of `stream`, in order, until the stream ends or a
/// broadcast fails. The item whose broadcast failed is lost.
pub fn broadcast_from_stream<B: Broadcast, S: Receiver<Item = B::Item>>(
    broadcaster: &mut B,
    stream: &mut S,
)
    requires
        old(broadcaster).wf(),
    ensures
        final(broadcaster).wf(),
        old(broadcaster).later(final(broadcaster)),
        old(broadcaster).cancelled() ==> final(broadcaster).cancelled(),
        ({
            let items = old(stream).pending();
            let n = final(broadcaster).history().len() - old(broadcaster).history().len();
            &&& 0 <= n <= items.len()
            &&& final(broadcaster).history() == old(broadcaster).history() + items.take(n)
            &&& if n < items.len() {
                final(broadcaster).cancelled() && final(stream).pending() == items.skip(n + 1)
            } else {
                final(stream).pending().len() == 0
            }
        }),
{
    let ghost items = stream.pending();
    let ghost history = broadcaster.history();
    let ghost mut n: int = 0;
    proof {
        assert(history + items.take(0) =~= history);
        assert(items.skip(0) =~= items);
        broadcaster.lemma_later_reflexive();
    }
    loop
        invariant
            broadcaster.wf(),
            old(broadcaster).later(broadcaster),
            old(broadcaster).cancelled() ==> broadcaster.cancelled(),
            items == old(stream).pending(),
            history == old(broadcaster).history(),
            0 <= n <= items.len(),
            broadcaster.history() == history + items.take(n),
            stream.pending() == items.skip(n),
        decreases stream.pending().len(),
    {
        match stream.recv() {
            Some(item) => {
                proof {
                    assert(item == items[n]);
                    assert(stream.pending() =~= items.skip(n + 1));
                    assert(history + items.take(n + 1) =~= (history + items.take(n)).push(item));
                }
                let ghost before = *broadcaster;
                let sent = broadcaster.broadcast(item);
                proof {
                    old(broadcaster).lemma_later_transitive(&before, broadcaster);
                }
                if let Err(_) = sent {
                    return ;
                }
                proof {
                    n = n + 1;
                }
            },
            None => {
                return ;
            },
        }
    }
}

/// Broadcasts the payloads of the items of `stream`, in order, until the
/// stream ends, yields an error, or a broadcast fails. An error of the stream
/// is the error of the whole; a failed broadcast ends the work without error,
/// and the item whose broadcast failed is lost.
pub fn broadcast_from_result_stream<B: Broadcast, E, S: Receiver<Item = Result<B::Item, E>>>(
    broadcaster: &mut B,
    stream: &mut S,
) -> (result: Result<(), E>)
    requires
        old(broadcaster).wf(),
    ensures
        final(broadcaster).wf(),
        old(broadcaster).later(final(broadcaster)),
        old(broadcaster).cancelled() ==> final(broadcaster).cancelled(),
        ({
            let items = old(stream).pending();
            let n = final(broadcaster).history().len() - old(broadcaster).history().len();
            &&& 0 <= n <= items.len()
            &&& forall|i: int| 0 <= i < n ==> (#[trigger] items[i]) is Ok
            &&& final(broadcaster).history() == old(broadcaster).history() + payloads(items, n)
            &&& if n < items.len() {
                &&& final(stream).pending() == items.skip(n + 1)
                &&& match items[n] {
                    Ok(_) => final(broadcaster).cancelled() && result is Ok,
                    Err(error) => result == Err::<(), E>(error),
                }
            } else {
                final(stream).pending().len() == 0 && result is Ok
            }
        }),
{
    let ghost items = stream.pending();
    let ghost history = broadcaster.history();
    let ghost mut n: int = 0;
    proof {
        assert(history + payloads(items, 0) =~= history);
        assert(items.skip(0) =~= items);
        broadcaster.lemma_later_reflexive();
    }
    loop
        invariant
            broadcaster.wf(),
            old(broadcaster).later(broadcaster),
            old(broadcaster).cancelled() ==> broadcaster.cancelled(),
            items == old(stream).pending(),
            history == old(broadcaster).history(),
            0 <= n <= items.len(),
            forall|i: int| 0 <= i < n ==> (#[trigger] items[i]) is Ok,
            broadcaster.history() == history + payloads(items, n),
            stream.pending() == items.skip(n),
        decreases stream.pending().len(),
    {
        match stream.recv() {
            Some(Ok(item)) => {
                proof {
                    assert(items[n] == Ok::<B::Item, E>(item));
                    assert(stream.pending() =~= items.skip(n + 1));
                    assert(history + payloads(items, n + 1) =~= (history + payloads(items, n)).push(
                        item,
                    ));
                }
                let ghost before = *broadcaster;
                let sent = broadcaster.broadcast(item);
                proof {
                    old(broadcaster).lemma_later_transitive(&before, broadcaster);
                }
                if let Err(_) = sent {
                    return Ok(());
                }
                proof {
                    n = n + 1;
                }
            },
            Some(Err(error)) => {
                proof {
                    assert(items[n] == Err::<B::Item, E>(error));
                    assert(stream.pending() =~= items.skip(n + 1));
                }
                return Err(error);
            },
            None => {
                return Ok(());
            },
        }
    }
}

impl<T: Clone> Broadcaster<T> {
    /// Broadcasts the items of `stream`, in order, for as long as every live
    /// subscriber has room. Nobody drains the queues meanwhile, so the work
    /// ends, besides at the end of the stream, before the first item for
    /// which some live subscriber has no room; that item stays in the
    /// stream. Where the token is tripped, the first item is taken from the
    /// stream and lost, and nothing is delivered.
    pub fn broadcast_from_stream<S: Receiver<Item = T>>(&mut self, stream: &mut S)
        requires
            old(self).wf(),
        ensures
            final(self).wf(),
            ({
                let items = old(stream).pending();
                let n = final(self)@.history.len() - old(self)@.history.len();
                &&& 0 <= n <= items.len()
                &&& final(self)@ == old(self)@.broadcast_all(items.take(n))
                &&& final(self)@.history == old(self)@.history + items.take(n)
                &&& if n == items.len() {
                    final(stream).pending().len() == 0
                } else if old(self)@.cancelled {
                    n == 0 && final(stream).pending() == items.skip(1)
                } else {
                    !final(self)@.ready() && final(stream).pending() == items.skip(n)
                }
            }),
    {
        let ghost items = stream.pending();
        let ghost mut n: int = 0;
        proof {
            assert(items.take(0) =~= Seq::<T>::empty());
            assert(self@.history + items.take(0) =~= self@.history);
            assert(items.skip(0) =~= items);
        }
        loop
            invariant
                self.wf(),
                items == old(stream).pending(),
                0 <= n <= items.len(),
                self@ == old(self)@.broadcast_all(items.take(n)),
                self@.history == old(self)@.history + items.take(n),
                self@.cancelled == old(self)@.cancelled,
                self@.cancelled ==> n == 0,
                stream.pending() == items.skip(n),
            decreases stream.pending().len(),
        {
            let cancelled = self.get_cancellation_token().is_cancelled();
            if !cancelled && !self.is_ready() {
                return ;
            }
            match stream.recv() {
                Some(item) => {
                    proof {
                        assert(item == items[n]);
                        assert(stream.pending() =~= items.skip(n + 1));
                        assert(items.take(n + 1).drop_last() =~= items.take(n));
                        assert(self@.history + seq![item] =~= self@.history.push(item));
                        assert(old(self)@.history + items.take(n + 1) =~= (old(self)@.history
                            + items.take(n)).push(item));
                    }
                    if let Err(_) = self.broadcast(item) {
                        return ;
                    }
                    proof {
                        n = n + 1;
                    }
                },
                None => {
                    return ;
                },
            }
        }
    }

    /// Broadcasts the payloads of the items of `stream`, in order, for as long
    /// as every live subscriber has room, and up to the first error of the
    /// stream, which is the error of the whole. The work ends without error
    /// at the end of the stream, before the first item for which some live
    /// subscriber has no room, and where the token is tripped; in that last
    /// case the first item is taken from the stream and lost.
    pub fn broadcast_from_result_stream<E, S: Receiver<Item = Result<T, E>>>(
        &mut self,
        stream: &mut S,
    ) -> (result: Result<(), E>)
        requires
            old(self).wf(),
        ensures
            final(self).wf(),
            ({
                let items = old(stream).pending();
                let n = final(self)@.history.len() - old(self)@.history.len();
                &&& 0 <= n <= items.len()
                &&& forall|i: int| 0 <= i < n ==> (#[trigger] items[i]) is Ok
                &&& final(self)@ == old(self)@.broadcast_all(payloads(items, n))
                &&& final(self)@.history == old(self)@.history + payloads(items, n)
                &&& if n == items.len() {
                    final(stream).pending().len() == 0 && result is Ok
                } else if !old(self)@.cancelled && !final(self)@.ready() {
                    final(stream).pending() == items.skip(n) && result is Ok
                } else {
                    &&& final(stream).pending() == items.skip(n + 1)
                    &&& match items[n] {
                        Ok(_) => old(self)@.cancelled && n == 0 && result is Ok,
                        Err(error) => result == Err::<(), E>(error),
                    }
                }
            }),
    {
        let ghost items = stream.pending();
        let ghost mut n: int = 0;
        proof {
            assert(payloads(items, 0) =~= Seq::<T>::empty());
            assert(self@.history + payloads(items, 0) =~= self@.history);
            assert(items.skip(0) =~= items);
        }
        loop
            invariant
                self.wf(),
                items == old(stream).pending(),
                0 <= n <= items.len(),
                forall|i: int| 0 <= i < n ==> (#[trigger] items[i]) is Ok,
                self@ == old(self)@.broadcast_all(payloads(items, n)),
                self@.history == old(self)@.history + payloads(items, n),
                self@.cancelled == old(self)@.cancelled,
                self@.cancelled ==> n == 0,
                stream.pending() == items.skip(n),
            decreases stream.pending().len(),
        {
            let cancelled = self.get_cancellation_token().is_cancelled();
            if !cancelled && !self.is_ready() {
                return Ok(());
            }
            match stream.recv() {
                Some(Ok(item)) => {
                    proof {
                        assert(items[n] == Ok::<T, E>(item));
                        assert(stream.pending() =~= items.skip(n + 1));
                        assert(payloads(items, n + 1).drop_last() =~= payloads(items, n));
                        assert(payloads(items, n + 1).last() == item);
                        assert(old(self)@.history + payloads(items, n + 1) =~= (old(self)@.history
                            + payloads(items, n)).push(item));
                    }
                    if let Err(_) = self.broadcast(item) {
                        return Ok(());
                    }
                    proof {
                        n = n + 1;
                    }
                },
                Some(Err(error)) => {
                    proof {
                        assert(items[n] == Err::<T, E>(error));
                        assert(stream.pending() =~= items.skip(n + 1));
                    }
                    return Err(error);
                },
                None => {
                    return Ok(());
                },
            }
        }
    }
}

} // verus!
