//! What holds of every broadcaster, proved over the model.

use crate::broadcaster::model::{Next, Op, State, Subscription};
use vstd::prelude::*;

verus! {

impl<T> State<T> {
    /// The indices in the history of the items that the receiver of
    /// subscription `i` was handed in the course of the operations `ops`, in
    /// the order in which it got them.
    pub open spec fn observed(self, ops: Seq<Op<T>>, i: int) -> Seq<nat>
        decreases ops.len(),
    {
        if ops.len() == 0 {
            Seq::empty()
        } else {
            let before = self.run(ops.drop_last());
            let seen = self.observed(ops.drop_last(), i);
            match (ops.last(), before.next(i)) {
                (Op::Recv(j), Next::Item(at)) => if j == i {
                    seen.push(at)
                } else {
                    seen
                },
                _ => seen,
            }
        }
    }

    /// The state after the receiver of subscription `i` has asked `n` times for
    /// its next item.
    pub open spec fn drain(self, i: int, n: nat) -> State<T>
        decreases n,
    {
        if n == 0 {
            self
        } else {
            self.drain(i, (n - 1) as nat).recv(i)
        }
    }

    /// A broadcaster without subscribers is in order.
    pub proof fn lemma_init_inv(buffer_size: nat)
        ensures
            State::<T>::init(buffer_size).inv(),
    {
    }

    /// No operation brings a broadcaster out of order.
    pub proof fn lemma_step_inv(self, op: Op<T>)
        requires
            self.inv(),
        ensures
            self.step(op).inv(),
    {
        let after = self.step(op);
        assert forall|i: int| after.has(i) implies {
            let s = #[trigger] after.subscriptions[i];
            &&& s.received <= s.delivered
            &&& s.start + s.delivered <= after.history.len()
            &&& s.waiting() <= after.buffer_size
            &&& s.live() ==> s.start + s.delivered == after.history.len()
        } by {
            if i < self.subscriptions.len() {
                let s = self.subscriptions[i];
                assert(s.received <= s.delivered);
            }
        }
    }

    /// Letting go of dead subscriptions does not bring a broadcaster out of
    /// order.
    pub proof fn lemma_prune_inv(self)
        requires
            self.inv(),
        ensures
            self.prune().inv(),
    {
        let after = self.prune();
        assert forall|i: int| after.has(i) implies {
            let s = #[trigger] after.subscriptions[i];
            &&& s.received <= s.delivered
            &&& s.start + s.delivered <= after.history.len()
            &&& s.waiting() <= after.buffer_size
            &&& s.live() ==> s.start + s.delivered == after.history.len()
        } by {
            let s = self.subscriptions[i];
            assert(s.received <= s.delivered);
        }
    }

    /// No sequence of operations brings a broadcaster out of order.
    pub proof fn lemma_run_inv(self, ops: Seq<Op<T>>)
        requires
            self.inv(),
        ensures
            self.run(ops).inv(),
        decreases ops.len(),
    {
        if ops.len() > 0 {
            self.lemma_run_inv(ops.drop_last());
            self.run(ops.drop_last()).lemma_step_inv(ops.last());
        }
    }

    /// Subscriptions stay. Whatever is done to a broadcaster, a subscription
    /// is never taken back, the place in the history at which it began never
    /// moves, its receiver is never handed fewer items than it had, and the
    /// room of the queues stays what it was.
    pub proof fn law_subscriptions_stay(self, ops: Seq<Op<T>>, i: int)
        requires
            self.has(i),
        ensures
            self.run(ops).has(i),
            self.run(ops).subscriptions[i].start == self.subscriptions[i].start,
            self.run(ops).subscriptions[i].received >= self.subscriptions[i].received,
            self.run(ops).buffer_size == self.buffer_size,
        decreases ops.len(),
    {
        if ops.len() > 0 {
            self.law_subscriptions_stay(ops.drop_last(), i);
        }
    }

    /// Ordering. Whatever is done to a broadcaster, each receiver is handed
    /// the items that were broadcast since it subscribed, in the order of
    /// broadcasting, none twice and none left out: the `k`-th item it gets is
    /// the one that stands in the history `k` places after the point at which
    /// it subscribed.
    pub proof fn law_ordering(buffer_size: nat, ops: Seq<Op<T>>, i: int)
        ensures
            ({
                let start = State::<T>::init(buffer_size);
                let end = start.run(ops);
                let seen = start.observed(ops, i);
                &&& !end.has(i) ==> seen.len() == 0
                &&& end.has(i) ==> {
                    &&& seen.len() == end.subscriptions[i].received
                    &&& forall|k: int|
                        0 <= k < seen.len() ==> {
                            &&& #[trigger] seen[k] == end.subscriptions[i].start + k
                            &&& seen[k] < end.history.len()
                        }
                }
            }),
        decreases ops.len(),
    {
        let start = State::<T>::init(buffer_size);
        Self::lemma_init_inv(buffer_size);
        start.lemma_run_inv(ops);
        if ops.len() > 0 {
            let before = start.run(ops.drop_last());
            Self::law_ordering(buffer_size, ops.drop_last(), i);
            start.lemma_run_inv(ops.drop_last());
            if before.has(i) {
                let s = before.subscriptions[i];
                assert(s.received <= s.delivered);
            }
        }
    }

    /// All or none, for one broadcast. A broadcast that is delivered puts the
    /// item into the queue of every live subscriber; one that is not changes
    /// nothing at all.
    pub proof fn law_broadcast_all_or_none(self, item: T)
        requires
            self.inv(),
        ensures
            self.broadcast(item).inv(),
            self.outcome() is Delivered ==> {
                &&& self.broadcast(item).history == self.history.push(item)
                &&& forall|i: int|
                    self.has(i) && (#[trigger] self.subscriptions[i]).live()
                        ==> self.broadcast(item).subscriptions[i].delivered
                        == self.subscriptions[i].delivered + 1
            },
            !(self.outcome() is Delivered) ==> self.broadcast(item) == self,
    {
        self.lemma_step_inv(Op::Broadcast(item));
    }

    /// All or none, for the whole stream. A subscriber that is alive when the
    /// stream ends was sent every item broadcast since it subscribed. After
    /// the end it still gets, in order, the items that wait in its queue, up
    /// to the last one of the history, and only then learns that the stream
    /// has ended.
    pub proof fn law_all_or_none(self, i: int)
        requires
            self.inv(),
            self.has(i),
            self.subscriptions[i].live(),
        ensures
            ({
                let ended = self.close();
                let sub = ended.subscriptions[i];
                let left = sub.waiting();
                &&& sub.start + sub.delivered == self.history.len()
                &&& forall|k: nat|
                    k < left ==> #[trigger] ended.drain(i, k).next(i) == Next::Item(sub.cursor() + k)
                &&& ended.drain(i, left).next(i) == Next::Closed
                &&& ended.drain(i, left).subscriptions[i].cursor() == self.history.len()
            }),
    {
        let ended = self.close();
        let sub = ended.subscriptions[i];
        assert(self.subscriptions[i].received <= self.subscriptions[i].delivered);
        assert forall|k: nat| k <= sub.waiting() implies {
            &&& ended.drain(i, k).has(i)
            &&& #[trigger] ended.drain(i, k).subscriptions[i] == Subscription {
                received: sub.received + k,
                ..sub
            }
        } by {
            ended.lemma_drain(i, k);
        }
    }

    /// After `n` of the waiting items were taken, the subscription stands `n`
    /// places further.
    proof fn lemma_drain(self, i: int, n: nat)
        requires
            self.has(i),
            self.subscriptions[i].received <= self.subscriptions[i].delivered,
            n <= self.subscriptions[i].waiting(),
        ensures
            self.drain(i, n).has(i),
            self.drain(i, n).subscriptions[i] == (Subscription {
                received: self.subscriptions[i].received + n,
                ..self.subscriptions[i]
            }),
        decreases n,
    {
        if n > 0 {
            self.lemma_drain(i, (n - 1) as nat);
            let before = self.drain(i, (n - 1) as nat);
            assert(before.subscriptions[i].waiting() > 0);
            assert(before.next(i) is Item);
            assert(self.drain(i, n) == before.recv(i));
        }
    }

    /// Cancellation is for good: once the token is tripped it stays tripped,
    /// and the history grows no more.
    pub proof fn law_cancellation_is_final(self, ops: Seq<Op<T>>)
        requires
            self.cancelled,
        ensures
            self.run(ops).cancelled,
            self.run(ops).history == self.history,
        decreases ops.len(),
    {
        if ops.len() > 0 {
            self.law_cancellation_is_final(ops.drop_last());
        }
    }

    /// The bound on what is seen after a cancellation. Let a live subscriber
    /// `c` trip the token when the last item it was handed stands at place
    /// `k` of the history. Then, whatever happens afterwards, no subscriber is
    /// ever handed an item that stands beyond place `k + buffer_size`: the
    /// producer was ahead of `c` by no more than what the queue of `c` holds.
    /// With queues of room 1 that is `k + 1`.
    pub proof fn law_cancellation_bound(self, ops: Seq<Op<T>>, c: int, j: int)
        requires
            self.inv(),
            self.cancelled,
            self.has(c),
            self.subscriptions[c].live(),
            self.subscriptions[c].received > 0,
            self.run(ops).has(j),
        ensures
            ({
                let k = self.subscriptions[c].cursor() - 1;
                let end = self.run(ops);
                &&& end.history.len() <= k + 1 + self.buffer_size
                &&& end.subscriptions[j].cursor() <= end.history.len()
                &&& end.subscriptions[j].received > 0 ==> end.subscriptions[j].cursor() - 1 <= k
                    + self.buffer_size
            }),
    {
        self.law_cancellation_is_final(ops);
        self.lemma_run_inv(ops);
        let end = self.run(ops);
        let s = self.subscriptions[c];
        assert(s.start + s.delivered == self.history.len());
        assert(s.waiting() <= self.buffer_size);
        let t = end.subscriptions[j];
        assert(t.received <= t.delivered);
        assert(t.start + t.delivered <= end.history.len());
    }

    /// The bound on what is seen after a cancellation, for queues of room 1
    /// or none. Let a live subscriber trip the token when the last item it
    /// was handed stands at place `k` of the history. Then no subscriber is
    /// ever handed an item that stands beyond place `k + 1`.
    pub proof fn law_cancellation_bound_of_one(self, ops: Seq<Op<T>>, c: int, j: int)
        requires
            self.inv(),
            self.buffer_size <= 1,
            self.cancelled,
            self.has(c),
            self.subscriptions[c].live(),
            self.subscriptions[c].received > 0,
            self.run(ops).has(j),
            self.run(ops).subscriptions[j].received > 0,
        ensures
            self.run(ops).subscriptions[j].cursor() - 1 <= (self.subscriptions[c].cursor() - 1) + 1,
    {
        self.law_cancellation_bound(ops, c, j);
    }
}

} // verus!
