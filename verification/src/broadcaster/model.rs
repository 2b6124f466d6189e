//! The broadcaster as a state machine over plain values.
//!
//! A queue never holds anything but a run of consecutive items of the history, so
//! the model keeps counts in place of queue contents: a subscription made when
//! `start` items had been broadcast, with `delivered` items put into its queue
//! and `received` of them taken out, holds the items of the history from
//! `start + received` up to `start + delivered`.

use vstd::prelude::*;

verus! {

/// One subscription, as the broadcaster sees it.
pub struct Subscription {
    /// How many items had been broadcast when the subscription was made.
    pub start: nat,
    /// How many items were put into its queue.
    pub delivered: nat,
    /// How many items its receiver took out of the queue.
    pub received: nat,
    /// Whether its receiver is still alive.
    pub connected: bool,
    /// Whether the broadcaster still holds its producer end.
    pub attached: bool,
}

/// The whole broadcaster.
pub struct State<T> {
    /// The room of every queue.
    pub buffer_size: nat,
    /// The items broadcast so far, oldest first.
    pub history: Seq<T>,
    /// Whether the cancellation token was tripped.
    pub cancelled: bool,
    /// Every subscription ever made, in the order of subscribing.
    pub subscriptions: Seq<Subscription>,
}

/// What a receiver gets when it asks for its next item.
pub enum Next {
    /// The item of the history at this index.
    Item(nat),
    /// Nothing waits, but more may come.
    Pending,
    /// Nothing waits and nothing will come.
    Closed,
}

/// How a broadcast ends.
pub enum Outcome {
    /// Every live subscriber has the item in its queue.
    Delivered,
    /// The token was tripped: nobody has the item.
    Cancelled,
    /// Some live subscriber has no room: nobody has the item.
    Blocked,
}

/// One operation on a broadcaster.
pub enum Op<T> {
    /// A new subscription is made.
    Subscribe,
    /// An item is broadcast.
    Broadcast(T),
    /// An item is broadcast, and dead subscriptions are let go.
    BroadcastAndPrune(T),
    /// The receiver of a subscription asks for its next item.
    Recv(int),
    /// The receiver of a subscription goes away.
    DropReceiver(int),
    /// The cancellation token is tripped.
    Cancel,
    /// The stream ends.
    Close,
}

impl Subscription {
    /// A subscription made when `start` items had been broadcast.
    pub open spec fn fresh(start: nat) -> Subscription {
        Subscription { start, delivered: 0, received: 0, connected: true, attached: true }
    }

    /// Whether a broadcast still reaches this subscription.
    pub open spec fn live(self) -> bool {
        self.attached && self.connected
    }

    /// How many items wait in the queue.
    pub open spec fn waiting(self) -> nat {
        if self.connected {
            (self.delivered - self.received) as nat
        } else {
            0
        }
    }

    /// The index in the history of the next item that the receiver would get.
    pub open spec fn cursor(self) -> nat {
        self.start + self.received
    }

    /// The subscription after one more item was put into its queue, if a
    /// broadcast reaches it.
    pub open spec fn offer(self) -> Subscription {
        if self.live() {
            Subscription { delivered: self.delivered + 1, ..self }
        } else {
            self
        }
    }

    /// The subscription without its producer end, if its receiver is gone.
    pub open spec fn pruned(self) -> Subscription {
        if self.connected {
            self
        } else {
            Subscription { attached: false, ..self }
        }
    }
}

impl<T> State<T> {
    /// A broadcaster that nobody has subscribed to.
    pub open spec fn init(buffer_size: nat) -> State<T> {
        State { buffer_size, history: Seq::empty(), cancelled: false, subscriptions: Seq::empty() }
    }

    /// Whether `i` names a subscription.
    pub open spec fn has(self, i: int) -> bool {
        0 <= i < self.subscriptions.len()
    }

    /// Whether every live subscriber has room for one more item.
    pub open spec fn ready(self) -> bool {
        forall|i: int|
            self.has(i) && (#[trigger] self.subscriptions[i]).live() ==> self.subscriptions[i].waiting()
                < self.buffer_size
    }

    /// What a broadcast does in this state.
    pub open spec fn outcome(self) -> Outcome {
        if self.cancelled {
            Outcome::Cancelled
        } else if !self.ready() {
            Outcome::Blocked
        } else {
            Outcome::Delivered
        }
    }

    /// One more subscription, which begins where the history ends.
    pub open spec fn subscribe(self) -> State<T> {
        State {
            subscriptions: self.subscriptions.push(Subscription::fresh(self.history.len())),
            ..self
        }
    }

    /// Cancellation is looked at first; then the item goes to every live
    /// subscriber or, if one of them has no room, to none.
    pub open spec fn broadcast(self, item: T) -> State<T> {
        if self.outcome() is Delivered {
            State {
                history: self.history.push(item),
                subscriptions: self.subscriptions.map_values(|s: Subscription| s.offer()),
                ..self
            }
        } else {
            self
        }
    }

    /// The state after the items `items` were broadcast one after the other.
    pub open spec fn broadcast_all(self, items: Seq<T>) -> State<T>
        decreases items.len(),
    {
        if items.len() == 0 {
            self
        } else {
            self.broadcast_all(items.drop_last()).broadcast(items.last())
        }
    }

    /// Lets go of the producer end of every subscription whose receiver is gone.
    pub open spec fn prune(self) -> State<T> {
        State { subscriptions: self.subscriptions.map_values(|s: Subscription| s.pruned()), ..self }
    }

    /// A broadcast and, where it was delivered, a pruning.
    pub open spec fn broadcast_and_prune(self, item: T) -> State<T> {
        if self.outcome() is Delivered {
            self.broadcast(item).prune()
        } else {
            self
        }
    }

    /// What the receiver of subscription `i` gets next.
    pub open spec fn next(self, i: int) -> Next {
        if !self.has(i) {
            Next::Closed
        } else if self.subscriptions[i].waiting() > 0 {
            Next::Item(self.subscriptions[i].cursor())
        } else if self.subscriptions[i].attached && self.subscriptions[i].connected {
            Next::Pending
        } else {
            Next::Closed
        }
    }

    /// The receiver of subscription `i` takes its next item, if one waits.
    pub open spec fn recv(self, i: int) -> State<T> {
        if self.next(i) is Item {
            let s = self.subscriptions[i];
            State {
                subscriptions: self.subscriptions.update(
                    i,
                    Subscription { received: s.received + 1, ..s },
                ),
                ..self
            }
        } else {
            self
        }
    }

    /// The receiver of subscription `i` goes away; what waited for it is dropped.
    pub open spec fn drop_receiver(self, i: int) -> State<T> {
        if self.has(i) {
            State {
                subscriptions: self.subscriptions.update(
                    i,
                    Subscription { connected: false, ..self.subscriptions[i] },
                ),
                ..self
            }
        } else {
            self
        }
    }

    /// The cancellation token is tripped.
    pub open spec fn cancel(self) -> State<T> {
        State { cancelled: true, ..self }
    }

    /// The broadcaster lets go of every producer end: the stream has ended.
    pub open spec fn close(self) -> State<T> {
        State {
            subscriptions: self.subscriptions.map_values(
                |s: Subscription| Subscription { attached: false, ..s },
            ),
            ..self
        }
    }

    /// The state after the operation `op`.
    pub open spec fn step(self, op: Op<T>) -> State<T> {
        match op {
            Op::Subscribe => self.subscribe(),
            Op::Broadcast(item) => self.broadcast(item),
            Op::BroadcastAndPrune(item) => self.broadcast_and_prune(item),
            Op::Recv(i) => self.recv(i),
            Op::DropReceiver(i) => self.drop_receiver(i),
            Op::Cancel => self.cancel(),
            Op::Close => self.close(),
        }
    }

    /// The state after the operations `ops`, in order.
    pub open spec fn run(self, ops: Seq<Op<T>>) -> State<T>
        decreases ops.len(),
    {
        if ops.len() == 0 {
            self
        } else {
            self.run(ops.drop_last()).step(ops.last())
        }
    }

    /// What holds of every broadcaster, whatever was done to it.
    pub open spec fn inv(self) -> bool {
        forall|i: int|
            self.has(i) ==> {
                let s = #[trigger] self.subscriptions[i];
                &&& s.received <= s.delivered
                &&& s.start + s.delivered <= self.history.len()
                &&& s.waiting() <= self.buffer_size
                &&& s.live() ==> s.start + s.delivered == self.history.len()
            }
    }
}

} // verus!
