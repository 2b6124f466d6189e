//! The broadcaster: one ordered stream of items, handed to every subscriber.
//!
//! A [`Broadcaster`] holds one bounded queue for each subscription. A broadcast
//! puts a clone of the item into the queue of every live subscriber, or into
//! none: when the cancellation token was tripped, and when some live subscriber
//! has no room. Receivers take their items out through the broadcaster, each in
//! the order of broadcasting.
//!
//! What a broadcaster does is stated over [`model::State`], its view.

use crate::broadcaster::channel::{Receiver, RecvResult, SendResult, Sender};
use crate::broadcaster::model::{Next, Op, Outcome, State, Subscription};
use vstd::prelude::*;

pub mod channel;
pub mod laws;
pub mod model;
pub mod stream;

verus! {

/// A signal that, once tripped, stays tripped.
#[derive(Debug)]
pub struct CancellationToken {
    cancelled: bool,
}

impl CancellationToken {
    /// Whether the token was tripped.
    pub closed spec fn cancelled(&self) -> bool {
        self.cancelled
    }

    /// A token that was not tripped.
    pub fn new() -> (token: Self)
        ensures
            !token.cancelled(),
    {
        CancellationToken { cancelled: false }
    }

    /// Trips the token.
    pub fn cancel(&mut self)
        ensures
            final(self).cancelled(),
    {
        self.cancelled = true;
    }

    /// Whether the token was tripped.
    pub fn is_cancelled(&self) -> (cancelled: bool)
        ensures
            cancelled == self.cancelled(),
    {
        self.cancelled
    }
}

impl Clone for CancellationToken {
    /// A copy of the token, tripped if and only if this one is. A copy
    /// stands for the signal as it is when the copy is made. Tripping the
    /// copy trips the signal once the copy is shown to the broadcaster
    /// ([`Broadcaster::observe`]); a running attempt does that after every
    /// step of a consumer.
    fn clone(&self) -> (token: Self)
        ensures
            token.cancelled() == self.cancelled(),
    {
        CancellationToken { cancelled: self.cancelled }
    }
}

impl Default for CancellationToken {
    fn default() -> (token: Self)
        ensures
            !token.cancelled(),
    {
        CancellationToken::new()
    }
}

/// Why a broadcast delivered nothing.
#[derive(Debug, PartialEq, Eq, Structural)]
pub enum BroadcastError {
    /// The cancellation token was tripped.
    ReceiverFailure,
}

/// What a source pushes its items into: a broadcast in progress, seen from the
/// producing side. A broadcast waits for room where it must, so it ends in one
/// of two ways only.
pub trait Broadcast {
    type Item;

    /// The broadcast is one that its maker set up and its own methods changed.
    spec fn wf(&self) -> bool;

    /// The items delivered so far, oldest first.
    spec fn history(&self) -> Seq<Self::Item>;

    /// Whether the cancellation token was tripped.
    spec fn cancelled(&self) -> bool;

    /// Whether `after` is a later state of this same broadcast: what is fixed
    /// when a broadcast is set up is the same in both.
    spec fn later(&self, after: &Self) -> bool;

    /// Every state is a later state of itself.
    proof fn lemma_later_reflexive(&self)
        ensures
            self.later(self),
    ;

    /// A later state of a later state is a later state.
    proof fn lemma_later_transitive(&self, then: &Self, after: &Self)
        requires
            self.later(then),
            then.later(after),
        ensures
            self.later(after),
    ;

    /// Hands `item` to every live subscriber, or to none: once the cancellation
    /// token is tripped every broadcast fails, and a broadcast fails only for
    /// that reason.
    fn broadcast(&mut self, item: Self::Item) -> (result: Result<(), BroadcastError>)
        requires
            old(self).wf(),
        ensures
            final(self).wf(),
            old(self).later(final(self)),
            old(self).cancelled() ==> final(self).cancelled(),
            old(self).cancelled() ==> result is Err,
            match result {
                Ok(_) => final(self).history() == old(self).history().push(item),
                Err(_) => final(self).cancelled() && final(self).history() == old(self).history(),
            },
    ;
}

/// What a source can see of a broadcast that it pushes into.
pub struct Seen<T> {
    /// The items delivered so far, oldest first.
    pub history: Seq<T>,
    /// Whether the cancellation token was tripped.
    pub cancelled: bool,
}

/// What can be seen of `broadcast`.
pub open spec fn seen<B: Broadcast>(broadcast: B) -> Seen<B::Item> {
    Seen { history: broadcast.history(), cancelled: broadcast.cancelled() }
}

/// One subscription: its queue, and where it stands in the history.
struct Slot<T> {
    sender: Sender<T>,
    attached: bool,
    start: Ghost<nat>,
    received: Ghost<nat>,
}

impl<T> Slot<T> {
    spec fn view(&self) -> Subscription {
        Subscription {
            start: self.start@,
            delivered: self.sender.sent(),
            received: self.received@,
            connected: self.sender.connected(),
            attached: self.attached,
        }
    }
}

/// A collection of subscriptions that all get the same items.
pub struct Broadcaster<T> {
    buffer_size: usize,
    senders: Vec<Slot<T>>,
    cancellation_token: CancellationToken,
    history: Ghost<Seq<T>>,
}

impl<T> View for Broadcaster<T> {
    type V = State<T>;

    closed spec fn view(&self) -> State<T> {
        State {
            buffer_size: self.buffer_size as nat,
            history: self.history@,
            cancelled: self.cancellation_token.cancelled(),
            subscriptions: Seq::new(self.senders@.len(), |i: int| self.senders@[i].view()),
        }
    }
}

impl<T: Clone> Broadcaster<T> {
    /// What the queue of subscription `i` holds is what the model says it holds.
    spec fn slot_wf(&self, i: int) -> bool {
        let slot = self.senders@[i];
        &&& slot.sender.wf()
        &&& slot.sender.capacity() == self.buffer_size
        &&& slot.view().waiting() == slot.sender.queue().len()
        &&& forall|j: int|
            0 <= j < slot.sender.queue().len() ==> cloned(
                #[trigger] self.history@[slot.view().cursor() + j],
                slot.sender.queue()[j],
            )
    }

    /// The broadcaster is one that [`Broadcaster::new`] made and its own methods changed.
    pub closed spec fn wf(&self) -> bool {
        &&& self@.inv()
        &&& forall|i: int| 0 <= i < self.senders@.len() ==> self.slot_wf(i)
    }

    /// Every well-formed broadcaster is in a state that the model allows.
    pub proof fn lemma_wf_inv(&self)
        requires
            self.wf(),
        ensures
            self@.inv(),
    {
    }

    /// A broadcaster without subscribers, whose queues will have room for
    /// `buffer_size` items each.
    pub fn new(buffer_size: usize) -> (broadcaster: Self)
        ensures
            broadcaster.wf(),
            broadcaster@ == State::<T>::init(buffer_size as nat),
    {
        let broadcaster = Broadcaster {
            buffer_size,
            senders: Vec::new(),
            cancellation_token: CancellationToken::new(),
            history: Ghost(Seq::empty()),
        };
        assert(broadcaster@.subscriptions =~= Seq::<Subscription>::empty());
        broadcaster
    }

    /// The room of every queue.
    pub fn buffer_size(&self) -> (buffer_size: usize)
        ensures
            buffer_size == self@.buffer_size,
    {
        self.buffer_size
    }

    /// Makes a new queue, keeps its producer end and hands out its consumer end.
    /// The subscriber gets the items that are broadcast from now on.
    pub fn subscribe(&mut self) -> (rx: Receiver<T>)
        requires
            old(self).wf(),
        ensures
            final(self).wf(),
            final(self)@ == old(self)@.subscribe(),
            rx.index() == old(self)@.subscriptions.len(),
    {
        let (tx, rx) = channel::new(self.buffer_size, self.senders.len());
        let slot = Slot {
            sender: tx,
            attached: true,
            start: Ghost(self.history@.len()),
            received: Ghost(0),
        };
        self.senders.push(slot);
        proof {
            assert(final(self)@.subscriptions =~= old(self)@.subscribe().subscriptions);
            assert forall|i: int| 0 <= i < self.senders@.len() implies self.slot_wf(i) by {
                if i < old(self).senders@.len() {
                    assert(old(self).slot_wf(i));
                }
            }
        }
        rx
    }

    /// The token that aborts the broadcast once it is tripped, to be looked
    /// at. The broadcaster is the one owner of the signal: a party that holds
    /// the broadcaster trips it with [`Broadcaster::cancel`], and a party
    /// that holds a copy of the token trips the copy, which takes effect
    /// when the broadcaster is shown it with [`Broadcaster::observe`].
    pub fn get_cancellation_token(&self) -> (token: &CancellationToken)
        ensures
            token.cancelled() == self@.cancelled,
    {
        &self.cancellation_token
    }

    /// Trips the cancellation token: no later broadcast delivers anything.
    pub fn cancel(&mut self)
        requires
            old(self).wf(),
        ensures
            final(self).wf(),
            final(self)@ == old(self)@.cancel(),
    {
        self.cancellation_token.cancel();
        proof {
            assert(final(self)@.subscriptions =~= old(self)@.subscriptions);
            assert forall|i: int| 0 <= i < self.senders@.len() implies self.slot_wf(i) by {
                assert(old(self).slot_wf(i));
            }
        }
    }

    /// Takes over the trip of a copy of the token: where `token` was tripped,
    /// the broadcaster's token is tripped as well. Nothing ever resets it.
    pub fn observe(&mut self, token: &CancellationToken)
        requires
            old(self).wf(),
        ensures
            final(self).wf(),
            final(self)@ == (if token.cancelled() {
                old(self)@.cancel()
            } else {
                old(self)@
            }),
    {
        if token.is_cancelled() {
            self.cancel();
        }
    }

    /// Whether every live subscriber has room for one more item.
    pub fn is_ready(&self) -> (ready: bool)
        requires
            self.wf(),
        ensures
            ready == self@.ready(),
    {
        let mut i: usize = 0;
        while i < self.senders.len()
            invariant
                i <= self.senders@.len(),
                self.wf(),
                forall|k: int|
                    0 <= k < i && (#[trigger] self@.subscriptions[k]).live()
                        ==> self@.subscriptions[k].waiting() < self@.buffer_size,
            decreases self.senders@.len() - i,
        {
            proof {
                assert(self.slot_wf(i as int));
            }
            let slot = &self.senders[i];
            if slot.attached && slot.sender.is_connected() && slot.sender.is_full() {
                proof {
                    assert(self@.subscriptions[i as int].live());
                }
                return false;
            }
            i += 1;
        }
        true
    }

    /// Puts a clone of `item` into the queue of every live subscriber, and says
    /// for each subscription how its send ended.
    fn broadcast_item(&mut self, item: T) -> (results: Vec<SendResult>)
        requires
            old(self).wf(),
            old(self)@.outcome() is Delivered,
        ensures
            final(self).wf(),
            final(self)@ == old(self)@.broadcast(item),
            results@.len() == old(self)@.subscriptions.len(),
            forall|i: int|
                0 <= i < results@.len() ==> (results@[i] == SendResult::Success <==> (
                #[trigger] old(self)@.subscriptions[i]).live()),
    {
        proof {
            self.history@ = self.history@.push(item);
        }
        let mut results: Vec<SendResult> = Vec::new();
        let mut i: usize = 0;
        while i < self.senders.len()
            invariant
                i <= self.senders@.len(),
                self.senders@.len() == old(self).senders@.len(),
                self.buffer_size == old(self).buffer_size,
                self.cancellation_token == old(self).cancellation_token,
                self.history@ == old(self).history@.push(item),
                old(self).wf(),
                old(self)@.outcome() is Delivered,
                results@.len() == i,
                forall|k: int| i <= k < self.senders@.len() ==> self.senders@[k] == old(self).senders@[k],
                forall|k: int|
                    0 <= k < i ==> (#[trigger] self.senders@[k]).view() == old(self).senders@[k].view().offer(),
                forall|k: int| 0 <= k < i ==> self.slot_wf(k),
                forall|k: int|
                    0 <= k < i ==> (#[trigger] results@[k] == SendResult::Success <==> old(
                        self,
                    ).senders@[k].view().live()),
            decreases self.senders@.len() - i,
        {
            proof {
                assert(old(self).slot_wf(i as int));
                assert(old(self)@.subscriptions[i as int] == old(self).senders@[i as int].view());
            }
            let copy = item.clone();
            let ghost done = self.senders@;
            let ghost earlier = *self;
            let slot = &mut self.senders[i];
            let result = if slot.attached {
                match slot.sender.send(copy) {
                    Ok(result) => result,
                    Err(_) => SendResult::Failure,
                }
            } else {
                SendResult::Failure
            };
            results.push(result);
            proof {
                let at = i as int;
                let was = old(self).senders@[at];
                let now = self.senders@[at];
                assert(done[at] == was);
                assert(now.start@ == was.start@);
                assert(now.received@ == was.received@);
                assert(now.attached == was.attached);
                if was.view().live() {
                    assert(old(self)@.subscriptions[at].waiting() < old(self)@.buffer_size);
                    assert(result == SendResult::Success);
                    assert(now.sender.queue() == was.sender.queue().push(copy));
                } else {
                    assert(result == SendResult::Failure);
                    assert(now.sender.queue() == was.sender.queue());
                }
                assert(now.view() == was.view().offer());
                let sub = old(self)@.subscriptions[at];
                assert(sub == was.view());
                assert(sub.start + sub.delivered <= old(self).history@.len());
                assert forall|j: int| 0 <= j < now.sender.queue().len() implies cloned(
                    #[trigger] self.history@[now.view().cursor() + j],
                    now.sender.queue()[j],
                ) by {
                    if j < was.sender.queue().len() {
                        assert(cloned(
                            old(self).history@[was.view().cursor() + j],
                            was.sender.queue()[j],
                        ));
                    }
                }
                assert(self.slot_wf(at));
                assert forall|k: int| 0 <= k < i + 1 implies (#[trigger] self.senders@[k]).view() == old(
                    self,
                ).senders@[k].view().offer() by {
                    if k < i {
                        assert(self.senders@[k] == done[k]);
                    }
                }
                assert forall|k: int| 0 <= k < i + 1 implies self.slot_wf(k) by {
                    if k < i {
                        assert(self.senders@[k] == done[k]);
                        assert(earlier.slot_wf(k));
                    }
                }
            }
            i += 1;
        }
        proof {
            assert forall|k: int| 0 <= k < self.senders@.len() implies #[trigger] self@.subscriptions[k]
                == old(self)@.subscriptions[k].offer() by {
                assert(self.senders@[k].view() == old(self).senders@[k].view().offer());
            }
            assert(self@.subscriptions =~= old(self)@.broadcast(item).subscriptions);
            assert forall|k: int| 0 <= k < results@.len() implies (results@[k] == SendResult::Success <==> (
            #[trigger] old(self)@.subscriptions[k]).live()) by {
                assert(self.senders@[k].view() == old(self).senders@[k].view().offer());
            }
            assert forall|k: int| 0 <= k < self.senders@.len() implies self.slot_wf(k) by {
                assert(self.senders@[k].view() == old(self).senders@[k].view().offer());
            }
        }
        results
    }

    /// Lets go of the producer end of every subscription whose send failed.
    fn prune(&mut self, results: Vec<SendResult>)
        requires
            old(self).wf(),
            results@.len() == old(self)@.subscriptions.len(),
            forall|i: int|
                0 <= i < results@.len() ==> (results@[i] == SendResult::Failure <== !(
                #[trigger] old(self)@.subscriptions[i]).connected),
            forall|i: int|
                0 <= i < results@.len() ==> (results@[i] == SendResult::Failure ==> !(
                #[trigger] old(self)@.subscriptions[i]).live()),
        ensures
            final(self).wf(),
            final(self)@ == old(self)@.prune(),
    {
        let mut i: usize = 0;
        while i < self.senders.len()
            invariant
                i <= self.senders@.len(),
                results@.len() == self.senders@.len(),
                self.senders@.len() == old(self).senders@.len(),
                self.buffer_size == old(self).buffer_size,
                self.cancellation_token == old(self).cancellation_token,
                self.history@ == old(self).history@,
                old(self).wf(),
                forall|k: int|
                    0 <= k < results@.len() ==> (results@[k] == SendResult::Failure <== !(
                    #[trigger] old(self)@.subscriptions[k]).connected),
                forall|k: int|
                    0 <= k < results@.len() ==> (results@[k] == SendResult::Failure ==> !(
                    #[trigger] old(self)@.subscriptions[k]).live()),
                forall|k: int| i <= k < self.senders@.len() ==> self.senders@[k] == old(self).senders@[k],
                forall|k: int|
                    0 <= k < i ==> {
                        &&& (#[trigger] self.senders@[k]).sender == old(self).senders@[k].sender
                        &&& self.senders@[k].view() == old(self).senders@[k].view().pruned()
                    },
            decreases self.senders@.len() - i,
        {
            proof {
                assert(old(self)@.subscriptions[i as int] == old(self).senders@[i as int].view());
            }
            let ghost done = self.senders@;
            let failed = match results[i] {
                SendResult::Success => false,
                SendResult::Failure => true,
            };
            if failed && !self.senders[i].sender.is_connected() {
                let slot = &mut self.senders[i];
                slot.attached = false;
            }
            proof {
                assert forall|k: int| 0 <= k < i + 1 implies {
                    &&& (#[trigger] self.senders@[k]).sender == old(self).senders@[k].sender
                    &&& self.senders@[k].view() == old(self).senders@[k].view().pruned()
                } by {
                    if k < i {
                        assert(self.senders@[k] == done[k]);
                    } else {
                        assert(done[k] == old(self).senders@[k]);
                    }
                }
            }
            i += 1;
        }
        proof {
            assert(self@.subscriptions =~= old(self)@.prune().subscriptions);
            assert forall|k: int| 0 <= k < self.senders@.len() implies self.slot_wf(k) by {
                assert(old(self).slot_wf(k));
                assert(self.senders@[k].sender == old(self).senders@[k].sender);
            }
            assert(self@ == old(self)@.prune());
            old(self)@.lemma_prune_inv();
        }
    }

    /// Offers `item` to every live subscriber.
    ///
    /// The cancellation token is looked at first: once it is tripped nothing is
    /// delivered and the broadcast fails. Otherwise every live subscriber gets
    /// a clone of the item in its queue; a subscriber whose receiver is gone is
    /// passed over, which is no failure of the broadcast.
    ///
    /// The caller has waited until every live subscriber has room
    /// ([`Broadcaster::is_ready`]); [`Broadcaster::try_broadcast`] asks for
    /// nothing and hands the item back where there is no room.
    pub fn broadcast(&mut self, item: T) -> (result: Result<(), BroadcastError>)
        requires
            old(self).wf(),
            !(old(self)@.outcome() is Blocked),
        ensures
            final(self).wf(),
            final(self)@ == old(self)@.broadcast(item),
            result is Ok <==> old(self)@.outcome() is Delivered,
            result is Err <==> old(self)@.cancelled,
    {
        if self.cancellation_token.is_cancelled() {
            Err(BroadcastError::ReceiverFailure)
        } else {
            let _ = self.broadcast_item(item);
            Ok(())
        }
    }

    /// Offers `item` to every live subscriber, if each of them has room.
    ///
    /// `Ok` holds what [`Broadcaster::broadcast`] returns. `Err` hands the item
    /// back: some live subscriber has no room, and nothing has changed.
    pub fn try_broadcast(&mut self, item: T) -> (result: Result<Result<(), BroadcastError>, T>)
        requires
            old(self).wf(),
        ensures
            final(self).wf(),
            final(self)@ == old(self)@.broadcast(item),
            match old(self)@.outcome() {
                Outcome::Delivered => result == Ok::<Result<(), BroadcastError>, T>(Ok(())),
                Outcome::Cancelled => result == Ok::<Result<(), BroadcastError>, T>(
                    Err(BroadcastError::ReceiverFailure),
                ),
                Outcome::Blocked => result == Err::<Result<(), BroadcastError>, T>(item),
            },
    {
        if self.cancellation_token.is_cancelled() {
            Ok(Err(BroadcastError::ReceiverFailure))
        } else if !self.is_ready() {
            Err(item)
        } else {
            let _ = self.broadcast_item(item);
            Ok(Ok(()))
        }
    }

    /// A broadcast that afterwards lets go of every subscription whose send
    /// failed, so that later broadcasts no longer pay for a dead subscriber.
    ///
    /// The caller has waited as for [`Broadcaster::broadcast`];
    /// [`Broadcaster::try_broadcast_and_prune`] asks for nothing.
    pub fn broadcast_and_prune(&mut self, item: T) -> (result: Result<(), BroadcastError>)
        requires
            old(self).wf(),
            !(old(self)@.outcome() is Blocked),
        ensures
            final(self).wf(),
            final(self)@ == old(self)@.broadcast_and_prune(item),
            result is Ok <==> old(self)@.outcome() is Delivered,
            result is Err <==> old(self)@.cancelled,
    {
        if self.cancellation_token.is_cancelled() {
            return Err(BroadcastError::ReceiverFailure);
        }
        let send_results = self.broadcast_item(item);
        proof {
            assert forall|i: int| 0 <= i < send_results@.len() implies {
                &&& (#[trigger] self@.subscriptions[i]).connected == old(self)@.subscriptions[i].connected
                &&& self@.subscriptions[i].attached == old(self)@.subscriptions[i].attached
            } by {
                assert(self@.subscriptions[i] == old(self)@.subscriptions[i].offer());
            }
        }
        // remove senders whose receivers are dead
        self.prune(send_results);
        Ok(())
    }

    /// A broadcast with pruning, if every live subscriber has room. `Err` hands
    /// the item back: some live subscriber has no room, and nothing has changed.
    pub fn try_broadcast_and_prune(&mut self, item: T) -> (result: Result<
        Result<(), BroadcastError>,
        T,
    >)
        requires
            old(self).wf(),
        ensures
            final(self).wf(),
            final(self)@ == old(self)@.broadcast_and_prune(item),
            match old(self)@.outcome() {
                Outcome::Delivered => result == Ok::<Result<(), BroadcastError>, T>(Ok(())),
                Outcome::Cancelled => result == Ok::<Result<(), BroadcastError>, T>(
                    Err(BroadcastError::ReceiverFailure),
                ),
                Outcome::Blocked => result == Err::<Result<(), BroadcastError>, T>(item),
            },
    {
        if !self.cancellation_token.is_cancelled() && !self.is_ready() {
            Err(item)
        } else {
            match self.broadcast_and_prune(item) {
                Ok(()) => Ok(Ok(())),
                Err(BroadcastError::ReceiverFailure) => Ok(Err(BroadcastError::ReceiverFailure)),
            }
        }
    }

    /// Lets go of every producer end: the stream has ended. Each receiver
    /// still gets what waits in its queue, and then learns that nothing more
    /// will come.
    pub fn close(&mut self)
        requires
            old(self).wf(),
        ensures
            final(self).wf(),
            final(self)@ == old(self)@.close(),
    {
        let mut i: usize = 0;
        while i < self.senders.len()
            invariant
                i <= self.senders@.len(),
                self.senders@.len() == old(self).senders@.len(),
                self.buffer_size == old(self).buffer_size,
                self.cancellation_token == old(self).cancellation_token,
                self.history@ == old(self).history@,
                forall|k: int| i <= k < self.senders@.len() ==> self.senders@[k] == old(self).senders@[k],
                forall|k: int|
                    0 <= k < i ==> {
                        &&& (#[trigger] self.senders@[k]).sender == old(self).senders@[k].sender
                        &&& self.senders@[k].view() == Subscription {
                            attached: false,
                            ..old(self).senders@[k].view()
                        }
                    },
            decreases self.senders@.len() - i,
        {
            let ghost done = self.senders@;
            let slot = &mut self.senders[i];
            slot.attached = false;
            proof {
                assert forall|k: int| 0 <= k < i + 1 implies {
                    &&& (#[trigger] self.senders@[k]).sender == old(self).senders@[k].sender
                    &&& self.senders@[k].view() == Subscription {
                        attached: false,
                        ..old(self).senders@[k].view()
                    }
                } by {
                    if k < i {
                        assert(self.senders@[k] == done[k]);
                    } else {
                        assert(done[k] == old(self).senders@[k]);
                    }
                }
            }
            i += 1;
        }
        proof {
            assert(self@.subscriptions =~= old(self)@.close().subscriptions);
            assert forall|k: int| 0 <= k < self.senders@.len() implies self.slot_wf(k) by {
                assert(old(self).slot_wf(k));
                assert(self.senders@[k].sender == old(self).senders@[k].sender);
                assert(self.senders@[k].view() == Subscription {
                    attached: false,
                    ..old(self).senders@[k].view()
                });
                assert(self.senders@[k].view().cursor() == old(self).senders@[k].view().cursor());
            }
            assert(self@ == old(self)@.close());
            old(self)@.lemma_step_inv(Op::Close);
        }
    }
}

impl<T: Clone> Receiver<T> {
    /// Takes the next item out of this receiver's queue.
    ///
    /// The items come in the order in which they were broadcast: the item
    /// handed out is a clone of the one that stands in the history at the
    /// subscription's cursor. With nothing waiting the answer is `Pending` as
    /// long as the broadcaster holds the producer end, and `Closed` after.
    pub fn recv(&mut self, broadcaster: &mut Broadcaster<T>) -> (result: RecvResult<T>)
        requires
            old(broadcaster).wf(),
        ensures
            final(broadcaster).wf(),
            final(broadcaster)@ == old(broadcaster)@.recv(old(self).index() as int),
            final(self).index() == old(self).index(),
            match old(broadcaster)@.next(old(self).index() as int) {
                Next::Item(at) => {
                    &&& at < old(broadcaster)@.history.len()
                    &&& result matches RecvResult::Item(item)
                    &&& cloned(old(broadcaster)@.history[at as int], item)
                },
                Next::Pending => result is Pending,
                Next::Closed => result is Closed,
            },
    {
        let i: usize = self.position();
        if i >= broadcaster.senders.len() {
            return RecvResult::Closed;
        }
        proof {
            assert(broadcaster.slot_wf(i as int));
            assert(broadcaster@.subscriptions[i as int] == broadcaster.senders@[i as int].view());
            broadcaster.senders@[i as int].sender.lemma_bounded();
        }
        let ghost before = *broadcaster;
        let slot = &mut broadcaster.senders[i];
        let taken = slot.sender.take();
        let result = match taken {
            Some(item) => {
                proof {
                    slot.received@ = slot.received@ + 1;
                }
                RecvResult::Item(item)
            },
            None => {
                if slot.attached && slot.sender.is_connected() {
                    RecvResult::Pending
                } else {
                    RecvResult::Closed
                }
            },
        };
        proof {
            let at = i as int;
            let was = before.senders@[at];
            let now = broadcaster.senders@[at];
            assert(broadcaster@.subscriptions =~= before@.recv(at).subscriptions);
            assert forall|k: int| 0 <= k < broadcaster.senders@.len() implies broadcaster.slot_wf(k) by {
                assert(before.slot_wf(k));
                if k == at && taken is Some {
                    assert forall|j: int| 0 <= j < now.sender.queue().len() implies cloned(
                        #[trigger] broadcaster.history@[now.view().cursor() + j],
                        now.sender.queue()[j],
                    ) by {
                        assert(cloned(
                            before.history@[was.view().cursor() + (j + 1)],
                            was.sender.queue()[j + 1],
                        ));
                    }
                }
            }
            assert(broadcaster@ == before@.recv(at));
            before@.lemma_step_inv(Op::Recv(at));
            if taken is Some {
                assert(cloned(before.history@[was.view().cursor() + 0int], was.sender.queue()[0]));
            }
        }
        result
    }

    /// Gives the receiver up: what still waited for it is dropped, and every
    /// later send to it fails.
    pub fn disconnect(self, broadcaster: &mut Broadcaster<T>)
        requires
            old(broadcaster).wf(),
        ensures
            final(broadcaster).wf(),
            final(broadcaster)@ == old(broadcaster)@.drop_receiver(self.index() as int),
    {
        let i: usize = self.position();
        if i >= broadcaster.senders.len() {
            return ;
        }
        proof {
            assert(broadcaster.slot_wf(i as int));
            assert(broadcaster@.subscriptions[i as int] == broadcaster.senders@[i as int].view());
        }
        let ghost before = *broadcaster;
        let slot = &mut broadcaster.senders[i];
        slot.sender.disconnect();
        proof {
            let at = i as int;
            assert(broadcaster@.subscriptions =~= before@.drop_receiver(at).subscriptions);
            assert forall|k: int| 0 <= k < broadcaster.senders@.len() implies broadcaster.slot_wf(k) by {
                assert(before.slot_wf(k));
            }
            assert(broadcaster@ == before@.drop_receiver(at));
            before@.lemma_step_inv(Op::DropReceiver(at));
        }
    }
}

} // verus!
