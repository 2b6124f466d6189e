//! One attempt while it runs: the broadcaster, the consumers that drain it and
//! the egress tap, under one owner.
//!
//! Nothing here runs side by side. The source pushes; a consumer runs when the
//! source has to wait for room, and at the end, when the stream is closed. So
//! the source may be ahead of every consumer by as many items as a queue holds,
//! and by no more.
//!
//! What a consumer makes of its items is its own affair, so nothing is said of
//! the results but where they come from. What is said is what each consumer is
//! handed: the items of the history, from the first on, in order, as copies;
//! all of them before it is told that the stream has ended.

use crate::broadcaster::channel::{Receiver, RecvResult};
use crate::broadcaster::{Broadcast, BroadcastError, Broadcaster};
use crate::fanout::consumer::{
    gave, given_by, reached, run_of, tripped, tripped_by, unresolved, ConsumerOrResolved,
    FanoutConsumer, FanoutConsumerGroup,
};
use crate::fanout::egress::{forwarded, sent_as, tapped_as, EgressItem, EgressSender};
use vstd::prelude::*;

verus! {

/// The part of one member in a running attempt.
struct Seat<Consumer: FanoutConsumer> {
    /// The member's subscription, while it drains.
    rx: Option<Receiver<Consumer::Item>>,
    /// What the member has learnt so far, while it drains.
    state: Option<Consumer::State>,
    /// The member's result, once it has one.
    result: Option<Result<Consumer::Output, Consumer::Error>>,
    /// The items that the member's consumer was handed, oldest first.
    handed: Ghost<Seq<Consumer::Item>>,
    /// Whether the member's consumer was told that the stream has ended.
    finished: Ghost<bool>,
    /// The subscription of the member, if it ever had one.
    at: Ghost<int>,
}

/// An attempt that runs: a source pushes into it, and in the end it is joined.
pub struct RunningFanout<'a, Consumer: FanoutConsumer, Egress: EgressSender> {
    consumers: &'a FanoutConsumerGroup<Consumer>,
    egress_tx: &'a Egress,
    broadcaster: Broadcaster<Consumer::Item>,
    seats: Vec<Seat<Consumer>>,
    egress_rx: Option<Receiver<Consumer::Item>>,
    /// For each subscription, the seat that holds its receiver; -1 for the egress tap.
    owner: Ghost<Seq<int>>,
    /// Whether the stream was closed.
    ended: Ghost<bool>,
    /// The items that were offered to the egress side, oldest first.
    tapped: Ghost<Seq<Consumer::Item>>,
    /// Whether the egress tap has seen the end of the stream.
    tap_finished: Ghost<bool>,
    /// Whether the egress side has refused the last item that it was offered.
    tap_refused: Ghost<bool>,
    /// The subscription of the egress tap, if there is one.
    tap_at: Ghost<int>,
    /// The size that the consumers were started with.
    hint: Ghost<Option<u64>>,
    /// Who tripped the token, once it is tripped: the member, and which of
    /// the items that it was handed.
    trip: Ghost<(int, int)>,
}

impl<'a, Consumer: FanoutConsumer, Egress: EgressSender> RunningFanout<'a, Consumer, Egress> where
    Consumer::Item: Clone,
    Consumer::Output: Clone,
    Egress::Item: EgressItem<Consumer::Item>,
 {
    /// The members of the attempt.
    pub closed spec fn consumers(&self) -> Seq<ConsumerOrResolved<Consumer>> {
        self.consumers@
    }

    /// The broadcaster of the attempt, as the model sees it.
    pub closed spec fn broadcaster(&self) -> crate::broadcaster::model::State<Consumer::Item> {
        self.broadcaster@
    }

    /// Whether the cancellation token of the attempt was tripped.
    pub fn is_cancelled(&self) -> (cancelled: bool)
        ensures
            cancelled == self.broadcaster().cancelled,
    {
        self.broadcaster.get_cancellation_token().is_cancelled()
    }

    /// Whether member `j` has its result.
    pub closed spec fn resolved(&self, j: int) -> bool {
        self.seats@[j].result is Some
    }

    /// The result of member `j`, once it has one.
    pub closed spec fn result(&self, j: int) -> Result<Consumer::Output, Consumer::Error> {
        self.seats@[j].result->Some_0
    }

    /// Whether the stream was closed.
    pub closed spec fn ended(&self) -> bool {
        self.ended@
    }

    /// The size that the consumers were started with.
    pub closed spec fn hint(&self) -> Option<u64> {
        self.hint@
    }

    /// The items that the consumer of member `j` was handed, oldest first.
    pub closed spec fn handed(&self, j: int) -> Seq<Consumer::Item> {
        self.seats@[j].handed@
    }

    /// Whether the consumer of member `j` was told that the stream has ended,
    /// and has given its result on that.
    pub closed spec fn finished(&self, j: int) -> bool {
        self.seats@[j].finished@
    }

    /// The items that were offered to the egress side, oldest first.
    pub closed spec fn tapped(&self) -> Seq<Consumer::Item> {
        self.tapped@
    }

    /// Whether the egress tap has seen the end of the stream.
    pub closed spec fn tap_finished(&self) -> bool {
        self.tap_finished@
    }

    /// Whether the egress side has refused the last item that it was offered.
    pub closed spec fn tap_refused(&self) -> bool {
        self.tap_refused@
    }

    /// The egress sender of the attempt.
    pub closed spec fn egress_tx(&self) -> &Egress {
        self.egress_tx
    }

    /// What the egress side was offered is what the history holds, from its
    /// first item on and as far as the tap has come.
    spec fn tap_log(&self) -> bool {
        let at = self.tap_at@;
        &&& self.tapped@.len() <= self.broadcaster@.history.len()
        &&& forall|i: int|
            0 <= i < self.tapped@.len() ==> cloned(self.broadcaster@.history[i], #[trigger] self.tapped@[i])
        &&& tapped_as(self.egress_tx, self.tapped@, self.tap_refused@)
        &&& self.tap_refused@ ==> self.egress_rx is None && !self.tap_finished@
        &&& self.tap_finished@ ==> self.ended@
        &&& !self.egress_tx.taps() ==> self.tapped@.len() == 0 && !self.tap_finished@
            && self.egress_rx is None
        &&& self.egress_tx.taps() ==> {
            &&& self.broadcaster@.has(at)
            &&& self.owner@[at] == -1
            &&& self.broadcaster@.subscriptions[at].start == 0
            &&& self.broadcaster@.subscriptions[at].received == self.tapped@.len()
            &&& self.tap_finished@ ==> {
                &&& self.egress_rx is None
                &&& self.broadcaster@.subscriptions[at].received
                    == self.broadcaster@.subscriptions[at].delivered
            }
            &&& self.egress_rx matches Some(rx) ==> rx.index() == at
            &&& self.egress_rx is Some && !self.ended@ ==> self.broadcaster@.subscriptions[at].attached
        }
    }

    /// What member `j` was handed is what the history holds, from its first
    /// item on and as far as the receiver of the member has come.
    spec fn seat_log(&self, j: int) -> bool {
        let seat = self.seats@[j];
        let at = seat.at@;
        &&& seat.handed@.len() <= self.broadcaster@.history.len()
        &&& forall|i: int|
            0 <= i < seat.handed@.len() ==> cloned(self.broadcaster@.history[i], #[trigger] seat.handed@[i])
        &&& self.consumers@[j] is ConsumerOutput ==> seat.handed@.len() == 0 && !seat.finished@
        &&& self.consumers@[j] is Consumer ==> {
            &&& self.broadcaster@.has(at)
            &&& self.owner@[at] == j
            &&& self.broadcaster@.subscriptions[at].start == 0
            &&& self.broadcaster@.subscriptions[at].received == seat.handed@.len()
            &&& seat.finished@ ==> {
                &&& self.ended@
                &&& seat.result is Some
                &&& self.broadcaster@.subscriptions[at].received
                    == self.broadcaster@.subscriptions[at].delivered
            }
            &&& seat.result is Some && !seat.finished@ ==> seat.result->Some_0 is Err
            &&& seat.rx matches Some(rx) ==> rx.index() == at
            &&& seat.rx is Some && !self.ended@ ==> self.broadcaster@.subscriptions[at].attached
            &&& seat.state matches Some(state) ==> reached(
                &self.consumers@[j]->Consumer_0,
                self.hint@,
                seat.handed@,
                state,
            )
            &&& seat.result matches Some(result) ==> gave(
                &self.consumers@[j]->Consumer_0,
                self.hint@,
                seat.handed@,
                seat.finished@,
                result,
            )
        }
    }

    /// A tap without receiver has come to its end: it has seen the end of
    /// the stream, or the egress side has refused an item.
    spec fn tap_end(&self) -> bool {
        self.egress_tx.taps() && self.egress_rx is None ==> self.tap_finished@ || self.tap_refused@
    }

    /// The token is tripped by a member's consumer and by nobody else: where
    /// it is tripped, some member tripped it on one of the items that it was
    /// handed.
    spec fn trip_log(&self) -> bool {
        let (j, i) = self.trip@;
        self.broadcaster@.cancelled ==> {
            &&& 0 <= j < self.seats@.len()
            &&& self.consumers@[j] is Consumer
            &&& 0 <= i < self.seats@[j].handed@.len()
            &&& tripped(&self.consumers@[j]->Consumer_0, self.hint@, self.seats@[j].handed@.take(i + 1))
        }
    }

    /// The seat of member `j` is in keeping with the member and the broadcaster.
    spec fn seat_wf(&self, j: int) -> bool {
        let seat = self.seats@[j];
        &&& seat.rx is Some <==> seat.state is Some
        &&& seat.rx is Some <==> seat.result is None
        &&& self.consumers@[j] matches ConsumerOrResolved::ConsumerOutput(output) ==> {
            &&& seat.result matches Some(Ok(kept))
            &&& cloned(output, kept)
        }
        &&& seat.rx matches Some(rx) ==> {
            &&& self.consumers@[j] is Consumer
            &&& self.broadcaster@.has(rx.index() as int)
            &&& self.broadcaster@.subscriptions[rx.index() as int].connected
            &&& self.owner@[rx.index() as int] == j
        }
    }

    /// The receiver of subscription `i` is where `owner` says it is.
    spec fn held(&self, i: int) -> bool {
        let j = self.owner@[i];
        if j == -1 {
            self.egress_rx matches Some(rx) && rx.index() == i
        } else {
            0 <= j < self.seats@.len() && (self.seats@[j].rx matches Some(rx) && rx.index() == i)
        }
    }

    /// The attempt is one that [`RunningFanout::start`] made and its own
    /// methods changed.
    pub closed spec fn wf(&self) -> bool {
        &&& self.broadcaster.wf()
        &&& self.broadcaster@.buffer_size >= 1
        &&& self.seats@.len() == self.consumers@.len()
        &&& self.owner@.len() == self.broadcaster@.subscriptions.len()
        &&& forall|j: int| 0 <= j < self.seats@.len() ==> self.seat_wf(j)
        &&& forall|j: int| 0 <= j < self.seats@.len() ==> self.seat_log(j)
        &&& self.tap_log()
        &&& self.trip_log()
        &&& self.tap_end()
        &&& self.egress_rx matches Some(rx) ==> {
            &&& self.broadcaster@.has(rx.index() as int)
            &&& self.broadcaster@.subscriptions[rx.index() as int].connected
            &&& self.owner@[rx.index() as int] == -1
        }
        &&& forall|i: int|
            self.broadcaster@.has(i) && (#[trigger] self.broadcaster@.subscriptions[i]).connected
                ==> self.held(i)
    }

    /// The attempt while the receiver and the state of member `j` are out of
    /// its seat: all is in order but for that seat, whose subscription is `at`.
    spec fn wf_without(&self, j: int, at: int) -> bool {
        &&& self.broadcaster.wf()
        &&& self.broadcaster@.buffer_size >= 1
        &&& self.seats@.len() == self.consumers@.len()
        &&& self.owner@.len() == self.broadcaster@.subscriptions.len()
        &&& 0 <= j < self.seats@.len()
        &&& self.seats@[j].rx is None
        &&& self.seats@[j].state is None
        &&& self.seats@[j].result is None
        &&& self.consumers@[j] is Consumer
        &&& self.broadcaster@.has(at)
        &&& self.broadcaster@.subscriptions[at].connected
        &&& self.owner@[at] == j
        &&& self.seats@[j].at@ == at
        &&& !self.ended@ ==> self.broadcaster@.subscriptions[at].attached
        &&& forall|k: int| 0 <= k < self.seats@.len() && k != j ==> self.seat_wf(k)
        &&& forall|k: int| 0 <= k < self.seats@.len() ==> self.seat_log(k)
        &&& self.tap_log()
        &&& self.trip_log()
        &&& self.tap_end()
        &&& self.egress_rx matches Some(rx) ==> {
            &&& self.broadcaster@.has(rx.index() as int)
            &&& self.broadcaster@.subscriptions[rx.index() as int].connected
            &&& self.owner@[rx.index() as int] == -1
        }
        &&& forall|i: int|
            self.broadcaster@.has(i) && i != at && (
            #[trigger] self.broadcaster@.subscriptions[i]).connected ==> self.held(i)
    }

    /// What a step that concerns the subscriptions of one owner alone leaves
    /// as it was: the members, the egress sender, the history, the room of the
    /// queues, who holds which receiver, and every subscription of another
    /// owner. The token is never reset and no producer end is let go.
    spec fn steps_to(&self, after: &Self, who: int) -> bool {
        &&& after.consumers == self.consumers
        &&& after.egress_tx == self.egress_tx
        &&& after.hint@ == self.hint@
        &&& after.owner@ == self.owner@
        &&& after.ended@ == self.ended@
        &&& after.tap_at@ == self.tap_at@
        &&& who != -1 || self.egress_rx is None ==> after.tapped@ == self.tapped@ && after.tap_finished@
            == self.tap_finished@ && after.tap_refused@ == self.tap_refused@
        &&& self.egress_rx is None ==> after.egress_rx is None
        &&& after.seats@.len() == self.seats@.len()
        &&& forall|k: int|
            0 <= k < self.seats@.len() ==> (#[trigger] after.seats@[k]).at@ == self.seats@[k].at@
        &&& after.broadcaster@.history == self.broadcaster@.history
        &&& after.broadcaster@.buffer_size == self.broadcaster@.buffer_size
        &&& self.broadcaster@.cancelled ==> after.broadcaster@.cancelled
        &&& after.broadcaster@.subscriptions.len() == self.broadcaster@.subscriptions.len()
        &&& forall|i: int|
            self.broadcaster@.has(i) ==> {
                &&& (#[trigger] after.broadcaster@.subscriptions[i]).attached
                    == self.broadcaster@.subscriptions[i].attached
                &&& after.broadcaster@.subscriptions[i].delivered
                    == self.broadcaster@.subscriptions[i].delivered
                &&& after.broadcaster@.subscriptions[i].connected
                    ==> self.broadcaster@.subscriptions[i].connected
                &&& self.owner@[i] != who ==> after.broadcaster@.subscriptions[i]
                    == self.broadcaster@.subscriptions[i]
                &&& self.owner@[i] == who && after.broadcaster@.subscriptions[i].connected ==> {
                    &&& after.broadcaster@.subscriptions[i].waiting() == 0
                    &&& after.broadcaster@.subscriptions[i].attached
                }
            }
        &&& forall|k: int|
            0 <= k < self.seats@.len() && k != who ==> #[trigger] after.seats@[k] == self.seats@[k]
        &&& who != -1 ==> after.egress_rx == self.egress_rx
    }

    /// In a well-formed attempt there is a seat for every member, and every
    /// member that was resolved beforehand has its output as its result.
    pub proof fn lemma_wf(&self)
        requires
            self.wf(),
        ensures
            self.broadcaster().inv(),
            forall|j: int|
                0 <= j < self.consumers().len() ==> (#[trigger] self.consumers()[j]
                    matches ConsumerOrResolved::ConsumerOutput(output) ==> {
                    &&& self.resolved(j)
                    &&& self.result(j) matches Ok(kept)
                    &&& cloned(output, kept)
                }),
    {
        self.broadcaster.lemma_wf_inv();
        assert forall|j: int| 0 <= j < self.consumers().len() implies (#[trigger] self.consumers()[j]
            matches ConsumerOrResolved::ConsumerOutput(output) ==> {
            &&& self.resolved(j)
            &&& self.result(j) matches Ok(kept)
            &&& cloned(output, kept)
        }) by {
            assert(self.seat_wf(j));
        }
    }

    /// Sets an attempt up: a fresh broadcaster whose queues have room for
    /// `broadcaster_buffer_size` items, a subscription for every member that
    /// has yet to run, and one for the egress side if it taps the broadcast.
    /// The consumer of every member that has yet to run is started with
    /// `content_length`. A member that was resolved beforehand gets no
    /// subscription: its result is its output.
    ///
    /// The room of the queues has to be 1 at least: queues without room
    /// never deliver, so a broadcast into them would wait for good.
    pub fn start(
        consumers: &'a FanoutConsumerGroup<Consumer>,
        egress_tx: &'a Egress,
        broadcaster_buffer_size: usize,
        content_length: Option<u64>,
    ) -> (running: Self)
        requires
            broadcaster_buffer_size >= 1,
        ensures
            running.wf(),
            running.consumers() == consumers@,
            running.broadcaster().history == Seq::<Consumer::Item>::empty(),
            !running.broadcaster().cancelled,
            running.broadcaster().buffer_size == broadcaster_buffer_size,
            running.hint() == content_length,
            running.egress_tx() == egress_tx,
            !running.ended(),
            running.tapped().len() == 0,
            !running.tap_finished(),
            forall|j: int|
                0 <= j < consumers@.len() ==> (#[trigger] running.handed(j)).len() == 0
                    && !running.finished(j),
            running.broadcaster().subscriptions.len() == unresolved(consumers@) + if egress_tx.taps() {
                1nat
            } else {
                0nat
            },
            forall|j: int|
                0 <= j < consumers@.len() ==> (running.resolved(j) <==> (
                #[trigger] consumers@[j]) is ConsumerOutput),
    {
        let mut running = RunningFanout {
            consumers,
            egress_tx,
            broadcaster: Broadcaster::new(broadcaster_buffer_size),
            seats: Vec::new(),
            egress_rx: None,
            owner: Ghost(Seq::empty()),
            ended: Ghost(false),
            tapped: Ghost(Seq::empty()),
            tap_finished: Ghost(false),
            tap_refused: Ghost(false),
            tap_at: Ghost(-1),
            hint: Ghost(content_length),
            trip: Ghost((0int, 0int)),
        };
        let members = consumers.members();
        let mut j: usize = 0;
        while j < members.len()
            invariant
                j <= members@.len(),
                members@ == consumers@,
                running.consumers == consumers,
                running.egress_tx == egress_tx,
                running.egress_rx is None,
                running.broadcaster.wf(),
                running.broadcaster@.buffer_size == broadcaster_buffer_size,
                broadcaster_buffer_size >= 1,
                running.broadcaster@.history == Seq::<Consumer::Item>::empty(),
                !running.broadcaster@.cancelled,
                running.seats@.len() == j,
                running.broadcaster@.subscriptions.len() == unresolved(consumers@.take(j as int)),
                running.owner@.len() == running.broadcaster@.subscriptions.len(),
                !running.ended@,
                running.tapped@.len() == 0,
                !running.tap_finished@,
                !running.tap_refused@,
                forall|k: int| 0 <= k < j ==> running.seat_wf(k),
                forall|k: int| 0 <= k < j ==> running.seat_log(k),
                forall|k: int|
                    0 <= k < j ==> (#[trigger] running.seats@[k]).handed@.len() == 0
                        && !running.seats@[k].finished@,
                forall|i: int|
                    running.broadcaster@.has(i) ==> (#[trigger] running.broadcaster@.subscriptions[i])
                        == crate::broadcaster::model::Subscription::fresh(0),
                forall|k: int|
                    0 <= k < j ==> ((#[trigger] running.seats@[k]).result is Some <==> consumers@[k]
                        is ConsumerOutput),
                forall|i: int|
                    running.broadcaster@.has(i) ==> {
                        &&& 0 <= #[trigger] running.owner@[i] < j
                        &&& running.held(i)
                    },
                running.hint@ == content_length,
            decreases members@.len() - j,
        {
            let ghost before = running;
            let seat = match &members[j] {
                ConsumerOrResolved::Consumer(consumer) => {
                    let rx = running.broadcaster.subscribe();
                    proof {
                        running.owner@ = running.owner@.push(j as int);
                    }
                    let state = consumer.start(content_length);
                    proof {
                        assert(consumers@[j as int] == ConsumerOrResolved::Consumer(*consumer));
                        assert(reached(consumer, content_length, Seq::empty(), state));
                    }
                    Seat {
                        rx: Some(rx),
                        state: Some(state),
                        result: None,
                        handed: Ghost(Seq::empty()),
                        finished: Ghost(false),
                        at: Ghost(before.broadcaster@.subscriptions.len() as int),
                    }
                },
                ConsumerOrResolved::ConsumerOutput(consumer_output) => {
                    Seat {
                        rx: None,
                        state: None,
                        result: Some(Ok(consumer_output.clone())),
                        handed: Ghost(Seq::empty()),
                        finished: Ghost(false),
                        at: Ghost(-1),
                    }
                },
            };
            running.seats.push(seat);
            proof {
                assert(consumers@.take(j + 1).drop_last() =~= consumers@.take(j as int));
                assert forall|k: int| 0 <= k < j + 1 implies running.seat_wf(k) by {
                    if k < j {
                        assert(before.seat_wf(k));
                        assert(running.seats@[k] == before.seats@[k]);
                    }
                }
                assert forall|k: int| 0 <= k < j + 1 implies running.seat_log(k) by {
                    if k < j {
                        assert(before.seat_log(k));
                        assert(running.seats@[k] == before.seats@[k]);
                    }
                }
                assert forall|i: int| running.broadcaster@.has(i) implies {
                    &&& 0 <= #[trigger] running.owner@[i] < j + 1
                    &&& running.held(i)
                } by {
                    if before.broadcaster@.has(i) {
                        assert(before.held(i));
                        assert(running.seats@[before.owner@[i]] == before.seats@[before.owner@[i]]);
                    }
                }
            }
            j += 1;
        }
        proof {
            assert(consumers@.take(j as int) =~= consumers@);
        }
        let ghost before = running;
        let egress_rx = egress_tx.send_from_broadcaster(&mut running.broadcaster);
        proof {
            if egress_rx is Some {
                running.owner@ = running.owner@.push(-1);
                running.tap_at@ = before.broadcaster@.subscriptions.len() as int;
            }
        }
        running.egress_rx = egress_rx;
        proof {
            assert forall|k: int| 0 <= k < running.seats@.len() implies running.seat_wf(k) by {
                assert(before.seat_wf(k));
            }
            assert forall|k: int| 0 <= k < running.seats@.len() implies running.seat_log(k) by {
                assert(before.seat_log(k));
            }
            assert forall|i: int|
                running.broadcaster@.has(i) && (
                #[trigger] running.broadcaster@.subscriptions[i]).connected implies running.held(
                i,
            ) by {
                if before.broadcaster@.has(i) {
                    assert(before.held(i));
                }
            }
        }
        running
    }

    /// The attempt while the receiver of the egress tap is out of its place:
    /// all is in order but for the tap, whose subscription is `at`.
    spec fn wf_untapped(&self, at: int) -> bool {
        &&& self.broadcaster.wf()
        &&& self.broadcaster@.buffer_size >= 1
        &&& self.seats@.len() == self.consumers@.len()
        &&& self.owner@.len() == self.broadcaster@.subscriptions.len()
        &&& self.egress_rx is None
        &&& self.broadcaster@.has(at)
        &&& self.broadcaster@.subscriptions[at].connected
        &&& self.owner@[at] == -1
        &&& self.tap_at@ == at
        &&& !self.tap_finished@
        &&& !self.tap_refused@
        &&& !self.ended@ ==> self.broadcaster@.subscriptions[at].attached
        &&& self.tap_log()
        &&& self.trip_log()
        &&& forall|k: int| 0 <= k < self.seats@.len() ==> self.seat_wf(k)
        &&& forall|k: int| 0 <= k < self.seats@.len() ==> self.seat_log(k)
        &&& forall|i: int|
            self.broadcaster@.has(i) && i != at && (
            #[trigger] self.broadcaster@.subscriptions[i]).connected ==> self.held(i)
    }

    /// What no step of a running attempt undoes: the members, the egress
    /// sender and the history stay, the token is never reset, no producer end
    /// is let go, nothing is put into a queue, and no receiver comes back.
    spec fn follows(&self, after: &Self) -> bool {
        &&& after.consumers == self.consumers
        &&& after.egress_tx == self.egress_tx
        &&& after.hint@ == self.hint@
        &&& after.owner@ == self.owner@
        &&& after.ended@ == self.ended@
        &&& after.tap_at@ == self.tap_at@
        &&& self.egress_rx is None ==> {
            &&& after.egress_rx is None
            &&& after.tapped@ == self.tapped@
            &&& after.tap_finished@ == self.tap_finished@
            &&& after.tap_refused@ == self.tap_refused@
        }
        &&& after.seats@.len() == self.seats@.len()
        &&& forall|k: int|
            0 <= k < self.seats@.len() ==> (#[trigger] after.seats@[k]).at@ == self.seats@[k].at@
        &&& after.broadcaster@.history == self.broadcaster@.history
        &&& after.broadcaster@.buffer_size == self.broadcaster@.buffer_size
        &&& self.broadcaster@.cancelled ==> after.broadcaster@.cancelled
        &&& after.broadcaster@.subscriptions.len() == self.broadcaster@.subscriptions.len()
        &&& forall|i: int|
            self.broadcaster@.has(i) ==> {
                &&& (#[trigger] after.broadcaster@.subscriptions[i]).attached
                    == self.broadcaster@.subscriptions[i].attached
                &&& after.broadcaster@.subscriptions[i].delivered
                    == self.broadcaster@.subscriptions[i].delivered
                &&& after.broadcaster@.subscriptions[i].connected
                    ==> self.broadcaster@.subscriptions[i].connected
            }
        &&& forall|k: int|
            0 <= k < self.seats@.len() && (#[trigger] self.seats@[k]).result is Some
                ==> after.seats@[k] == self.seats@[k]
    }

    /// Whether `after` is a later state of this same attempt, in which the
    /// stream is closed if and only if it is closed here: the members and the
    /// egress sender are the same, and every member that had its result has
    /// kept it.
    pub closed spec fn carried_on(&self, after: &Self) -> bool {
        &&& after.consumers == self.consumers
        &&& after.egress_tx == self.egress_tx
        &&& after.hint@ == self.hint@
        &&& after.ended@ == self.ended@
        &&& after.seats@.len() == self.seats@.len()
        &&& forall|k: int|
            0 <= k < self.seats@.len() && (#[trigger] self.seats@[k]).result is Some
                ==> after.seats@[k] == self.seats@[k]
    }

    /// In a later state of an attempt the members are the same, and every
    /// member that had its result has the same result.
    pub proof fn lemma_carried_on(&self, after: &Self)
        requires
            self.carried_on(after),
            self.wf(),
        ensures
            after.consumers() == self.consumers(),
            after.hint() == self.hint(),
            after.ended() == self.ended(),
            after.egress_tx() == self.egress_tx(),
            forall|j: int|
                0 <= j < self.consumers().len() && #[trigger] self.resolved(j) ==> after.resolved(j)
                    && after.result(j) == self.result(j),
    {
    }

    /// What the consumers were handed. The consumer of each member was
    /// handed a run of the history from its first item on, in order and
    /// without gaps, each item as a copy; a member that was resolved
    /// beforehand was handed nothing. A member that has its result, but not
    /// from being told that the stream has ended, has failed.
    pub proof fn lemma_handed(&self, j: int)
        requires
            self.wf(),
            0 <= j < self.consumers().len(),
        ensures
            self.handed(j).len() <= self.broadcaster().history.len(),
            forall|i: int|
                0 <= i < self.handed(j).len() ==> cloned(
                    self.broadcaster().history[i],
                    #[trigger] self.handed(j)[i],
                ),
            self.consumers()[j] is ConsumerOutput ==> self.handed(j).len() == 0 && !self.finished(j),
            self.finished(j) ==> self.resolved(j),
            self.consumers()[j] is Consumer && self.resolved(j) && !self.finished(j) ==> self.result(
                j,
            ) is Err,
    {
        assert(self.seat_log(j));
    }

    /// Where the results come from. The result of a member that ran is its
    /// own consumer's: what that consumer, started with the size of the
    /// attempt, gives on the items that it was handed. Where it was told
    /// that the stream has ended, the result is what its `finish` gives
    /// after it took in all of them; where it was not, it failed on the last
    /// of them, and the result is that error.
    pub proof fn lemma_result(&self, j: int)
        requires
            self.wf(),
            0 <= j < self.consumers().len(),
            self.consumers()[j] is Consumer,
            self.resolved(j),
        ensures
            gave(
                &self.consumers()[j]->Consumer_0,
                self.hint(),
                self.handed(j),
                self.finished(j),
                self.result(j),
            ),
    {
        assert(self.seat_log(j));
    }

    /// Who trips the token. Where the token of the attempt is tripped, the
    /// consumer of some member tripped it, on an item of the history that it
    /// was handed after all those before it.
    pub proof fn lemma_tripped(&self)
        requires
            self.wf(),
        ensures
            self.broadcaster().cancelled ==> tripped_by(
                self.consumers(),
                self.hint(),
                self.broadcaster().history,
            ),
    {
        if self.broadcaster@.cancelled {
            assert(self.trip_log());
            let (j, i) = self.trip@;
            assert(self.seat_log(j));
            let handed = self.seats@[j].handed@.take(i + 1);
            assert(run_of(self.broadcaster@.history, handed)) by {
                assert forall|k: int| 0 <= k < handed.len() implies cloned(
                    self.broadcaster@.history[k],
                    #[trigger] handed[k],
                ) by {
                    assert(handed[k] == self.seats@[j].handed@[k]);
                }
            }
            assert(tripped(&self.consumers()[j]->Consumer_0, self.hint(), handed));
        }
    }

    /// What the egress side was offered: a run of the history from its first
    /// item on, in order and without gaps, each item as a copy; nothing where
    /// the egress sender does not tap the broadcast.
    pub proof fn lemma_tapped(&self)
        requires
            self.wf(),
        ensures
            self.tapped().len() <= self.broadcaster().history.len(),
            forall|i: int|
                0 <= i < self.tapped().len() ==> cloned(
                    self.broadcaster().history[i],
                    #[trigger] self.tapped()[i],
                ),
    {
        assert(self.tap_log());
    }

    /// Every queue whose receiver is alive is empty, and its producer end is
    /// still held.
    spec fn quiet(&self) -> bool {
        forall|i: int|
            self.broadcaster@.has(i) && (#[trigger] self.broadcaster@.subscriptions[i]).connected ==> {
                &&& self.broadcaster@.subscriptions[i].waiting() == 0
                &&& self.broadcaster@.subscriptions[i].attached
            }
    }

    /// A step that touched no subscription but `at`, which `who` owns, and no
    /// seat but that of `who`, and that left `at` drained or without receiver,
    /// is a step of `who`.
    proof fn lemma_steps_to(&self, after: &Self, who: int, at: int)
        requires
            self.wf(),
            after.wf(),
            self.broadcaster@.has(at),
            self.owner@[at] == who,
            after.consumers == self.consumers,
            after.egress_tx == self.egress_tx,
            after.hint@ == self.hint@,
            after.owner@ == self.owner@,
            after.ended@ == self.ended@,
            after.tap_at@ == self.tap_at@,
            who != -1 || self.egress_rx is None ==> after.tapped@ == self.tapped@
                && after.tap_finished@ == self.tap_finished@ && after.tap_refused@ == self.tap_refused@,
            self.egress_rx is None ==> after.egress_rx is None,
            after.seats@.len() == self.seats@.len(),
            forall|k: int|
                0 <= k < self.seats@.len() ==> (#[trigger] after.seats@[k]).at@ == self.seats@[k].at@,
            after.broadcaster@.history == self.broadcaster@.history,
            after.broadcaster@.buffer_size == self.broadcaster@.buffer_size,
            self.broadcaster@.cancelled ==> after.broadcaster@.cancelled,
            after.broadcaster@.subscriptions.len() == self.broadcaster@.subscriptions.len(),
            forall|i: int|
                self.broadcaster@.has(i) ==> {
                    &&& (#[trigger] after.broadcaster@.subscriptions[i]).attached
                        == self.broadcaster@.subscriptions[i].attached
                    &&& after.broadcaster@.subscriptions[i].delivered
                        == self.broadcaster@.subscriptions[i].delivered
                    &&& i != at ==> after.broadcaster@.subscriptions[i]
                        == self.broadcaster@.subscriptions[i]
                },
            self.broadcaster@.subscriptions[at].connected,
            after.broadcaster@.subscriptions[at].connected ==> {
                &&& after.broadcaster@.subscriptions[at].waiting() == 0
                &&& after.broadcaster@.subscriptions[at].attached
            },
            forall|k: int|
                0 <= k < self.seats@.len() && k != who ==> #[trigger] after.seats@[k] == self.seats@[k],
            who != -1 ==> after.egress_rx == self.egress_rx,
        ensures
            self.steps_to(after, who),
    {
        assert forall|i: int| self.broadcaster@.has(i) implies {
            &&& (#[trigger] after.broadcaster@.subscriptions[i]).attached
                == self.broadcaster@.subscriptions[i].attached
            &&& after.broadcaster@.subscriptions[i].delivered
                == self.broadcaster@.subscriptions[i].delivered
            &&& after.broadcaster@.subscriptions[i].connected
                ==> self.broadcaster@.subscriptions[i].connected
            &&& self.owner@[i] != who ==> after.broadcaster@.subscriptions[i]
                == self.broadcaster@.subscriptions[i]
            &&& self.owner@[i] == who && after.broadcaster@.subscriptions[i].connected ==> {
                &&& after.broadcaster@.subscriptions[i].waiting() == 0
                &&& after.broadcaster@.subscriptions[i].attached
            }
        } by {
            if i != at && self.owner@[i] == who && after.broadcaster@.subscriptions[i].connected {
                assert(self.held(i));
                assert(self.held(at));
            }
        }
    }

    /// What is kept of the log of member `k` by a step that leaves its seat,
    /// its subscription and the history as they were.
    proof fn lemma_seat_log_kept(&self, before: &Self, k: int)
        requires
            0 <= k < before.seats@.len(),
            before.seat_log(k),
            self.seats@.len() == before.seats@.len(),
            self.seats@[k] == before.seats@[k],
            self.consumers == before.consumers,
            self.hint@ == before.hint@,
            self.owner@ == before.owner@,
            self.ended@ == before.ended@,
            before.broadcaster@.history.is_prefix_of(self.broadcaster@.history),
            self.broadcaster@.subscriptions.len() == before.broadcaster@.subscriptions.len(),
            before.consumers@[k] is Consumer ==> {
                let at = before.seats@[k].at@;
                let was = before.broadcaster@.subscriptions[at];
                let now = self.broadcaster@.subscriptions[at];
                &&& now.start == was.start
                &&& now.received == was.received
                &&& now.attached == was.attached || before.seats@[k].rx is None
                &&& before.seats@[k].finished@ ==> now.delivered == was.delivered
            },
        ensures
            self.seat_log(k),
    {
        let seat = self.seats@[k];
        assert forall|i: int| 0 <= i < seat.handed@.len() implies cloned(
            self.broadcaster@.history[i],
            #[trigger] seat.handed@[i],
        ) by {
            assert(cloned(before.broadcaster@.history[i], before.seats@[k].handed@[i]));
            assert(before.broadcaster@.history[i] == self.broadcaster@.history[i]);
        }
    }

    /// What is kept of the log of the egress tap by a step that leaves the
    /// tap, its subscription and the history as they were.
    proof fn lemma_tap_log_kept(&self, before: &Self)
        requires
            before.tap_log(),
            self.egress_rx == before.egress_rx,
            self.egress_tx == before.egress_tx,
            self.tapped@ == before.tapped@,
            self.tap_finished@ == before.tap_finished@,
            self.tap_refused@ == before.tap_refused@,
            self.tap_at@ == before.tap_at@,
            self.owner@ == before.owner@,
            self.ended@ == before.ended@,
            before.broadcaster@.history.is_prefix_of(self.broadcaster@.history),
            self.broadcaster@.subscriptions.len() == before.broadcaster@.subscriptions.len(),
            before.egress_tx.taps() ==> {
                let at = before.tap_at@;
                let was = before.broadcaster@.subscriptions[at];
                let now = self.broadcaster@.subscriptions[at];
                &&& now.start == was.start
                &&& now.received == was.received
                &&& now.attached == was.attached || before.egress_rx is None
                &&& before.tap_finished@ ==> now.delivered == was.delivered
            },
        ensures
            self.tap_log(),
    {
        assert forall|i: int| 0 <= i < self.tapped@.len() implies cloned(
            self.broadcaster@.history[i],
            #[trigger] self.tapped@[i],
        ) by {
            assert(cloned(before.broadcaster@.history[i], before.tapped@[i]));
            assert(before.broadcaster@.history[i] == self.broadcaster@.history[i]);
        }
    }

    /// Lets member `j` take in everything that waits for it. Where its
    /// consumer fails, and where the stream has ended, the member gets its
    /// result and its receiver is given up.
    fn drain_seat(&mut self, j: usize)
        requires
            old(self).wf(),
            j < old(self).seats@.len(),
        ensures
            final(self).wf(),
            old(self).steps_to(final(self), j as int),
            old(self).seats@[j as int].result is Some ==> final(self).seats@[j as int] == old(
                self,
            ).seats@[j as int],
    {
        let consumers = self.consumers;
        proof {
            assert(self.seat_wf(j as int));
            assert(self.seat_log(j as int));
        }
        let ghost start = *self;
        let seat = &mut self.seats[j];
        let taken = seat.rx.take();
        let mut rx = match taken {
            Some(rx) => rx,
            None => {
                proof {
                    assert forall|k: int| 0 <= k < self.seats@.len() implies self.seat_wf(k) by {
                        assert(start.seat_wf(k));
                    }
                    assert forall|k: int| 0 <= k < self.seats@.len() implies self.seat_log(k) by {
                        assert(start.seat_log(k));
                    }
                    assert forall|i: int|
                        self.broadcaster@.has(i) && (
                        #[trigger] self.broadcaster@.subscriptions[i]).connected implies self.held(
                        i,
                    ) by {
                        assert(start.held(i));
                    }
                    assert forall|i: int| start.broadcaster@.has(i) implies !(start.owner@[i] == j
                        && (#[trigger] self.broadcaster@.subscriptions[i]).connected) by {
                        if start.broadcaster@.subscriptions[i].connected {
                            assert(start.held(i));
                        }
                    }
                }
                return ;
            },
        };
        let seat = &mut self.seats[j];
        let mut state = match seat.state.take() {
            Some(state) => state,
            None => {
                proof {
                    assert(false);
                }
                return ;
            },
        };
        let consumer = match &consumers.members()[j] {
            ConsumerOrResolved::Consumer(consumer) => consumer,
            ConsumerOrResolved::ConsumerOutput(_) => {
                proof {
                    assert(false);
                }
                return ;
            },
        };
        let ghost at = rx.index() as int;
        proof {
            assert forall|k: int| 0 <= k < self.seats@.len() && k != j implies self.seat_wf(k) by {
                assert(start.seat_wf(k));
            }
            assert forall|k: int| 0 <= k < self.seats@.len() implies self.seat_log(k) by {
                assert(start.seat_log(k));
            }
            assert forall|i: int|
                self.broadcaster@.has(i) && i != at && (
                #[trigger] self.broadcaster@.subscriptions[i]).connected implies self.held(i) by {
                assert(start.held(i));
            }
        }
        loop
            invariant
                self.wf_without(j as int, at),
                rx.index() == at,
                start == *old(self),
                consumers == self.consumers,
                consumers@[j as int] == ConsumerOrResolved::Consumer(*consumer),
                start.wf(),
                start.owner@[at] == j,
                start.broadcaster@.has(at),
                start.broadcaster@.subscriptions[at].connected,
                start.seats@[j as int].result is None,
                self.consumers == start.consumers,
                self.egress_tx == start.egress_tx,
                self.egress_rx == start.egress_rx,
                self.owner@ == start.owner@,
                self.ended@ == start.ended@,
                self.hint@ == start.hint@,
                self.tapped@ == start.tapped@,
                self.tap_finished@ == start.tap_finished@,
                self.tap_refused@ == start.tap_refused@,
                self.tap_at@ == start.tap_at@,
                reached(consumer, self.hint@, self.seats@[j as int].handed@, state),
                self.seats@.len() == start.seats@.len(),
                self.seats@[j as int].at@ == start.seats@[j as int].at@,
                self.broadcaster@.history == start.broadcaster@.history,
                self.broadcaster@.buffer_size == start.broadcaster@.buffer_size,
                start.broadcaster@.cancelled ==> self.broadcaster@.cancelled,
                self.broadcaster@.subscriptions.len() == start.broadcaster@.subscriptions.len(),
                forall|i: int|
                    start.broadcaster@.has(i) ==> {
                        &&& (#[trigger] self.broadcaster@.subscriptions[i]).attached
                            == start.broadcaster@.subscriptions[i].attached
                        &&& self.broadcaster@.subscriptions[i].delivered
                            == start.broadcaster@.subscriptions[i].delivered
                        &&& i != at ==> self.broadcaster@.subscriptions[i]
                            == start.broadcaster@.subscriptions[i]
                    },
                forall|k: int|
                    0 <= k < self.seats@.len() && k != j ==> #[trigger] self.seats@[k]
                        == start.seats@[k],
            decreases self.broadcaster@.subscriptions[at].waiting(),
        {
            let ghost before = *self;
            proof {
                before.broadcaster.lemma_wf_inv();
                assert(before.seat_log(j as int));
                assert(before.broadcaster@.subscriptions[at].received
                    <= before.broadcaster@.subscriptions[at].delivered);
            }
            match rx.recv(&mut self.broadcaster) {
                RecvResult::Item(item) => {
                    let ghost received = self.broadcaster@;
                    let ghost given = item;
                    proof {
                        assert(before.broadcaster@.next(at) is Item);
                        assert(received == before.broadcaster@.recv(at));
                        assert(received.subscriptions[at].waiting()
                            < before.broadcaster@.subscriptions[at].waiting());
                        assert(cloned(
                            before.broadcaster@.history[before.seats@[j as int].handed@.len() as int],
                            given,
                        ));
                    }
                    let mut cancellation_token = self.broadcaster.get_cancellation_token().clone();
                    let ghost prior = state;
                    let outcome = consumer.consume_from_fanout(state, item, &mut cancellation_token);
                    self.broadcaster.observe(&cancellation_token);
                    let seat = &mut self.seats[j];
                    seat.handed = Ghost(seat.handed@.push(given));
                    proof {
                        let handed = self.seats@[j as int].handed@;
                        assert(handed.drop_last() =~= before.seats@[j as int].handed@);
                        assert(handed.last() == given);
                        if before.broadcaster@.cancelled {
                            let (member, i) = before.trip@;
                            assert(before.trip_log());
                            if member == j {
                                assert(handed.take(i + 1) =~= before.seats@[j as int].handed@.take(i + 1));
                            }
                        } else if self.broadcaster@.cancelled {
                            self.trip@ = (j as int, handed.len() - 1);
                            assert(handed.take(handed.len() as int) =~= handed);
                            assert(consumer.consumed(prior, given, false, true, outcome));
                            assert(tripped(consumer, self.hint@, handed));
                        }
                        assert(self.trip_log());
                        assert(reached(consumer, self.hint@, handed.drop_last(), prior));
                        if outcome is Ok {
                            assert(reached(consumer, self.hint@, handed, outcome->Ok_0));
                        } else {
                            let failure = Err::<Consumer::Output, Consumer::Error>(outcome->Err_0);
                            assert(outcome == Err::<Consumer::State, Consumer::Error>(failure->Err_0));
                            assert(gave(consumer, self.hint@, handed, false, failure));
                        }
                        assert(self.broadcaster@.subscriptions == received.subscriptions);
                        assert forall|i: int|
                            0 <= i < self.seats@[j as int].handed@.len() implies cloned(
                            self.broadcaster@.history[i],
                            #[trigger] self.seats@[j as int].handed@[i],
                        ) by {
                            if i < before.seats@[j as int].handed@.len() {
                                assert(cloned(
                                    before.broadcaster@.history[i],
                                    before.seats@[j as int].handed@[i],
                                ));
                            }
                        }
                    }
                    match outcome {
                        Ok(next) => {
                            state = next;
                            proof {
                                self.lemma_others_kept(&before, j as int, at);
                                assert(self.seat_log(j as int));
                            }
                        },
                        Err(error) => {
                            rx.disconnect(&mut self.broadcaster);
                            let seat = &mut self.seats[j];
                            seat.result = Some(Err(error));
                            proof {
                                self.lemma_others_kept(&before, j as int, at);
                                assert(self.seat_wf(j as int));
                                assert(self.seat_log(j as int));
                                start.lemma_steps_to(self, j as int, at);
                            }
                            return ;
                        },
                    }
                },
                RecvResult::Pending => {
                    let seat = &mut self.seats[j];
                    seat.rx = Some(rx);
                    seat.state = Some(state);
                    proof {
                        self.lemma_others_kept(&before, j as int, at);
                        assert(self.seat_wf(j as int));
                        assert(self.seat_log(j as int));
                        assert(self.held(at));
                        if before.broadcaster@.next(at) is Pending {
                            assert(self.broadcaster@.subscriptions[at].waiting() == 0);
                        }
                        start.lemma_steps_to(self, j as int, at);
                    }
                    return ;
                },
                RecvResult::Closed => {
                    let ghost last = state;
                    let result = consumer.finish(state);
                    rx.disconnect(&mut self.broadcaster);
                    let seat = &mut self.seats[j];
                    seat.result = Some(result);
                    seat.finished = Ghost(true);
                    proof {
                        assert(reached(consumer, self.hint@, self.seats@[j as int].handed@, last));
                        assert(gave(consumer, self.hint@, self.seats@[j as int].handed@, true, result));
                        assert(before.broadcaster@.subscriptions[at].waiting() == 0);
                        self.lemma_others_kept(&before, j as int, at);
                        assert(self.seat_wf(j as int));
                        assert(self.seat_log(j as int));
                        start.lemma_steps_to(self, j as int, at);
                    }
                    return ;
                },
            }
        }
    }

    /// What a step of member `j`, whose subscription is `at`, keeps of the
    /// other members: a step that leaves their seats, their subscriptions and
    /// the history as they were.
    proof fn lemma_others_kept(&self, before: &Self, j: int, at: int)
        requires
            forall|k: int| 0 <= k < before.seats@.len() && k != j ==> before.seat_wf(k),
            forall|k: int| 0 <= k < before.seats@.len() && k != j ==> before.seat_log(k),
            forall|i: int|
                before.broadcaster@.has(i) && i != at && (
                #[trigger] before.broadcaster@.subscriptions[i]).connected ==> before.held(i),
            before.broadcaster@.has(at),
            before.owner@[at] == j,
            0 <= j < before.seats@.len(),
            before.seats@[j].rx is None,
            self.consumers == before.consumers,
            self.hint@ == before.hint@,
            self.owner@ == before.owner@,
            self.ended@ == before.ended@,
            self.egress_rx == before.egress_rx,
            self.seats@.len() == before.seats@.len(),
            forall|k: int|
                0 <= k < before.seats@.len() && k != j ==> #[trigger] self.seats@[k] == before.seats@[k],
            self.broadcaster@.history == before.broadcaster@.history,
            self.broadcaster@.subscriptions.len() == before.broadcaster@.subscriptions.len(),
            forall|i: int|
                before.broadcaster@.has(i) && i != at ==> #[trigger] self.broadcaster@.subscriptions[i]
                    == before.broadcaster@.subscriptions[i],
        ensures
            forall|k: int| 0 <= k < self.seats@.len() && k != j ==> self.seat_wf(k),
            forall|k: int| 0 <= k < self.seats@.len() && k != j ==> self.seat_log(k),
            forall|i: int|
                self.broadcaster@.has(i) && i != at && (
                #[trigger] self.broadcaster@.subscriptions[i]).connected ==> self.held(i),
    {
        assert forall|k: int| 0 <= k < self.seats@.len() && k != j implies self.seat_wf(k) by {
            assert(before.seat_wf(k));
        }
        assert forall|k: int| 0 <= k < self.seats@.len() && k != j implies self.seat_log(k) by {
            assert(before.seat_log(k));
            assert(before.seat_wf(k));
            self.lemma_seat_log_kept(before, k);
        }
        assert forall|i: int|
            self.broadcaster@.has(i) && i != at && (
            #[trigger] self.broadcaster@.subscriptions[i]).connected implies self.held(i) by {
            assert(before.held(i));
        }
    }

    /// What is kept of the seats by a step of the egress tap: a step that
    /// leaves the seats and the history as they were, and every subscription
    /// but that of the tap.
    proof fn lemma_seats_kept(&self, before: &Self, tap: int)
        requires
            forall|k: int| 0 <= k < before.seats@.len() ==> before.seat_wf(k),
            forall|k: int| 0 <= k < before.seats@.len() ==> before.seat_log(k),
            before.broadcaster@.has(tap),
            before.owner@[tap] == -1,
            self.seats@ == before.seats@,
            self.consumers == before.consumers,
            self.hint@ == before.hint@,
            self.owner@ == before.owner@,
            self.ended@ == before.ended@,
            self.broadcaster@.history == before.broadcaster@.history,
            self.broadcaster@.subscriptions.len() == before.broadcaster@.subscriptions.len(),
            forall|i: int|
                before.broadcaster@.has(i) && i != tap ==> #[trigger] self.broadcaster@.subscriptions[i]
                    == before.broadcaster@.subscriptions[i],
        ensures
            forall|k: int| 0 <= k < self.seats@.len() ==> self.seat_wf(k),
            forall|k: int| 0 <= k < self.seats@.len() ==> self.seat_log(k),
    {
        assert forall|k: int| 0 <= k < self.seats@.len() implies self.seat_wf(k) by {
            assert(before.seat_wf(k));
        }
        assert forall|k: int| 0 <= k < self.seats@.len() implies self.seat_log(k) by {
            assert(before.seat_log(k));
            self.lemma_seat_log_kept(before, k);
        }
    }

    /// Forwards to the egress side everything that waits for it. Where the
    /// egress side no longer accepts anything, and where the stream has ended,
    /// the tap is given up.
    fn drain_egress(&mut self)
        requires
            old(self).wf(),
        ensures
            final(self).wf(),
            old(self).steps_to(final(self), -1),
    {
        let ghost start = *self;
        proof {
            assert(self.tap_log());
        }
        let egress_tx = self.egress_tx;
        let taken = self.egress_rx.take();
        let mut rx = match taken {
            Some(rx) => rx,
            None => {
                proof {
                    assert forall|k: int| 0 <= k < self.seats@.len() implies self.seat_wf(k) by {
                        assert(start.seat_wf(k));
                    }
                    assert forall|k: int| 0 <= k < self.seats@.len() implies self.seat_log(k) by {
                        assert(start.seat_log(k));
                    }
                    assert forall|i: int|
                        self.broadcaster@.has(i) && (
                        #[trigger] self.broadcaster@.subscriptions[i]).connected implies self.held(
                        i,
                    ) by {
                        assert(start.held(i));
                    }
                    assert forall|i: int| start.broadcaster@.has(i) implies !(start.owner@[i] == -1
                        && (#[trigger] self.broadcaster@.subscriptions[i]).connected) by {
                        if start.broadcaster@.subscriptions[i].connected {
                            assert(start.held(i));
                        }
                    }
                }
                return ;
            },
        };
        let ghost at = rx.index() as int;
        proof {
            assert forall|k: int| 0 <= k < self.seats@.len() implies self.seat_wf(k) by {
                assert(start.seat_wf(k));
            }
            assert forall|k: int| 0 <= k < self.seats@.len() implies self.seat_log(k) by {
                assert(start.seat_log(k));
            }
            assert forall|i: int|
                self.broadcaster@.has(i) && i != at && (
                #[trigger] self.broadcaster@.subscriptions[i]).connected implies self.held(i) by {
                assert(start.held(i));
            }
        }
        loop
            invariant
                self.wf_untapped(at),
                rx.index() == at,
                start == *old(self),
                egress_tx == self.egress_tx,
                start.wf(),
                start.owner@[at] == -1,
                start.broadcaster@.has(at),
                start.broadcaster@.subscriptions[at].connected,
                self.consumers == start.consumers,
                self.egress_tx == start.egress_tx,
                self.owner@ == start.owner@,
                self.ended@ == start.ended@,
                self.hint@ == start.hint@,
                self.tap_at@ == start.tap_at@,
                self.seats@ == start.seats@,
                self.broadcaster@.history == start.broadcaster@.history,
                self.broadcaster@.buffer_size == start.broadcaster@.buffer_size,
                self.broadcaster@.cancelled == start.broadcaster@.cancelled,
                self.broadcaster@.subscriptions.len() == start.broadcaster@.subscriptions.len(),
                forall|i: int|
                    start.broadcaster@.has(i) ==> {
                        &&& (#[trigger] self.broadcaster@.subscriptions[i]).attached
                            == start.broadcaster@.subscriptions[i].attached
                        &&& self.broadcaster@.subscriptions[i].delivered
                            == start.broadcaster@.subscriptions[i].delivered
                        &&& i != at ==> self.broadcaster@.subscriptions[i]
                            == start.broadcaster@.subscriptions[i]
                    },
            decreases self.broadcaster@.subscriptions[at].waiting(),
        {
            let ghost before = *self;
            proof {
                before.broadcaster.lemma_wf_inv();
                assert(before.tap_log());
                assert(before.broadcaster@.subscriptions[at].received
                    <= before.broadcaster@.subscriptions[at].delivered);
            }
            match rx.recv(&mut self.broadcaster) {
                RecvResult::Item(chunk) => {
                    let ghost given = chunk;
                    let sent = egress_tx.send(Egress::Item::from_broadcast_item(chunk));
                    proof {
                        assert(before.broadcaster@.next(at) is Item);
                        assert(self.broadcaster@ == before.broadcaster@.recv(at));
                        assert(self.broadcaster@.subscriptions[at].waiting()
                            < before.broadcaster@.subscriptions[at].waiting());
                        assert(cloned(before.broadcaster@.history[before.tapped@.len() as int], given));
                        assert(sent_as(egress_tx, given, sent));
                        self.tapped@ = self.tapped@.push(given);
                        self.tap_refused@ = sent is Failure;
                        assert forall|i: int| 0 <= i < self.tapped@.len() implies cloned(
                            self.broadcaster@.history[i],
                            #[trigger] self.tapped@[i],
                        ) by {
                            if i < before.tapped@.len() {
                                assert(cloned(before.broadcaster@.history[i], before.tapped@[i]));
                            }
                        }
                        assert(tapped_as(egress_tx, self.tapped@, self.tap_refused@)) by {
                            assert forall|i: int| 0 <= i < self.tapped@.len() implies sent_as(
                                egress_tx,
                                #[trigger] self.tapped@[i],
                                if self.tap_refused@ && i == self.tapped@.len() - 1 {
                                    crate::channel::sender::Result::Failure
                                } else {
                                    crate::channel::sender::Result::Success
                                },
                            ) by {
                                if i < before.tapped@.len() {
                                    assert(self.tapped@[i] == before.tapped@[i]);
                                }
                            }
                        }
                        self.lemma_seats_kept(&before, at);
                        assert forall|i: int|
                            self.broadcaster@.has(i) && i != at && (
                            #[trigger] self.broadcaster@.subscriptions[i]).connected implies self.held(
                            i,
                        ) by {
                            assert(before.held(i));
                        }
                    }
                    match sent {
                        crate::channel::sender::Result::Success => {},
                        crate::channel::sender::Result::Failure => {
                            let ghost refused = *self;
                            rx.disconnect(&mut self.broadcaster);
                            proof {
                                self.lemma_seats_kept(&refused, at);
                                assert forall|i: int|
                                    self.broadcaster@.has(i) && (
                                    #[trigger] self.broadcaster@.subscriptions[i]).connected implies self.held(
                                    i,
                                ) by {
                                    assert(refused.held(i));
                                }
                                start.lemma_steps_to(self, -1, at);
                            }
                            return ;
                        },
                    }
                },
                RecvResult::Pending => {
                    self.egress_rx = Some(rx);
                    proof {
                        self.lemma_seats_kept(&before, at);
                        assert forall|i: int|
                            self.broadcaster@.has(i) && (
                            #[trigger] self.broadcaster@.subscriptions[i]).connected implies self.held(
                            i,
                        ) by {
                            if i != at {
                                assert(before.held(i));
                            }
                        }
                        if before.broadcaster@.next(at) is Pending {
                            assert(self.broadcaster@.subscriptions[at].waiting() == 0);
                        }
                        start.lemma_steps_to(self, -1, at);
                    }
                    return ;
                },
                RecvResult::Closed => {
                    rx.disconnect(&mut self.broadcaster);
                    proof {
                        assert(before.broadcaster@.subscriptions[at].waiting() == 0);
                        self.tap_finished@ = true;
                        self.lemma_seats_kept(&before, at);
                        assert forall|i: int|
                            self.broadcaster@.has(i) && (
                            #[trigger] self.broadcaster@.subscriptions[i]).connected implies self.held(
                            i,
                        ) by {
                            assert(before.held(i));
                        }
                        start.lemma_steps_to(self, -1, at);
                    }
                    return ;
                },
            }
        }
    }

    /// Lets every member, and then the egress tap, take in everything that
    /// waits for it: afterwards every queue whose receiver is alive is empty.
    fn pump(&mut self)
        requires
            old(self).wf(),
        ensures
            final(self).wf(),
            old(self).follows(final(self)),
            final(self).quiet(),
    {
        let mut j: usize = 0;
        while j < self.seats.len()
            invariant
                j <= self.seats@.len(),
                self.wf(),
                old(self).wf(),
                old(self).follows(self),
                forall|i: int|
                    self.broadcaster@.has(i) && (
                    #[trigger] self.broadcaster@.subscriptions[i]).connected && 0 <= self.owner@[i]
                        < j ==> {
                        &&& self.broadcaster@.subscriptions[i].waiting() == 0
                        &&& self.broadcaster@.subscriptions[i].attached
                    },
            decreases self.seats@.len() - j,
        {
            self.drain_seat(j);
            j += 1;
        }
        self.drain_egress();
        proof {
            assert forall|i: int|
                self.broadcaster@.has(i) && (
                #[trigger] self.broadcaster@.subscriptions[i]).connected implies {
                &&& self.broadcaster@.subscriptions[i].waiting() == 0
                &&& self.broadcaster@.subscriptions[i].attached
            } by {
                assert(self.held(i));
            }
        }
    }

    /// Closes the stream and lets every member take in what still waits for
    /// it: afterwards every member has its result. A member that had its
    /// result before keeps it, and the history is what it was. A member whose
    /// consumer is told here that the stream has ended was handed every item
    /// of the history before.
    pub fn close(&mut self)
        requires
            old(self).wf(),
        ensures
            final(self).wf(),
            final(self).ended(),
            final(self).consumers() == old(self).consumers(),
            final(self).hint() == old(self).hint(),
            forall|j: int|
                0 <= j < old(self).consumers().len() && #[trigger] old(self).resolved(j)
                    ==> final(self).result(j) == old(self).result(j),
            final(self).broadcaster().history == old(self).broadcaster().history,
            old(self).broadcaster().cancelled ==> final(self).broadcaster().cancelled,
            forall|j: int| 0 <= j < final(self).consumers().len() ==> #[trigger] final(self).resolved(j),
            !old(self).ended() ==> forall|j: int|
                0 <= j < final(self).consumers().len() && !old(self).resolved(j)
                    && #[trigger] final(self).finished(j) ==> final(self).handed(j).len()
                    == final(self).broadcaster().history.len(),
            !old(self).ended() && !old(self).tap_finished() && final(self).tap_finished()
                ==> final(self).tapped().len() == final(self).broadcaster().history.len(),
            final(self).egress_tx() == old(self).egress_tx(),
            !old(self).ended() ==> forwarded(final(self).egress_tx(), final(self).broadcaster().history),
    {
        self.broadcaster.close();
        proof {
            self.ended@ = true;
            old(self).broadcaster.lemma_wf_inv();
            assert forall|k: int| 0 <= k < self.seats@.len() implies self.seat_wf(k) by {
                assert(old(self).seat_wf(k));
            }
            assert forall|k: int| 0 <= k < self.seats@.len() implies self.seat_log(k) by {
                assert(old(self).seat_log(k));
            }
            assert forall|i: int|
                self.broadcaster@.has(i) && (
                #[trigger] self.broadcaster@.subscriptions[i]).connected implies self.held(i) by {
                assert(old(self).held(i));
            }
        }
        let ghost closed = *self;
        self.pump();
        proof {
            assert forall|k: int| 0 <= k < self.seats@.len() implies (#[trigger] self.seats@[k]).result
                is Some by {
                assert(self.seat_wf(k));
                if self.seats@[k].rx is Some {
                    let at = self.seats@[k].rx->Some_0.index() as int;
                    assert(self.broadcaster@.subscriptions[at].attached);
                    assert(closed.broadcaster@.subscriptions[at].attached);
                }
            }
            if !old(self).ended() && !old(self).tap_finished() && self.tap_finished() {
                assert(old(self).tap_log());
                assert(closed.tap_log());
                assert(self.tap_log());
                let at = old(self).tap_at@;
                let was = old(self).broadcaster@.subscriptions[at];
                assert(old(self).egress_rx is Some);
                assert(was.live());
                assert(was.start + was.delivered == old(self).broadcaster@.history.len());
                assert(closed.broadcaster@.subscriptions[at].delivered == was.delivered);
                assert(self.broadcaster@.subscriptions[at].delivered == was.delivered);
            }
            if !old(self).ended() && self.egress_tx.taps() {
                assert(old(self).tap_log());
                assert(self.tap_log());
                assert(self.tap_end());
                if self.egress_rx is Some {
                    let at = self.egress_rx->Some_0.index() as int;
                    assert(self.broadcaster@.subscriptions[at].attached);
                    assert(closed.broadcaster@.subscriptions[at].attached);
                }
                assert(tapped_as(self.egress_tx, self.tapped@, self.tap_refused@));
            }
            if !old(self).ended() {
                assert forall|j: int|
                    0 <= j < self.consumers().len() && !old(self).resolved(j)
                        && #[trigger] self.finished(j) implies self.handed(j).len()
                    == self.broadcaster().history.len() by {
                    assert(old(self).seat_wf(j));
                    assert(old(self).seat_log(j));
                    assert(self.seat_log(j));
                    let at = old(self).seats@[j].at@;
                    assert(closed.seats@[j].at@ == at);
                    assert(self.seats@[j].at@ == at);
                    let was = old(self).broadcaster@.subscriptions[at];
                    assert(was.live());
                    assert(was.start + was.delivered == old(self).broadcaster@.history.len());
                    assert(closed.broadcaster@.subscriptions[at].delivered == was.delivered);
                    assert(self.broadcaster@.subscriptions[at].delivered == was.delivered);
                }
            }
        }
    }

    /// Closes the stream, lets every member take in what still waits for it,
    /// and hands out the results of the members, in their order. A member
    /// that had its result before keeps it. The result of a member that ran
    /// is its own consumer's: what that consumer, started with the size of
    /// the attempt, gives on the items that it was handed. Where the stream
    /// was still open, those items are the history from its first item on,
    /// and all of it for a consumer that was told that the stream has ended;
    /// and the egress side was sent every item of the history, up to the
    /// first that it refused.
    pub fn join(self) -> (output: Vec<Result<Consumer::Output, Consumer::Error>>)
        requires
            self.wf(),
        ensures
            output@.len() == self.consumers().len(),
            forall|j: int|
                0 <= j < output@.len() && self.resolved(j) ==> #[trigger] output@[j] == self.result(j),
            !self.ended() ==> forall|j: int|
                0 <= j < output@.len() && self.consumers()[j] is Consumer ==> given_by(
                    &self.consumers()[j]->Consumer_0,
                    self.hint(),
                    self.broadcaster().history,
                    #[trigger] output@[j],
                ),
            !self.ended() ==> forwarded(self.egress_tx(), self.broadcaster().history),
    {
        let mut running = self;
        running.close();
        let ghost seats = running.seats@;
        let ghost closed = running;
        proof {
            assert forall|k: int| 0 <= k < seats.len() implies (#[trigger] seats[k]).result is Some by {
                assert(running.resolved(k));
            }
            if !self.ended() {
                assert forall|k: int|
                    0 <= k < seats.len() && self.consumers()[k] is Consumer implies given_by(
                    &self.consumers()[k]->Consumer_0,
                    self.hint(),
                    self.broadcaster().history,
                    (#[trigger] seats[k]).result->Some_0,
                ) by {
                    assert(closed.resolved(k));
                    closed.lemma_result(k);
                    closed.lemma_handed(k);
                    assert(self.seat_log(k));
                    assert(gave(
                        &self.consumers()[k]->Consumer_0,
                        self.hint(),
                        closed.handed(k),
                        closed.finished(k),
                        seats[k].result->Some_0,
                    ));
                }
            }
        }
        let mut output: Vec<Result<Consumer::Output, Consumer::Error>> = Vec::new();
        for seat in iter: running.seats
            invariant
                iter.seq() == seats,
                output@.len() == iter.index(),
                forall|k: int| 0 <= k < seats.len() ==> (#[trigger] seats[k]).result is Some,
                forall|k: int| 0 <= k < output@.len() ==> #[trigger] output@[k] == seats[k].result->Some_0,
                !self.ended() ==> forall|k: int|
                    0 <= k < seats.len() && self.consumers()[k] is Consumer ==> given_by(
                        &self.consumers()[k]->Consumer_0,
                        self.hint(),
                        self.broadcaster().history,
                        (#[trigger] seats[k]).result->Some_0,
                    ),
        {
            if let Some(result) = seat.result {
                output.push(result);
            }
        }
        output
    }
}

impl<'a, Consumer: FanoutConsumer, Egress: EgressSender> Broadcast for RunningFanout<
    'a,
    Consumer,
    Egress,
> where
    Consumer::Item: Clone,
    Consumer::Output: Clone,
    Egress::Item: EgressItem<Consumer::Item>,
 {
    type Item = Consumer::Item;

    open spec fn wf(&self) -> bool {
        RunningFanout::wf(self)
    }

    open spec fn history(&self) -> Seq<Consumer::Item> {
        self.broadcaster().history
    }

    open spec fn cancelled(&self) -> bool {
        self.broadcaster().cancelled
    }

    open spec fn later(&self, after: &Self) -> bool {
        self.carried_on(after)
    }

    proof fn lemma_later_reflexive(&self) {
    }

    proof fn lemma_later_transitive(&self, then: &Self, after: &Self) {
    }

    /// Hands `item` to every member that still drains, and to the egress tap.
    /// Where some queue has no room, the members run first, until there is
    /// room again; a member may trip the token while it runs. The broadcast
    /// fails if and only if the token is tripped by then. Where the token is
    /// not tripped and every queue has room, nobody runs: the broadcast
    /// succeeds, and the broadcaster does what a broadcast with pruning does.
    fn broadcast(&mut self, item: Consumer::Item) -> (result: Result<(), BroadcastError>)
        ensures
            !old(self).broadcaster().cancelled && old(self).broadcaster().ready() ==> {
                &&& result is Ok
                &&& final(self).broadcaster() == old(self).broadcaster().broadcast_and_prune(item)
            },
            result is Err <==> final(self).broadcaster().cancelled,
            final(self).broadcaster().buffer_size == old(self).broadcaster().buffer_size,
    {
        if self.broadcaster.get_cancellation_token().is_cancelled() {
            return Err(BroadcastError::ReceiverFailure);
        }
        if !self.broadcaster.is_ready() {
            self.pump();
        }
        let ghost before = *self;
        let result = self.broadcaster.broadcast_and_prune(item);
        proof {
            assert forall|i: int| before.broadcaster@.has(i) implies {
                &&& (#[trigger] self.broadcaster@.subscriptions[i]).connected
                    == before.broadcaster@.subscriptions[i].connected
            } by {
                assert(self.broadcaster@.subscriptions[i] == before.broadcaster@.subscriptions[i]
                    || self.broadcaster@.subscriptions[i]
                    == before.broadcaster@.subscriptions[i].offer().pruned());
            }
            assert forall|k: int| 0 <= k < self.seats@.len() implies self.seat_wf(k) by {
                assert(before.seat_wf(k));
            }
            assert forall|k: int| 0 <= k < self.seats@.len() implies self.seat_log(k) by {
                assert(before.seat_log(k));
                assert(before.seat_wf(k));
                if before.consumers@[k] is Consumer {
                    let at = before.seats@[k].at@;
                    assert(self.broadcaster@.subscriptions[at] == before.broadcaster@.subscriptions[at]
                        || self.broadcaster@.subscriptions[at]
                        == before.broadcaster@.subscriptions[at].offer().pruned());
                    if before.broadcaster@.subscriptions[at].connected {
                        assert(before.held(at));
                    }
                }
                self.lemma_seat_log_kept(&before, k);
            }
            assert forall|i: int|
                self.broadcaster@.has(i) && (
                #[trigger] self.broadcaster@.subscriptions[i]).connected implies self.held(i) by {
                assert(before.held(i));
            }
        }
        result
    }
}

} // verus!
