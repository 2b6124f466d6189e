//! One attempt at fanning a source out to a group of consumers.

use crate::broadcaster::{seen, Seen};
use crate::fanout::consumer::{
    given_by, tripped_by, ConsumerOrResolved, FanoutConsumer, FanoutConsumerGroup,
};
use crate::fanout::driver::StreamFanoutDriver;
use crate::fanout::egress::{forwarded, EgressItem, EgressSender};
use crate::fanout::running::RunningFanout;
use crate::fanout::source::FanoutSource;
use vstd::prelude::*;

pub mod consumer;
pub mod driver;
pub mod egress;
pub mod retry;
pub mod running;
pub mod source;

verus! {

/// The state of an attempt that has yet to run.
pub struct Ready;

/// The state of an attempt that has run.
pub struct Used;

/// An attempt that has yet to run.
pub type ReadyStreamFanout<Source, Consumers> = StreamFanout<Source, Consumers, Ready>;

/// An attempt that has run.
pub type UsedStreamFanout<Source, Consumers> = StreamFanout<Source, Consumers, Used>;

/// One attempt: a source and the consumers that it is fanned out to.
pub struct StreamFanout<Source, Consumers, State> {
    source: Source,
    consumers: Consumers,
    state: core::marker::PhantomData<State>,
}

impl<Source, Consumers, State> StreamFanout<Source, Consumers, State> {
    /// The source of the attempt.
    pub closed spec fn source(&self) -> Source {
        self.source
    }

    /// The consumers of the attempt.
    pub closed spec fn consumers(&self) -> Consumers {
        self.consumers
    }

    /// The source and the consumers.
    pub fn into_parts(self) -> (parts: (Source, Consumers))
        ensures
            parts == (self.source(), self.consumers()),
    {
        (self.source, self.consumers)
    }
}

impl<Source, Consumers> StreamFanout<Source, Consumers, Ready> {
    /// An attempt that is ready to run.
    pub fn new(source: Source, consumers: Consumers) -> (fanout: Self)
        ensures
            fanout.source() == source,
            fanout.consumers() == consumers,
    {
        StreamFanout { source, consumers, state: core::marker::PhantomData }
    }

    /// The driver that runs the attempt, once it has been told the room of the
    /// queues.
    pub fn into_driver(self) -> (driver: StreamFanoutDriver<Source, Consumers, (), ()>)
        ensures
            driver.stream_fanout() == self,
    {
        StreamFanoutDriver::new(self)
    }

    /// The same attempt, marked as one that has run.
    pub(crate) fn into_used(self) -> (used: StreamFanout<Source, Consumers, Used>)
        ensures
            used.source() == self.source(),
            used.consumers() == self.consumers(),
    {
        StreamFanout { source: self.source, consumers: self.consumers, state: core::marker::PhantomData }
    }
}

/// What the output of a group owes to its members: one result for each, in
/// their order, and for a member that was resolved beforehand its output.
pub open spec fn output_of<Consumer: FanoutConsumer>(
    members: Seq<ConsumerOrResolved<Consumer>>,
    output: Seq<Result<Consumer::Output, Consumer::Error>>,
) -> bool where Consumer::Output: Clone {
    &&& output.len() == members.len()
    &&& forall|j: int|
        0 <= j < members.len() ==> (#[trigger] members[j] matches ConsumerOrResolved::ConsumerOutput(
            kept,
        ) ==> output[j] matches Ok(given) && cloned(kept, given))
}

/// What the output of an attempt owes to its members, to the size that the
/// source announced and to the items `history` that were broadcast: one
/// result for each member, in their order; for a member that was resolved
/// beforehand its output; and for a member that ran, the result of its own
/// consumer, started with that size and handed those items.
pub open spec fn attempt_output<Consumer: FanoutConsumer>(
    members: Seq<ConsumerOrResolved<Consumer>>,
    content_length: Option<u64>,
    history: Seq<Consumer::Item>,
    output: Seq<Result<Consumer::Output, Consumer::Error>>,
) -> bool where Consumer::Output: Clone, Consumer::Item: Clone {
    &&& output_of(members, output)
    &&& forall|j: int|
        0 <= j < members.len() && (#[trigger] members[j]) is Consumer ==> given_by(
            &members[j]->Consumer_0,
            content_length,
            history,
            output[j],
        )
}

/// What an attempt gives once its source has announced `content_length` and
/// its push has broadcast `history` and given `push`: the error of the push
/// where it failed, and else an output that is what [`attempt_output`] says
/// for that size and those items.
pub open spec fn attempted<Consumer: FanoutConsumer, Error>(
    members: Seq<ConsumerOrResolved<Consumer>>,
    content_length: Option<u64>,
    history: Seq<Consumer::Item>,
    push: Result<(), Error>,
    result: Result<Vec<Result<Consumer::Output, Consumer::Error>>, Error>,
) -> bool where Consumer::Output: Clone, Consumer::Item: Clone {
    match push {
        Err(error) => result == Err::<Vec<Result<Consumer::Output, Consumer::Error>>, Error>(error),
        Ok(_) => result matches Ok(output) && attempt_output(
            members,
            content_length,
            history,
            output@,
        ),
    }
}

/// Whether `result` may be what an attempt gives whose source, having
/// announced `content_length`, pushes from the state `source` and ends as
/// `after`. The source pushed into a broadcast that had delivered nothing
/// and was not cancelled. Where the token is tripped in the end, the
/// consumer of some member has tripped it, and nobody else. The egress side
/// was forwarded what was broadcast. The result is what [`attempted`] says
/// for what the push gave.
pub open spec fn pushed_into<
    Source: FanoutSource,
    Consumer: FanoutConsumer<Item = Source::Item>,
    Egress: EgressSender,
>(
    source: Source,
    after: Source,
    members: Seq<ConsumerOrResolved<Consumer>>,
    egress_tx: &Egress,
    content_length: Option<u64>,
    result: Result<Vec<Result<Consumer::Output, Consumer::Error>>, Source::Error>,
) -> bool where Consumer::Output: Clone, Egress::Item: EgressItem<Source::Item> {
    exists|to: Seen<Source::Item>, push: Result<(), Source::Error>|
        {
            &&& #[trigger] source.pushed(
                after,
                Seen { history: Seq::<Source::Item>::empty(), cancelled: false },
                to,
                push,
            )
            &&& to.cancelled ==> tripped_by(members, content_length, to.history)
            &&& forwarded(egress_tx, to.history)
            &&& attempted(members, content_length, to.history, push, result)
        }
}

/// Whether `result` may be what the attempt of `source` and `members`, with
/// the egress sender `egress_tx`, gives when it is run, leaving the source as
/// `after`. The source is asked for its size. Where that fails, the error is
/// the result, and nothing is set up or pushed. Where it succeeds, the
/// result is what [`pushed_into`] says of the push that follows.
pub open spec fn attempt_of<
    Source: FanoutSource,
    Consumer: FanoutConsumer<Item = Source::Item>,
    Egress: EgressSender,
>(
    source: Source,
    after: Source,
    members: Seq<ConsumerOrResolved<Consumer>>,
    egress_tx: &Egress,
    result: Result<Vec<Result<Consumer::Output, Consumer::Error>>, Source::Error>,
) -> bool where Consumer::Output: Clone, Egress::Item: EgressItem<Source::Item> {
    exists|asked: Source, size: Result<Option<u64>, Source::Error>|
        {
            &&& #[trigger] source.asked(asked, size)
            &&& match size {
                Err(error) => after == asked && result == Err::<
                    Vec<Result<Consumer::Output, Consumer::Error>>,
                    Source::Error,
                >(error),
                Ok(content_length) => pushed_into(
                    asked,
                    after,
                    members,
                    egress_tx,
                    content_length,
                    result,
                ),
            }
        }
}

/// A member that was resolved beforehand is not run again. Whatever the
/// source pushes in the attempt, and whatever the other members do, the
/// output of the attempt has one result for each member, and that of a
/// resolved member is the output that it holds, copied.
pub proof fn law_resolved_member_is_kept<
    Source: FanoutSource,
    Consumer: FanoutConsumer<Item = Source::Item>,
    Egress: EgressSender,
>(
    source: Source,
    after: Source,
    members: Seq<ConsumerOrResolved<Consumer>>,
    egress_tx: &Egress,
    output: Vec<Result<Consumer::Output, Consumer::Error>>,
    j: int,
) where Consumer::Output: Clone, Egress::Item: EgressItem<Source::Item>
    requires
        attempt_of(
            source,
            after,
            members,
            egress_tx,
            Ok::<Vec<Result<Consumer::Output, Consumer::Error>>, Source::Error>(output),
        ),
        0 <= j < members.len(),
        members[j] is ConsumerOutput,
    ensures
        output@.len() == members.len(),
        output@[j] matches Ok(given) && cloned(members[j]->ConsumerOutput_0, given),
{
    let result = Ok::<Vec<Result<Consumer::Output, Consumer::Error>>, Source::Error>(output);
    let (asked, size) = choose|asked: Source, size: Result<Option<u64>, Source::Error>|
        {
            &&& #[trigger] source.asked(asked, size)
            &&& match size {
                Err(error) => after == asked && result == Err::<
                    Vec<Result<Consumer::Output, Consumer::Error>>,
                    Source::Error,
                >(error),
                Ok(content_length) => pushed_into(
                    asked,
                    after,
                    members,
                    egress_tx,
                    content_length,
                    result,
                ),
            }
        };
    let content_length = size->Ok_0;
    let (to, push) = choose|to: Seen<Source::Item>, push: Result<(), Source::Error>|
        {
            &&& #[trigger] asked.pushed(
                after,
                Seen { history: Seq::<Source::Item>::empty(), cancelled: false },
                to,
                push,
            )
            &&& to.cancelled ==> tripped_by(members, content_length, to.history)
            &&& forwarded(egress_tx, to.history)
            &&& attempted(members, content_length, to.history, push, result)
        };
    assert(attempt_output(members, content_length, to.history, output@));
    assert(output_of(members, output@));
}

/// The result of an attempt, from what its two sides gave: the error of the
/// source where it failed, and else the output of the consumers.
pub fn conclude<Output, Error>(
    stream_broadcast_result: Result<(), Error>,
    consumers_output: Output,
) -> (result: Result<Output, Error>)
    ensures
        result == match stream_broadcast_result {
            Ok(_) => Ok::<Output, Error>(consumers_output),
            Err(error) => Err::<Output, Error>(error),
        },
{
    match stream_broadcast_result {
        Ok(()) => Ok(consumers_output),
        Err(error) => Err(error),
    }
}

impl<Source, Consumer> StreamFanout<Source, FanoutConsumerGroup<Consumer>, Ready> where
    Source: FanoutSource,
    Consumer: FanoutConsumer<Item = Source::Item>,
    Consumer::Output: Clone,
 {
    /// Runs the attempt once. The source is asked for its size; with that the
    /// consumers and the egress tap subscribe to a fresh broadcaster; the
    /// source pushes its items; the stream is closed and every consumer
    /// finishes. An error of the source, at either step, is the error of the
    /// attempt; without one the attempt gives the results of the consumers.
    ///
    /// The room of the queues has to be 1 at least: queues without room
    /// never deliver, and the attempt would not end.
    pub(crate) fn drive_inner<Egress: EgressSender>(
        &mut self,
        broadcaster_buffer_size: usize,
        egress_tx: &Egress,
    ) -> (result: Result<Vec<Result<Consumer::Output, Consumer::Error>>, Source::Error>) where
        Egress::Item: EgressItem<Source::Item>,

        requires
            broadcaster_buffer_size >= 1,
        ensures
            final(self).consumers() == old(self).consumers(),
            result matches Ok(output) ==> output_of(old(self).consumers()@, output@),
            attempt_of(
                old(self).source(),
                final(self).source(),
                old(self).consumers()@,
                egress_tx,
                result,
            ),
    {
        let size = self.source.get_content_length();
        let ghost asked = self.source;
        let content_length = match size {
            Ok(content_length) => content_length,
            Err(error) => {
                return Err(error);
            },
        };
        // create subscribers
        let mut running = RunningFanout::start(
            &self.consumers,
            egress_tx,
            broadcaster_buffer_size,
            content_length,
        );
        let ghost started = running;
        // broadcast from stream
        let stream_broadcast_result = self.source.broadcast(&mut running);
        let ghost pushed = running;
        let ghost push = stream_broadcast_result;
        // let every subscriber finish
        proof {
            started.lemma_wf();
            started.lemma_carried_on(&running);
            running.lemma_tripped();
        }
        let consumers_output = running.join();
        // propagate errors
        let result = conclude(stream_broadcast_result, consumers_output);
        proof {
            assert(seen(started) == Seen {
                history: Seq::<Source::Item>::empty(),
                cancelled: false,
            });
            assert(asked.pushed(self.source, seen(started), seen(pushed), push));
            assert(attempted(
                old(self).consumers()@,
                content_length,
                seen(pushed).history,
                push,
                result,
            ));
            assert(seen(pushed).cancelled ==> tripped_by(
                old(self).consumers()@,
                content_length,
                seen(pushed).history,
            ));
            assert(forwarded(egress_tx, seen(pushed).history));
            assert(pushed_into(
                asked,
                self.source,
                old(self).consumers()@,
                egress_tx,
                content_length,
                result,
            ));
        }
        result
    }
}

/// Whether a result allows, and whether it asks for, another attempt.
pub trait MaybeRetryable {
    /// No failure in it forbids another attempt.
    spec fn retryable(&self) -> bool;

    /// Something in it failed.
    spec fn failed(&self) -> bool;

    /// Whether no failure in it forbids another attempt.
    fn is_retryable(&self) -> (retryable: bool)
        ensures
            retryable == self.retryable(),
    ;

    /// Whether something in it failed.
    fn should_retry(&self) -> (failed: bool)
        ensures
            failed == self.failed(),
    ;
}

impl<T, E: MaybeRetryable> MaybeRetryable for Result<T, E> {
    open spec fn retryable(&self) -> bool {
        match self {
            Ok(_) => true,
            Err(e) => e.retryable(),
        }
    }

    open spec fn failed(&self) -> bool {
        self is Err
    }

    fn is_retryable(&self) -> (retryable: bool) {
        match self {
            Ok(_) => true,
            Err(e) => e.is_retryable(),
        }
    }

    fn should_retry(&self) -> (failed: bool) {
        self.is_err()
    }
}

impl MaybeRetryable for core::convert::Infallible {
    open spec fn retryable(&self) -> bool {
        true
    }

    open spec fn failed(&self) -> bool {
        false
    }

    fn is_retryable(&self) -> (retryable: bool) {
        true
    }

    fn should_retry(&self) -> (failed: bool) {
        false
    }
}

impl<R: MaybeRetryable> MaybeRetryable for Vec<R> {
    /// No member failed in a way that forbids another attempt.
    open spec fn retryable(&self) -> bool {
        forall|i: int| 0 <= i < self@.len() ==> (#[trigger] self@[i]).retryable()
    }

    /// At least one member failed.
    open spec fn failed(&self) -> bool {
        exists|i: int| 0 <= i < self@.len() && (#[trigger] self@[i]).failed()
    }

    fn is_retryable(&self) -> (retryable: bool) {
        let mut i: usize = 0;
        while i < self.len()
            invariant
                i <= self@.len(),
                forall|k: int| 0 <= k < i ==> (#[trigger] self@[k]).retryable(),
            decreases self@.len() - i,
        {
            if !self[i].is_retryable() {
                return false;
            }
            i += 1;
        }
        true
    }

    fn should_retry(&self) -> (failed: bool) {
        let mut i: usize = 0;
        while i < self.len()
            invariant
                i <= self@.len(),
                forall|k: int| 0 <= k < i ==> !(#[trigger] self@[k]).failed(),
            decreases self@.len() - i,
        {
            if self[i].should_retry() {
                return true;
            }
            i += 1;
        }
        false
    }
}

} // verus!
