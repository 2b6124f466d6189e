//! The driver of one attempt: what it needs before it can run, and the run.

use crate::channel::sender::Sender;
use crate::fanout::consumer::{CancelEgress, FanoutConsumer, FanoutConsumerGroup};
use crate::fanout::egress::{told, EgressItem, EgressSender};
use crate::fanout::source::FanoutSource;
use crate::fanout::{attempt_of, output_of, Ready, StreamFanout, Used};
use vstd::prelude::*;

verus! {

/// An attempt together with the room of its queues and its egress sender.
/// The room has to be given before the attempt can run; the egress sender
/// may be left out.
pub struct StreamFanoutDriver<Source, Consumers, BroadcasterBufferSize, EgressSender> {
    stream_fanout: StreamFanout<Source, Consumers, Ready>,
    broadcaster_buffer_size: BroadcasterBufferSize,
    egress_tx: EgressSender,
}

impl<Source, Consumers, BroadcasterBufferSize, Egress> StreamFanoutDriver<
    Source,
    Consumers,
    BroadcasterBufferSize,
    Egress,
> {
    /// The attempt that is to run.
    pub closed spec fn stream_fanout(&self) -> StreamFanout<Source, Consumers, Ready> {
        self.stream_fanout
    }

    /// The room of the queues.
    pub closed spec fn broadcaster_buffer_size(&self) -> BroadcasterBufferSize {
        self.broadcaster_buffer_size
    }

    /// The egress sender.
    pub closed spec fn egress_tx(&self) -> Egress {
        self.egress_tx
    }

    /// The same driver with queues of room `broadcaster_buffer_size`.
    pub fn with_broadcaster_buffer_size(self, broadcaster_buffer_size: usize) -> (driver:
        StreamFanoutDriver<Source, Consumers, usize, Egress>)
        ensures
            driver.stream_fanout() == self.stream_fanout(),
            driver.broadcaster_buffer_size() == broadcaster_buffer_size,
            driver.egress_tx() == self.egress_tx(),
    {
        StreamFanoutDriver {
            stream_fanout: self.stream_fanout,
            broadcaster_buffer_size,
            egress_tx: self.egress_tx,
        }
    }

    /// The same driver with `egress_tx` as its egress sender.
    pub fn with_egress_tx<Tx: Sender>(self, egress_tx: Tx) -> (driver: StreamFanoutDriver<
        Source,
        Consumers,
        BroadcasterBufferSize,
        Tx,
    >)
        ensures
            driver.stream_fanout() == self.stream_fanout(),
            driver.broadcaster_buffer_size() == self.broadcaster_buffer_size(),
            driver.egress_tx() == egress_tx,
    {
        StreamFanoutDriver {
            stream_fanout: self.stream_fanout,
            broadcaster_buffer_size: self.broadcaster_buffer_size,
            egress_tx,
        }
    }
}

impl<Source, Consumers> StreamFanoutDriver<Source, Consumers, (), ()> {
    /// The driver of `stream_fanout`, without room for its queues as yet and
    /// without egress.
    pub(crate) fn new(stream_fanout: StreamFanout<Source, Consumers, Ready>) -> (driver: Self)
        ensures
            driver.stream_fanout() == stream_fanout,
    {
        StreamFanoutDriver { stream_fanout, broadcaster_buffer_size: (), egress_tx: () }
    }
}

/// Whether the egress side is to be told that the attempt failed: where the
/// source failed, and where some consumer did.
pub open spec fn egress_cancelled<Output: CancelEgress, Error>(fanout_result: Result<Output, Error>) -> bool {
    match fanout_result {
        Ok(output) => output.egress_cancelled(),
        Err(_) => true,
    }
}

/// Whether the egress side is to be told that the attempt failed: where the
/// source failed, and where some consumer did.
pub fn egress_is_cancelled<Output: CancelEgress, Error>(fanout_result: &Result<Output, Error>) -> (cancelled:
    bool)
    ensures
        cancelled == egress_cancelled(*fanout_result),
{
    match fanout_result {
        Ok(output) => output.cancel_egress(),
        Err(_) => true,
    }
}

impl<Source, Consumer, Egress> StreamFanoutDriver<
    Source,
    FanoutConsumerGroup<Consumer>,
    usize,
    Egress,
> where
    Source: FanoutSource,
    Consumer: FanoutConsumer<Item = Source::Item>,
    Consumer::Output: Clone,
    Egress: EgressSender,
    Egress::Item: EgressItem<Source::Item>,
 {
    /// Runs the attempt, and tells the egress side where it failed. Hands back
    /// the attempt, now used, and its result.
    ///
    /// The source is asked for its size first. Where that fails, the error
    /// is the result, and nothing is set up or pushed. Where it succeeds, the
    /// source pushes; an error of the push is the result, and without one the
    /// result is an output that holds, for every member that ran, the result
    /// of its own consumer, started with that size and handed what was
    /// broadcast. Only the consumer of a member trips the token. The egress
    /// side is sent a copy of every item that was broadcast, up to the first
    /// that it refuses. Where the source or a consumer failed, the marker of
    /// a failed attempt is made and sent to the egress side.
    ///
    /// The room of the queues has to be 1 at least: queues without room
    /// never deliver, and the attempt would not end.
    pub fn drive(self) -> (driven: (
        StreamFanout<Source, FanoutConsumerGroup<Consumer>, Used>,
        Result<Vec<Result<Consumer::Output, Consumer::Error>>, Source::Error>,
    ))
        requires
            self.broadcaster_buffer_size() >= 1,
        ensures
            driven.0.consumers() == self.stream_fanout().consumers(),
            driven.1 matches Ok(output) ==> output_of(self.stream_fanout().consumers()@, output@),
            attempt_of(
                self.stream_fanout().source(),
                driven.0.source(),
                self.stream_fanout().consumers()@,
                &self.egress_tx(),
                driven.1,
            ),
            egress_cancelled(driven.1) ==> told::<Egress, Source::Item>(&self.egress_tx()),
    {
        let mut driver = self;
        let fanout_result = driver.stream_fanout.drive_inner(
            driver.broadcaster_buffer_size,
            &driver.egress_tx,
        );
        if egress_is_cancelled(&fanout_result) {
            let marker = Egress::Item::error();
            let ghost made = marker;
            let sent = driver.egress_tx.send(marker);
            proof {
                assert(driver.egress_tx == self.egress_tx());
                assert(call_ensures(<Egress::Item as EgressItem<Source::Item>>::error, (), made));
                assert(call_ensures(<Egress as EgressSender>::send, (&self.egress_tx(), made), sent));
            }
        }
        (driver.stream_fanout.into_used(), fanout_result)
    }
}

} // verus!
