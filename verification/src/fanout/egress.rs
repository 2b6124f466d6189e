//! The egress side-channel: a sender that gets a copy of every broadcast item,
//! and an error marker when the attempt fails.

use crate::broadcaster::channel::Receiver;
use crate::broadcaster::Broadcaster;
use crate::channel::sender::{Result as SendResult, Sender};
use vstd::prelude::*;

verus! {

/// What is sent to the egress side: a broadcast item, or the marker that says
/// the attempt failed.
pub trait EgressItem<BroadcastItem>: Sized {
    /// The egress form of one broadcast item.
    fn from_broadcast_item(item: BroadcastItem) -> Self;

    /// The marker for a failed attempt.
    fn error() -> Self;
}

/// The error that stands for a failed attempt on the egress side.
#[derive(Clone, Copy, Debug, Default, PartialEq, Eq, Structural)]
pub struct GenericError;

impl GenericError {
    /// The text of the error.
    pub fn message(&self) -> (text: String)
        ensures
            text@ == "an error occurred"@,
    {
        "an error occurred".to_string()
    }
}

impl<BroadcastItem> EgressItem<BroadcastItem> for Result<BroadcastItem, GenericError> {
    fn from_broadcast_item(item: BroadcastItem) -> (egress_item: Self)
        ensures
            egress_item == Ok::<BroadcastItem, GenericError>(item),
    {
        Ok(item)
    }

    fn error() -> (egress_item: Self)
        ensures
            egress_item == Err::<BroadcastItem, GenericError>(GenericError),
    {
        Err(GenericError)
    }
}

impl<T> EgressItem<T> for () {
    fn from_broadcast_item(_item: T) -> Self {
        ()
    }

    fn error() -> Self {
        ()
    }
}

/// The sender of the egress side.
pub trait EgressSender {
    type Item;

    /// Whether this sender taps the broadcast at all.
    spec fn taps(&self) -> bool;

    /// Sends one item to the egress side.
    fn send(&self, item: Self::Item) -> SendResult;

    /// Subscribes the egress side to `broadcaster`, if this sender taps the
    /// broadcast: the receiver whose items are to be forwarded.
    fn send_from_broadcaster<T: Clone>(&self, broadcaster: &mut Broadcaster<T>) -> (rx: Option<
        Receiver<T>,
    >)
        requires
            old(broadcaster).wf(),
        ensures
            final(broadcaster).wf(),
            rx is Some == self.taps(),
            match rx {
                Some(rx) => {
                    &&& final(broadcaster)@ == old(broadcaster)@.subscribe()
                    &&& rx.index() == old(broadcaster)@.subscriptions.len()
                },
                None => final(broadcaster)@ == old(broadcaster)@,
            },
    ;
}

/// Whether `item` went to the egress side with the outcome `sent`: it was
/// converted to its egress form, and the sender, handed that, gave `sent`.
pub open spec fn sent_as<Egress: EgressSender, Item>(egress_tx: &Egress, item: Item, sent: SendResult) -> bool where
    Egress::Item: EgressItem<Item>,
 {
    exists|converted: Egress::Item|
        {
            &&& call_ensures(<Egress::Item as EgressItem<Item>>::from_broadcast_item, (item,), converted)
            &&& #[trigger] call_ensures(<Egress as EgressSender>::send, (egress_tx, converted), sent)
        }
}

/// Whether the items `tapped` went to the egress side one by one, each
/// accepted, but for the last where the egress side `refused` it.
pub open spec fn tapped_as<Egress: EgressSender, Item>(
    egress_tx: &Egress,
    tapped: Seq<Item>,
    refused: bool,
) -> bool where Egress::Item: EgressItem<Item> {
    &&& refused ==> tapped.len() > 0
    &&& forall|i: int|
        0 <= i < tapped.len() ==> sent_as(
            egress_tx,
            #[trigger] tapped[i],
            if refused && i == tapped.len() - 1 {
                SendResult::Failure
            } else {
                SendResult::Success
            },
        )
}

/// Whether the egress side was forwarded the stream `history`. A sender that
/// taps the broadcast was sent a copy of every item, in order, each
/// converted to its egress form, up to the first that it refused: after a
/// refusal nothing more is sent. Without a refusal that is the whole stream.
pub open spec fn forwarded<Egress: EgressSender, Item: Clone>(egress_tx: &Egress, history: Seq<Item>) -> bool where
    Egress::Item: EgressItem<Item>,
 {
    egress_tx.taps() ==> exists|tapped: Seq<Item>, refused: bool|
        {
            &&& #[trigger] tapped_as(egress_tx, tapped, refused)
            &&& tapped.len() <= history.len()
            &&& forall|i: int| 0 <= i < tapped.len() ==> cloned(history[i], #[trigger] tapped[i])
            &&& !refused ==> tapped.len() == history.len()
        }
}

/// Whether the egress side was told that the attempt failed: the marker of a
/// failed attempt was made and handed to the sender.
pub open spec fn told<Egress: EgressSender, Item>(egress_tx: &Egress) -> bool where
    Egress::Item: EgressItem<Item>,
 {
    exists|marker: Egress::Item, sent: SendResult|
        {
            &&& call_ensures(<Egress::Item as EgressItem<Item>>::error, (), marker)
            &&& #[trigger] call_ensures(<Egress as EgressSender>::send, (egress_tx, marker), sent)
        }
}

impl<Tx: Sender> EgressSender for Tx {
    type Item = Tx::Item;

    open spec fn taps(&self) -> bool {
        true
    }

    /// Sends the item as the sender itself does: the result is what its own
    /// `send` gives for the item.
    fn send(&self, item: Self::Item) -> (result: SendResult)
        ensures
            call_ensures(<Tx as Sender>::send, (self, item), result),
    {
        Sender::send(self, item)
    }

    fn send_from_broadcaster<T: Clone>(&self, broadcaster: &mut Broadcaster<T>) -> (rx: Option<
        Receiver<T>,
    >) {
        Some(broadcaster.subscribe())
    }
}

impl EgressSender for () {
    type Item = ();

    open spec fn taps(&self) -> bool {
        false
    }

    fn send(&self, _item: Self::Item) -> (result: SendResult)
        ensures
            result is Failure,
    {
        SendResult::Failure
    }

    fn send_from_broadcaster<T: Clone>(&self, broadcaster: &mut Broadcaster<T>) -> (rx: Option<
        Receiver<T>,
    >) {
        None
    }
}

} // verus!
