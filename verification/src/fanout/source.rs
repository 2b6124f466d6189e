//! Sources: what pushes the items of one attempt.

use crate::broadcaster::stream::{broadcast_from_result_stream, payloads};
use crate::broadcaster::{seen, Broadcast, Seen};
use crate::channel::receiver::Receiver;
use crate::fanout::MaybeRetryable;
use vstd::prelude::*;

verus! {

/// Produces the items of one attempt, and can perhaps produce them again.
pub trait FanoutSource: Sized {
    type Item: Clone;

    type Error: MaybeRetryable;

    /// Whether a source in this state, asked for its size, may answer `size`
    /// and be left as `after`. It rests with the source what it answers.
    spec fn asked(self, after: Self, size: Result<Option<u64>, Self::Error>) -> bool;

    /// The size of the whole content, where the source knows it.
    fn get_content_length(&mut self) -> (size: Result<Option<u64>, Self::Error>)
        ensures
            old(self).asked(*final(self), size),
    ;

    /// Whether a source in this state, pushing into a broadcast of which
    /// `from` can be seen, may leave of that broadcast `to` to be seen, end
    /// as `after`, and give `result`. It rests with the source what it
    /// pushes and when it fails.
    spec fn pushed(
        self,
        after: Self,
        from: Seen<Self::Item>,
        to: Seen<Self::Item>,
        result: Result<(), Self::Error>,
    ) -> bool;

    /// Pushes every item into `broadcaster`, in order. The source does
    /// nothing to the broadcast but broadcast: it hands back the broadcast
    /// that it was given, in a later state.
    fn broadcast<B: Broadcast<Item = Self::Item>>(&mut self, broadcaster: &mut B) -> (result: Result<
        (),
        Self::Error,
    >)
        requires
            old(broadcaster).wf(),
        ensures
            final(broadcaster).wf(),
            old(broadcaster).later(final(broadcaster)),
            old(self).pushed(*final(self), seen(*old(broadcaster)), seen(*final(broadcaster)), result),
    ;

    /// What a reset makes of this source. It rests with the source alone
    /// whether it can be had again, and as what.
    spec fn reset_spec(self) -> Option<Self>;

    /// A source that produces the same items once more, if there is one.
    fn reset(self) -> (source: Option<Self>)
        ensures
            source == self.reset_spec(),
    ;
}

/// A stream of results, with names for what its results hold.
pub trait ResultStream: Receiver<Item = Result<Self::Value, Self::Failure>> {
    /// What an item holds that is no error.
    type Value;

    /// What an item holds that is an error.
    type Failure;
}

impl<S, T, E> ResultStream for S where S: Receiver<Item = Result<T, E>> {
    type Value = T;

    type Failure = E;
}

/// A stream of results is a source: of unknown size, pushed until its first
/// error, and not to be had a second time.
impl<S> FanoutSource for S where S: ResultStream, S::Value: Clone, S::Failure: MaybeRetryable {
    type Item = S::Value;

    type Error = S::Failure;

    /// A stream does not know its size, and the question leaves it as it is.
    open spec fn asked(self, after: Self, size: Result<Option<u64>, S::Failure>) -> bool {
        after == self && size == Ok::<Option<u64>, S::Failure>(None)
    }

    fn get_content_length(&mut self) -> (size: Result<Option<u64>, S::Failure>) {
        Ok(None)
    }

    /// The payloads before the first error of the stream are broadcast, in
    /// order, up to the first whose broadcast fails. An error of the stream is
    /// the error of the source; a failed broadcast ends the push without
    /// error, and the item whose broadcast failed is lost.
    open spec fn pushed(
        self,
        after: Self,
        from: Seen<S::Value>,
        to: Seen<S::Value>,
        result: Result<(), S::Failure>,
    ) -> bool {
        let items = self.pending();
        let n = to.history.len() - from.history.len();
        &&& from.cancelled ==> to.cancelled
        &&& 0 <= n <= items.len()
        &&& forall|i: int| 0 <= i < n ==> (#[trigger] items[i]) is Ok
        &&& to.history == from.history + payloads(items, n)
        &&& if n < items.len() {
            &&& after.pending() == items.skip(n + 1)
            &&& match items[n] {
                Ok(_) => to.cancelled && result is Ok,
                Err(error) => result == Err::<(), S::Failure>(error),
            }
        } else {
            after.pending().len() == 0 && result is Ok
        }
    }

    /// Pushes the payloads of the stream, in order, until the stream ends,
    /// yields an error, or a broadcast fails.
    fn broadcast<B: Broadcast<Item = S::Value>>(&mut self, broadcaster: &mut B) -> (result: Result<
        (),
        S::Failure,
    >) {
        broadcast_from_result_stream(broadcaster, self)
    }

    open spec fn reset_spec(self) -> Option<Self> {
        None
    }

    fn reset(self) -> (source: Option<Self>) {
        None
    }
}

} // verus!
