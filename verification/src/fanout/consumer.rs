//! Consumers, and groups of them.

use crate::broadcaster::CancellationToken;
use vstd::prelude::*;

verus! {

/// Drains one subscription into an output.
///
/// A consumer is handed the items of its subscription one at a time, in the
/// order of broadcasting, and keeps what it has learnt so far in a state of
/// its own. It may trip the cancellation token at any point, which aborts the
/// broadcast for every subscriber; it should then fail itself as well.
pub trait FanoutConsumer {
    type Item;

    type Output;

    type Error;

    /// What the consumer has learnt from the items it has seen.
    type State;

    /// Whether the consumer, started with the size `content_length`, may
    /// begin in `state`.
    spec fn started(&self, content_length: Option<u64>, state: Self::State) -> bool;

    /// The state before the first item. `content_length` is the size that the
    /// source announced, if it announced one.
    fn start(&self, content_length: Option<u64>) -> (state: Self::State)
        ensures
            self.started(content_length, state),
    ;

    /// Whether the consumer, in `state` and handed `item`, may give `result`
    /// and leave the token tripped or not as `tripped` says, where the token
    /// was tripped or not as `was` says when it was lent.
    spec fn consumed(
        &self,
        state: Self::State,
        item: Self::Item,
        was: bool,
        tripped: bool,
        result: Result<Self::State, Self::Error>,
    ) -> bool;

    /// Takes in the next item. An `Err` ends this consumer's part: it gets no
    /// further items and the error is its result.
    fn consume_from_fanout(
        &self,
        state: Self::State,
        item: Self::Item,
        cancellation_token: &mut CancellationToken,
    ) -> (result: Result<Self::State, Self::Error>)
        ensures
            self.consumed(
                state,
                item,
                old(cancellation_token).cancelled(),
                final(cancellation_token).cancelled(),
                result,
            ),
    ;

    /// Whether the consumer, told in `state` that the stream has ended, may
    /// give `result`.
    spec fn finished(&self, state: Self::State, result: Result<Self::Output, Self::Error>) -> bool;

    /// The result, once the subscription has reported that it is closed.
    fn finish(&self, state: Self::State) -> (result: Result<Self::Output, Self::Error>)
        ensures
            self.finished(state, result),
    ;
}

/// Whether `consumer` may be in the state `state` after it was started with
/// the size `content_length` and has taken in the items `handed`, in order,
/// without failing.
pub open spec fn reached<Consumer: FanoutConsumer>(
    consumer: &Consumer,
    content_length: Option<u64>,
    handed: Seq<Consumer::Item>,
    state: Consumer::State,
) -> bool
    decreases handed.len(),
{
    if handed.len() == 0 {
        Consumer::started(consumer, content_length, state)
    } else {
        exists|before: Consumer::State, was: bool, tripped: bool|
            {
                &&& reached(consumer, content_length, handed.drop_last(), before)
                &&& #[trigger] Consumer::consumed(
                    consumer,
                    before,
                    handed.last(),
                    was,
                    tripped,
                    Ok::<Consumer::State, Consumer::Error>(state),
                )
            }
    }
}

/// Whether `result` is what `consumer` gives when it is started with the
/// size `content_length` and handed the items `handed`, in order. Where it
/// `finished`, it took them all in without failing, and the result is what
/// its `finish` gives in the state it reached. Where it did not, it failed
/// on the last of them, and the result is that error.
pub open spec fn gave<Consumer: FanoutConsumer>(
    consumer: &Consumer,
    content_length: Option<u64>,
    handed: Seq<Consumer::Item>,
    finished: bool,
    result: Result<Consumer::Output, Consumer::Error>,
) -> bool {
    if finished {
        exists|state: Consumer::State|
            {
                &&& reached(consumer, content_length, handed, state)
                &&& #[trigger] Consumer::finished(consumer, state, result)
            }
    } else {
        &&& handed.len() > 0
        &&& result is Err
        &&& exists|before: Consumer::State, was: bool, tripped: bool|
            {
                &&& reached(consumer, content_length, handed.drop_last(), before)
                &&& #[trigger] Consumer::consumed(
                    consumer,
                    before,
                    handed.last(),
                    was,
                    tripped,
                    Err::<Consumer::State, Consumer::Error>(result->Err_0),
                )
            }
    }
}

/// Whether `consumer`, started with the size `content_length` and handed the
/// items `handed`, in order, trips the token on the last of them: it took in
/// those before without failing, the token was not tripped when it was lent
/// for the last, and it was when it came back.
pub open spec fn tripped<Consumer: FanoutConsumer>(
    consumer: &Consumer,
    content_length: Option<u64>,
    handed: Seq<Consumer::Item>,
) -> bool {
    &&& handed.len() > 0
    &&& exists|before: Consumer::State, result: Result<Consumer::State, Consumer::Error>|
        {
            &&& reached(consumer, content_length, handed.drop_last(), before)
            &&& #[trigger] Consumer::consumed(consumer, before, handed.last(), false, true, result)
        }
}

/// Whether `handed` is a run of the stream `history` from its first item on,
/// in order and without gaps, each item as a copy.
pub open spec fn run_of<Item: Clone>(history: Seq<Item>, handed: Seq<Item>) -> bool {
    &&& handed.len() <= history.len()
    &&& forall|i: int| 0 <= i < handed.len() ==> cloned(history[i], #[trigger] handed[i])
}

/// Whether some member's consumer trips the token on the stream `history`:
/// a member that has yet to run, started with the size `content_length` and
/// handed a run of the stream from its first item on, trips the token on
/// the last item of that run.
pub open spec fn tripped_by<Consumer: FanoutConsumer>(
    members: Seq<ConsumerOrResolved<Consumer>>,
    content_length: Option<u64>,
    history: Seq<Consumer::Item>,
) -> bool where Consumer::Item: Clone {
    exists|j: int, handed: Seq<Consumer::Item>|
        {
            &&& 0 <= j < members.len()
            &&& members[j] is Consumer
            &&& run_of(history, handed)
            &&& #[trigger] tripped(&members[j]->Consumer_0, content_length, handed)
        }
}

/// Whether `result` is what `consumer` gives on the stream `history`, when
/// it is started with the size `content_length`: it is the consumer's own
/// result, and no other's. The consumer was handed a run of the stream from
/// its first item on, in order and without gaps, each item as a copy. Where
/// it finished, and so wherever it succeeded, that run is the whole stream.
pub open spec fn given_by<Consumer: FanoutConsumer>(
    consumer: &Consumer,
    content_length: Option<u64>,
    history: Seq<Consumer::Item>,
    result: Result<Consumer::Output, Consumer::Error>,
) -> bool where Consumer::Item: Clone {
    exists|handed: Seq<Consumer::Item>, finished: bool|
        {
            &&& #[trigger] gave(consumer, content_length, handed, finished, result)
            &&& run_of(history, handed)
            &&& finished ==> handed.len() == history.len()
        }
}

/// A consumer that is lent is a consumer: what it gives at each step is
/// what the consumer itself gives there.
impl<'a, Consumer: FanoutConsumer> FanoutConsumer for &'a Consumer {
    type Item = Consumer::Item;

    type Output = Consumer::Output;

    type Error = Consumer::Error;

    type State = Consumer::State;

    open spec fn started(&self, content_length: Option<u64>, state: Consumer::State) -> bool {
        Consumer::started(*self, content_length, state)
    }

    fn start(&self, content_length: Option<u64>) -> (state: Consumer::State) {
        (*self).start(content_length)
    }

    open spec fn consumed(
        &self,
        state: Consumer::State,
        item: Consumer::Item,
        was: bool,
        tripped: bool,
        result: Result<Consumer::State, Consumer::Error>,
    ) -> bool {
        Consumer::consumed(*self, state, item, was, tripped, result)
    }

    /// The consumer itself takes the item in, with the token lent on.
    fn consume_from_fanout(
        &self,
        state: Consumer::State,
        item: Consumer::Item,
        cancellation_token: &mut CancellationToken,
    ) -> (result: Result<Consumer::State, Consumer::Error>) {
        (*self).consume_from_fanout(state, item, cancellation_token)
    }

    open spec fn finished(
        &self,
        state: Consumer::State,
        result: Result<Consumer::Output, Consumer::Error>,
    ) -> bool {
        Consumer::finished(*self, state, result)
    }

    fn finish(&self, state: Consumer::State) -> (result: Result<Consumer::Output, Consumer::Error>) {
        (*self).finish(state)
    }
}

/// A member of a group: a consumer that has yet to run, or the output that it
/// gave in an earlier attempt.
pub enum ConsumerOrResolved<Consumer: FanoutConsumer> {
    Consumer(Consumer),
    ConsumerOutput(Consumer::Output),
}

impl<Consumer: FanoutConsumer> From<Consumer> for ConsumerOrResolved<Consumer> {
    /// A member that has yet to run.
    fn from(value: Consumer) -> (member: Self) {
        ConsumerOrResolved::Consumer(value)
    }
}

impl<Consumer: FanoutConsumer> vstd::std_specs::convert::FromSpecImpl<Consumer> for ConsumerOrResolved<Consumer> {
    open spec fn obeys_from_spec() -> bool {
        true
    }

    open spec fn from_spec(value: Consumer) -> Self {
        ConsumerOrResolved::Consumer(value)
    }
}

impl<Consumer: FanoutConsumer> ConsumerOrResolved<Consumer> {
    /// Whether the member holds an output and will not run again.
    pub fn is_resolved(&self) -> (resolved: bool)
        ensures
            resolved == (self is ConsumerOutput),
    {
        match self {
            ConsumerOrResolved::Consumer(_) => false,
            ConsumerOrResolved::ConsumerOutput(_) => true,
        }
    }
}

impl<Consumer: FanoutConsumer> ConsumerOrResolved<Consumer> where Consumer::Output: Clone {
    /// The member for the next attempt: resolved to the output of the
    /// previous one where that succeeded, and as it was where it failed.
    pub fn retry(self, previous_output: &Result<Consumer::Output, Consumer::Error>) -> (next: Self)
        ensures
            match previous_output {
                Ok(output) => next matches ConsumerOrResolved::ConsumerOutput(kept) && cloned(
                    *output,
                    kept,
                ),
                Err(_) => next == self,
            },
    {
        match previous_output {
            Ok(output) => ConsumerOrResolved::ConsumerOutput(output.clone()),
            Err(_) => self,
        }
    }
}

/// A fixed, ordered collection of members that drain one broadcast side by side.
pub struct FanoutConsumerGroup<Consumer: FanoutConsumer> {
    members: Vec<ConsumerOrResolved<Consumer>>,
}

impl<Consumer: FanoutConsumer> View for FanoutConsumerGroup<Consumer> {
    type V = Seq<ConsumerOrResolved<Consumer>>;

    closed spec fn view(&self) -> Seq<ConsumerOrResolved<Consumer>> {
        self.members@
    }
}

/// The number of members that have yet to run.
pub open spec fn unresolved<Consumer: FanoutConsumer>(
    members: Seq<ConsumerOrResolved<Consumer>>,
) -> nat
    decreases members.len(),
{
    if members.len() == 0 {
        0
    } else {
        unresolved(members.drop_last()) + if members.last() is Consumer {
            1nat
        } else {
            0nat
        }
    }
}

/// What `retry` makes of one member, given the outputs of the previous attempt.
pub open spec fn retried<Consumer: FanoutConsumer>(
    member: ConsumerOrResolved<Consumer>,
    previous_output: Seq<Result<Consumer::Output, Consumer::Error>>,
    i: int,
    next: ConsumerOrResolved<Consumer>,
) -> bool where Consumer::Output: Clone {
    if i < previous_output.len() && previous_output[i] is Ok {
        next matches ConsumerOrResolved::ConsumerOutput(kept) && cloned(
            previous_output[i]->Ok_0,
            kept,
        )
    } else {
        next == member
    }
}

impl<Consumer: FanoutConsumer> FanoutConsumerGroup<Consumer> {
    /// The group of `members`, in their order.
    pub fn new(members: Vec<ConsumerOrResolved<Consumer>>) -> (group: Self)
        ensures
            group@ == members@,
    {
        FanoutConsumerGroup { members }
    }

    /// The number of members.
    pub fn len(&self) -> (len: usize)
        ensures
            len == self@.len(),
    {
        self.members.len()
    }

    /// The members, in their order.
    pub fn members(&self) -> (members: &Vec<ConsumerOrResolved<Consumer>>)
        ensures
            members@ == self@,
    {
        &self.members
    }

    /// The members, in their order.
    pub fn into_members(self) -> (members: Vec<ConsumerOrResolved<Consumer>>)
        ensures
            members@ == self@,
    {
        self.members
    }
}

impl<Consumer: FanoutConsumer> FanoutConsumerGroup<Consumer> where Consumer::Output: Clone {
    /// The group for the next attempt. Every member that succeeded in
    /// `previous_output` is resolved to its output and will not run again;
    /// every member that failed, or that `previous_output` does not speak of,
    /// stays as it was.
    pub fn retry(self, previous_output: &Vec<Result<Consumer::Output, Consumer::Error>>) -> (next:
        Self)
        ensures
            next@.len() == self@.len(),
            forall|i: int|
                0 <= i < self@.len() ==> retried(self@[i], previous_output@, i, #[trigger] next@[i]),
    {
        let ghost before = self.members@;
        let mut next: Vec<ConsumerOrResolved<Consumer>> = Vec::new();
        for member in iter: self.members
            invariant
                next@.len() == iter.index(),
                iter.seq() == before,
                forall|i: int|
                    0 <= i < next@.len() ==> retried(before[i], previous_output@, i, #[trigger] next@[i]),
        {
            let i: usize = next.len();
            let member = if i < previous_output.len() {
                member.retry(&previous_output[i])
            } else {
                member
            };
            next.push(member);
        }
        FanoutConsumerGroup { members: next }
    }
}

/// Whether the egress side is to be told that the attempt failed.
pub trait CancelEgress {
    /// Something in the result failed.
    spec fn egress_cancelled(&self) -> bool;

    /// Whether something in the result failed.
    fn cancel_egress(&self) -> (cancelled: bool)
        ensures
            cancelled == self.egress_cancelled(),
    ;
}

impl<T, E> CancelEgress for Result<T, E> {
    open spec fn egress_cancelled(&self) -> bool {
        self is Err
    }

    fn cancel_egress(&self) -> (cancelled: bool) {
        self.is_err()
    }
}

impl<R: CancelEgress> CancelEgress for Vec<R> {
    /// At least one member failed.
    open spec fn egress_cancelled(&self) -> bool {
        exists|i: int| 0 <= i < self@.len() && (#[trigger] self@[i]).egress_cancelled()
    }

    fn cancel_egress(&self) -> (cancelled: bool) {
        let mut i: usize = 0;
        while i < self.len()
            invariant
                i <= self@.len(),
                forall|k: int| 0 <= k < i ==> !(#[trigger] self@[k]).egress_cancelled(),
            decreases self@.len() - i,
        {
            if self[i].cancel_egress() {
                return true;
            }
            i += 1;
        }
        false
    }
}

} // verus!
