//! Ready-made consumers of chunks of bytes.

use crate::broadcaster::Seen;
use crate::chunks::{contents, total_len};
use crate::consumers::bytes_counter::{lemma_count_given, lemma_counted, BytesCounter};
use crate::error::Error;
use crate::fanout::consumer::{
    gave, given_by, reached, run_of, tripped, tripped_by, ConsumerOrResolved, FanoutConsumer,
    FanoutConsumerGroup,
};
use crate::fanout::egress::{EgressItem, EgressSender};
use crate::fanout::source::FanoutSource;
use crate::fanout::{attempt_of, attempt_output, attempted, pushed_into, MaybeRetryable};
use crate::sources::buffer::{lemma_total_len_grows, BytesSource};
use vstd::prelude::*;

pub mod bufferer;
pub mod bytes_counter;

verus! {

/// A group of byte counters.
pub type DownloadFanoutConsumers = FanoutConsumerGroup<BytesCounter>;

/// The group of byte counters with the limits `limits`, in their order.
pub fn download_fanout_consumers(limits: &Vec<usize>) -> (consumers: DownloadFanoutConsumers)
    ensures
        consumers@.len() == limits@.len(),
        forall|i: int|
            0 <= i < limits@.len() ==> (#[trigger] consumers@[i] matches ConsumerOrResolved::Consumer(
                counter,
            ) && counter.limit() == limits@[i]),
{
    let mut members: Vec<ConsumerOrResolved<BytesCounter>> = Vec::new();
    let mut i: usize = 0;
    while i < limits.len()
        invariant
            i <= limits@.len(),
            members@.len() == i,
            forall|k: int|
                0 <= k < i ==> (#[trigger] members@[k] matches ConsumerOrResolved::Consumer(counter)
                    && counter.limit() == limits@[k]),
        decreases limits@.len() - i,
    {
        members.push(ConsumerOrResolved::from(BytesCounter::new_with_limit(limits[i])));
        i += 1;
    }
    FanoutConsumerGroup::new(members)
}

/// What a group of byte counters gave: for each counter its count, or its
/// error.
pub struct DownloadFanoutConsumersOutput(pub Vec<Result<usize, Error>>);

impl DownloadFanoutConsumersOutput {
    /// Whether no counter failed in a way that forbids another attempt.
    pub fn is_retryable(&self) -> (retryable: bool)
        ensures
            retryable == self.0.retryable(),
    {
        self.0.is_retryable()
    }

    /// Whether some counter failed.
    pub fn should_retry(&self) -> (failed: bool)
        ensures
            failed == self.0.failed(),
    {
        self.0.should_retry()
    }
}

/// Chunks that hold the same bytes, one by one, hold as many bytes in all.
pub proof fn lemma_total_len_same(ours: Seq<bytes::Bytes>, theirs: Seq<bytes::Bytes>)
    requires
        ours.len() == theirs.len(),
        forall|i: int| 0 <= i < ours.len() ==> contents(#[trigger] ours[i]) == contents(theirs[i]),
    ensures
        total_len(ours) == total_len(theirs),
    decreases ours.len(),
{
    if ours.len() > 0 {
        assert(contents(ours[ours.len() - 1]) == contents(theirs[ours.len() - 1]));
        lemma_total_len_same(ours.drop_last(), theirs.drop_last());
    }
}

/// A run of a stream of chunks holds no more bytes than the stream, and as
/// many where it is the whole stream.
pub proof fn lemma_run_total(history: Seq<bytes::Bytes>, handed: Seq<bytes::Bytes>)
    requires
        run_of(history, handed),
    ensures
        total_len(handed) <= total_len(history),
        handed.len() == history.len() ==> total_len(handed) == total_len(history),
{
    let n = handed.len() as int;
    assert forall|i: int| 0 <= i < n implies contents(#[trigger] handed[i]) == contents(
        history.take(n)[i],
    ) by {
        assert(cloned(history[i], handed[i]));
    }
    lemma_total_len_same(handed, history.take(n));
    lemma_total_len_grows(history, n);
    if n == history.len() {
        assert(history.take(n) =~= history);
    }
}

/// What a source of chunks that pushes into a fresh broadcast leaves of it:
/// the stream holds no more bytes than the chunks, and as many where the
/// token was not tripped.
proof fn lemma_pushed_total(source: BytesSource, after: BytesSource, to: Seen<bytes::Bytes>, push: Result<
    (),
    Error,
>)
    requires
        source.pushed(
            after,
            Seen { history: Seq::<bytes::Bytes>::empty(), cancelled: false },
            to,
            push,
        ),
    ensures
        total_len(to.history) <= total_len(source.0@),
        !to.cancelled ==> total_len(to.history) == total_len(source.0@),
        push is Ok,
{
    let n = to.history.len() as int;
    assert forall|i: int| 0 <= i < n implies contents(#[trigger] to.history[i]) == contents(
        source.0@.take(n)[i],
    ) by {
        assert(contents(to.history[0 + i]) == contents(source.0@[i]));
    }
    lemma_total_len_same(to.history, source.0@.take(n));
    lemma_total_len_grows(source.0@, n);
    if n == source.0@.len() {
        assert(source.0@.take(n) =~= source.0@);
    }
}

/// A counter that trips the token on a run of chunks has a limit below the
/// bytes of that run.
proof fn lemma_tripped_over(counter: &BytesCounter, content_length: Option<u64>, handed: Seq<bytes::Bytes>)
    requires
        tripped(counter, content_length, handed),
    ensures
        total_len(handed) > counter.limit(),
{
    let (before, result) = choose|before: usize, result: Result<usize, Error>|
        {
            &&& reached(counter, content_length, handed.drop_last(), before)
            &&& #[trigger] counter.consumed(before, handed.last(), false, true, result)
        };
    lemma_counted(counter, content_length, handed.drop_last(), before);
}

/// Counters whose limits all suffice count everything. Let chunks be fanned
/// out in one attempt to byte counters that all have yet to run, and let the
/// limit of every counter be no less than the bytes of all chunks. Then
/// nobody trips the token, every chunk is broadcast, and every counter gives
/// the number of the bytes of all chunks.
pub proof fn law_sufficient_counters_count_all<Egress: EgressSender>(
    source: BytesSource,
    after: BytesSource,
    members: Seq<ConsumerOrResolved<BytesCounter>>,
    egress_tx: &Egress,
    result: Result<Vec<Result<usize, Error>>, Error>,
) where Egress::Item: EgressItem<bytes::Bytes>
    requires
        attempt_of(source, after, members, egress_tx, result),
        forall|j: int|
            0 <= j < members.len() ==> (#[trigger] members[j] matches ConsumerOrResolved::Consumer(
                counter,
            ) && counter.limit() >= total_len(source.0@)),
    ensures
        result matches Ok(output) && output@.len() == members.len() && forall|j: int|
            0 <= j < members.len() ==> #[trigger] output@[j] == Ok::<usize, Error>(
                total_len(source.0@) as usize,
            ),
{
    let (asked, size) = choose|asked: BytesSource, size: Result<Option<u64>, Error>|
        {
            &&& #[trigger] source.asked(asked, size)
            &&& match size {
                Err(error) => after == asked && result == Err::<Vec<Result<usize, Error>>, Error>(
                    error,
                ),
                Ok(content_length) => pushed_into(
                    asked,
                    after,
                    members,
                    egress_tx,
                    content_length,
                    result,
                ),
            }
        };
    let content_length = size->Ok_0;
    let (to, push) = choose|to: Seen<bytes::Bytes>, push: Result<(), Error>|
        {
            &&& #[trigger] asked.pushed(
                after,
                Seen { history: Seq::<bytes::Bytes>::empty(), cancelled: false },
                to,
                push,
            )
            &&& to.cancelled ==> tripped_by(members, content_length, to.history)
            &&& crate::fanout::egress::forwarded(egress_tx, to.history)
            &&& attempted(members, content_length, to.history, push, result)
        };
    lemma_pushed_total(asked, after, to, push);
    if to.cancelled {
        let (j, handed) = choose|j: int, handed: Seq<bytes::Bytes>|
            {
                &&& 0 <= j < members.len()
                &&& members[j] is Consumer
                &&& run_of(to.history, handed)
                &&& #[trigger] tripped(&members[j]->Consumer_0, content_length, handed)
            };
        lemma_tripped_over(&members[j]->Consumer_0, content_length, handed);
        lemma_run_total(to.history, handed);
        assert(false);
    }
    let output = result->Ok_0;
    assert(attempt_output(members, content_length, to.history, output@));
    assert forall|j: int| 0 <= j < members.len() implies #[trigger] output@[j] == Ok::<usize, Error>(
        total_len(source.0@) as usize,
    ) by {
        let counter = members[j]->Consumer_0;
        assert(given_by(&counter, content_length, to.history, output@[j]));
        let (handed, finished) = choose|handed: Seq<bytes::Bytes>, finished: bool|
            {
                &&& #[trigger] gave(&counter, content_length, handed, finished, output@[j])
                &&& run_of(to.history, handed)
                &&& finished ==> handed.len() == to.history.len()
            };
        lemma_count_given(&counter, content_length, handed, finished, output@[j]);
        lemma_run_total(to.history, handed);
    }
}

/// The counter with the least limit fails where that limit does not suffice.
/// Let chunks be fanned out in one attempt to byte counters that all have
/// yet to run, and let no counter have a lower limit than member `least`,
/// whose limit is below the bytes of all chunks. Then that member fails,
/// whoever trips the token first.
pub proof fn law_least_counter_fails<Egress: EgressSender>(
    source: BytesSource,
    after: BytesSource,
    members: Seq<ConsumerOrResolved<BytesCounter>>,
    egress_tx: &Egress,
    result: Result<Vec<Result<usize, Error>>, Error>,
    least: int,
) where Egress::Item: EgressItem<bytes::Bytes>
    requires
        attempt_of(source, after, members, egress_tx, result),
        0 <= least < members.len(),
        members[least] is Consumer,
        members[least]->Consumer_0.limit() < total_len(source.0@),
        forall|j: int|
            0 <= j < members.len() ==> (#[trigger] members[j] matches ConsumerOrResolved::Consumer(
                counter,
            ) && counter.limit() >= members[least]->Consumer_0.limit()),
    ensures
        result matches Ok(output) && output@.len() == members.len() && output@[least] is Err,
{
    let (asked, size) = choose|asked: BytesSource, size: Result<Option<u64>, Error>|
        {
            &&& #[trigger] source.asked(asked, size)
            &&& match size {
                Err(error) => after == asked && result == Err::<Vec<Result<usize, Error>>, Error>(
                    error,
                ),
                Ok(content_length) => pushed_into(
                    asked,
                    after,
                    members,
                    egress_tx,
                    content_length,
                    result,
                ),
            }
        };
    let content_length = size->Ok_0;
    let (to, push) = choose|to: Seen<bytes::Bytes>, push: Result<(), Error>|
        {
            &&& #[trigger] asked.pushed(
                after,
                Seen { history: Seq::<bytes::Bytes>::empty(), cancelled: false },
                to,
                push,
            )
            &&& to.cancelled ==> tripped_by(members, content_length, to.history)
            &&& crate::fanout::egress::forwarded(egress_tx, to.history)
            &&& attempted(members, content_length, to.history, push, result)
        };
    lemma_pushed_total(asked, after, to, push);
    let output = result->Ok_0;
    assert(attempt_output(members, content_length, to.history, output@));
    let counter = members[least]->Consumer_0;
    assert(given_by(&counter, content_length, to.history, output@[least]));
    let (handed, finished) = choose|handed: Seq<bytes::Bytes>, finished: bool|
        {
            &&& #[trigger] gave(&counter, content_length, handed, finished, output@[least])
            &&& run_of(to.history, handed)
            &&& finished ==> handed.len() == to.history.len()
        };
    lemma_count_given(&counter, content_length, handed, finished, output@[least]);
    lemma_run_total(to.history, handed);
    if finished && to.cancelled {
        let (j, run) = choose|j: int, run: Seq<bytes::Bytes>|
            {
                &&& 0 <= j < members.len()
                &&& members[j] is Consumer
                &&& run_of(to.history, run)
                &&& #[trigger] tripped(&members[j]->Consumer_0, content_length, run)
            };
        lemma_tripped_over(&members[j]->Consumer_0, content_length, run);
        lemma_run_total(to.history, run);
    }
}

} // verus!
