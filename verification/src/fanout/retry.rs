//! Another attempt after a failed one, and the driver that runs a batch of
//! attempts until all have succeeded or none can go on.

use crate::fanout::consumer::{retried, ConsumerOrResolved, FanoutConsumer, FanoutConsumerGroup};
use crate::fanout::source::FanoutSource;
use crate::fanout::{MaybeRetryable, Ready, StreamFanout, Used};
use vstd::prelude::*;

verus! {

/// Whether `result` is not yet final: something failed, and nothing that
/// failed forbids another attempt.
pub open spec fn retry_wanted<Output: MaybeRetryable, Error: MaybeRetryable>(
    result: Result<Output, Error>,
) -> bool {
    match result {
        Ok(output) => output.failed() && output.retryable(),
        Err(error) => error.retryable(),
    }
}

/// Whether something in `result` failed.
pub open spec fn attempt_failed<Output: MaybeRetryable, Error>(result: Result<Output, Error>) -> bool {
    match result {
        Ok(output) => output.failed(),
        Err(_) => true,
    }
}

/// Whether `result` is not yet final: something failed, and nothing that
/// failed forbids another attempt.
pub fn wants_retry<Output: MaybeRetryable, Error: MaybeRetryable>(result: &Result<Output, Error>) -> (wanted:
    bool)
    ensures
        wanted == retry_wanted(*result),
{
    match result {
        Ok(output) => output.should_retry() && output.is_retryable(),
        Err(error) => error.is_retryable(),
    }
}

/// Whether something in `result` failed.
pub fn has_failed<Output: MaybeRetryable, Error>(result: &Result<Output, Error>) -> (failed: bool)
    ensures
        failed == attempt_failed(*result),
{
    match result {
        Ok(output) => output.should_retry(),
        Err(_) => true,
    }
}

/// What the consumers of the next attempt are, given those of the last one
/// and its result: after an output, each member that succeeded is resolved;
/// after an error of the source, all are as they were.
pub open spec fn retried_group<Consumer: FanoutConsumer, Error>(
    consumers: Seq<ConsumerOrResolved<Consumer>>,
    result: Result<Vec<Result<Consumer::Output, Consumer::Error>>, Error>,
    next: Seq<ConsumerOrResolved<Consumer>>,
) -> bool where Consumer::Output: Clone {
    match result {
        Ok(output) => {
            &&& next.len() == consumers.len()
            &&& forall|i: int|
                0 <= i < consumers.len() ==> retried(consumers[i], output@, i, #[trigger] next[i])
        },
        Err(_) => next == consumers,
    }
}

/// Resolved members are not run again. Let a group be retried after an
/// attempt, and let the group that this gives be driven in a next attempt.
/// Then every member that succeeded in the first attempt has in the second
/// the output that it gave in the first, copied and never computed anew; and
/// every member that failed in the first is in the second what it was
/// before: a consumer that had yet to run still has to.
pub proof fn law_retry_keeps_resolved<Consumer: FanoutConsumer>(
    consumers: Seq<ConsumerOrResolved<Consumer>>,
    first_output: Seq<Result<Consumer::Output, Consumer::Error>>,
    retry_consumers: Seq<ConsumerOrResolved<Consumer>>,
    second_output: Seq<Result<Consumer::Output, Consumer::Error>>,
    i: int,
) where Consumer::Output: Clone
    requires
        0 <= i < consumers.len(),
        first_output.len() == consumers.len(),
        retry_consumers.len() == consumers.len(),
        forall|j: int|
            0 <= j < consumers.len() ==> retried(consumers[j], first_output, j, #[trigger] retry_consumers[j]),
        crate::fanout::output_of(retry_consumers, second_output),
    ensures
        first_output[i] matches Ok(output) ==> {
            &&& retry_consumers[i] matches ConsumerOrResolved::ConsumerOutput(kept)
            &&& cloned(output, kept)
            &&& second_output[i] matches Ok(given)
            &&& cloned(kept, given)
        },
        first_output[i] is Err ==> retry_consumers[i] == consumers[i],
{
    assert(retried(consumers[i], first_output, i, retry_consumers[i]));
}

/// What the next attempt is, given what the reset of the source gave.
/// Without a source there is no next attempt, whatever the result was. With
/// one the next attempt has that source, and the consumers of the last
/// attempt, each resolved where it has succeeded.
pub open spec fn reconstructed<Source, Consumer: FanoutConsumer, Error>(
    reset: Option<Source>,
    consumers: Seq<ConsumerOrResolved<Consumer>>,
    result: Result<Vec<Result<Consumer::Output, Consumer::Error>>, Error>,
    next: Option<StreamFanout<Source, FanoutConsumerGroup<Consumer>, Ready>>,
) -> bool where Consumer::Output: Clone {
    match reset {
        None => next is None,
        Some(source) => {
            &&& next matches Some(fanout)
            &&& fanout.source() == source
            &&& retried_group(consumers, result, fanout.consumers()@)
        },
    }
}

impl<Source, Consumer> StreamFanout<Source, FanoutConsumerGroup<Consumer>, Used> where
    Source: FanoutSource,
    Consumer: FanoutConsumer<Item = Source::Item>,
    Consumer::Output: Clone,
    Consumer::Error: MaybeRetryable,
 {
    /// The next attempt, from what the reset of the source gave.
    pub fn reconstruct(
        reset: Option<Source>,
        consumers: FanoutConsumerGroup<Consumer>,
        result: &Result<Vec<Result<Consumer::Output, Consumer::Error>>, Source::Error>,
    ) -> (next: Option<StreamFanout<Source, FanoutConsumerGroup<Consumer>, Ready>>)
        ensures
            reconstructed(reset, consumers@, *result, next),
    {
        match reset {
            None => None,
            Some(source) => {
                let consumers = match result {
                    Ok(output) => consumers.retry(output),
                    Err(_) => consumers,
                };
                Some(StreamFanout::new(source, consumers))
            },
        }
    }

    /// The next attempt after this one, if there is one. After a result
    /// that is final there is none, and the source is not reset. After one
    /// that is not, the source is reset, and the next attempt is what that
    /// reset makes it: none where the source cannot be had again, and else
    /// one with the source that the reset gave and the consumers of this
    /// attempt, each resolved where it has succeeded.
    pub fn retry(
        self,
        result: &Result<Vec<Result<Consumer::Output, Consumer::Error>>, Source::Error>,
    ) -> (next: Option<StreamFanout<Source, FanoutConsumerGroup<Consumer>, Ready>>)
        ensures
            !retry_wanted(*result) ==> next is None,
            retry_wanted(*result) ==> reconstructed(
                self.source().reset_spec(),
                self.consumers()@,
                *result,
                next,
            ),
    {
        if !wants_retry(result) {
            return None;
        }
        let (source, consumers) = self.into_parts();
        Self::reconstruct(source.reset(), consumers, result)
    }
}

/// What makes the time pass between two rounds of a batch.
pub trait Sleep {
    /// Lets `seconds` seconds pass.
    fn sleep(&self, seconds: u64);
}

/// Lets no time pass at all.
#[derive(Clone, Copy, Debug, Default)]
pub struct NoSleep;

impl Sleep for NoSleep {
    fn sleep(&self, _seconds: u64) {
    }
}

/// The waiting between two rounds of a batch. It keeps the waits that it was
/// asked for.
pub struct Backoff<Sleeper: Sleep> {
    sleeper: Sleeper,
    waits: Vec<u64>,
}

impl<Sleeper: Sleep> Backoff<Sleeper> {
    /// The waits so far, in seconds, oldest first.
    pub closed spec fn waited(&self) -> Seq<u64> {
        self.waits@
    }

    /// A backoff that lets the time pass as `sleeper` does, and that has not
    /// yet waited.
    pub fn new(sleeper: Sleeper) -> (backoff: Self)
        ensures
            backoff.waited() == Seq::<u64>::empty(),
    {
        Backoff { sleeper, waits: Vec::new() }
    }

    /// Waits for `seconds` seconds.
    pub fn wait(&mut self, seconds: u64)
        ensures
            final(self).waited() == old(self).waited().push(seconds),
    {
        self.sleeper.sleep(seconds);
        self.waits.push(seconds);
    }

    /// The waits so far, in seconds, oldest first.
    pub fn waits(&self) -> (waits: &Vec<u64>)
        ensures
            waits@ == self.waited(),
    {
        &self.waits
    }
}

/// What one round of a batch gave.
pub struct Round<Fanout, Output, Error> {
    /// The outputs of the attempts in which nothing failed, in the order of
    /// the batch.
    pub outputs: Vec<Output>,
    /// The outputs of the attempts in which some consumer failed, in the
    /// order of the batch.
    pub unfinished_outputs: Vec<Output>,
    /// The errors of the attempts whose source failed, in the order of the
    /// batch.
    pub errors: Vec<Error>,
    /// The next attempt for every attempt in which something failed, in the
    /// order of the batch; `None` where some such attempt has no next attempt.
    pub retry_fanouts: Option<Vec<Fanout>>,
}

impl<Fanout, Output, Error> Round<Fanout, Output, Error> {
    /// Nothing failed in any attempt of the round.
    pub open spec fn succeeded(&self) -> bool {
        self.unfinished_outputs@.len() == 0 && self.errors@.len() == 0
    }

    /// Whether nothing failed in any attempt of the round.
    pub fn has_succeeded(&self) -> (succeeded: bool)
        ensures
            succeeded == self.succeeded(),
    {
        self.unfinished_outputs.len() == 0 && self.errors.len() == 0
    }
}

/// What follows a round.
pub enum Step<Fanout> {
    /// Another round, with these attempts, after a wait of so many seconds.
    Retry { fanouts: Vec<Fanout>, backoff_seconds: u64 },
    /// No further round.
    Stop,
}

/// What follows a round that was the `attempts`-th of at most `max_attempts`.
/// There is another round where something failed, every attempt in which
/// something failed has a next attempt, and the rounds are not used up. The
/// wait before it grows with the rounds: as many seconds as rounds were run.
pub fn next_step<Fanout>(
    succeeded: bool,
    retry_fanouts: Option<Vec<Fanout>>,
    attempts: u64,
    max_attempts: u64,
) -> (step: Step<Fanout>)
    ensures
        step == (if succeeded || attempts >= max_attempts {
            Step::<Fanout>::Stop
        } else {
            match retry_fanouts {
                Some(fanouts) => Step::Retry { fanouts, backoff_seconds: attempts },
                None => Step::Stop,
            }
        }),
{
    if succeeded || attempts >= max_attempts {
        Step::Stop
    } else {
        match retry_fanouts {
            Some(fanouts) => Step::Retry { fanouts, backoff_seconds: attempts },
            None => Step::Stop,
        }
    }
}

/// The result of a batch that has stopped: the outputs where no source
/// failed in the last round, and else the errors of that round.
pub fn batch_result<Output, Error>(outputs: Vec<Output>, errors: Vec<Error>) -> (result: Result<
    Vec<Output>,
    Vec<Error>,
>)
    ensures
        result == (if errors@.len() == 0 {
            Ok::<Vec<Output>, Vec<Error>>(outputs)
        } else {
            Err::<Vec<Output>, Vec<Error>>(errors)
        }),
{
    if errors.len() == 0 {
        Ok(outputs)
    } else {
        Err(errors)
    }
}

/// What one attempt of a batch gave: the attempt, now used, and its result.
pub struct Driven<Source: FanoutSource, Consumer: FanoutConsumer> {
    /// The attempt, after its run.
    pub fanout: StreamFanout<Source, FanoutConsumerGroup<Consumer>, Used>,
    /// The result of the run.
    pub result: Result<Vec<Result<Consumer::Output, Consumer::Error>>, Source::Error>,
}

/// The outputs of the attempts in which nothing failed, in the order of the
/// batch.
pub open spec fn outputs_of<Source: FanoutSource, Consumer: FanoutConsumer>(
    driven: Seq<Driven<Source, Consumer>>,
) -> Seq<Vec<Result<Consumer::Output, Consumer::Error>>> where Consumer::Error: MaybeRetryable
    decreases driven.len(),
{
    if driven.len() == 0 {
        Seq::empty()
    } else {
        let rest = outputs_of(driven.drop_last());
        match driven.last().result {
            Ok(output) => if output.failed() {
                rest
            } else {
                rest.push(output)
            },
            Err(_) => rest,
        }
    }
}

/// The outputs of the attempts in which some consumer failed, in the order of
/// the batch.
pub open spec fn unfinished_outputs_of<Source: FanoutSource, Consumer: FanoutConsumer>(
    driven: Seq<Driven<Source, Consumer>>,
) -> Seq<Vec<Result<Consumer::Output, Consumer::Error>>> where Consumer::Error: MaybeRetryable
    decreases driven.len(),
{
    if driven.len() == 0 {
        Seq::empty()
    } else {
        let rest = unfinished_outputs_of(driven.drop_last());
        match driven.last().result {
            Ok(output) => if output.failed() {
                rest.push(output)
            } else {
                rest
            },
            Err(_) => rest,
        }
    }
}

/// The errors of the attempts whose source failed, in the order of the batch.
pub open spec fn errors_of<Source: FanoutSource, Consumer: FanoutConsumer>(
    driven: Seq<Driven<Source, Consumer>>,
) -> Seq<Source::Error>
    decreases driven.len(),
{
    if driven.len() == 0 {
        Seq::empty()
    } else {
        let rest = errors_of(driven.drop_last());
        match driven.last().result {
            Ok(_) => rest,
            Err(error) => rest.push(error),
        }
    }
}

/// Whether the attempt can be made again: its result is not yet final, and
/// its source can be had again.
pub open spec fn can_go_on<Source: FanoutSource, Consumer: FanoutConsumer>(
    driven: Driven<Source, Consumer>,
) -> bool where Consumer::Error: MaybeRetryable {
    retry_wanted(driven.result) && driven.fanout.source().reset_spec() is Some
}

/// Whether the batch cannot go on as a whole: something failed in some
/// attempt that cannot be made again.
pub open spec fn blocked<Source: FanoutSource, Consumer: FanoutConsumer>(
    driven: Seq<Driven<Source, Consumer>>,
) -> bool where Consumer::Error: MaybeRetryable
    decreases driven.len(),
{
    if driven.len() == 0 {
        false
    } else {
        blocked(driven.drop_last()) || (attempt_failed(driven.last().result) && !can_go_on(
            driven.last(),
        ))
    }
}

/// Whether `next` holds, in the order of the batch, the next attempt of every
/// attempt in which something failed: the source that its reset gives, and
/// its consumers, each resolved where it has succeeded.
pub open spec fn next_attempts<Source: FanoutSource, Consumer: FanoutConsumer>(
    driven: Seq<Driven<Source, Consumer>>,
    next: Seq<StreamFanout<Source, FanoutConsumerGroup<Consumer>, Ready>>,
) -> bool where Consumer::Output: Clone, Consumer::Error: MaybeRetryable
    decreases driven.len(),
{
    if driven.len() == 0 {
        next.len() == 0
    } else if attempt_failed(driven.last().result) {
        &&& next.len() > 0
        &&& can_go_on(driven.last())
        &&& reconstructed(
            driven.last().fanout.source().reset_spec(),
            driven.last().fanout.consumers()@,
            driven.last().result,
            Some(next.last()),
        )
        &&& next_attempts(driven.drop_last(), next.drop_last())
    } else {
        next_attempts(driven.drop_last(), next)
    }
}

/// Whether `round` is what the results `driven` of a batch sort into. Each
/// attempt in which nothing failed gives its output; each in which a
/// consumer failed gives its output as unfinished; each whose source failed
/// gives its error; all in the order of the batch. There are next attempts
/// if and only if every attempt in which something failed can be made again,
/// and then there is one for each of them.
pub open spec fn round_of<Source: FanoutSource, Consumer: FanoutConsumer>(
    driven: Seq<Driven<Source, Consumer>>,
    round: Round<
        StreamFanout<Source, FanoutConsumerGroup<Consumer>, Ready>,
        Vec<Result<Consumer::Output, Consumer::Error>>,
        Source::Error,
    >,
) -> bool where Consumer::Output: Clone, Consumer::Error: MaybeRetryable {
    &&& round.outputs@ == outputs_of(driven)
    &&& round.unfinished_outputs@ == unfinished_outputs_of(driven)
    &&& round.errors@ == errors_of(driven)
    &&& round.retry_fanouts is None <==> blocked(driven)
    &&& round.retry_fanouts matches Some(next) ==> next_attempts(driven, next@)
}

/// A source that cannot be had again ends the batch. Let something have
/// failed in attempt `i` of a batch, and let the reset of its source give
/// nothing. Then the round has no next attempts, whether or not the failure
/// allows another attempt, and whatever the other sources can do; and where
/// it is the source that failed, its error is among the errors of the round.
pub proof fn law_reset_exhaustion<Source: FanoutSource, Consumer: FanoutConsumer>(
    driven: Seq<Driven<Source, Consumer>>,
    round: Round<
        StreamFanout<Source, FanoutConsumerGroup<Consumer>, Ready>,
        Vec<Result<Consumer::Output, Consumer::Error>>,
        Source::Error,
    >,
    i: int,
) where Consumer::Output: Clone, Consumer::Error: MaybeRetryable
    requires
        0 <= i < driven.len(),
        round_of(driven, round),
        attempt_failed(driven[i].result),
        driven[i].fanout.source().reset_spec() is None,
    ensures
        round.retry_fanouts is None,
        driven[i].result matches Err(error) ==> round.errors@.contains(error),
{
    lemma_blocked(driven, i);
    lemma_error_kept(driven, i);
}

/// A batch in which something failed in an attempt that cannot be made again
/// cannot go on.
proof fn lemma_blocked<Source: FanoutSource, Consumer: FanoutConsumer>(
    driven: Seq<Driven<Source, Consumer>>,
    i: int,
) where Consumer::Error: MaybeRetryable
    requires
        0 <= i < driven.len(),
        attempt_failed(driven[i].result),
        !can_go_on(driven[i]),
    ensures
        blocked(driven),
    decreases driven.len(),
{
    if i < driven.len() - 1 {
        lemma_blocked(driven.drop_last(), i);
    }
}

/// The error of every attempt whose source failed is among the errors of the
/// batch.
proof fn lemma_error_kept<Source: FanoutSource, Consumer: FanoutConsumer>(
    driven: Seq<Driven<Source, Consumer>>,
    i: int,
)
    requires
        0 <= i < driven.len(),
    ensures
        driven[i].result matches Err(error) ==> errors_of(driven).contains(error),
    decreases driven.len(),
{
    let rest = errors_of(driven.drop_last());
    if i < driven.len() - 1 {
        lemma_error_kept(driven.drop_last(), i);
        if driven[i].result is Err {
            let error = driven[i].result->Err_0;
            let at = choose|k: int| 0 <= k < rest.len() && rest[k] == error;
            assert(errors_of(driven)[at] == error);
        }
    } else if driven[i].result is Err {
        assert(errors_of(driven)[rest.len() as int] == driven[i].result->Err_0);
    }
}

/// Whether `driven` may be what the attempt `fanout` gives when it is run:
/// it has the consumers of the attempt, and its source and its result are
/// what a run of the attempt, without an egress side, leaves and gives.
pub open spec fn driven_of<Source: FanoutSource, Consumer: FanoutConsumer<Item = Source::Item>>(
    fanout: StreamFanout<Source, FanoutConsumerGroup<Consumer>, Ready>,
    driven: Driven<Source, Consumer>,
) -> bool where Consumer::Output: Clone {
    &&& driven.fanout.consumers() == fanout.consumers()
    &&& driven.result matches Ok(output) ==> crate::fanout::output_of(fanout.consumers()@, output@)
    &&& crate::fanout::attempt_of(
        fanout.source(),
        driven.fanout.source(),
        fanout.consumers()@,
        &(),
        driven.result,
    )
}

/// Whether `driven` may be what a run of the batch `fanouts` gives: one
/// result for each attempt, in order, each what its attempt gives.
pub open spec fn driven_from<Source: FanoutSource, Consumer: FanoutConsumer<Item = Source::Item>>(
    fanouts: Seq<StreamFanout<Source, FanoutConsumerGroup<Consumer>, Ready>>,
    driven: Seq<Driven<Source, Consumer>>,
) -> bool where Consumer::Output: Clone {
    &&& driven.len() == fanouts.len()
    &&& forall|i: int| 0 <= i < driven.len() ==> driven_of(fanouts[i], #[trigger] driven[i])
}

/// Whether `round` may be what one round of the batch `fanouts` gives: what
/// the results of a run of the batch sort into.
pub open spec fn round_from<Source: FanoutSource, Consumer: FanoutConsumer<Item = Source::Item>>(
    fanouts: Seq<StreamFanout<Source, FanoutConsumerGroup<Consumer>, Ready>>,
    round: Round<
        StreamFanout<Source, FanoutConsumerGroup<Consumer>, Ready>,
        Vec<Result<Consumer::Output, Consumer::Error>>,
        Source::Error,
    >,
) -> bool where Consumer::Output: Clone, Consumer::Error: MaybeRetryable {
    exists|driven: Seq<Driven<Source, Consumer>>|
        driven_from(fanouts, driven) && #[trigger] round_of(driven, round)
}

/// Runs every attempt of the batch once, in order and without egress, and
/// gives for each the attempt, now used, and its result. The room of the
/// queues has to be 1 at least: queues without room never deliver.
pub fn drive_batch<Source, Consumer>(
    fanouts: Vec<StreamFanout<Source, FanoutConsumerGroup<Consumer>, Ready>>,
    broadcaster_buffer_size: usize,
) -> (driven: Vec<Driven<Source, Consumer>>) where
    Source: FanoutSource,
    Consumer: FanoutConsumer<Item = Source::Item>,
    Consumer::Output: Clone,

    requires
        broadcaster_buffer_size >= 1,
    ensures
        driven_from(fanouts@, driven@),
{
    let ghost batch = fanouts@;
    let mut driven: Vec<Driven<Source, Consumer>> = Vec::new();
    for fanout in iter: fanouts
        invariant
            iter.seq() == batch,
            broadcaster_buffer_size >= 1,
            driven_from(batch.take(iter.index() as int), driven@),
    {
        let (used_fanout, result) = fanout.into_driver().with_broadcaster_buffer_size(
            broadcaster_buffer_size,
        ).drive();
        driven.push(Driven { fanout: used_fanout, result });
    }
    proof {
        assert(batch.take(batch.len() as int) =~= batch);
    }
    driven
}

/// Sorts what the attempts of a batch gave into a round, and makes the next
/// attempt of every attempt in which something failed. The source of an
/// attempt is reset only where something failed in it and its result is not
/// yet final.
pub fn sort_round<Source, Consumer>(driven: Vec<Driven<Source, Consumer>>) -> (round: Round<
    StreamFanout<Source, FanoutConsumerGroup<Consumer>, Ready>,
    Vec<Result<Consumer::Output, Consumer::Error>>,
    Source::Error,
>) where
    Source: FanoutSource,
    Consumer: FanoutConsumer<Item = Source::Item>,
    Consumer::Output: Clone,
    Consumer::Error: MaybeRetryable,

    ensures
        round_of(driven@, round),
        round.outputs@.len() + round.unfinished_outputs@.len() + round.errors@.len() == driven@.len(),
        round.retry_fanouts matches Some(next) ==> next@.len() == round.unfinished_outputs@.len()
            + round.errors@.len(),
{
    let ghost all = driven@;
    let mut outputs: Vec<Vec<Result<Consumer::Output, Consumer::Error>>> = Vec::new();
    let mut unfinished_outputs: Vec<Vec<Result<Consumer::Output, Consumer::Error>>> = Vec::new();
    let mut errors: Vec<Source::Error> = Vec::new();
    let mut retry_fanouts: Vec<StreamFanout<Source, FanoutConsumerGroup<Consumer>, Ready>> = Vec::new();
    let mut is_blocked = false;
    for attempt in iter: driven
        invariant
            iter.seq() == all,
            outputs@ == outputs_of(all.take(iter.index() as int)),
            unfinished_outputs@ == unfinished_outputs_of(all.take(iter.index() as int)),
            errors@ == errors_of(all.take(iter.index() as int)),
            is_blocked == blocked(all.take(iter.index() as int)),
            !is_blocked ==> next_attempts(all.take(iter.index() as int), retry_fanouts@),
            outputs@.len() + unfinished_outputs@.len() + errors@.len() == iter.index(),
            !is_blocked ==> retry_fanouts@.len() == unfinished_outputs@.len() + errors@.len(),
    {
        proof {
            assert(all.take(iter.index() + 1).drop_last() =~= all.take(iter.index() as int));
            assert(all.take(iter.index() + 1).last() == attempt);
        }
        let ghost before = retry_fanouts@;
        let Driven { fanout: used_fanout, result } = attempt;
        if has_failed(&result) {
            match used_fanout.retry(&result) {
                Some(retry_fanout) => {
                    retry_fanouts.push(retry_fanout);
                    proof {
                        assert(retry_fanouts@.drop_last() =~= before);
                    }
                },
                None => {
                    is_blocked = true;
                },
            }
            match result {
                Ok(output) => unfinished_outputs.push(output),
                Err(error) => errors.push(error),
            }
        } else {
            match result {
                Ok(output) => outputs.push(output),
                Err(error) => errors.push(error),
            }
        }
    }
    proof {
        assert(all.take(all.len() as int) =~= all);
    }
    Round {
        outputs,
        unfinished_outputs,
        errors,
        retry_fanouts: if is_blocked {
            None
        } else {
            Some(retry_fanouts)
        },
    }
}

/// Runs every attempt of the batch once, without egress, and sorts what they
/// gave: the round is what [`sort_round`] makes of what [`drive_batch`]
/// gives. The room of the queues has to be 1 at least.
pub fn attempt_download<Source, Consumer>(
    fanouts: Vec<StreamFanout<Source, FanoutConsumerGroup<Consumer>, Ready>>,
    broadcaster_buffer_size: usize,
) -> (round: Round<
    StreamFanout<Source, FanoutConsumerGroup<Consumer>, Ready>,
    Vec<Result<Consumer::Output, Consumer::Error>>,
    Source::Error,
>) where
    Source: FanoutSource,
    Consumer: FanoutConsumer<Item = Source::Item>,
    Consumer::Output: Clone,
    Consumer::Error: MaybeRetryable,

    requires
        broadcaster_buffer_size >= 1,
    ensures
        round_from(fanouts@, round),
        round.outputs@.len() + round.unfinished_outputs@.len() + round.errors@.len() == fanouts@.len(),
        round.retry_fanouts matches Some(next) ==> next@.len() == round.unfinished_outputs@.len()
            + round.errors@.len(),
{
    let driven = drive_batch(fanouts, broadcaster_buffer_size);
    sort_round(driven)
}

/// The waits `1, 2, ..., rounds` seconds.
pub open spec fn backoffs(rounds: nat) -> Seq<u64> {
    Seq::new(rounds, |i: int| (i + 1) as u64)
}

/// The outputs of the attempts in which nothing failed, of all `rounds`, in
/// the order of the rounds.
pub open spec fn gathered<Fanout, Output, Error>(rounds: Seq<Round<Fanout, Output, Error>>) -> Seq<
    Output,
>
    decreases rounds.len(),
{
    if rounds.len() == 0 {
        Seq::empty()
    } else {
        gathered(rounds.drop_last()) + rounds.last().outputs@
    }
}

/// Whether `result` is what a batch gives that ran through `rounds`. The
/// first round is one of the batch, and each further one is a round of the
/// next attempts of the round before it, in which something had failed.
/// There is one round at least and there are `max_attempts` at most. After
/// the last round nothing has failed, or some attempt cannot be made again,
/// or the rounds are used up. The result is then the outputs of all rounds,
/// those of the last round with a failed consumer last, where no source
/// failed in the last round; and else the errors of the last round.
pub open spec fn ran<Source: FanoutSource, Consumer: FanoutConsumer<Item = Source::Item>>(
    fanouts: Seq<StreamFanout<Source, FanoutConsumerGroup<Consumer>, Ready>>,
    max_attempts: u64,
    rounds: Seq<
        Round<
            StreamFanout<Source, FanoutConsumerGroup<Consumer>, Ready>,
            Vec<Result<Consumer::Output, Consumer::Error>>,
            Source::Error,
        >,
    >,
    result: Result<Vec<Vec<Result<Consumer::Output, Consumer::Error>>>, Vec<Source::Error>>,
) -> bool where Consumer::Output: Clone, Consumer::Error: MaybeRetryable {
    &&& 1 <= rounds.len() <= max_attempts
    &&& round_from(fanouts, rounds[0])
    &&& forall|k: int|
        0 <= k < rounds.len() - 1 ==> {
            &&& !(#[trigger] rounds[k]).succeeded()
            &&& rounds[k].retry_fanouts is Some
            &&& round_from(rounds[k].retry_fanouts->Some_0@, rounds[k + 1])
        }
    &&& rounds.last().succeeded() || rounds.last().retry_fanouts is None || rounds.len()
        == max_attempts
    &&& match result {
        Ok(outputs) => {
            &&& rounds.last().errors@.len() == 0
            &&& outputs@ == gathered(rounds) + rounds.last().unfinished_outputs@
        },
        Err(errors) => errors@.len() > 0 && errors == rounds.last().errors,
    }
}

/// A batch whose sources keep failing is retried to the budget, and no
/// further. Let a batch have run through `rounds`, and let in every round
/// some source have failed while every failed attempt had a next attempt.
/// Then exactly `max_attempts` rounds were run, and the result is the errors
/// of the last of them.
pub proof fn law_retried_to_the_budget<Source: FanoutSource, Consumer: FanoutConsumer<Item = Source::Item>>(
    fanouts: Seq<StreamFanout<Source, FanoutConsumerGroup<Consumer>, Ready>>,
    max_attempts: u64,
    rounds: Seq<
        Round<
            StreamFanout<Source, FanoutConsumerGroup<Consumer>, Ready>,
            Vec<Result<Consumer::Output, Consumer::Error>>,
            Source::Error,
        >,
    >,
    result: Result<Vec<Vec<Result<Consumer::Output, Consumer::Error>>>, Vec<Source::Error>>,
) where Consumer::Output: Clone, Consumer::Error: MaybeRetryable
    requires
        ran(fanouts, max_attempts, rounds, result),
        forall|k: int|
            0 <= k < rounds.len() ==> (#[trigger] rounds[k]).errors@.len() > 0
                && rounds[k].retry_fanouts is Some,
    ensures
        rounds.len() == max_attempts,
        result == Err::<Vec<Vec<Result<Consumer::Output, Consumer::Error>>>, Vec<Source::Error>>(
            rounds.last().errors,
        ),
{
    assert(rounds.last() == rounds[rounds.len() - 1]);
}

/// The waits between the rounds grow by a second with each round: the wait
/// after round `k`, counted from 1, is `k` seconds, and after the last round
/// there is none.
pub proof fn law_backoff_grows(rounds: nat, k: int)
    requires
        0 <= k < rounds,
        rounds <= u64::MAX,
    ensures
        backoffs(rounds).len() == rounds,
        backoffs(rounds)[k] == k + 1,
        k > 0 ==> backoffs(rounds)[k] > backoffs(rounds)[k - 1],
{
}

/// Runs a batch of attempts to its end. After each round in which something
/// failed, every attempt in which something failed is replaced by its next
/// attempt, and the next round follows after a wait that grows by a second
/// with each round. The batch stops when nothing has failed, when some
/// failed attempt has no next attempt, and when `max_attempts` rounds were
/// run. It then gives every output there is, or, where a source failed in
/// the last round, the errors of that round.
///
/// One round is always run, so `max_attempts` has to be 1 at least; and the
/// room of the queues has to be 1 at least, since queues without room never
/// deliver.
pub fn run<Source, Consumer, Sleeper: Sleep>(
    fanouts: Vec<StreamFanout<Source, FanoutConsumerGroup<Consumer>, Ready>>,
    broadcaster_buffer_size: usize,
    max_attempts: u64,
    backoff: &mut Backoff<Sleeper>,
) -> (result: Result<Vec<Vec<Result<Consumer::Output, Consumer::Error>>>, Vec<Source::Error>>) where
    Source: FanoutSource,
    Consumer: FanoutConsumer<Item = Source::Item>,
    Consumer::Output: Clone,
    Consumer::Error: MaybeRetryable,

    requires
        broadcaster_buffer_size >= 1,
        max_attempts >= 1,
    ensures
        exists|rounds: Seq<
            Round<
                StreamFanout<Source, FanoutConsumerGroup<Consumer>, Ready>,
                Vec<Result<Consumer::Output, Consumer::Error>>,
                Source::Error,
            >,
        >|
            {
                &&& #[trigger] ran(fanouts@, max_attempts, rounds, result)
                &&& final(backoff).waited() == old(backoff).waited() + backoffs(
                    (rounds.len() - 1) as nat,
                )
            },
        result matches Ok(outputs) ==> outputs@.len() == fanouts@.len(),
        result matches Err(errors) ==> 0 < errors@.len() <= fanouts@.len(),
{
    let mut current = fanouts;
    let mut finished: Vec<Vec<Result<Consumer::Output, Consumer::Error>>> = Vec::new();
    let mut i: u64 = 0;
    let ghost mut rounds: Seq<
        Round<
            StreamFanout<Source, FanoutConsumerGroup<Consumer>, Ready>,
            Vec<Result<Consumer::Output, Consumer::Error>>,
            Source::Error,
        >,
    > = Seq::empty();
    proof {
        assert(backoff.waited() + backoffs(0) =~= backoff.waited());
    }
    while i < max_attempts
        invariant
            broadcaster_buffer_size >= 1,
            i < max_attempts,
            rounds.len() == i,
            i == 0 ==> current@ == fanouts@,
            i > 0 ==> {
                &&& round_from(fanouts@, rounds[0])
                &&& !rounds.last().succeeded()
                &&& rounds.last().retry_fanouts == Some(current)
            },
            forall|k: int|
                0 <= k < rounds.len() - 1 ==> {
                    &&& !(#[trigger] rounds[k]).succeeded()
                    &&& rounds[k].retry_fanouts is Some
                    &&& round_from(rounds[k].retry_fanouts->Some_0@, rounds[k + 1])
                },
            finished@ == gathered(rounds),
            finished@.len() + current@.len() == fanouts@.len(),
            backoff.waited() == old(backoff).waited() + backoffs(i as nat),
        decreases max_attempts - i,
    {
        let mut round = attempt_download(current, broadcaster_buffer_size);
        let ghost this = round;
        let ghost before = rounds;
        proof {
            rounds = rounds.push(this);
            assert(rounds.drop_last() =~= before);
            assert forall|k: int| 0 <= k < rounds.len() - 1 implies {
                &&& !(#[trigger] rounds[k]).succeeded()
                &&& rounds[k].retry_fanouts is Some
                &&& round_from(rounds[k].retry_fanouts->Some_0@, rounds[k + 1])
            } by {
                assert(rounds[k] == before[k]);
                if k < before.len() - 1 {
                    assert(rounds[k + 1] == before[k + 1]);
                }
            }
        }
        finished.append(&mut round.outputs);
        i += 1;
        let succeeded = round.has_succeeded();
        match next_step(succeeded, round.retry_fanouts, i, max_attempts) {
            Step::Retry { fanouts: retry_fanouts, backoff_seconds } => {
                current = retry_fanouts;
                backoff.wait(backoff_seconds);
                proof {
                    assert(backoff.waited() =~= old(backoff).waited() + backoffs(i as nat));
                }
            },
            Step::Stop => {
                proof {
                    assert(backoffs((i - 1) as nat).len() == i - 1);
                }
                finished.append(&mut round.unfinished_outputs);
                let result = batch_result(finished, round.errors);
                proof {
                    assert(ran(fanouts@, max_attempts, rounds, result));
                }
                return result;
            },
        }
    }
    Ok(finished)
}

} // verus!
