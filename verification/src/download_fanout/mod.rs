//! A download: a source of chunks fanned out to consumers, all of which have to
//! succeed.

use crate::download_fanout::download::DownloadFanoutDownload;
use crate::download_fanout::error::DownloadFanoutError;
use crate::download_fanout::error::tagged_as;
use crate::fanout::consumer::{tripped_by, ConsumerOrResolved};
use crate::fanout::{attempt_of, attempted, conclude, pushed_into};
use crate::fanout::consumer::{FanoutConsumer, FanoutConsumerGroup};
use crate::fanout::egress::{forwarded, EgressItem, EgressSender};
use crate::broadcaster::{seen, Seen};
use crate::fanout::running::RunningFanout;
use crate::fanout::source::FanoutSource;
use vstd::prelude::*;

pub mod download;
pub mod error;
pub mod source;

verus! {

/// A source and the consumers that its chunks are fanned out to.
pub struct DownloadFanout<Source, Consumers> {
    pub source: Source,
    pub consumers: Consumers,
}

/// The outputs of all members if all succeeded, and else the error of the
/// first member, in their order, that failed.
pub open spec fn all_or_first_error<Output, Error>(results: Seq<Result<Output, Error>>) -> Result<
    Seq<Output>,
    Error,
>
    decreases results.len(),
{
    if results.len() == 0 {
        Ok(Seq::empty())
    } else {
        match all_or_first_error(results.drop_last()) {
            Err(error) => Err(error),
            Ok(outputs) => match results.last() {
                Ok(output) => Ok(outputs.push(output)),
                Err(error) => Err(error),
            },
        }
    }
}

/// The outputs of all members if all succeeded, and else the error of the
/// first member, in their order, that failed.
pub fn collect<Output, Error>(results: Vec<Result<Output, Error>>) -> (collected: Result<
    Vec<Output>,
    Error,
>)
    ensures
        match (collected, all_or_first_error(results@)) {
            (Ok(outputs), Ok(expected)) => outputs@ == expected,
            (Err(error), Err(expected)) => error == expected,
            _ => false,
        },
{
    let ghost all = results@;
    let mut outputs: Vec<Output> = Vec::new();
    for result in iter: results
        invariant
            iter.seq() == all,
            all_or_first_error(all.take(iter.index() as int)) == Ok::<Seq<Output>, Error>(outputs@),
    {
        proof {
            assert(all.take(iter.index() + 1).drop_last() =~= all.take(iter.index() as int));
        }
        match result {
            Ok(output) => outputs.push(output),
            Err(error) => {
                proof {
                    lemma_first_error_stays(all, iter.index() + 1);
                }
                return Err(error);
            },
        }
    }
    proof {
        assert(all.take(all.len() as int) =~= all);
    }
    Ok(outputs)
}

/// Once a run of results has an error, every longer run has the same one.
pub proof fn lemma_first_error_stays<Output, Error>(results: Seq<Result<Output, Error>>, n: int)
    requires
        0 <= n <= results.len(),
        all_or_first_error(results.take(n)) is Err,
    ensures
        all_or_first_error(results) == all_or_first_error(results.take(n)),
    decreases results.len() - n,
{
    if n < results.len() {
        assert(results.take(n + 1).drop_last() =~= results.take(n));
        lemma_first_error_stays(results, n + 1);
    } else {
        assert(results.take(n) =~= results);
    }
}

impl<Source, Consumers> DownloadFanout<Source, Consumers> {
    /// The download of `source` to `consumers`.
    pub fn new(source: Source, consumers: Consumers) -> (download_fanout: Self)
        ensures
            download_fanout == (DownloadFanout { source, consumers }),
    {
        DownloadFanout { source, consumers }
    }

    /// What the source tells about itself: what its own `get_info` gives.
    pub fn get_source_info<'a, SourceInfo>(&'a self) -> (info: SourceInfo) where
        Source: source::GetInfo<'a, SourceInfo>,
        SourceInfo: 'a,

        ensures
            call_ensures(Source::get_info, (&self.source,), info),
    {
        self.source.get_info()
    }

    /// The download, set up with queues of room `broadcaster_buffer_size`
    /// and without egress.
    pub fn download(self, broadcaster_buffer_size: usize) -> (download: DownloadFanoutDownload<
        Source,
        Consumers,
        (),
    >)
        ensures
            download.download_fanout() == self,
            download.broadcaster_buffer_size() == broadcaster_buffer_size,
    {
        DownloadFanoutDownload::new(self, broadcaster_buffer_size)
    }
}

impl<Source, Consumer> DownloadFanout<Source, FanoutConsumerGroup<Consumer>> where
    Source: FanoutSource,
    Consumer: FanoutConsumer<Item = Source::Item>,
    Consumer::Output: Clone,
 {
    /// Runs the download once. An error of the source, at either step, comes
    /// first; then the error of the first consumer that failed; without
    /// either the download gives the outputs of all consumers. Each error is
    /// tagged by the conversion that the caller has chosen for it.
    ///
    /// The room of the queues has to be 1 at least: queues without room
    /// never deliver, and the download would not end.
    pub(crate) fn download_inner<Egress: EgressSender, Error>(
        &mut self,
        broadcaster_buffer_size: usize,
        egress_tx: &Egress,
    ) -> (result: Result<Vec<Consumer::Output>, DownloadFanoutError<Error>>) where
        Egress::Item: EgressItem<Source::Item>,
        DownloadFanoutError<Error>: From<Source::Error> + From<Consumer::Error>,

        requires
            broadcaster_buffer_size >= 1,
        ensures
            final(self).consumers == old(self).consumers,
            result matches Ok(outputs) ==> outputs@.len() == old(self).consumers@.len(),
            downloaded::<Source, Consumer, Egress, Error>(
                old(self).source,
                final(self).source,
                old(self).consumers@,
                egress_tx,
                result,
            ),
    {
        let size = self.source.get_content_length();
        let ghost asked = self.source;
        let content_length = match size {
            Ok(content_length) => content_length,
            Err(error) => {
                let ghost untagged = error;
                let tagged: DownloadFanoutError<Error> = From::from(error);
                proof {
                    let attempt = Err::<Vec<Result<Consumer::Output, Consumer::Error>>, Source::Error>(
                        untagged,
                    );
                    assert(tagged_as(untagged, tagged));
                    assert(attempt_of(
                        old(self).source,
                        asked,
                        old(self).consumers@,
                        egress_tx,
                        attempt,
                    ));
                    assert(settled::<Consumer, Source::Error, Error>(attempt, Err(tagged)));
                }
                return Err(tagged);
            },
        };
        // create subscribers
        let mut running = RunningFanout::start(
            &self.consumers,
            egress_tx,
            broadcaster_buffer_size,
            content_length,
        );
        let ghost started = running;
        // broadcast download stream
        let download_result = self.source.broadcast(&mut running);
        proof {
            started.lemma_wf();
            started.lemma_carried_on(&running);
            running.lemma_tripped();
        }
        let ghost pushed = running;
        let ghost push = download_result;
        let subscriber_output = running.join();
        // propagate errors
        let attempt = conclude(download_result, subscriber_output);
        proof {
            assert(seen(started) == Seen {
                history: Seq::<Source::Item>::empty(),
                cancelled: false,
            });
            assert(asked.pushed(self.source, seen(started), seen(pushed), push));
            assert(attempted(
                old(self).consumers@,
                content_length,
                seen(pushed).history,
                push,
                attempt,
            ));
            assert(seen(pushed).cancelled ==> tripped_by(
                old(self).consumers@,
                content_length,
                seen(pushed).history,
            ));
            assert(forwarded(egress_tx, seen(pushed).history));
            assert(pushed_into(
                asked,
                self.source,
                old(self).consumers@,
                egress_tx,
                content_length,
                attempt,
            ));
            assert(attempt_of(
                old(self).source,
                self.source,
                old(self).consumers@,
                egress_tx,
                attempt,
            ));
        }
        let ghost given = attempt;
        match attempt {
            Err(error) => {
                let ghost untagged = error;
                let tagged: DownloadFanoutError<Error> = From::from(error);
                proof {
                    assert(tagged_as(untagged, tagged));
                    assert(settled::<Consumer, Source::Error, Error>(given, Err(tagged)));
                }
                Err(tagged)
            },
            Ok(subscriber_output) => {
                proof {
                    lemma_collect_len(subscriber_output@);
                }
                match collect(subscriber_output) {
                    Ok(download_fanout_output) => {
                        proof {
                            assert(settled::<Consumer, Source::Error, Error>(
                                given,
                                Ok(download_fanout_output),
                            ));
                        }
                        Ok(download_fanout_output)
                    },
                    Err(error) => {
                        let ghost untagged = error;
                        let tagged: DownloadFanoutError<Error> = From::from(error);
                        proof {
                            assert(tagged_as(untagged, tagged));
                            assert(settled::<Consumer, Source::Error, Error>(given, Err(tagged)));
                        }
                        Err(tagged)
                    },
                }
            },
        }
    }
}

/// What a download makes of the result of its attempt. An error of the
/// source comes first; then the error of the first consumer that failed;
/// each under the tag that the conversion of the caller's choice gives it.
/// Without either the download gives the outputs of all members, in their
/// order.
pub open spec fn settled<Consumer: FanoutConsumer, SourceError, Error>(
    attempt: Result<Vec<Result<Consumer::Output, Consumer::Error>>, SourceError>,
    result: Result<Vec<Consumer::Output>, DownloadFanoutError<Error>>,
) -> bool where DownloadFanoutError<Error>: From<SourceError> + From<Consumer::Error> {
    match attempt {
        Err(error) => result is Err && tagged_as(error, result->Err_0),
        Ok(output) => match all_or_first_error(output@) {
            Ok(outputs) => result matches Ok(given) && given@ == outputs,
            Err(error) => result is Err && tagged_as(error, result->Err_0),
        },
    }
}

/// Whether `result` may be what the download of `source` to `consumers`,
/// with the egress sender `egress_tx`, gives when it is run, leaving the
/// source as `after`: what the download makes of the result of its one
/// attempt.
pub open spec fn downloaded<
    Source: FanoutSource,
    Consumer: FanoutConsumer<Item = Source::Item>,
    Egress: EgressSender,
    Error,
>(
    source: Source,
    after: Source,
    consumers: Seq<ConsumerOrResolved<Consumer>>,
    egress_tx: &Egress,
    result: Result<Vec<Consumer::Output>, DownloadFanoutError<Error>>,
) -> bool where
    Consumer::Output: Clone,
    Egress::Item: EgressItem<Source::Item>,
    DownloadFanoutError<Error>: From<Source::Error> + From<Consumer::Error>,
 {
    exists|attempt: Result<Vec<Result<Consumer::Output, Consumer::Error>>, Source::Error>|
        {
            &&& #[trigger] attempt_of(source, after, consumers, egress_tx, attempt)
            &&& settled::<Consumer, Source::Error, Error>(attempt, result)
        }
}

/// Where all succeeded there are as many outputs as results.
pub proof fn lemma_collect_len<Output, Error>(results: Seq<Result<Output, Error>>)
    ensures
        all_or_first_error(results) matches Ok(outputs) ==> outputs.len() == results.len(),
    decreases results.len(),
{
    if results.len() > 0 {
        lemma_collect_len(results.drop_last());
    }
}

} // verus!
