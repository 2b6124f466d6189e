//! A download that is set up: what it needs before it can be sent, and the
//! sending.

use crate::channel::sender::Sender;
use crate::download_fanout::error::DownloadFanoutError;
use crate::download_fanout::{downloaded, DownloadFanout};
use crate::fanout::consumer::{FanoutConsumer, FanoutConsumerGroup};
use crate::fanout::egress::{told, EgressItem, EgressSender};
use crate::fanout::source::FanoutSource;
use vstd::prelude::*;

verus! {

/// A download together with the room of its queues and its egress sender.
pub struct DownloadFanoutDownload<Source, Consumers, EgressSender> {
    download_fanout: DownloadFanout<Source, Consumers>,
    broadcaster_buffer_size: usize,
    egress_tx: EgressSender,
}

impl<Source, Consumers, Egress> DownloadFanoutDownload<Source, Consumers, Egress> {
    /// The download that is to be sent.
    pub closed spec fn download_fanout(&self) -> DownloadFanout<Source, Consumers> {
        self.download_fanout
    }

    /// The room of the queues.
    pub closed spec fn broadcaster_buffer_size(&self) -> usize {
        self.broadcaster_buffer_size
    }

    /// The egress sender.
    pub closed spec fn egress_tx(&self) -> Egress {
        self.egress_tx
    }

    /// The same download with `egress_tx` as its egress sender.
    pub fn with_egress_tx<Tx: Sender>(self, egress_tx: Tx) -> (download: DownloadFanoutDownload<
        Source,
        Consumers,
        Tx,
    >)
        ensures
            download.download_fanout() == self.download_fanout(),
            download.broadcaster_buffer_size() == self.broadcaster_buffer_size(),
            download.egress_tx() == egress_tx,
    {
        DownloadFanoutDownload {
            download_fanout: self.download_fanout,
            broadcaster_buffer_size: self.broadcaster_buffer_size,
            egress_tx,
        }
    }
}

impl<Source, Consumers> DownloadFanoutDownload<Source, Consumers, ()> {
    /// The download with queues of room `broadcaster_buffer_size`, without
    /// egress.
    pub(crate) fn new(
        download_fanout: DownloadFanout<Source, Consumers>,
        broadcaster_buffer_size: usize,
    ) -> (download: Self)
        ensures
            download.download_fanout() == download_fanout,
            download.broadcaster_buffer_size() == broadcaster_buffer_size,
    {
        DownloadFanoutDownload { download_fanout, broadcaster_buffer_size, egress_tx: () }
    }
}

/// Whether `result` may be what the download of `source` to `consumers`,
/// with the egress sender `egress_tx`, gives when it is sent. Outputs are
/// those of a download that succeeded. A failure holds the error of a
/// download that failed, without its tag, and the next download that the tag
/// and the reset of the source, as the download left it, make; and the
/// egress side was told of the failure.
pub open spec fn sent<
    Source: FanoutSource,
    Consumer: FanoutConsumer<Item = Source::Item>,
    Egress: EgressSender,
    Error,
>(
    source: Source,
    consumers: FanoutConsumerGroup<Consumer>,
    egress_tx: &Egress,
    result: Result<
        Vec<Consumer::Output>,
        (Option<DownloadFanout<Source, FanoutConsumerGroup<Consumer>>>, Error),
    >,
) -> bool where
    Consumer::Output: Clone,
    Egress::Item: EgressItem<Source::Item>,
    DownloadFanoutError<Error>: From<Source::Error> + From<Consumer::Error>,
 {
    match result {
        Ok(outputs) => exists|after: Source| #[trigger]
            downloaded::<Source, Consumer, Egress, Error>(
                source,
                after,
                consumers@,
                egress_tx,
                Ok::<Vec<Consumer::Output>, DownloadFanoutError<Error>>(outputs),
            ),
        Err(failure) => {
            &&& told::<Egress, Source::Item>(egress_tx)
            &&& exists|after: Source, tagged: DownloadFanoutError<Error>|
                {
                    &&& #[trigger] downloaded::<Source, Consumer, Egress, Error>(
                        source,
                        after,
                        consumers@,
                        egress_tx,
                        Err::<Vec<Consumer::Output>, DownloadFanoutError<Error>>(tagged),
                    )
                    &&& failure == (
                        tagged.retry_fanout_of(after.reset_spec(), consumers),
                        tagged.inner(),
                    )
                }
        },
    }
}

/// Runs the download once and, where it failed, tells the egress side.
fn send_helper<Source, Consumer, Egress, Error>(
    download_fanout: &mut DownloadFanout<Source, FanoutConsumerGroup<Consumer>>,
    broadcaster_buffer_size: usize,
    egress_tx: Egress,
) -> (result: Result<Vec<Consumer::Output>, DownloadFanoutError<Error>>) where
    Source: FanoutSource,
    Consumer: FanoutConsumer<Item = Source::Item>,
    Consumer::Output: Clone,
    Egress: EgressSender,
    Egress::Item: EgressItem<Source::Item>,
    DownloadFanoutError<Error>: From<Source::Error> + From<Consumer::Error>,

    requires
        broadcaster_buffer_size >= 1,
    ensures
        final(download_fanout).consumers == old(download_fanout).consumers,
        result matches Ok(outputs) ==> outputs@.len() == old(download_fanout).consumers@.len(),
        downloaded::<Source, Consumer, Egress, Error>(
            old(download_fanout).source,
            final(download_fanout).source,
            old(download_fanout).consumers@,
            &egress_tx,
            result,
        ),
        result is Err ==> told::<Egress, Source::Item>(&egress_tx),
{
    match download_fanout.download_inner::<Egress, Error>(broadcaster_buffer_size, &egress_tx) {
        Ok(download_fanout_output) => Ok(download_fanout_output),
        Err(e) => {
            // notify egress receiver that an error occurred
            let marker = Egress::Item::error();
            let ghost made = marker;
            let sent = egress_tx.send(marker);
            proof {
                assert(call_ensures(<Egress::Item as EgressItem<Source::Item>>::error, (), made));
                assert(call_ensures(<Egress as EgressSender>::send, (&egress_tx, made), sent));
            }
            Err(e)
        },
    }
}

impl<Source, Consumer, Egress> DownloadFanoutDownload<
    Source,
    FanoutConsumerGroup<Consumer>,
    Egress,
> where
    Source: FanoutSource,
    Consumer: FanoutConsumer<Item = Source::Item>,
    Consumer::Output: Clone,
    Egress: EgressSender,
    Egress::Item: EgressItem<Source::Item>,
 {
    /// Sends the download: runs it once. Where it fails it gives the error,
    /// without its tag, and the next download if the tag allows one and the
    /// source can be had again. The room of the queues has to be 1 at
    /// least: queues without room never deliver.
    pub fn send<Error>(self) -> (result: Result<
        Vec<Consumer::Output>,
        (Option<DownloadFanout<Source, FanoutConsumerGroup<Consumer>>>, Error),
    >) where DownloadFanoutError<Error>: From<Source::Error> + From<Consumer::Error>
        requires
            self.broadcaster_buffer_size() >= 1,
        ensures
            result matches Ok(outputs) ==> outputs@.len() == self.download_fanout().consumers@.len(),
            sent::<Source, Consumer, Egress, Error>(
                self.download_fanout().source,
                self.download_fanout().consumers,
                &self.egress_tx(),
                result,
            ),
    {
        let mut download = self;
        match send_helper::<Source, Consumer, Egress, Error>(
            &mut download.download_fanout,
            download.broadcaster_buffer_size,
            download.egress_tx,
        ) {
            Ok(download_fanout_output) => {
                proof {
                    assert(downloaded::<Source, Consumer, Egress, Error>(
                        self.download_fanout().source,
                        download.download_fanout.source,
                        self.download_fanout().consumers@,
                        &self.egress_tx(),
                        Ok::<Vec<Consumer::Output>, DownloadFanoutError<Error>>(download_fanout_output),
                    ));
                    let result = Ok::<
                        Vec<Consumer::Output>,
                        (Option<DownloadFanout<Source, FanoutConsumerGroup<Consumer>>>, Error),
                    >(download_fanout_output);
                    assert(result->Ok_0 == download_fanout_output);
                }
                Ok(download_fanout_output)
            },
            Err(e) => {
                let ghost after = download.download_fanout.source;
                let retry_fanout = e.get_retry_fanout(download.download_fanout);
                let ghost tagged = e;
                let error = e.into_inner();
                proof {
                    assert(downloaded::<Source, Consumer, Egress, Error>(
                        self.download_fanout().source,
                        after,
                        self.download_fanout().consumers@,
                        &self.egress_tx(),
                        Err::<Vec<Consumer::Output>, DownloadFanoutError<Error>>(tagged),
                    ));
                    assert(retry_fanout == tagged.retry_fanout_of(
                        after.reset_spec(),
                        self.download_fanout().consumers,
                    ));
                    assert(error == tagged.inner());
                    assert(sent::<Source, Consumer, Egress, Error>(
                        self.download_fanout().source,
                        self.download_fanout().consumers,
                        &self.egress_tx(),
                        Err((retry_fanout, error)),
                    ));
                }
                Err((retry_fanout, error))
            },
        }
    }

    /// Sends the download, and gives with its outputs what the source turns
    /// into.
    pub fn send_returning_source_info<SourceInfo, Error>(self) -> (result: Result<
        (SourceInfo, Vec<Consumer::Output>),
        (Option<DownloadFanout<Source, FanoutConsumerGroup<Consumer>>>, Error),
    >) where
        SourceInfo: From<Source>,
        DownloadFanoutError<Error>: From<Source::Error> + From<Consumer::Error>,

        requires
            self.broadcaster_buffer_size() >= 1,
        ensures
            result matches Ok(given) ==> given.1@.len() == self.download_fanout().consumers@.len(),
            match result {
                Ok(given) => exists|after: Source|
                    {
                        &&& #[trigger] downloaded::<Source, Consumer, Egress, Error>(
                            self.download_fanout().source,
                            after,
                            self.download_fanout().consumers@,
                            &self.egress_tx(),
                            Ok::<Vec<Consumer::Output>, DownloadFanoutError<Error>>(given.1),
                        )
                        &&& call_ensures(<SourceInfo as From<Source>>::from, (after,), given.0)
                    },
                Err(failure) => sent::<Source, Consumer, Egress, Error>(
                    self.download_fanout().source,
                    self.download_fanout().consumers,
                    &self.egress_tx(),
                    Err::<
                        Vec<Consumer::Output>,
                        (Option<DownloadFanout<Source, FanoutConsumerGroup<Consumer>>>, Error),
                    >(failure),
                ),
            },
    {
        let mut download = self;
        match send_helper::<Source, Consumer, Egress, Error>(
            &mut download.download_fanout,
            download.broadcaster_buffer_size,
            download.egress_tx,
        ) {
            Ok(download_fanout_output) => {
                let ghost after = download.download_fanout.source;
                let source_info = SourceInfo::from(download.download_fanout.source);
                proof {
                    assert(downloaded::<Source, Consumer, Egress, Error>(
                        self.download_fanout().source,
                        after,
                        self.download_fanout().consumers@,
                        &self.egress_tx(),
                        Ok::<Vec<Consumer::Output>, DownloadFanoutError<Error>>(download_fanout_output),
                    ));
                    assert(call_ensures(<SourceInfo as From<Source>>::from, (after,), source_info));
                    let result = Ok::<
                        (SourceInfo, Vec<Consumer::Output>),
                        (Option<DownloadFanout<Source, FanoutConsumerGroup<Consumer>>>, Error),
                    >((source_info, download_fanout_output));
                    assert(result->Ok_0.0 == source_info);
                    assert(result->Ok_0.1 == download_fanout_output);
                }
                Ok((source_info, download_fanout_output))
            },
            Err(e) => {
                let ghost after = download.download_fanout.source;
                let retry_fanout = e.get_retry_fanout(download.download_fanout);
                let ghost tagged = e;
                let error = e.into_inner();
                proof {
                    assert(downloaded::<Source, Consumer, Egress, Error>(
                        self.download_fanout().source,
                        after,
                        self.download_fanout().consumers@,
                        &self.egress_tx(),
                        Err::<Vec<Consumer::Output>, DownloadFanoutError<Error>>(tagged),
                    ));
                    assert(retry_fanout == tagged.retry_fanout_of(
                        after.reset_spec(),
                        self.download_fanout().consumers,
                    ));
                }
                Err((retry_fanout, error))
            },
        }
    }
}

} // verus!
