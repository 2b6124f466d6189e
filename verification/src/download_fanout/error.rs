//! The error of a download, tagged with whether another attempt may follow.

use crate::download_fanout::DownloadFanout;
use crate::fanout::source::FanoutSource;
use vstd::prelude::*;

verus! {

/// An error without particulars.
#[derive(Clone, Copy, Debug, Default, PartialEq, Eq, Structural)]
pub struct GenericError;

impl GenericError {
    /// The text of the error.
    pub fn message(&self) -> (text: String)
        ensures
            text@ == "an error occurred"@,
    {
        "an error occurred".to_string()
    }
}

/// An error together with its tag. The tag, not the kind of the error, decides
/// whether another attempt is made.
#[derive(Debug)]
pub enum DownloadFanoutError<E> {
    RetryableError(E),
    NonRetryableError(E),
}

/// Whether `tagged` is what the conversion that the caller has chosen makes
/// of `error`: the same error, under the tag that the caller gives it.
pub open spec fn tagged_as<Untagged, E>(error: Untagged, tagged: DownloadFanoutError<E>) -> bool where
    DownloadFanoutError<E>: From<Untagged>,
 {
    call_ensures(<DownloadFanoutError<E> as From<Untagged>>::from, (error,), tagged)
}

impl<E> DownloadFanoutError<E> {
    /// The error without its tag.
    pub open spec fn inner(self) -> E {
        match self {
            DownloadFanoutError::RetryableError(e) => e,
            DownloadFanoutError::NonRetryableError(e) => e,
        }
    }

    /// The error without its tag.
    pub fn into_inner(self) -> (e: E)
        ensures
            e == self.inner(),
    {
        match self {
            DownloadFanoutError::RetryableError(e) => e,
            DownloadFanoutError::NonRetryableError(e) => e,
        }
    }

    /// Whether the tag allows another attempt.
    pub fn is_retryable(&self) -> (retryable: bool)
        ensures
            retryable == (self is RetryableError),
    {
        match self {
            DownloadFanoutError::RetryableError(_) => true,
            DownloadFanoutError::NonRetryableError(_) => false,
        }
    }

    /// The next download after one that failed with this error, given what
    /// the reset of the source gave. There is one where the tag allows it
    /// and the source can be had again, and nowhere else; it has the source
    /// that the reset gave and the same consumers.
    pub open spec fn retry_fanout_of<Source, Consumers>(
        self,
        reset: Option<Source>,
        consumers: Consumers,
    ) -> Option<DownloadFanout<Source, Consumers>> {
        match (self, reset) {
            (DownloadFanoutError::RetryableError(_), Some(source)) => Some(
                DownloadFanout { source, consumers },
            ),
            _ => None,
        }
    }

    /// The next download after one that failed with this error, from what the
    /// reset of the source gave.
    pub fn retry_fanout_from<Source, Consumers>(
        &self,
        reset: Option<Source>,
        consumers: Consumers,
    ) -> (retry_fanout: Option<DownloadFanout<Source, Consumers>>)
        ensures
            retry_fanout == self.retry_fanout_of(reset, consumers),
    {
        match (self, reset) {
            (DownloadFanoutError::RetryableError(_), Some(source)) => Some(
                DownloadFanout::new(source, consumers),
            ),
            _ => None,
        }
    }

    /// The next download after one that failed with this error, if there is
    /// one. Under a tag that forbids another attempt there is none, and the
    /// source is not reset. Under a tag that allows one the source is reset,
    /// and the next download is what that reset makes it: none where the
    /// source cannot be had again, and else one with the source that the
    /// reset gave and the same consumers.
    pub fn get_retry_fanout<Source: FanoutSource, Consumers>(
        &self,
        download_fanout: DownloadFanout<Source, Consumers>,
    ) -> (retry_fanout: Option<DownloadFanout<Source, Consumers>>)
        ensures
            retry_fanout == self.retry_fanout_of(
                download_fanout.source.reset_spec(),
                download_fanout.consumers,
            ),
    {
        match self {
            DownloadFanoutError::RetryableError(_) => {
                let DownloadFanout { source, consumers } = download_fanout;
                self.retry_fanout_from(source.reset(), consumers)
            },
            DownloadFanoutError::NonRetryableError(_) => None,
        }
    }
}

} // verus!
