use std::cell::RefCell;
use std::rc::Rc;

use bytes::Bytes;
use stream_utils::channel::sender::{Result as SendResult, Sender};
use stream_utils::broadcaster::{Broadcast, CancellationToken, Seen};
use stream_utils::fanout::consumer::{ConsumerOrResolved, FanoutConsumer, FanoutConsumerGroup};
use stream_utils::download_fanout::error::{DownloadFanoutError, GenericError};
use stream_utils::download_fanout::source::{GetInfo, IntoInfo};
use stream_utils::download_fanout::{collect, DownloadFanout};
use stream_utils::fanout::source::FanoutSource;
use stream_utils::fanout::MaybeRetryable;
use stream_utils::sources::buffer::BytesSource;

/// The error of a download, as its caller wants it.
#[derive(Debug, PartialEq)]
enum Failure {
    Source(&'static str),
    Consumer(usize),
}

/// The error of a source that names its own tag.
#[derive(Debug, PartialEq)]
struct SourceError {
    text: &'static str,
    retryable: bool,
}

impl MaybeRetryable for SourceError {
    fn retryable(&self) -> bool {
        unreachable!()
    }

    fn failed(&self) -> bool {
        unreachable!()
    }

    fn is_retryable(&self) -> bool {
        self.retryable
    }

    fn should_retry(&self) -> bool {
        true
    }
}

impl From<SourceError> for DownloadFanoutError<Failure> {
    fn from(error: SourceError) -> Self {
        if error.retryable {
            DownloadFanoutError::RetryableError(Failure::Source(error.text))
        } else {
            DownloadFanoutError::NonRetryableError(Failure::Source(error.text))
        }
    }
}

/// The error of a consumer of this caller.
#[derive(Debug, PartialEq)]
struct TooBig(usize);

impl From<TooBig> for DownloadFanoutError<Failure> {
    fn from(error: TooBig) -> Self {
        DownloadFanoutError::NonRetryableError(Failure::Consumer(error.0))
    }
}

/// A consumer that counts bytes up to a limit, with an error of this caller.
#[derive(Clone, Copy)]
struct Limited(usize);

impl FanoutConsumer for Limited {
    type Item = Bytes;
    type Output = usize;
    type Error = TooBig;
    type State = usize;

    fn started(&self, _content_length: Option<u64>, _state: usize) -> bool {
        unreachable!()
    }

    fn consumed(
        &self,
        _state: usize,
        _item: Bytes,
        _was: bool,
        _tripped: bool,
        _result: Result<usize, TooBig>,
    ) -> bool {
        unreachable!()
    }

    fn finished(&self, _state: usize, _result: Result<usize, TooBig>) -> bool {
        unreachable!()
    }

    fn start(&self, _content_length: Option<u64>) -> usize {
        0
    }

    fn consume_from_fanout(
        &self,
        state: usize,
        item: Bytes,
        cancellation_token: &mut CancellationToken,
    ) -> Result<usize, TooBig> {
        let count = state + item.len();
        if count > self.0 {
            cancellation_token.cancel();
            Err(TooBig(self.0))
        } else {
            Ok(count)
        }
    }

    fn finish(&self, state: usize) -> Result<usize, TooBig> {
        Ok(state)
    }
}

fn limited(limits: &[usize]) -> FanoutConsumerGroup<Limited> {
    FanoutConsumerGroup::new(limits.iter().map(|limit| ConsumerOrResolved::from(Limited(*limit))).collect())
}

/// An egress sender that keeps what it is sent.
struct Recorder {
    sent: Rc<RefCell<Vec<Result<Bytes, stream_utils::fanout::egress::GenericError>>>>,
}

impl Sender for Recorder {
    type Item = Result<Bytes, stream_utils::fanout::egress::GenericError>;

    fn send(&self, item: Self::Item) -> SendResult {
        self.sent.borrow_mut().push(item);
        SendResult::Success
    }
}

/// A source that fails when it is asked for its size, or when it pushes.
struct Failing {
    at_size: bool,
    retryable: bool,
    resettable: bool,
}

impl FanoutSource for Failing {
    type Item = Bytes;
    type Error = SourceError;

    fn asked(self, _after: Self, _size: Result<Option<u64>, SourceError>) -> bool {
        unreachable!()
    }

    fn pushed(self, _after: Self, _from: Seen<Bytes>, _to: Seen<Bytes>, _result: Result<(), SourceError>) -> bool {
        unreachable!()
    }

    fn get_content_length(&mut self) -> Result<Option<u64>, SourceError> {
        if self.at_size {
            Err(SourceError { text: "no size", retryable: self.retryable })
        } else {
            Ok(Some(1))
        }
    }

    fn broadcast<B: Broadcast<Item = Bytes>>(&mut self, broadcaster: &mut B) -> Result<(), SourceError> {
        let _ = broadcaster.broadcast(Bytes::from_static(b"a"));
        Err(SourceError { text: "broke off", retryable: self.retryable })
    }

    fn reset_spec(self) -> Option<Self> {
        unreachable!()
    }

    fn reset(self) -> Option<Self> {
        if self.resettable {
            Some(Failing { at_size: false, ..self })
        } else {
            None
        }
    }
}

/// A source whose errors are those of the ready-made parts.
struct Chunks(BytesSource);

impl FanoutSource for Chunks {
    type Item = Bytes;
    type Error = SourceError;

    fn asked(self, _after: Self, _size: Result<Option<u64>, SourceError>) -> bool {
        unreachable!()
    }

    fn pushed(self, _after: Self, _from: Seen<Bytes>, _to: Seen<Bytes>, _result: Result<(), SourceError>) -> bool {
        unreachable!()
    }

    fn get_content_length(&mut self) -> Result<Option<u64>, SourceError> {
        Ok(self.0.get_content_length().unwrap())
    }

    fn broadcast<B: Broadcast<Item = Bytes>>(&mut self, broadcaster: &mut B) -> Result<(), SourceError> {
        self.0.broadcast(broadcaster).unwrap();
        Ok(())
    }

    fn reset_spec(self) -> Option<Self> {
        unreachable!()
    }

    fn reset(self) -> Option<Self> {
        Some(self)
    }
}

impl From<Chunks> for usize {
    fn from(source: Chunks) -> usize {
        source.0 .0.len()
    }
}

fn chunks() -> Chunks {
    Chunks(BytesSource::from(vec![Bytes::from_static(&[0u8; 10]), Bytes::from_static(&[0u8; 20])]))
}

#[test]
fn the_error_comes_out_of_its_tag() {
    assert_eq!(DownloadFanoutError::RetryableError(7).into_inner(), 7);
    assert_eq!(DownloadFanoutError::NonRetryableError(8).into_inner(), 8);
    assert!(DownloadFanoutError::RetryableError(7).is_retryable());
    assert!(!DownloadFanoutError::NonRetryableError(7).is_retryable());
    assert_eq!(GenericError.message(), "an error occurred");
    assert_eq!(stream_utils::fanout::egress::GenericError.message(), "an error occurred");
}

#[test]
fn only_a_retryable_error_with_a_source_that_resets_has_a_next_download() {
    let retryable = DownloadFanoutError::RetryableError(());
    let non_retryable = DownloadFanoutError::NonRetryableError(());
    let next = retryable.retry_fanout_from(Some("source"), "consumers").unwrap();
    assert_eq!(next.source, "source");
    assert_eq!(next.consumers, "consumers");
    assert!(retryable.retry_fanout_from(None::<&str>, "consumers").is_none());
    assert!(non_retryable.retry_fanout_from(Some("source"), "consumers").is_none());
    assert!(non_retryable.retry_fanout_from(None::<&str>, "consumers").is_none());
}

#[test]
fn a_download_in_which_all_succeed_gives_all_outputs() {
    let download_fanout = DownloadFanout::new(chunks(), limited(&[usize::MAX, 30]));
    let outputs = download_fanout.download(1).send::<Failure>().ok().unwrap();
    assert_eq!(outputs, vec![30, 30]);
}

#[test]
fn a_download_can_give_what_its_source_turns_into() {
    let download_fanout = DownloadFanout::new(chunks(), limited(&[usize::MAX]));
    let (info, outputs) =
        download_fanout.download(1).send_returning_source_info::<usize, Failure>().ok().unwrap();
    assert_eq!(info, 2);
    assert_eq!(outputs, vec![30]);
}

#[test]
fn the_first_consumer_that_failed_gives_the_error_of_the_download() {
    let download_fanout =
        DownloadFanout::new(chunks(), limited(&[usize::MAX, 5, 15]));
    let (next, error) = download_fanout.download(4).send::<Failure>().err().unwrap();
    assert_eq!(error, Failure::Consumer(5));
    // the conversion of this caller tags the errors of consumers as final
    assert!(next.is_none());
}

#[test]
fn the_error_of_the_source_comes_first_and_its_tag_decides() {
    let source = Failing { at_size: false, retryable: true, resettable: true };
    let download_fanout = DownloadFanout::new(source, limited(&[0]));
    let (next, error) = download_fanout.download(1).send::<Failure>().err().unwrap();
    assert_eq!(error, Failure::Source("broke off"));
    assert_eq!(next.unwrap().consumers.len(), 1);

    let source = Failing { at_size: true, retryable: true, resettable: false };
    let download_fanout = DownloadFanout::new(source, limited(&[0]));
    let (next, error) = download_fanout.download(1).send::<Failure>().err().unwrap();
    assert_eq!(error, Failure::Source("no size"));
    assert!(next.is_none());

    let source = Failing { at_size: true, retryable: false, resettable: true };
    let download_fanout = DownloadFanout::new(source, limited(&[0]));
    let (next, error) = download_fanout.download(1).send::<Failure>().err().unwrap();
    assert_eq!(error, Failure::Source("no size"));
    assert!(next.is_none());
}

#[test]
fn get_retry_fanout_resets_the_source() {
    let source = Failing { at_size: true, retryable: true, resettable: true };
    let download_fanout = DownloadFanout::new(source, 5);
    let next = DownloadFanoutError::RetryableError(()).get_retry_fanout(download_fanout).unwrap();
    assert!(!next.source.at_size);
    assert_eq!(next.consumers, 5);
    let source = Failing { at_size: true, retryable: true, resettable: true };
    let download_fanout = DownloadFanout::new(source, 5);
    assert!(DownloadFanoutError::NonRetryableError(()).get_retry_fanout(download_fanout).is_none());
}

#[test]
fn collecting_gives_all_outputs_or_the_first_error() {
    let results: Vec<Result<u8, &str>> = vec![Ok(1), Ok(2), Ok(3)];
    assert_eq!(collect(results), Ok(vec![1, 2, 3]));
    let results: Vec<Result<u8, &str>> = vec![Ok(1), Err("second"), Ok(3), Err("fourth")];
    assert_eq!(collect(results), Err("second"));
    let results: Vec<Result<u8, &str>> = vec![];
    assert_eq!(collect(results), Ok(vec![]));
}

#[test]
fn a_download_has_an_egress_side_only_when_it_is_given_one() {
    let egress = Recorder { sent: Rc::new(RefCell::new(Vec::new())) };
    let sent = egress.sent.clone();
    let source = Failing { at_size: false, retryable: false, resettable: false };
    let download_fanout = DownloadFanout::new(source, limited(&[usize::MAX]));
    let result = download_fanout.download(1).with_egress_tx(egress).send::<Failure>();
    assert!(result.is_err());
    // the chunk that was pushed, and then the marker of the failure
    let sent = sent.borrow();
    assert_eq!(sent.len(), 2);
    assert_eq!(sent[0], Ok(Bytes::from_static(b"a")));
    assert_eq!(sent[1], Err(stream_utils::fanout::egress::GenericError));
}

#[test]
fn every_source_tells_nothing_unless_it_says_more() {
    let download_fanout = DownloadFanout::new(7u8, ());
    let info: () = download_fanout.get_source_info();
    assert_eq!(info, ());
    let info: () = GetInfo::<()>::get_info(&7u8);
    assert_eq!(info, ());
    let info: () = 7u8.into_info();
    assert_eq!(info, ());
}
