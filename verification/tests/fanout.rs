use std::cell::RefCell;
use std::rc::Rc;

use bytes::Bytes;
use stream_utils::broadcaster::{Broadcast, BroadcastError, CancellationToken};
use stream_utils::channel::sender::{NoOpSender, Result as SendResult, Sender};
use stream_utils::consumers::bufferer::Bufferer;
use stream_utils::consumers::bytes_counter::BytesCounter;
use stream_utils::consumers::{download_fanout_consumers, DownloadFanoutConsumersOutput};
use stream_utils::error::Error;
use stream_utils::fanout::consumer::{
    CancelEgress, ConsumerOrResolved, FanoutConsumer, FanoutConsumerGroup,
};
use stream_utils::fanout::egress::GenericError;
use stream_utils::fanout::running::RunningFanout;
use stream_utils::fanout::source::FanoutSource;
use stream_utils::fanout::{conclude, MaybeRetryable, StreamFanout};
use stream_utils::sources::buffer::BytesSource;

/// An egress sender that keeps what it is sent.
struct Recorder {
    sent: Rc<RefCell<Vec<Result<Bytes, GenericError>>>>,
}

impl Recorder {
    fn new() -> Self {
        Recorder { sent: Rc::new(RefCell::new(Vec::new())) }
    }
}

impl Sender for Recorder {
    type Item = Result<Bytes, GenericError>;

    fn send(&self, item: Self::Item) -> SendResult {
        self.sent.borrow_mut().push(item);
        SendResult::Success
    }
}

/// A consumer that counts the items it is handed and the times it is started.
struct Probe {
    started: RefCell<usize>,
    fail_at: Option<usize>,
}

impl Probe {
    fn new(fail_at: Option<usize>) -> Self {
        Probe { started: RefCell::new(0), fail_at }
    }
}

impl FanoutConsumer for Probe {
    type Item = Bytes;
    type Output = usize;
    type Error = Error;
    type State = usize;

    fn started(&self, _content_length: Option<u64>, _state: usize) -> bool {
        unreachable!()
    }

    fn consumed(
        &self,
        _state: usize,
        _item: Bytes,
        _was: bool,
        _tripped: bool,
        _result: Result<usize, Error>,
    ) -> bool {
        unreachable!()
    }

    fn finished(&self, _state: usize, _result: Result<usize, Error>) -> bool {
        unreachable!()
    }

    fn start(&self, _content_length: Option<u64>) -> usize {
        *self.started.borrow_mut() += 1;
        0
    }

    fn consume_from_fanout(
        &self,
        state: usize,
        _item: Bytes,
        _cancellation_token: &mut CancellationToken,
    ) -> Result<usize, Error> {
        if self.fail_at == Some(state) {
            Err(Error::from("probe failed".to_string()))
        } else {
            Ok(state + 1)
        }
    }

    fn finish(&self, state: usize) -> Result<usize, Error> {
        Ok(state)
    }
}

fn chunks() -> Vec<Bytes> {
    vec![
        Bytes::from_static(&[0u8; 10]),
        Bytes::from_static(&[0u8; 20]),
        Bytes::from_static(&[0u8; 20]),
    ]
}

fn limits() -> Vec<usize> {
    let mut limits = vec![usize::MAX];
    let mut limit = 32768;
    while limit >= 16 {
        limits.push(limit);
        limit /= 2;
    }
    limits
}

#[test]
fn thirteen_counters_with_halving_limits() {
    let limits = limits();
    assert_eq!(limits.len(), 13);
    assert_eq!(limits[1], 32768);
    assert_eq!(limits[12], 16);
    let consumers = download_fanout_consumers(&limits);
    assert_eq!(consumers.len(), 13);
}

#[test]
fn counters_over_their_limit_fail_and_the_others_count_all() {
    let limits = limits();
    let consumers = download_fanout_consumers(&limits);
    let egress = ();
    let mut source = BytesSource::from(chunks());
    let content_length = source.get_content_length().unwrap();
    assert_eq!(content_length, Some(50));
    let mut running = RunningFanout::start(&consumers, &egress, 4, content_length);
    assert!(!running.is_cancelled());
    source.broadcast(&mut running).unwrap();
    // the queues hold the whole stream: nobody has run yet
    assert!(!running.is_cancelled());
    running.close();
    // the counters that went over their limit have tripped the token
    assert!(running.is_cancelled());
    let output = running.join();
    assert_eq!(output.len(), 13);
    for (limit, result) in limits.iter().zip(output.iter()) {
        if *limit < 50 {
            assert_eq!(result.as_ref().unwrap_err().message(), "too big");
        } else {
            assert_eq!(*result.as_ref().unwrap(), 50);
        }
    }
    // only the limits 32 and 16 are under the total of 50
    assert_eq!(output.iter().filter(|result| result.is_err()).count(), 2);
    assert!(output[11].is_err());
    assert!(output[12].is_err());
    assert!(output.should_retry());
    assert!(output.is_retryable());
    assert!(output.cancel_egress());
    let output = DownloadFanoutConsumersOutput(output);
    assert!(output.should_retry());
    assert!(output.is_retryable());
}

#[test]
fn a_counter_over_its_limit_trips_the_token() {
    let consumers = download_fanout_consumers(&vec![usize::MAX, 16]);
    let egress = ();
    // queues of room 1: the counters run before the third chunk goes out
    let mut running = RunningFanout::start(&consumers, &egress, 1, None);
    let chunks = chunks();
    assert_eq!(running.broadcast(chunks[0].clone()), Ok(()));
    assert_eq!(running.broadcast(chunks[1].clone()), Ok(()));
    assert!(!running.is_cancelled());
    assert_eq!(running.broadcast(chunks[2].clone()), Err(BroadcastError::ReceiverFailure));
    assert!(running.is_cancelled());
    let output = running.join();
    assert_eq!(*output[0].as_ref().unwrap(), 30);
    assert_eq!(output[1].as_ref().unwrap_err().message(), "too big");
}

#[test]
fn retry_runs_only_the_members_that_failed() {
    let limits = limits();
    let fanout = StreamFanout::new(BytesSource::from(chunks()), download_fanout_consumers(&limits));
    let (used, result) = fanout.into_driver().with_broadcaster_buffer_size(4).drive();
    let output = result.unwrap();
    let (source, consumers) = used.into_parts();
    let retry_consumers = consumers.retry(&output);
    assert_eq!(retry_consumers.len(), 13);
    for (i, member) in retry_consumers.members().iter().enumerate() {
        match member {
            ConsumerOrResolved::ConsumerOutput(count) => {
                assert!(i < 11);
                assert_eq!(*count, 50);
            }
            ConsumerOrResolved::Consumer(_) => assert!(i >= 11),
        }
    }
    // the second attempt: the two counters that failed run again, and fail again
    let fanout = StreamFanout::new(source.reset().unwrap(), retry_consumers);
    let (_, result) = fanout.into_driver().with_broadcaster_buffer_size(4).drive();
    let output = result.unwrap();
    for (i, result) in output.iter().enumerate() {
        if i < 11 {
            assert_eq!(*result.as_ref().unwrap(), 50);
        } else {
            assert_eq!(result.as_ref().unwrap_err().message(), "too big");
        }
    }
}

#[test]
fn a_resolved_member_is_never_started_again() {
    let succeeds = Probe::new(None);
    let fails = Probe::new(Some(1));
    let consumers = FanoutConsumerGroup::new(vec![
        ConsumerOrResolved::from(&succeeds),
        ConsumerOrResolved::from(&fails),
    ]);
    let fanout = StreamFanout::new(BytesSource::from(chunks()), consumers);
    let (used, result) = fanout.into_driver().with_broadcaster_buffer_size(1).drive();
    let output = result.unwrap();
    assert_eq!(*output[0].as_ref().unwrap(), 3);
    assert_eq!(output[1].as_ref().unwrap_err().message(), "probe failed");
    assert_eq!(*succeeds.started.borrow(), 1);
    assert_eq!(*fails.started.borrow(), 1);

    let next = used.retry(&Ok(output)).unwrap();
    let (_, result) = next.into_driver().with_broadcaster_buffer_size(1).drive();
    let output = result.unwrap();
    // the output of the first attempt reappears, and only the failed member ran
    assert_eq!(*output[0].as_ref().unwrap(), 3);
    assert!(output[1].is_err());
    assert_eq!(*succeeds.started.borrow(), 1);
    assert_eq!(*fails.started.borrow(), 2);
}

#[test]
fn the_egress_side_gets_every_chunk_and_no_marker_on_success() {
    let consumers = FanoutConsumerGroup::new(vec![ConsumerOrResolved::from(Bufferer)]);
    let fanout = StreamFanout::new(
        BytesSource::from(vec![Bytes::from_static(b"one"), Bytes::from_static(b"three")]),
        consumers,
    );
    let egress = Recorder::new();
    let sent = egress.sent.clone();
    let (_, result) =
        fanout.into_driver().with_broadcaster_buffer_size(2).with_egress_tx(egress).drive();
    let output = result.unwrap();
    // what the consumer kept are the chunks of the source, byte for byte
    assert_eq!(output[0].as_ref().unwrap(), &vec![Bytes::from_static(b"one"), Bytes::from_static(b"three")]);
    let sent = sent.borrow();
    assert_eq!(sent.len(), 2);
    assert_eq!(sent[0].as_ref().unwrap(), &Bytes::from_static(b"one"));
    assert_eq!(sent[1].as_ref().unwrap(), &Bytes::from_static(b"three"));
}

#[test]
fn the_egress_side_is_told_when_a_consumer_fails() {
    let fanout = StreamFanout::new(
        BytesSource::from(chunks()),
        download_fanout_consumers(&vec![usize::MAX, 16]),
    );
    let egress = Recorder::new();
    let sent = egress.sent.clone();
    let (_, result) =
        fanout.into_driver().with_broadcaster_buffer_size(1).with_egress_tx(egress).drive();
    let output = result.unwrap();
    assert!(output[1].is_err());
    let sent = sent.borrow();
    // the third chunk was never broadcast; the last thing sent is the marker
    assert_eq!(sent.len(), 3);
    assert_eq!(sent[0].as_ref().unwrap().len(), 10);
    assert_eq!(sent[1].as_ref().unwrap().len(), 20);
    assert_eq!(sent[2], Err(GenericError));
}

/// An egress sender that accepts so many items and refuses the next.
struct Fussy {
    accepts: usize,
    offered: Rc<RefCell<Vec<Result<Bytes, GenericError>>>>,
}

impl Sender for Fussy {
    type Item = Result<Bytes, GenericError>;

    fn send(&self, item: Self::Item) -> SendResult {
        self.offered.borrow_mut().push(item);
        if self.offered.borrow().len() > self.accepts {
            SendResult::Failure
        } else {
            SendResult::Success
        }
    }
}

#[test]
fn after_a_refusal_the_egress_side_is_sent_nothing_more() {
    let consumers = download_fanout_consumers(&vec![usize::MAX]);
    let fanout = StreamFanout::new(BytesSource::from(chunks()), consumers);
    let egress = Fussy { accepts: 1, offered: Rc::new(RefCell::new(Vec::new())) };
    let offered = egress.offered.clone();
    let (_, result) =
        fanout.into_driver().with_broadcaster_buffer_size(4).with_egress_tx(egress).drive();
    // the consumers are not held up, and nothing failed: no marker is sent
    assert_eq!(*result.unwrap()[0].as_ref().unwrap(), 50);
    let offered = offered.borrow();
    assert_eq!(offered.len(), 2);
    assert_eq!(offered[0].as_ref().unwrap().len(), 10);
    assert_eq!(offered[1].as_ref().unwrap().len(), 20);
}

#[test]
fn an_egress_side_that_is_gone_does_not_hold_the_broadcast_up() {
    let consumers = download_fanout_consumers(&vec![usize::MAX]);
    let fanout = StreamFanout::new(BytesSource::from(chunks()), consumers);
    let egress: NoOpSender<Result<Bytes, GenericError>> = NoOpSender::new();
    let (_, result) =
        fanout.into_driver().with_broadcaster_buffer_size(1).with_egress_tx(egress).drive();
    assert_eq!(*result.unwrap()[0].as_ref().unwrap(), 50);
}

#[test]
fn the_error_of_the_source_comes_before_the_output() {
    let concluded: Result<u8, &str> = conclude(Err("source"), 7);
    assert_eq!(concluded, Err("source"));
    let concluded: Result<u8, &str> = conclude(Ok(()), 7);
    assert_eq!(concluded, Ok(7));
}
