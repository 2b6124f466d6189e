use bytes::Bytes;
use stream_utils::broadcaster::stream::{broadcast_from_result_stream, broadcast_from_stream};
use stream_utils::broadcaster::{Broadcast, CancellationToken};
use stream_utils::channel::receiver::{Pending, Receiver};
use stream_utils::consumers::bufferer::Bufferer;
use stream_utils::consumers::bytes_counter::BytesCounter;
use stream_utils::consumers::download_fanout_consumers;
use stream_utils::error::Error;
use stream_utils::fanout::consumer::{ConsumerOrResolved, FanoutConsumer, FanoutConsumerGroup};
use stream_utils::fanout::running::RunningFanout;
use stream_utils::fanout::source::FanoutSource;
use stream_utils::fanout::{MaybeRetryable, StreamFanout};
use stream_utils::sources::buffer::BytesSource;

/// A stream that yields the items of a vector.
struct Items<T> {
    items: std::vec::IntoIter<T>,
}

impl<T> Items<T> {
    fn new(items: Vec<T>) -> Self {
        Items { items: items.into_iter() }
    }
}

impl<T> Receiver for Items<T> {
    type Item = T;

    fn pending(&self) -> Pending<T> {
        unreachable!()
    }

    fn recv(&mut self) -> Option<T> {
        self.items.next()
    }
}

fn bufferers(n: usize) -> FanoutConsumerGroup<Bufferer> {
    FanoutConsumerGroup::new((0..n).map(|_| ConsumerOrResolved::from(Bufferer)).collect())
}

#[test]
fn the_content_length_is_the_sum_of_the_chunks() {
    let mut source = BytesSource::from(vec![
        Bytes::from_static(&[0u8; 10]),
        Bytes::from_static(&[0u8; 20]),
        Bytes::from_static(&[0u8; 20]),
    ]);
    assert_eq!(source.get_content_length().unwrap(), Some(50));
    let mut source = BytesSource::from(vec![]);
    assert_eq!(source.get_content_length().unwrap(), Some(0));
    let mut source = BytesSource::from(vec![Bytes::new(), Bytes::from_static(b"abc")]);
    assert_eq!(source.get_content_length().unwrap(), Some(3));
}

#[test]
fn a_bytes_source_can_be_pushed_again() {
    let source = BytesSource::from(vec![Bytes::from_static(b"abc")]);
    let source = source.reset().unwrap();
    assert_eq!(source.0, vec![Bytes::from_static(b"abc")]);
}

#[test]
fn a_bytes_source_pushes_every_chunk_in_order() {
    let consumers = bufferers(2);
    let egress = ();
    let mut running = RunningFanout::start(&consumers, &egress, 1, None);
    let chunks = vec![Bytes::from_static(b"a"), Bytes::from_static(b"bc"), Bytes::from_static(b"def")];
    let mut source = BytesSource::from(chunks.clone());
    assert!(source.broadcast(&mut running).is_ok());
    let output = running.join();
    assert_eq!(output[0].as_ref().unwrap(), &chunks);
    assert_eq!(output[1].as_ref().unwrap(), &chunks);
}

#[test]
fn a_stream_is_broadcast_to_its_end() {
    let consumers = bufferers(1);
    let egress = ();
    let mut running = RunningFanout::start(&consumers, &egress, 2, None);
    let chunks = vec![Bytes::from_static(b"a"), Bytes::from_static(b"bc"), Bytes::from_static(b"def")];
    let mut stream = Items::new(chunks.clone());
    broadcast_from_stream(&mut running, &mut stream);
    assert_eq!(stream.recv(), None);
    assert_eq!(running.join()[0].as_ref().unwrap(), &chunks);
}

#[test]
fn a_stream_is_broadcast_until_the_broadcast_is_cancelled() {
    let consumers = download_fanout_consumers(&vec![2, usize::MAX]);
    let egress = ();
    let mut running = RunningFanout::start(&consumers, &egress, 1, None);
    let mut stream = Items::new(vec![
        Bytes::from_static(b"a"),
        Bytes::from_static(b"bc"),
        Bytes::from_static(b"def"),
        Bytes::from_static(b"ghij"),
    ]);
    broadcast_from_stream(&mut running, &mut stream);
    assert!(running.is_cancelled());
    // the chunk whose broadcast failed is lost, the one after it is still in the stream
    assert_eq!(stream.recv(), Some(Bytes::from_static(b"ghij")));
    let output = running.join();
    assert_eq!(output[0].as_ref().unwrap_err().message(), "too big");
    assert_eq!(*output[1].as_ref().unwrap(), 3);
}

#[test]
fn a_stream_of_results_is_broadcast_until_its_first_error() {
    let consumers = bufferers(1);
    let egress = ();
    let mut running = RunningFanout::start(&consumers, &egress, 2, None);
    let mut stream = Items::new(vec![
        Ok(Bytes::from_static(b"a")),
        Ok(Bytes::from_static(b"bc")),
        Err("broken"),
        Ok(Bytes::from_static(b"def")),
    ]);
    assert_eq!(broadcast_from_result_stream(&mut running, &mut stream), Err("broken"));
    assert_eq!(stream.recv(), Some(Ok(Bytes::from_static(b"def"))));
    assert_eq!(
        running.join()[0].as_ref().unwrap(),
        &vec![Bytes::from_static(b"a"), Bytes::from_static(b"bc")]
    );
}

#[test]
fn a_cancelled_broadcast_ends_a_stream_of_results_without_error() {
    let consumers = download_fanout_consumers(&vec![0]);
    let egress = ();
    let mut running = RunningFanout::start(&consumers, &egress, 1, None);
    let mut stream: Items<Result<Bytes, &str>> = Items::new(vec![
        Ok(Bytes::from_static(b"a")),
        Ok(Bytes::from_static(b"bc")),
        Err("broken"),
    ]);
    assert_eq!(broadcast_from_result_stream(&mut running, &mut stream), Ok(()));
    assert!(running.is_cancelled());
    assert_eq!(stream.recv(), Some(Err("broken")));
}

/// An error with a tag of its own.
#[derive(Debug, PartialEq)]
struct Broken(bool);

impl MaybeRetryable for Broken {
    fn retryable(&self) -> bool {
        unreachable!()
    }

    fn failed(&self) -> bool {
        unreachable!()
    }

    fn is_retryable(&self) -> bool {
        self.0
    }

    fn should_retry(&self) -> bool {
        true
    }
}

#[test]
fn a_stream_of_results_is_a_source_of_unknown_size_that_cannot_be_reset() {
    let mut source: Items<Result<Bytes, Broken>> =
        Items::new(vec![Ok(Bytes::from_static(b"a")), Ok(Bytes::from_static(b"bc"))]);
    assert_eq!(source.get_content_length().unwrap(), None);
    let fanout = StreamFanout::new(source, download_fanout_consumers(&vec![usize::MAX]));
    let (used, result) = fanout.into_driver().with_broadcaster_buffer_size(1).drive();
    assert_eq!(*result.unwrap()[0].as_ref().unwrap(), 3);
    let (source, _) = used.into_parts();
    assert!(source.reset().is_none());

    let source: Items<Result<Bytes, Broken>> =
        Items::new(vec![Ok(Bytes::from_static(b"a")), Err(Broken(true))]);
    let fanout = StreamFanout::new(source, download_fanout_consumers(&vec![usize::MAX]));
    let (_, result) = fanout.into_driver().with_broadcaster_buffer_size(1).drive();
    assert_eq!(result.unwrap_err(), Broken(true));
}

#[test]
fn a_counter_accepts_a_count_at_its_limit_and_fails_beyond_it() {
    let counter = BytesCounter::new_with_limit(3);
    let mut token = CancellationToken::new();
    let state = counter.start(Some(3));
    assert_eq!(state, 0);
    let state = counter.consume_from_fanout(state, Bytes::from_static(b"ab"), &mut token).unwrap();
    assert_eq!(state, 2);
    let state = counter.consume_from_fanout(state, Bytes::from_static(b"c"), &mut token).unwrap();
    assert_eq!(state, 3);
    assert!(!token.is_cancelled());
    assert_eq!(counter.finish(state).unwrap(), 3);
    let error = counter.consume_from_fanout(state, Bytes::from_static(b"d"), &mut token).unwrap_err();
    assert_eq!(error.message(), "too big");
    assert!(token.is_cancelled());
}

#[test]
fn a_counter_without_limit_fails_only_when_the_count_overflows() {
    let counter = BytesCounter::new();
    let mut token = CancellationToken::new();
    let state = counter
        .consume_from_fanout(usize::MAX - 1, Bytes::from_static(b"a"), &mut token)
        .unwrap();
    assert_eq!(state, usize::MAX);
    assert!(counter.consume_from_fanout(state, Bytes::from_static(b"a"), &mut token).is_err());
    assert!(token.is_cancelled());
}

#[test]
fn a_bufferer_keeps_every_chunk_and_leaves_the_token_alone() {
    let mut token = CancellationToken::new();
    let state = Bufferer.start(None);
    let state = Bufferer.consume_from_fanout(state, Bytes::from_static(b"ab"), &mut token).unwrap();
    let state = Bufferer.consume_from_fanout(state, Bytes::from_static(b"c"), &mut token).unwrap();
    assert!(!token.is_cancelled());
    assert_eq!(
        Bufferer.finish(state).unwrap(),
        vec![Bytes::from_static(b"ab"), Bytes::from_static(b"c")]
    );
}

#[test]
fn the_error_of_the_ready_made_parts_is_always_retryable() {
    let error = Error::from("too big".to_string());
    assert_eq!(error.message(), "too big");
    assert!(error.is_retryable());
    assert!(error.should_retry());
}

#[test]
fn a_token_stays_tripped() {
    let mut token = CancellationToken::default();
    assert!(!token.is_cancelled());
    token.cancel();
    assert!(token.is_cancelled());
    token.cancel();
    assert!(token.is_cancelled());
    assert!(token.clone().is_cancelled());
    assert!(!CancellationToken::new().clone().is_cancelled());
}
