use stream_utils::channel::receiver::{into_stream, NoOpReceiver, Pending, Receiver};
use stream_utils::channel::sender::{NoOpSender, Result as SendResult, Sender};
use stream_utils::channel::{Channel, NoOpChannel};
use stream_utils::serializer::StreamToSerialize;

/// A stream that yields the items of a vector.
struct Items {
    items: std::vec::IntoIter<i32>,
}

impl Items {
    fn new(items: Vec<i32>) -> Self {
        Items { items: items.into_iter() }
    }
}

impl Receiver for Items {
    type Item = i32;

    fn pending(&self) -> Pending<i32> {
        unreachable!()
    }

    fn recv(&mut self) -> Option<i32> {
        self.items.next()
    }
}

#[test]
fn everything_is_written_without_a_length() {
    let to_serialize = StreamToSerialize::new("numbers", Items::new((0..10).collect()));
    assert_eq!(to_serialize.name(), "numbers");
    assert_eq!(to_serialize.length(), None);
    assert_eq!(into_stream(to_serialize), (0..10).collect::<Vec<i32>>());
}

#[test]
fn a_length_cuts_the_stream_short() {
    let to_serialize = StreamToSerialize::new_with_length("numbers", Items::new((0..10).collect()), 3);
    assert_eq!(to_serialize.length(), Some(3));
    assert_eq!(into_stream(to_serialize), vec![0, 1, 2]);
}

#[test]
fn a_length_beyond_the_stream_writes_the_whole_stream() {
    let to_serialize = StreamToSerialize::new_with_length("numbers", Items::new(vec![4, 5]), 7);
    assert_eq!(into_stream(to_serialize), vec![4, 5]);
}

#[test]
fn a_length_of_zero_still_writes_the_first_item() {
    let to_serialize = StreamToSerialize::new_with_length("numbers", Items::new(vec![4, 5]), 0);
    assert_eq!(to_serialize.length(), Some(0));
    assert_eq!(into_stream(to_serialize), vec![4]);
    let to_serialize = StreamToSerialize::new_with_length("numbers", Items::new(vec![]), 0);
    assert!(into_stream(to_serialize).is_empty());
}

#[test]
fn the_stream_underneath_is_asked_for_no_more_than_is_written() {
    let mut to_serialize =
        StreamToSerialize::new_with_length("numbers", Items::new(vec![1, 2, 3]), 2);
    assert_eq!(to_serialize.recv(), Some(1));
    assert_eq!(to_serialize.recv(), Some(2));
    assert_eq!(to_serialize.recv(), None);
    assert_eq!(to_serialize.recv(), None);
}

#[test]
fn the_no_op_receiver_is_closed_from_the_start() {
    let mut rx: NoOpReceiver<u8> = NoOpReceiver::new();
    assert_eq!(rx.recv(), None);
    assert_eq!(rx.recv(), None);
    assert!(into_stream(rx).is_empty());
}

#[test]
fn the_no_op_sender_always_fails() {
    let tx: NoOpSender<u8> = NoOpSender::new();
    assert!(matches!(tx.send(1), SendResult::Failure));
    assert!(matches!(tx.send(2), SendResult::Failure));
}

#[test]
fn the_no_op_channel_makes_a_pair_that_carries_nothing() {
    let channel: NoOpChannel<u8> = NoOpChannel::new();
    let (tx, mut rx) = channel.create_channel(4);
    assert!(matches!(tx.send(1), SendResult::Failure));
    assert_eq!(rx.recv(), None);
}
