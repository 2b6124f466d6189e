use stream_utils::broadcaster::channel::{Receiver, RecvResult};
use stream_utils::broadcaster::{BroadcastError, Broadcaster};
use stream_utils::channel::receiver::{Pending, Receiver as StreamReceiver};

/// Takes everything that waits for `rx` and says whether the stream has ended.
fn drain(broadcaster: &mut Broadcaster<i32>, rx: &mut Receiver<i32>, into: &mut Vec<i32>) -> bool {
    loop {
        match rx.recv(broadcaster) {
            RecvResult::Item(message) => into.push(message),
            RecvResult::Pending => return false,
            RecvResult::Closed => return true,
        }
    }
}

#[test]
fn test_broadcaster_all_receivers_receive_all_messages_in_order() {
    let messages: Vec<i32> = (0..5).collect();
    let mut broadcaster = Broadcaster::new(1);
    let mut rx1 = broadcaster.subscribe();
    let mut rx2 = broadcaster.subscribe();
    let mut received1 = Vec::new();
    let mut received2 = Vec::new();
    for message in messages.clone() {
        if !broadcaster.is_ready() {
            // no room: the broadcast waits while the receivers run
            assert!(!drain(&mut broadcaster, &mut rx1, &mut received1));
            assert!(!drain(&mut broadcaster, &mut rx2, &mut received2));
        }
        assert!(broadcaster.is_ready());
        broadcaster.broadcast(message).unwrap();
    }
    broadcaster.close();
    assert!(drain(&mut broadcaster, &mut rx1, &mut received1));
    assert!(drain(&mut broadcaster, &mut rx2, &mut received2));
    for received_messages in [received1, received2] {
        let expected_messages = messages.clone();
        assert_eq!(
            received_messages.len(),
            expected_messages.len(),
            "received messages: {received_messages:?}, expected: {expected_messages:?}"
        );
        for (received_message, expected_message) in
            received_messages.into_iter().zip(expected_messages)
        {
            assert_eq!(
                received_message, expected_message,
                "received message: {received_message}, expected: {expected_message}"
            );
        }
    }
}

/// Check that the broadcaster aborts once the cancellation token is tripped.
///
/// 1. Broadcaster sends message 0.
/// 2. Both receivers receive message 0.
/// 3. Broadcaster sends message 1.
/// 4. Both receivers receive message 1.
///    * One receiver trips the cancellation token to abort the broadcast
/// 5. The broadcaster fails to broadcast message 2 or message 3, and no
///    receiver receives a message >= 3.
#[test]
fn test_broadcaster_abort_if_cancellation_token() {
    let messages: Vec<i32> = (0..5).collect();
    let mut broadcaster = Broadcaster::new(1);
    let mut cancellation_token = broadcaster.get_cancellation_token().clone();
    let mut rx1 = Some(broadcaster.subscribe());
    let mut rx2 = broadcaster.subscribe();
    let mut failed_at = None;
    for message in messages.clone() {
        if !broadcaster.is_ready() {
            // no room: the broadcast waits while the receivers run
            if let Some(mut rx) = rx1.take() {
                match rx.recv(&mut broadcaster) {
                    RecvResult::Item(1) => {
                        cancellation_token.cancel();
                        rx.disconnect(&mut broadcaster);
                    }
                    _ => rx1 = Some(rx),
                }
            }
            while let RecvResult::Item(message) = rx2.recv(&mut broadcaster) {
                assert!(message < 3, "message: {message}");
            }
        }
        // the broadcaster sees the signal before it looks at its queues
        broadcaster.observe(&cancellation_token);
        assert!(broadcaster.is_ready() || broadcaster.get_cancellation_token().is_cancelled());
        let broadcast_result = broadcaster.broadcast(message);
        if broadcast_result.is_err() {
            assert_eq!(broadcast_result, Err(BroadcastError::ReceiverFailure));
            assert!(message == 2 || message == 3, "message: {message}");
            failed_at = Some(message);
            break;
        }
    }
    assert!(failed_at.is_some());
    broadcaster.close();
    loop {
        match rx2.recv(&mut broadcaster) {
            RecvResult::Item(message) => assert!(message < 3, "message: {message}"),
            RecvResult::Pending => panic!("a closed broadcaster has nothing pending"),
            RecvResult::Closed => break,
        }
    }
}

fn item(result: RecvResult<i32>) -> i32 {
    match result {
        RecvResult::Item(message) => message,
        RecvResult::Pending => panic!("nothing waits"),
        RecvResult::Closed => panic!("the stream has ended"),
    }
}

#[test]
fn a_new_broadcaster_has_the_room_it_was_given_and_is_not_cancelled() {
    let broadcaster: Broadcaster<i32> = Broadcaster::new(7);
    assert_eq!(broadcaster.buffer_size(), 7);
    assert!(!broadcaster.get_cancellation_token().is_cancelled());
    assert!(broadcaster.is_ready());
}

#[test]
fn a_broadcast_to_nobody_succeeds() {
    let mut broadcaster = Broadcaster::new(1);
    assert_eq!(broadcaster.try_broadcast(1), Ok(Ok(())));
    assert_eq!(broadcaster.broadcast(2), Ok(()));
    assert_eq!(broadcaster.broadcast_and_prune(3), Ok(()));
    assert_eq!(broadcaster.try_broadcast_and_prune(4), Ok(Ok(())));
}

#[test]
fn a_late_subscriber_gets_only_what_is_broadcast_after_it_subscribed() {
    let mut broadcaster = Broadcaster::new(4);
    let mut early = broadcaster.subscribe();
    broadcaster.broadcast(10).unwrap();
    let mut late = broadcaster.subscribe();
    broadcaster.broadcast(20).unwrap();
    broadcaster.broadcast(30).unwrap();
    assert_eq!(item(early.recv(&mut broadcaster)), 10);
    assert_eq!(item(early.recv(&mut broadcaster)), 20);
    assert_eq!(item(early.recv(&mut broadcaster)), 30);
    assert_eq!(item(late.recv(&mut broadcaster)), 20);
    assert_eq!(item(late.recv(&mut broadcaster)), 30);
    assert!(matches!(early.recv(&mut broadcaster), RecvResult::Pending));
    assert!(matches!(late.recv(&mut broadcaster), RecvResult::Pending));
}

#[test]
fn a_full_queue_holds_the_broadcast_back_and_the_item_comes_back() {
    let mut broadcaster = Broadcaster::new(2);
    let mut fast = broadcaster.subscribe();
    let mut slow = broadcaster.subscribe();
    broadcaster.broadcast(1).unwrap();
    broadcaster.broadcast(2).unwrap();
    assert_eq!(item(fast.recv(&mut broadcaster)), 1);
    assert_eq!(item(fast.recv(&mut broadcaster)), 2);
    // the slow subscriber has no room: nobody gets the item
    assert!(!broadcaster.is_ready());
    assert_eq!(broadcaster.try_broadcast(3), Err(3));
    assert_eq!(broadcaster.try_broadcast_and_prune(3), Err(3));
    assert!(matches!(fast.recv(&mut broadcaster), RecvResult::Pending));
    assert_eq!(item(slow.recv(&mut broadcaster)), 1);
    assert!(broadcaster.is_ready());
    assert_eq!(broadcaster.try_broadcast(3), Ok(Ok(())));
    assert_eq!(item(fast.recv(&mut broadcaster)), 3);
    assert_eq!(item(slow.recv(&mut broadcaster)), 2);
    assert_eq!(item(slow.recv(&mut broadcaster)), 3);
}

#[test]
fn queues_without_room_never_take_anything() {
    let mut broadcaster = Broadcaster::new(0);
    assert_eq!(broadcaster.try_broadcast(1), Ok(Ok(())));
    let mut rx = broadcaster.subscribe();
    assert!(!broadcaster.is_ready());
    assert_eq!(broadcaster.try_broadcast(2), Err(2));
    assert!(matches!(rx.recv(&mut broadcaster), RecvResult::Pending));
    rx.disconnect(&mut broadcaster);
    assert_eq!(broadcaster.try_broadcast(3), Ok(Ok(())));
}

#[test]
fn cancellation_wins_over_a_full_queue_and_nothing_is_delivered_after_it() {
    let mut broadcaster = Broadcaster::new(1);
    let mut rx = broadcaster.subscribe();
    broadcaster.broadcast(1).unwrap();
    broadcaster.cancel();
    assert!(broadcaster.get_cancellation_token().is_cancelled());
    // the queue is full and the token is tripped: the token decides
    assert_eq!(broadcaster.try_broadcast(2), Ok(Err(BroadcastError::ReceiverFailure)));
    assert_eq!(broadcaster.broadcast(2), Err(BroadcastError::ReceiverFailure));
    assert_eq!(broadcaster.broadcast_and_prune(2), Err(BroadcastError::ReceiverFailure));
    assert_eq!(broadcaster.try_broadcast_and_prune(2), Ok(Err(BroadcastError::ReceiverFailure)));
    // what was delivered before still comes out
    assert_eq!(item(rx.recv(&mut broadcaster)), 1);
    assert_eq!(broadcaster.try_broadcast(3), Ok(Err(BroadcastError::ReceiverFailure)));
    assert!(matches!(rx.recv(&mut broadcaster), RecvResult::Pending));
}

#[test]
fn a_receiver_that_is_gone_is_no_failure_of_the_broadcast() {
    let mut broadcaster = Broadcaster::new(1);
    let gone = broadcaster.subscribe();
    let mut rx = broadcaster.subscribe();
    broadcaster.broadcast(1).unwrap();
    gone.disconnect(&mut broadcaster);
    assert_eq!(item(rx.recv(&mut broadcaster)), 1);
    // the queue of the receiver that is gone no longer counts
    assert!(broadcaster.is_ready());
    assert_eq!(broadcaster.broadcast(2), Ok(()));
    assert_eq!(item(rx.recv(&mut broadcaster)), 2);
    assert_eq!(broadcaster.broadcast_and_prune(3), Ok(()));
    assert_eq!(item(rx.recv(&mut broadcaster)), 3);
    assert_eq!(broadcaster.broadcast_and_prune(4), Ok(()));
    assert_eq!(item(rx.recv(&mut broadcaster)), 4);
}

#[test]
fn a_closed_broadcaster_lets_every_receiver_finish() {
    let mut broadcaster = Broadcaster::new(3);
    let mut rx = broadcaster.subscribe();
    broadcaster.broadcast(1).unwrap();
    broadcaster.broadcast(2).unwrap();
    assert!(matches!(rx.recv(&mut broadcaster), RecvResult::Item(1)));
    broadcaster.close();
    assert!(matches!(rx.recv(&mut broadcaster), RecvResult::Item(2)));
    assert!(matches!(rx.recv(&mut broadcaster), RecvResult::Closed));
    assert!(matches!(rx.recv(&mut broadcaster), RecvResult::Closed));
    // what is broadcast after the end reaches nobody
    assert_eq!(broadcaster.broadcast(3), Ok(()));
    assert!(matches!(rx.recv(&mut broadcaster), RecvResult::Closed));
}

#[test]
fn a_receiver_of_a_longer_broadcaster_finds_nothing_in_a_shorter_one() {
    let mut longer: Broadcaster<i32> = Broadcaster::new(1);
    let _first = longer.subscribe();
    let mut second = longer.subscribe();
    assert_eq!(second.position(), 1);
    let mut shorter: Broadcaster<i32> = Broadcaster::new(1);
    let _only = shorter.subscribe();
    assert!(matches!(second.recv(&mut shorter), RecvResult::Closed));
    second.disconnect(&mut shorter);
    assert!(shorter.is_ready());
}

#[test]
fn with_room_for_one_nobody_sees_beyond_the_item_after_the_last_the_canceller_saw() {
    let mut broadcaster = Broadcaster::new(1);
    let mut canceller = broadcaster.subscribe();
    let mut other = broadcaster.subscribe();
    let mut seen = Vec::new();
    broadcaster.broadcast(0).unwrap();
    assert_eq!(item(canceller.recv(&mut broadcaster)), 0);
    assert!(!drain(&mut broadcaster, &mut other, &mut seen));
    // the producer gets one item ahead of the canceller, and no further
    assert_eq!(broadcaster.try_broadcast(1), Ok(Ok(())));
    assert!(!drain(&mut broadcaster, &mut other, &mut seen));
    assert_eq!(broadcaster.try_broadcast(2), Err(2));
    broadcaster.cancel();
    assert_eq!(broadcaster.try_broadcast(2), Ok(Err(BroadcastError::ReceiverFailure)));
    broadcaster.close();
    assert!(drain(&mut broadcaster, &mut other, &mut seen));
    assert_eq!(seen, vec![0, 1]);
}

#[test]
fn with_room_for_two_the_producer_can_be_two_items_ahead_of_the_canceller() {
    let mut broadcaster = Broadcaster::new(2);
    let mut canceller = broadcaster.subscribe();
    let mut other = broadcaster.subscribe();
    let mut seen = Vec::new();
    broadcaster.broadcast(0).unwrap();
    assert_eq!(item(canceller.recv(&mut broadcaster)), 0);
    assert!(!drain(&mut broadcaster, &mut other, &mut seen));
    assert_eq!(broadcaster.try_broadcast(1), Ok(Ok(())));
    assert_eq!(broadcaster.try_broadcast(2), Ok(Ok(())));
    assert!(!drain(&mut broadcaster, &mut other, &mut seen));
    assert_eq!(broadcaster.try_broadcast(3), Err(3));
    // the canceller has seen item 0 only; the other has seen item 2 already
    broadcaster.cancel();
    assert_eq!(broadcaster.try_broadcast(3), Ok(Err(BroadcastError::ReceiverFailure)));
    broadcaster.close();
    assert!(drain(&mut broadcaster, &mut other, &mut seen));
    assert_eq!(seen, vec![0, 1, 2]);
}

/// A stream that yields the items of a vector.
struct Items<T> {
    items: std::vec::IntoIter<T>,
}

impl<T> Items<T> {
    fn new(items: Vec<T>) -> Self {
        Items { items: items.into_iter() }
    }
}

impl<T> StreamReceiver for Items<T> {
    type Item = T;

    fn pending(&self) -> Pending<T> {
        unreachable!()
    }

    fn recv(&mut self) -> Option<T> {
        self.items.next()
    }
}

#[test]
fn a_broadcaster_takes_from_a_stream_as_long_as_there_is_room() {
    let mut broadcaster = Broadcaster::new(2);
    let mut rx = broadcaster.subscribe();
    let mut stream = Items::new(vec![1, 2, 3, 4]);
    broadcaster.broadcast_from_stream(&mut stream);
    // the queue is full after two items; the third stays in the stream
    assert!(!broadcaster.is_ready());
    assert_eq!(item(rx.recv(&mut broadcaster)), 1);
    assert_eq!(item(rx.recv(&mut broadcaster)), 2);
    assert!(matches!(rx.recv(&mut broadcaster), RecvResult::Pending));
    broadcaster.broadcast_from_stream(&mut stream);
    assert_eq!(item(rx.recv(&mut broadcaster)), 3);
    assert_eq!(item(rx.recv(&mut broadcaster)), 4);
    assert_eq!(stream.recv(), None);
}

#[test]
fn a_cancelled_broadcaster_loses_the_first_item_of_a_stream() {
    let mut broadcaster = Broadcaster::new(2);
    let mut rx = broadcaster.subscribe();
    broadcaster.cancel();
    let mut stream = Items::new(vec![1, 2, 3]);
    broadcaster.broadcast_from_stream(&mut stream);
    assert!(matches!(rx.recv(&mut broadcaster), RecvResult::Pending));
    assert_eq!(stream.recv(), Some(2));
}

#[test]
fn a_broadcaster_takes_from_a_stream_of_results_up_to_its_first_error() {
    let mut broadcaster = Broadcaster::new(4);
    let mut rx = broadcaster.subscribe();
    let mut stream = Items::new(vec![Ok(1), Ok(2), Err("broken"), Ok(4)]);
    assert_eq!(broadcaster.broadcast_from_result_stream(&mut stream), Err("broken"));
    assert_eq!(item(rx.recv(&mut broadcaster)), 1);
    assert_eq!(item(rx.recv(&mut broadcaster)), 2);
    assert!(matches!(rx.recv(&mut broadcaster), RecvResult::Pending));
    assert_eq!(stream.recv(), Some(Ok(4)));

    // without room the work ends without error, and nothing is taken
    let mut broadcaster = Broadcaster::new(1);
    let mut rx = broadcaster.subscribe();
    let mut stream: Items<Result<i32, &str>> = Items::new(vec![Ok(1), Ok(2), Err("broken")]);
    assert_eq!(broadcaster.broadcast_from_result_stream(&mut stream), Ok(()));
    assert_eq!(item(rx.recv(&mut broadcaster)), 1);
    assert_eq!(stream.recv(), Some(Ok(2)));
}

#[test]
fn a_copy_of_the_token_trips_the_signal_once_the_broadcaster_is_shown_it() {
    let mut broadcaster: Broadcaster<i32> = Broadcaster::new(1);
    let mut copy = broadcaster.get_cancellation_token().clone();
    broadcaster.observe(&copy);
    assert!(!broadcaster.get_cancellation_token().is_cancelled());
    copy.cancel();
    assert!(!broadcaster.get_cancellation_token().is_cancelled());
    broadcaster.observe(&copy);
    assert!(broadcaster.get_cancellation_token().is_cancelled());
    // a copy that is not tripped does not reset the signal
    let fresh = stream_utils::broadcaster::CancellationToken::new();
    broadcaster.observe(&fresh);
    assert!(broadcaster.get_cancellation_token().is_cancelled());
    assert_eq!(broadcaster.broadcast(1), Err(BroadcastError::ReceiverFailure));
}
