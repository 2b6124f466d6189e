use std::cell::RefCell;
use std::rc::Rc;

use bytes::Bytes;
use stream_utils::broadcaster::{Broadcast, Seen};
use stream_utils::consumers::bytes_counter::BytesCounter;
use stream_utils::consumers::download_fanout_consumers;
use stream_utils::error::Error;
use stream_utils::fanout::consumer::{ConsumerOrResolved, FanoutConsumerGroup};
use stream_utils::fanout::retry::{
    attempt_download, batch_result, drive_batch, has_failed, next_step, run, sort_round,
    wants_retry, Backoff, NoSleep, Sleep, Step,
};
use stream_utils::fanout::source::FanoutSource;
use stream_utils::fanout::{MaybeRetryable, StreamFanout, UsedStreamFanout};
use stream_utils::sources::buffer::BytesSource;

/// An error with a tag of its own.
#[derive(Debug, PartialEq)]
struct Tagged {
    attempt: usize,
    retryable: bool,
}

impl MaybeRetryable for Tagged {
    fn retryable(&self) -> bool {
        unreachable!()
    }

    fn failed(&self) -> bool {
        unreachable!()
    }

    fn is_retryable(&self) -> bool {
        self.retryable
    }

    fn should_retry(&self) -> bool {
        true
    }
}

/// A source that fails a number of times before it pushes its chunks.
struct Flaky {
    attempt: usize,
    failures: usize,
    retryable: bool,
    resettable: bool,
    resets: Rc<RefCell<usize>>,
    chunks: Vec<Bytes>,
}

impl Flaky {
    fn new(failures: usize, retryable: bool, resettable: bool) -> Self {
        Flaky {
            attempt: 1,
            failures,
            retryable,
            resettable,
            resets: Rc::new(RefCell::new(0)),
            chunks: vec![Bytes::from_static(&[0u8; 10]), Bytes::from_static(&[0u8; 20])],
        }
    }
}

impl FanoutSource for Flaky {
    type Item = Bytes;
    type Error = Tagged;

    fn asked(self, _after: Self, _size: Result<Option<u64>, Tagged>) -> bool {
        unreachable!()
    }

    fn pushed(self, _after: Self, _from: Seen<Bytes>, _to: Seen<Bytes>, _result: Result<(), Tagged>) -> bool {
        unreachable!()
    }

    fn get_content_length(&mut self) -> Result<Option<u64>, Tagged> {
        Ok(None)
    }

    fn broadcast<B: Broadcast<Item = Bytes>>(&mut self, broadcaster: &mut B) -> Result<(), Tagged> {
        if self.attempt <= self.failures {
            return Err(Tagged { attempt: self.attempt, retryable: self.retryable });
        }
        for chunk in &self.chunks {
            let _ = broadcaster.broadcast(chunk.clone());
        }
        Ok(())
    }

    fn reset_spec(self) -> Option<Self> {
        unreachable!()
    }

    fn reset(self) -> Option<Self> {
        *self.resets.borrow_mut() += 1;
        if self.resettable {
            Some(Flaky { attempt: self.attempt + 1, ..self })
        } else {
            None
        }
    }
}

fn counters() -> FanoutConsumerGroup<BytesCounter> {
    download_fanout_consumers(&vec![usize::MAX, 1000])
}

type Output = Vec<Result<usize, Error>>;

#[test]
fn a_source_that_always_fails_is_retried_until_the_attempts_are_used_up() {
    let source = Flaky::new(usize::MAX, true, true);
    let resets = source.resets.clone();
    let mut backoff = Backoff::new(NoSleep);
    let result = run(vec![StreamFanout::new(source, counters())], 1, 3, &mut backoff);
    // three attempts, a longer wait after each but the last, and the last error
    assert_eq!(result.unwrap_err(), vec![Tagged { attempt: 3, retryable: true }]);
    assert_eq!(backoff.waits(), &vec![1, 2]);
    assert_eq!(*resets.borrow(), 3);
}

#[test]
fn a_source_that_recovers_succeeds_after_its_failures() {
    let source = Flaky::new(2, true, true);
    let mut backoff = Backoff::new(NoSleep);
    let result = run(vec![StreamFanout::new(source, counters())], 1, 5, &mut backoff);
    let outputs = result.unwrap();
    assert_eq!(outputs.len(), 1);
    assert_eq!(*outputs[0][0].as_ref().unwrap(), 30);
    assert_eq!(*outputs[0][1].as_ref().unwrap(), 30);
    assert_eq!(backoff.waits(), &vec![1, 2]);
}

#[test]
fn a_retryable_error_without_reset_yields_no_next_attempt() {
    let source = Flaky::new(usize::MAX, true, false);
    let resets = source.resets.clone();
    let fanout = StreamFanout::new(source, counters());
    let (used, result) = fanout.into_driver().with_broadcaster_buffer_size(1).drive();
    assert_eq!(result.as_ref().unwrap_err(), &Tagged { attempt: 1, retryable: true });
    assert!(wants_retry(&result));
    assert!(used.retry(&result).is_none());
    assert_eq!(*resets.borrow(), 1);

    // and the batch treats it as one that cannot go on
    let source = Flaky::new(usize::MAX, true, false);
    let mut backoff = Backoff::new(NoSleep);
    let result = run(vec![StreamFanout::new(source, counters())], 1, 3, &mut backoff);
    assert_eq!(result.unwrap_err(), vec![Tagged { attempt: 1, retryable: true }]);
    assert!(backoff.waits().is_empty());
}

#[test]
fn reconstruct_without_a_source_is_none_whatever_the_result() {
    let failed: Result<Output, Tagged> = Err(Tagged { attempt: 1, retryable: true });
    let next = UsedStreamFanout::<Flaky, _>::reconstruct(None, counters(), &failed);
    assert!(next.is_none());
    let partial: Result<Output, Tagged> = Ok(vec![Ok(1), Err(Error::from("too big".to_string()))]);
    let next = UsedStreamFanout::<Flaky, _>::reconstruct(None, counters(), &partial);
    assert!(next.is_none());
}

#[test]
fn reconstruct_with_a_source_resolves_the_members_that_succeeded() {
    let partial: Result<Output, Tagged> = Ok(vec![Ok(7), Err(Error::from("too big".to_string()))]);
    let next =
        UsedStreamFanout::reconstruct(Some(Flaky::new(0, true, true)), counters(), &partial).unwrap();
    let (source, consumers) = next.into_parts();
    assert_eq!(source.attempt, 1);
    assert!(matches!(consumers.members()[0], ConsumerOrResolved::ConsumerOutput(7)));
    assert!(matches!(consumers.members()[1], ConsumerOrResolved::Consumer(_)));

    let failed: Result<Output, Tagged> = Err(Tagged { attempt: 1, retryable: true });
    let next =
        UsedStreamFanout::reconstruct(Some(Flaky::new(0, true, true)), counters(), &failed).unwrap();
    let (_, consumers) = next.into_parts();
    assert!(matches!(consumers.members()[0], ConsumerOrResolved::Consumer(_)));
    assert!(matches!(consumers.members()[1], ConsumerOrResolved::Consumer(_)));
}

#[test]
fn a_non_retryable_error_is_final_and_the_source_is_not_reset() {
    let source = Flaky::new(usize::MAX, false, true);
    let resets = source.resets.clone();
    let fanout = StreamFanout::new(source, counters());
    let (used, result) = fanout.into_driver().with_broadcaster_buffer_size(1).drive();
    assert!(!wants_retry(&result));
    assert!(has_failed(&result));
    assert!(used.retry(&result).is_none());
    assert_eq!(*resets.borrow(), 0);
}

#[test]
fn a_partial_failure_is_retried_like_an_error() {
    // the second counter is over its limit in every attempt
    let consumers = download_fanout_consumers(&vec![usize::MAX, 16]);
    let source = BytesSource::from(vec![Bytes::from_static(&[0u8; 10]), Bytes::from_static(&[0u8; 20])]);
    let mut backoff = Backoff::new(NoSleep);
    let result = run(vec![StreamFanout::new(source, consumers)], 4, 3, &mut backoff);
    // no source failed, so the outputs are given, with the failure in them
    let outputs = result.unwrap();
    assert_eq!(outputs.len(), 1);
    assert_eq!(*outputs[0][0].as_ref().unwrap(), 30);
    assert_eq!(outputs[0][1].as_ref().unwrap_err().message(), "too big");
    assert_eq!(backoff.waits(), &vec![1, 2]);
}

#[test]
fn a_batch_stops_as_a_whole_when_one_attempt_cannot_go_on() {
    let fanouts = vec![
        StreamFanout::new(Flaky::new(0, true, true), counters()),
        StreamFanout::new(Flaky::new(usize::MAX, true, true), counters()),
        StreamFanout::new(Flaky::new(usize::MAX, false, true), counters()),
    ];
    let round = attempt_download(fanouts, 1);
    assert_eq!(round.outputs.len(), 1);
    assert!(round.unfinished_outputs.is_empty());
    assert_eq!(
        round.errors,
        vec![Tagged { attempt: 1, retryable: true }, Tagged { attempt: 1, retryable: false }]
    );
    assert!(round.retry_fanouts.is_none());
    assert!(!round.has_succeeded());
}

#[test]
fn a_round_gives_a_next_attempt_for_every_attempt_that_failed() {
    let fanouts = vec![
        StreamFanout::new(Flaky::new(0, true, true), counters()),
        StreamFanout::new(Flaky::new(1, true, true), counters()),
    ];
    let round = attempt_download(fanouts, 1);
    assert_eq!(round.outputs.len(), 1);
    assert_eq!(round.errors, vec![Tagged { attempt: 1, retryable: true }]);
    assert_eq!(round.retry_fanouts.as_ref().unwrap().len(), 1);
    let round = attempt_download(round.retry_fanouts.unwrap(), 1);
    assert!(round.has_succeeded());
    assert_eq!(round.outputs.len(), 1);
    assert_eq!(round.retry_fanouts.unwrap().len(), 0);
}

#[test]
fn one_attempt_allowed_means_one_round_and_no_wait() {
    let source = Flaky::new(usize::MAX, true, true);
    let resets = source.resets.clone();
    let mut backoff = Backoff::new(NoSleep);
    let result = run(vec![StreamFanout::new(source, counters())], 1, 1, &mut backoff);
    assert_eq!(result.unwrap_err(), vec![Tagged { attempt: 1, retryable: true }]);
    assert!(backoff.waits().is_empty());
    assert_eq!(*resets.borrow(), 1);
}

#[test]
fn a_batch_is_driven_in_order_and_sorted_by_what_failed() {
    let fanouts = vec![
        StreamFanout::new(Flaky::new(1, true, true), counters()),
        StreamFanout::new(Flaky::new(0, true, true), download_fanout_consumers(&vec![usize::MAX, 16])),
        StreamFanout::new(Flaky::new(0, true, true), counters()),
    ];
    let driven = drive_batch(fanouts, 4);
    assert_eq!(driven.len(), 3);
    assert_eq!(driven[0].result.as_ref().unwrap_err(), &Tagged { attempt: 1, retryable: true });
    assert!(driven[1].result.as_ref().unwrap()[1].is_err());
    assert_eq!(*driven[2].result.as_ref().unwrap()[1].as_ref().unwrap(), 30);
    let round = sort_round(driven);
    // nothing failed in the third attempt; a consumer failed in the second; the source in the first
    assert_eq!(round.outputs.len(), 1);
    assert_eq!(*round.outputs[0][0].as_ref().unwrap(), 30);
    assert_eq!(round.unfinished_outputs.len(), 1);
    assert_eq!(*round.unfinished_outputs[0][0].as_ref().unwrap(), 30);
    assert!(round.unfinished_outputs[0][1].is_err());
    assert_eq!(round.errors, vec![Tagged { attempt: 1, retryable: true }]);
    // the next attempts are those of the first and of the second, in that order
    let retry_fanouts = round.retry_fanouts.unwrap();
    assert_eq!(retry_fanouts.len(), 2);
    let mut retry_fanouts = retry_fanouts.into_iter();
    let (source, consumers) = retry_fanouts.next().unwrap().into_parts();
    assert_eq!(source.attempt, 2);
    assert!(matches!(consumers.members()[0], ConsumerOrResolved::Consumer(_)));
    let (source, consumers) = retry_fanouts.next().unwrap().into_parts();
    assert_eq!(source.attempt, 2);
    assert!(matches!(consumers.members()[0], ConsumerOrResolved::ConsumerOutput(30)));
    assert!(matches!(consumers.members()[1], ConsumerOrResolved::Consumer(_)));
}

#[test]
fn a_failed_attempt_that_cannot_be_made_again_leaves_no_next_attempts_at_all() {
    let fanouts = vec![
        StreamFanout::new(Flaky::new(usize::MAX, true, true), counters()),
        StreamFanout::new(Flaky::new(usize::MAX, true, false), counters()),
    ];
    let round = sort_round(drive_batch(fanouts, 1));
    assert!(round.retry_fanouts.is_none());
    assert_eq!(
        round.errors,
        vec![Tagged { attempt: 1, retryable: true }, Tagged { attempt: 1, retryable: true }]
    );
}

#[test]
fn an_empty_batch_succeeds_at_once() {
    let mut backoff = Backoff::new(NoSleep);
    let fanouts: Vec<StreamFanout<Flaky, FanoutConsumerGroup<BytesCounter>, _>> = Vec::new();
    let result = run(fanouts, 1, 3, &mut backoff);
    assert!(result.unwrap().is_empty());
    assert!(backoff.waits().is_empty());
}

#[test]
fn the_next_step_after_a_round() {
    // something failed, all can go on, rounds are left: wait as long as rounds were run
    match next_step(false, Some(vec!['a']), 2, 5) {
        Step::Retry { fanouts, backoff_seconds } => {
            assert_eq!(fanouts, vec!['a']);
            assert_eq!(backoff_seconds, 2);
        }
        Step::Stop => panic!("expected another round"),
    }
    // nothing failed
    assert!(matches!(next_step(true, Some(vec!['a']), 2, 5), Step::Stop));
    // some attempt cannot go on
    assert!(matches!(next_step::<char>(false, None, 2, 5), Step::Stop));
    // the rounds are used up
    assert!(matches!(next_step(false, Some(vec!['a']), 5, 5), Step::Stop));
}

#[test]
fn the_result_of_a_batch() {
    let result: Result<Vec<u8>, Vec<&str>> = batch_result(vec![1, 2], vec![]);
    assert_eq!(result, Ok(vec![1, 2]));
    let result: Result<Vec<u8>, Vec<&str>> = batch_result(vec![1, 2], vec!["failed"]);
    assert_eq!(result, Err(vec!["failed"]));
}

/// A sleeper that keeps what it was asked to sleep.
struct Slept(Rc<RefCell<Vec<u64>>>);

impl Sleep for Slept {
    fn sleep(&self, seconds: u64) {
        self.0.borrow_mut().push(seconds);
    }
}

#[test]
fn a_backoff_sleeps_and_keeps_its_waits_in_order() {
    let slept = Rc::new(RefCell::new(Vec::new()));
    let mut backoff = Backoff::new(Slept(slept.clone()));
    assert!(backoff.waits().is_empty());
    backoff.wait(3);
    backoff.wait(1);
    assert_eq!(backoff.waits(), &vec![3, 1]);
    assert_eq!(*slept.borrow(), vec![3, 1]);
}
