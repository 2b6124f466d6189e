//! A consumer that counts bytes, up to a limit.

use crate::broadcaster::CancellationToken;
use crate::chunks::{contents, total_len};
use crate::error::Error;
use crate::fanout::consumer::{gave, reached, FanoutConsumer};
use vstd::prelude::*;

verus! {

/// Counts the bytes of a stream. Once they are more than its limit it trips
/// the cancellation token and fails.
#[derive(Clone, Copy, Debug)]
pub struct BytesCounter {
    limit: usize,
}

impl BytesCounter {
    /// The most bytes that the counter accepts.
    pub closed spec fn limit(&self) -> nat {
        self.limit as nat
    }

    /// A counter that accepts as many bytes as can be counted.
    pub fn new() -> (counter: Self)
        ensures
            counter.limit() == usize::MAX,
    {
        Self::new_with_limit(usize::MAX)
    }

    /// A counter that accepts up to `limit` bytes.
    pub fn new_with_limit(limit: usize) -> (counter: Self)
        ensures
            counter.limit() == limit,
    {
        BytesCounter { limit }
    }
}

impl FanoutConsumer for BytesCounter {
    type Item = bytes::Bytes;

    type Output = usize;

    type Error = Error;

    type State = usize;

    /// The count starts at nothing.
    open spec fn started(&self, content_length: Option<u64>, state: usize) -> bool {
        state == 0
    }

    fn start(&self, _content_length: Option<u64>) -> (count: usize) {
        0
    }

    /// The bytes of `item` are added to the count. A count within the limit
    /// is the next state, and the token is left alone; a count beyond it
    /// trips the token and fails.
    open spec fn consumed(
        &self,
        state: usize,
        item: bytes::Bytes,
        was: bool,
        tripped: bool,
        result: Result<usize, Error>,
    ) -> bool {
        match result {
            Ok(count) => {
                &&& count == state + contents(item).len()
                &&& count <= self.limit()
                &&& tripped == was
            },
            Err(error) => {
                &&& state + contents(item).len() > self.limit()
                &&& tripped
                &&& error.0@ == "too big"@
            },
        }
    }

    fn consume_from_fanout(
        &self,
        state: usize,
        item: bytes::Bytes,
        cancellation_token: &mut CancellationToken,
    ) -> (result: Result<usize, Error>) {
        match state.checked_add(item.len()) {
            Some(count) if count <= self.limit => Ok(count),
            _ => {
                cancellation_token.cancel();
                Err(Error::from("too big".to_string()))
            },
        }
    }

    /// The count is the output.
    open spec fn finished(&self, state: usize, result: Result<usize, Error>) -> bool {
        result == Ok::<usize, Error>(state)
    }

    fn finish(&self, state: usize) -> (result: Result<usize, Error>) {
        Ok(state)
    }
}

/// The count over a run of chunks. A counter that has taken in the chunks
/// `handed` without failing holds the number of their bytes, which is within
/// its limit.
pub proof fn lemma_counted(
    counter: &BytesCounter,
    content_length: Option<u64>,
    handed: Seq<bytes::Bytes>,
    state: usize,
)
    requires
        reached(counter, content_length, handed, state),
    ensures
        state == total_len(handed),
        total_len(handed) <= counter.limit(),
    decreases handed.len(),
{
    if handed.len() > 0 {
        let (before, was, tripped) = choose|before: usize, was: bool, tripped: bool|
            {
                &&& reached(counter, content_length, handed.drop_last(), before)
                &&& #[trigger] counter.consumed(
                    before,
                    handed.last(),
                    was,
                    tripped,
                    Ok::<usize, Error>(state),
                )
            };
        lemma_counted(counter, content_length, handed.drop_last(), before);
    }
}

/// The result of a counter over a whole stream. A counter that was told that
/// the stream has ended gives the number of the bytes that it was handed,
/// which is within its limit. One that was not has failed on the last chunk
/// that it was handed: with that chunk, and not before, the bytes were more
/// than its limit.
pub proof fn lemma_count_given(
    counter: &BytesCounter,
    content_length: Option<u64>,
    handed: Seq<bytes::Bytes>,
    finished: bool,
    result: Result<usize, Error>,
)
    requires
        gave(counter, content_length, handed, finished, result),
    ensures
        finished ==> result == Ok::<usize, Error>(total_len(handed) as usize) && total_len(handed)
            <= counter.limit(),
        !finished ==> {
            &&& result is Err
            &&& handed.len() > 0
            &&& total_len(handed.drop_last()) <= counter.limit()
            &&& total_len(handed) > counter.limit()
        },
{
    if finished {
        let state = choose|state: usize|
            {
                &&& reached(counter, content_length, handed, state)
                &&& #[trigger] counter.finished(state, result)
            };
        lemma_counted(counter, content_length, handed, state);
    } else {
        let (before, was, tripped) = choose|before: usize, was: bool, tripped: bool|
            {
                &&& reached(counter, content_length, handed.drop_last(), before)
                &&& #[trigger] counter.consumed(
                    before,
                    handed.last(),
                    was,
                    tripped,
                    Err::<usize, Error>(result->Err_0),
                )
            };
        lemma_counted(counter, content_length, handed.drop_last(), before);
    }
}

} // verus!
