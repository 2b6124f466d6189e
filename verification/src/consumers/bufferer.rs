//! A consumer that keeps every chunk.

use crate::broadcaster::CancellationToken;
use crate::fanout::consumer::FanoutConsumer;
use vstd::prelude::*;

verus! {

/// Keeps every chunk of a stream, in order. It never fails.
#[derive(Clone, Copy, Debug)]
pub struct Bufferer;

impl FanoutConsumer for Bufferer {
    type Item = bytes::Bytes;

    type Output = Vec<bytes::Bytes>;

    type Error = core::convert::Infallible;

    type State = Vec<bytes::Bytes>;

    /// The buffer starts empty.
    open spec fn started(&self, content_length: Option<u64>, state: Vec<bytes::Bytes>) -> bool {
        state@.len() == 0
    }

    fn start(&self, _content_length: Option<u64>) -> (buffer: Vec<bytes::Bytes>) {
        Vec::new()
    }

    /// The item is kept behind those that were kept before. The token is
    /// left alone, and nothing fails.
    open spec fn consumed(
        &self,
        state: Vec<bytes::Bytes>,
        item: bytes::Bytes,
        was: bool,
        tripped: bool,
        result: Result<Vec<bytes::Bytes>, core::convert::Infallible>,
    ) -> bool {
        &&& result matches Ok(buffer) && buffer@ == state@.push(item)
        &&& tripped == was
    }

    fn consume_from_fanout(
        &self,
        state: Vec<bytes::Bytes>,
        item: bytes::Bytes,
        cancellation_token: &mut CancellationToken,
    ) -> (result: Result<Vec<bytes::Bytes>, core::convert::Infallible>) {
        let mut buffer = state;
        buffer.push(item);
        Ok(buffer)
    }

    /// What was kept is the output.
    open spec fn finished(
        &self,
        state: Vec<bytes::Bytes>,
        result: Result<Vec<bytes::Bytes>, core::convert::Infallible>,
    ) -> bool {
        result == Ok::<Vec<bytes::Bytes>, core::convert::Infallible>(state)
    }

    fn finish(&self, state: Vec<bytes::Bytes>) -> (result: Result<
        Vec<bytes::Bytes>,
        core::convert::Infallible,
    >) {
        Ok(state)
    }
}

} // verus!
