//! A source that replays chunks held in memory.

use crate::broadcaster::{Broadcast, Seen};
use crate::chunks::{contents, total_len};
use crate::error::Error;
use crate::fanout::source::FanoutSource;
use vstd::prelude::*;

verus! {

/// Chunks held in memory. They can be pushed any number of times.
pub struct BytesSource(pub Vec<bytes::Bytes>);

impl From<Vec<bytes::Bytes>> for BytesSource {
    /// The source of the chunks `value`, in their order.
    fn from(value: Vec<bytes::Bytes>) -> (source: Self) {
        BytesSource(value)
    }
}

impl vstd::std_specs::convert::FromSpecImpl<Vec<bytes::Bytes>> for BytesSource {
    open spec fn obeys_from_spec() -> bool {
        true
    }

    open spec fn from_spec(value: Vec<bytes::Bytes>) -> Self {
        BytesSource(value)
    }
}

/// Adding a chunk adds its bytes to the total.
pub proof fn lemma_total_len_push(chunks: Seq<bytes::Bytes>, chunk: bytes::Bytes)
    ensures
        total_len(chunks.push(chunk)) == total_len(chunks) + contents(chunk).len(),
{
    assert(chunks.push(chunk).drop_last() =~= chunks);
}

/// The total of a longer run of chunks is no less than that of a shorter one.
pub proof fn lemma_total_len_grows(chunks: Seq<bytes::Bytes>, n: int)
    requires
        0 <= n <= chunks.len(),
    ensures
        total_len(chunks.take(n)) <= total_len(chunks),
    decreases chunks.len() - n,
{
    if n < chunks.len() {
        lemma_total_len_grows(chunks, n + 1);
        assert(chunks.take(n + 1).drop_last() =~= chunks.take(n));
    } else {
        assert(chunks.take(n) =~= chunks);
    }
}

impl FanoutSource for BytesSource {
    type Item = bytes::Bytes;

    type Error = Error;

    /// The number of bytes in all chunks; no size where that number is more
    /// than a `u64` holds. The question leaves the chunks as they are.
    open spec fn asked(self, after: Self, size: Result<Option<u64>, Error>) -> bool {
        &&& after.0 == self.0
        &&& size == Ok::<Option<u64>, Error>(
            if total_len(self.0@) <= u64::MAX {
                Some(total_len(self.0@) as u64)
            } else {
                None
            },
        )
    }

    fn get_content_length(&mut self) -> (size: Result<Option<u64>, Error>) {
        let mut total: u64 = 0;
        let mut i: usize = 0;
        while i < self.0.len()
            invariant
                i <= self.0@.len(),
                self.0 == old(self).0,
                total == total_len(self.0@.take(i as int)),
            decreases self.0@.len() - i,
        {
            let len: u64 = self.0[i].len() as u64;
            proof {
                assert(self.0@.take(i + 1) =~= self.0@.take(i as int).push(self.0@[i as int]));
                lemma_total_len_push(self.0@.take(i as int), self.0@[i as int]);
                lemma_total_len_grows(self.0@, i + 1);
            }
            total = match total.checked_add(len) {
                Some(total) => total,
                None => {
                    return Ok(None);
                },
            };
            i += 1;
        }
        proof {
            assert(self.0@.take(i as int) =~= self.0@);
        }
        Ok(Some(total))
    }

    /// What was delivered is a run of the chunks from the first on: all of
    /// them, unless the broadcast was cancelled. The push never fails and
    /// leaves the chunks as they are.
    open spec fn pushed(
        self,
        after: Self,
        from: Seen<bytes::Bytes>,
        to: Seen<bytes::Bytes>,
        result: Result<(), Error>,
    ) -> bool {
        let n = to.history.len() - from.history.len();
        &&& result is Ok
        &&& after.0 == self.0
        &&& from.history.is_prefix_of(to.history)
        &&& 0 <= n <= self.0@.len()
        &&& forall|i: int|
            0 <= i < n ==> contents(#[trigger] to.history[from.history.len() + i]) == contents(
                self.0@[i],
            )
        &&& !to.cancelled ==> n == self.0@.len()
    }

    /// Pushes a copy of every chunk, in order, whether or not the broadcast
    /// still delivers.
    fn broadcast<B: Broadcast<Item = bytes::Bytes>>(&mut self, broadcaster: &mut B) -> (result: Result<
        (),
        Error,
    >) {
        let ghost history = broadcaster.history();
        let mut i: usize = 0;
        proof {
            broadcaster.lemma_later_reflexive();
        }
        while i < self.0.len()
            invariant
                i <= self.0@.len(),
                self.0 == old(self).0,
                history == old(broadcaster).history(),
                broadcaster.wf(),
                old(broadcaster).later(broadcaster),
                history.is_prefix_of(broadcaster.history()),
                broadcaster.history().len() - history.len() <= i,
                !broadcaster.cancelled() ==> broadcaster.history().len() - history.len() == i,
                forall|k: int|
                    0 <= k < broadcaster.history().len() - history.len() ==> contents(
                        #[trigger] broadcaster.history()[history.len() + k],
                    ) == contents(self.0@[k]),
            decreases self.0@.len() - i,
        {
            let ghost before = *broadcaster;
            let chunk = self.0[i].clone();
            let _ = broadcaster.broadcast(chunk);
            proof {
                old(broadcaster).lemma_later_transitive(&before, broadcaster);
            }
            i += 1;
        }
        Ok(())
    }

    open spec fn reset_spec(self) -> Option<Self> {
        Some(self)
    }

    fn reset(self) -> (source: Option<Self>) {
        Some(self)
    }
}

} // verus!
