//! Chunks of bytes: what is known here of `bytes::Bytes`.
//!
//! Nothing in this file is proved. It states, for the few operations that the
//! library uses, what the `bytes` crate documents.

use vstd::prelude::*;

verus! {

/// `bytes::Bytes`, a chunk of contiguous memory. Nothing of its making is
/// looked into.
#[verifier::external_type_specification]
#[verifier::external_body]
pub struct ExBytes(bytes::Bytes);

/// The bytes that a chunk holds, in order.
pub uninterp spec fn contents(chunk: bytes::Bytes) -> Seq<u8>;

/// `Bytes::len` gives the number of bytes that the chunk holds.
pub assume_specification[ bytes::Bytes::len ](chunk: &bytes::Bytes) -> (len: usize)
    ensures
        len == contents(*chunk).len(),
;

/// `Bytes::clone` gives a chunk that holds the same bytes: the two refer to
/// the same memory.
pub assume_specification[ <bytes::Bytes as Clone>::clone ](chunk: &bytes::Bytes) -> (copy:
    bytes::Bytes)
    ensures
        contents(copy) == contents(*chunk),
;

/// The number of bytes in all of `chunks`.
pub open spec fn total_len(chunks: Seq<bytes::Bytes>) -> nat
    decreases chunks.len(),
{
    if chunks.len() == 0 {
        0
    } else {
        total_len(chunks.drop_last()) + contents(chunks.last()).len()
    }
}

} // verus!
