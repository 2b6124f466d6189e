//! A stream that is to be written out as a sequence under a name.
//!
//! What is here decides which items are written. The writing itself is done
//! with whatever serializer the caller has.

use crate::channel::receiver::Receiver;
use vstd::prelude::*;

verus! {

/// A stream, the name under which it is to be written, and perhaps the number
/// of items to write.
pub struct StreamToSerialize<'a, Stream> {
    name: &'a str,
    stream: Stream,
    length: Option<usize>,
    left: Option<usize>,
}

impl<'a, Stream> StreamToSerialize<'a, Stream> {
    /// The name under which the sequence is written.
    pub closed spec fn spec_name(&self) -> &'a str {
        self.name
    }

    /// The stream that the items are taken from.
    pub closed spec fn stream(&self) -> Stream {
        self.stream
    }

    /// The length that the sequence is announced with.
    pub closed spec fn spec_length(&self) -> Option<usize> {
        self.length
    }

    /// The most items that are still written; `None` where there is no limit.
    pub closed spec fn left(&self) -> Option<usize> {
        self.left
    }

    /// The whole of `stream`, to be written under `name`.
    pub fn new(name: &'a str, stream: Stream) -> (to_serialize: Self)
        ensures
            to_serialize.spec_name() == name,
            to_serialize.stream() == stream,
            to_serialize.spec_length() == None::<usize>,
            to_serialize.left() == None::<usize>,
    {
        StreamToSerialize { name, stream, length: None, left: None }
    }

    /// The first `length` items of `stream`, to be written under `name`. The
    /// first item is written even where `length` is 0: whether enough was
    /// written is asked after each item.
    pub fn new_with_length(name: &'a str, stream: Stream, length: usize) -> (to_serialize: Self)
        ensures
            to_serialize.spec_name() == name,
            to_serialize.stream() == stream,
            to_serialize.spec_length() == Some(length),
            to_serialize.left() == Some(if length == 0 {
                1usize
            } else {
                length
            }),
    {
        let left: usize = if length == 0 {
            1
        } else {
            length
        };
        StreamToSerialize { name, stream, length: Some(length), left: Some(left) }
    }

    /// The name under which the sequence is written.
    #[verifier::when_used_as_spec(spec_name)]
    pub fn name(&self) -> (name: &'a str)
        ensures
            name == self.spec_name(),
    {
        self.name
    }

    /// The length that the sequence is announced with.
    #[verifier::when_used_as_spec(spec_length)]
    pub fn length(&self) -> (length: Option<usize>)
        ensures
            length == self.spec_length(),
    {
        self.length
    }
}

/// The items that are written out are themselves a stream: those of the
/// stream underneath, up to the number that is left.
impl<'a, Stream: Receiver> Receiver for StreamToSerialize<'a, Stream> {
    type Item = Stream::Item;

    open spec fn pending(&self) -> Seq<Stream::Item> {
        match self.left() {
            None => self.stream().pending(),
            Some(left) => if left <= self.stream().pending().len() {
                self.stream().pending().take(left as int)
            } else {
                self.stream().pending()
            },
        }
    }

    fn recv(&mut self) -> (item: Option<Stream::Item>) {
        match self.left {
            Some(left) => {
                if left == 0 {
                    return None;
                }
                match self.stream.recv() {
                    Some(item) => {
                        self.left = Some(left - 1);
                        proof {
                            let before = old(self).stream().pending();
                            if left <= before.len() {
                                assert(before.drop_first().take(left - 1) =~= before.take(
                                    left as int,
                                ).drop_first());
                            }
                        }
                        Some(item)
                    },
                    None => None,
                }
            },
            None => self.stream.recv(),
        }
    }
}

} // verus!
