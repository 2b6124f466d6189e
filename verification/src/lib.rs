//! A fan-out broadcast pipeline with cooperative cancellation and retry.
//!
//! One source pushes a run of items; any number of consumers each see every
//! item, in order; any of them can abort the broadcast for all; and an attempt
//! that failed can be made again, with the members that succeeded left out.
//!
//! Nothing here runs side by side. What would wait in a concurrent program is
//! an outcome of its own here: a broadcast that finds a full queue is
//! blocked, a receiver that finds an empty one has an item pending. A running
//! attempt lets its consumers run when the source has to wait for room, and
//! at the end of the stream. Waiting for the network or for the clock is left
//! to what implements the traits: [`fanout::source::FanoutSource`],
//! [`fanout::consumer::FanoutConsumer`], [`channel::sender::Sender`],
//! [`channel::receiver::Receiver`] and [`fanout::retry::Sleep`].
//!
//! - [`broadcaster`]: the broadcaster over bounded queues, its model as a
//!   state machine, and the laws of ordering, delivery and cancellation.
//! - [`channel`]: the ends of a transport, as the egress side and streams
//!   use them, and the pair that carries nothing.
//! - [`fanout`]: consumers and groups of them, one attempt and its driver,
//!   the egress side, and the driver of a batch of attempts with retries.
//! - [`download_fanout`]: the attempt in which every consumer has to
//!   succeed, with errors that carry their tag.
//! - [`consumers`], [`sources`], [`error`], [`chunks`]: ready-made parts
//!   for chunks of bytes.
//! - [`serializer`]: which items of a stream are written out under a name.

pub mod broadcaster;
pub mod channel;
pub mod chunks;
pub mod consumers;
pub mod download_fanout;
pub mod error;
pub mod fanout;
pub mod serializer;
pub mod sources;
