//! A ring-buffer message-passing engine: producers claim and publish
//! sequences, consumers follow them through barriers, group after group.
//!
//! Producers write events into the slots of a ring ([`ringbuffer`]) under
//! sequences that a sequencer hands out ([`sequencer`], [`producer`]).
//! Consumers ([`consumer`]) see every event, in the order of the sequences,
//! once the cursors that they wait on ([`barrier`], [`strategy`]) have
//! passed it. Cursors are shared counters ([`sequence`]); a sequencer for
//! many producers keeps a map of what is published ([`bitmap`]). A
//! pipeline is set up step by step ([`builder`], [`dsl`]) and run by an
//! executor ([`executor`]).
//!
//! Nothing here waits in a loop: a claim, a write, a round of waiting and a
//! turn of a consumer either settle at once or say that they could not, and
//! the caller comes back. What the interplay of these steps guarantees,
//! whatever the threads do, is stated and proved in [`protocol`], and what
//! the slots of the ring then hold in [`contents`].

pub mod barrier;
pub mod bitmap;
pub mod builder;
pub mod consumer;
pub mod contents;
pub mod dsl;
pub mod executor;
pub mod producer;
pub mod protocol;
pub mod ringbuffer;
pub mod sequence;
pub mod sequencer;
pub mod strategy;

pub use crate::builder::Disrustor;
pub use crate::dsl::DisrustorBuilder;
pub use crate::sequence::SequenceGuard;
