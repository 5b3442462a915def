//! A single-producer single-consumer circular buffer that always hands the producer a
//! contiguous region to write into ("bip buffer").
//!
//! This crate holds the coordination logic of the buffer: the two sides exchange three
//! indices (`read`, `write`, `last`) through atomics, and each side keeps a private copy of
//! the indices it owns. Every decision that either side takes is stated by the spec
//! functions of `spec`. `protocol` models the two sides running against each other, one
//! atomic step at a time, and `laws` proves, over every interleaving of those steps, that the
//! producer never writes where the consumer may read and that the consumer receives exactly
//! what the producer sent, in order; and that a request waits only until the consumer has
//! read the data. For that last promise the producer starts over at the beginning of the
//! buffer once the consumer has read everything and a request fits nowhere else
//! (`spec::restart_needed`), and the consumer publishes its read position when it starts
//! over at the wrap-around point.
//!
//! What ties the model to the code: each side records, in a ghost trace, every load and
//! store of a shared index that it makes (only the two functions that make them,
//! `load_index` and `store_index`, extend it), and the contract of each call states its new
//! state by the same spec functions that the model's steps use, and its accesses, with their
//! values and memory orderings, as `reserve_accesses`, `send_accesses`, `valid_accesses`
//! and `consume_accesses`; `laws` proves that the model's steps make exactly these accesses. What is not proven is
//! the model's premise that the accesses of the two sides form one global order in which
//! each load returns the value that the last store left; the code stores the wrap-around
//! point with relaxed ordering, ahead of the release store of the write position, which the
//! consumer loads with acquire ordering before it loads that point.
//!
//! The element storage is carried along as an opaque value of type `S`, so that the caller
//! decides how elements are stored and accessed.

mod external;
pub mod laws;
pub mod protocol;
pub mod reader;
pub mod shared;
pub mod spec;
pub mod writer;

pub use reader::BipBufferReader;
pub use shared::bip_buffer_from;
pub use writer::{BipBufferWriter, BipBufferWriterReservation};
