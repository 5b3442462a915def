# spsc_bip_buffer

A single-producer single-consumer circular buffer that always hands the producer a
contiguous region to write into ("bip buffer"), lock-free, coordinated through three atomic
indices.

- `src/` is the verified library (Verus): the producer side (`writer.rs`), the consumer side
  (`reader.rs`), the state they share (`shared.rs`), the spec functions that state every
  decision of either side (`spec.rs`), a model of the two sides running against each other one
  atomic step at a time (`protocol.rs`), and the proofs over that model (`laws.rs`): the
  producer never writes where the consumer may read, and the consumer receives exactly what
  the producer sent, in order, and a request waits only until the consumer has read the data
  (once everything is read and a request fits nowhere else, the producer starts over at the
  beginning of the buffer and the consumer follows it there). `external.rs` declares what comes from outside the crate.
  Each side records, in a ghost trace, every load and store of a shared index that it
  makes, with its value; the contracts state these accesses and `laws.rs` proves that the
  model's steps make the same ones. The model takes all accesses in one global order, which
  is not proven of the atomics.
- `app/` holds the thread-safe handles that turn the library's regions into slices of a shared
  storage through a raw pointer, as the `Deref`/`Drop` based API of the original crate does.
- `tests/` drives both sides in one thread, in seeded interleavings.
