//! The part of the buffer that both sides hold: the storage and the three indices that the
//! sides exchange, and each side's handle on them.

use crate::external::arc_clone;
use crate::reader::BipBufferReader;
use crate::spec::{Access, MemoryOrder, ReaderState, WriterState};
use crate::writer::BipBufferWriter;
use cache_line_size::CacheAligned;
use core::sync::atomic::{AtomicUsize, Ordering};
use std::sync::Arc;
use vstd::prelude::*;

verus! {

/// The state shared by the two sides: the storage, its length, and the shared indices, at
/// positions `READ` (published by the consumer), `WRITE` and `LAST` (the point where the
/// producer wrapped around; both published by the producer).
pub(crate) struct BipBuffer<S> {
    pub(crate) storage: S,
    pub(crate) len: usize,
    pub(crate) indices: [CacheAligned<AtomicUsize>; 3],
}

/// One side's handle on the shared state, with the record of every load and store of a
/// shared index that this side made through it, in order.
pub(crate) struct Endpoint<S> {
    pub(crate) buffer: Arc<BipBuffer<S>>,
    pub(crate) trace: Ghost<Seq<Access>>,
}

/// The ordering `o`, as this crate names it.
pub open spec fn memory_order(o: Ordering) -> MemoryOrder {
    if o is Relaxed {
        MemoryOrder::Relaxed
    } else if o is Release {
        MemoryOrder::Release
    } else if o is Acquire {
        MemoryOrder::Acquire
    } else if o is AcqRel {
        MemoryOrder::AcqRel
    } else {
        MemoryOrder::SeqCst
    }
}

/// `AtomicUsize::load` of the shared index at position `index`, with ordering `order`. The
/// load is recorded, with the value that it returned and its ordering, at the end of the endpoint's record;
/// nothing else changes. The value itself depends on the other side and is left open. It does
/// not panic: the index is in range and the ordering is one that a load takes.
#[verifier::external_body]
pub(crate) fn load_index<S>(end: &mut Endpoint<S>, index: usize, order: Ordering) -> (v: usize)
    requires
        index < 3,
        !(order is Release),
        !(order is AcqRel),
    ensures
        final(end).buffer == old(end).buffer,
        final(end).trace@ == old(end).trace@.push(Access::Load(index, v, memory_order(order))),
    no_unwind
{
    end.buffer.indices[index].0.load(order)
}

/// `AtomicUsize::store` of `v` into the shared index at position `index`, with ordering
/// `order`. The store is recorded, with its ordering, at the end of the endpoint's record; nothing else changes.
/// It does not panic: the index is in range and the ordering is one that a store takes.
#[verifier::external_body]
pub(crate) fn store_index<S>(end: &mut Endpoint<S>, index: usize, v: usize, order: Ordering)
    requires
        index < 3,
        !(order is Acquire),
        !(order is AcqRel),
    ensures
        final(end).buffer == old(end).buffer,
        final(end).trace@ == old(end).trace@.push(Access::Store(index, v, memory_order(order))),
    no_unwind
{
    end.buffer.indices[index].0.store(v, order)
}

/// Creates the producer and consumer sides of a buffer of `len` elements kept in `storage`.
///
/// Both sides start at position 0 with nothing to read and with no access made yet; each
/// holds the storage, which `try_unwrap` gives back once the other side is gone. `len` is
/// taken as the number of elements that `storage` holds: the storage is opaque here, so the
/// two are not compared.
pub fn bip_buffer_from<S>(storage: S, len: usize) -> (sides: (BipBufferWriter<S>, BipBufferReader<S>))
    ensures
        sides.0@ == (WriterState { write: 0, last: len, capacity: len }),
        sides.1@ == (ReaderState { read: 0, priv_write: 0, priv_last: len, capacity: len }),
        sides.0.trace() == Seq::<Access>::empty(),
        sides.1.trace() == Seq::<Access>::empty(),
        sides.0.storage_view() == storage,
        sides.1.storage_view() == storage,
{
    let buffer = Arc::new(
        BipBuffer {
            storage,
            len,
            indices: [
                CacheAligned::new(AtomicUsize::new(0)),
                CacheAligned::new(AtomicUsize::new(0)),
                CacheAligned::new(AtomicUsize::new(0)),
            ],
        },
    );
    let writer_buffer = arc_clone(&buffer);
    (BipBufferWriter::new(writer_buffer), BipBufferReader::new(buffer))
}

} // verus!
