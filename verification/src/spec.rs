//! The mathematical model of each side of the buffer and of every decision it takes.

use vstd::prelude::*;

verus! {

/// What the producer side knows: its write position, the highest write position it has
/// published (`last`), and the length of the buffer.
pub struct WriterState {
    pub write: usize,
    pub last: usize,
    pub capacity: usize,
}

/// What the consumer side knows: its read position, the producer's write position and
/// wrap-around point as it last observed them, and the length of the buffer.
pub struct ReaderState {
    pub read: usize,
    pub priv_write: usize,
    pub priv_last: usize,
    pub capacity: usize,
}

/// A region `[start, start + len)` handed to the producer; `wraparound` says that the region
/// starts over at the beginning of the buffer, leaving the tail of the buffer unused.
pub struct ReservationView {
    pub start: usize,
    pub len: usize,
    pub wraparound: bool,
}

/// The position in the shared indices of the read position, published by the consumer.
pub const READ: usize = 0;

/// The position in the shared indices of the write position, published by the producer.
pub const WRITE: usize = 1;

/// The position in the shared indices of the wrap-around point, published by the producer.
pub const LAST: usize = 2;

/// The memory ordering of an atomic access, as `core::sync::atomic::Ordering` names them.
pub enum MemoryOrder {
    Relaxed,
    Release,
    Acquire,
    AcqRel,
    SeqCst,
}

/// A store with this ordering makes every earlier write of its thread visible to a thread
/// that loads the stored value with an acquiring ordering.
pub open spec fn releases(o: MemoryOrder) -> bool {
    o is Release || o is AcqRel || o is SeqCst
}

/// A load with this ordering sees every write that happened before a releasing store of the
/// value it loads.
pub open spec fn acquires(o: MemoryOrder) -> bool {
    o is Acquire || o is AcqRel || o is SeqCst
}

/// One access of a side to a shared index: the index (`READ`, `WRITE` or `LAST`), the value
/// loaded from it or stored into it, and the memory ordering of the access.
pub enum Access {
    Load(usize, usize, MemoryOrder),
    Store(usize, usize, MemoryOrder),
}

/// `a - b`, or 0 where `b > a`.
pub open spec fn room(a: int, b: int) -> int {
    if a >= b {
        a - b
    } else {
        0
    }
}

/// Where a reservation of `len` elements goes, given the producer's write position, the
/// consumer's read position as the producer observed it, and the buffer length.
///
/// - If the producer is ahead of (or level with) the consumer, the region goes right after
///   the write position when it fits before the end of the buffer; otherwise it goes at the
///   start of the buffer when it fits strictly before the read position.
/// - If the producer has wrapped around and is behind the consumer, the region goes right
///   after the write position when it fits strictly before the read position.
/// - Otherwise there is no room. In particular a read position observed past the end of the
///   buffer (which the consumer never publishes) leaves no room.
pub open spec fn reservation_decision(write: usize, read: usize, capacity: usize, len: usize) -> Option<
    ReservationView,
> {
    if read > capacity {
        None
    } else if write >= read {
        if room(capacity as int, write as int) >= len {
            Some(ReservationView { start: write, len, wraparound: false })
        } else if room(read as int, 1) >= len {
            Some(ReservationView { start: 0, len, wraparound: true })
        } else {
            None
        }
    } else if room(read - write, 1) >= len {
        Some(ReservationView { start: write, len, wraparound: false })
    } else {
        None
    }
}

/// The empty region that starts over at the beginning of the buffer. Sending it moves the
/// producer to position 0 without handing anything over.
pub open spec fn restart_reservation() -> ReservationView {
    ReservationView { start: 0, len: 0, wraparound: true }
}

/// The consumer has read everything (its read position, as observed, is the producer's write
/// position), the producer is not at the start of the buffer, and `len` elements would fit in
/// the buffer but neither after the write position nor before the read position. Then the
/// producer starts over at the beginning of the buffer, so that the whole buffer becomes free
/// once the consumer follows.
pub open spec fn restart_needed(write: usize, read: usize, capacity: usize, len: usize) -> bool {
    &&& write == read
    &&& write > 0
    &&& len <= capacity
    &&& reservation_decision(write, read, capacity, len) is None
}

/// What `reserve` of `len` elements does when it observes the read position `read`: the
/// reservation it hands out, if any, and the producer's state after. When nothing fits and
/// `restart_needed`, the producer sends `restart_reservation`.
pub open spec fn reserve_outcome(w: WriterState, read: usize, len: usize) -> (
    Option<ReservationView>,
    WriterState,
) {
    match reservation_decision(w.write, read, w.capacity, len) {
        Some(r) => (Some(r), w),
        None => if restart_needed(w.write, read, w.capacity, len) {
            (None, writer_after_send(w, restart_reservation()))
        } else {
            (None, w)
        },
    }
}

/// The write position at which a reservation's region starts, from the producer's side.
pub open spec fn reservation_base(w: WriterState, r: ReservationView) -> int {
    if r.wraparound {
        0
    } else {
        w.write as int
    }
}

/// The producer's state after it hands over a reservation's region to the consumer.
pub open spec fn writer_after_send(w: WriterState, r: ReservationView) -> WriterState {
    let new_write = reservation_base(w, r) + r.len;
    WriterState {
        write: new_write as usize,
        last: if new_write > w.last { new_write as usize } else { w.last },
        capacity: w.capacity,
    }
}

/// The region of the buffer that the consumer may read: from its read position up to the
/// write position it observed, or, once the producer has wrapped around, up to the
/// wrap-around point it observed.
pub open spec fn readable_range(s: ReaderState) -> (usize, usize) {
    if s.priv_write >= s.read {
        (s.read, s.priv_write)
    } else {
        (s.read, s.priv_last)
    }
}

/// The consumer after it observes the producer's write position `write`.
pub open spec fn reader_observe_write(s: ReaderState, write: usize) -> ReaderState {
    ReaderState { priv_write: write, ..s }
}

/// The consumer after it observes the producer's wrap-around point `last`: when it has read
/// everything up to that point, it starts over at the beginning of the buffer (and publishes
/// that read position).
pub open spec fn reader_observe_last(s: ReaderState, last: usize) -> ReaderState {
    if s.read == last {
        ReaderState { priv_last: last, read: 0, ..s }
    } else {
        ReaderState { priv_last: last, ..s }
    }
}

/// The outcomes of one call of `valid`, given the values that its loads return: the write
/// position, then (when the consumer is ahead of it) the wrap-around point, then (when the
/// consumer starts over) the write position again.
pub open spec fn valid_outcome(s: ReaderState, write1: usize, last: usize, write2: usize) -> ReaderState {
    let s1 = reader_observe_write(s, write1);
    if write1 >= s.read {
        s1
    } else {
        let s2 = reader_observe_last(s1, last);
        if s.read == last {
            reader_observe_write(s2, write2)
        } else {
            s2
        }
    }
}

/// The consumer's state is one that `consume` can work on: once the producer has wrapped
/// around, the wrap-around point it observed is not behind its read position.
pub open spec fn reader_consistent(s: ReaderState) -> bool {
    s.priv_write < s.read ==> s.read <= s.priv_last
}

/// The result of consuming `len` elements: whether they were there to consume, and the
/// consumer's state after. Reaching the wrap-around point exactly starts over at the
/// beginning of the buffer, with nothing readable until the next `valid`.
pub open spec fn consume_outcome(s: ReaderState, len: usize) -> (ReaderState, bool) {
    if s.priv_write >= s.read {
        if len <= s.priv_write - s.read {
            (ReaderState { read: (s.read + len) as usize, ..s }, true)
        } else {
            (s, false)
        }
    } else {
        let remaining = s.priv_last - s.read;
        if len == remaining {
            (ReaderState { read: 0, priv_write: 0, ..s }, true)
        } else if len <= remaining {
            (ReaderState { read: (s.read + len) as usize, ..s }, true)
        } else {
            (s, false)
        }
    }
}

} // verus!

verus! {

/// The stores that `send` of `r` makes, in order: the wrap-around point (the old write
/// position) when `r` starts over, the wrap-around point again in the case where the new
/// write position passes the highest one published, and the new write position.
pub open spec fn send_accesses(w: WriterState, r: ReservationView) -> Seq<Access> {
    let new_write = reservation_base(w, r) + r.len;
    let wrap = if r.wraparound {
        seq![Access::Store(LAST, w.write, MemoryOrder::Relaxed)]
    } else {
        Seq::empty()
    };
    let raise = if new_write > w.last {
        seq![Access::Store(LAST, new_write as usize, MemoryOrder::Relaxed)]
    } else {
        Seq::empty()
    };
    wrap + raise + seq![Access::Store(WRITE, new_write as usize, MemoryOrder::Release)]
}

/// The accesses of `reserve` of `len` elements that loads `read`: that load, then the stores
/// of `send` of `restart_reservation` when it starts over.
pub open spec fn reserve_accesses(w: WriterState, read: usize, len: usize) -> Seq<Access> {
    seq![Access::Load(READ, read, MemoryOrder::Acquire)] + if reservation_decision(w.write, read, w.capacity, len) is None
        && restart_needed(w.write, read, w.capacity, len) {
        send_accesses(w, restart_reservation())
    } else {
        Seq::empty()
    }
}

/// The accesses of `valid` whose loads return `write1`, `last` and `write2`: the load of the
/// write position; when the consumer is ahead of it, the load of the wrap-around point; and
/// when the consumer starts over, the store of its read position 0 and a second load of the
/// write position.
pub open spec fn valid_accesses(s: ReaderState, write1: usize, last: usize, write2: usize) -> Seq<
    Access,
> {
    seq![Access::Load(WRITE, write1, MemoryOrder::Acquire)] + if write1 >= s.read {
        Seq::empty()
    } else {
        seq![Access::Load(LAST, last, MemoryOrder::Relaxed)] + if s.read == last {
            seq![
                Access::Store(READ, 0, MemoryOrder::Release),
                Access::Load(WRITE, write2, MemoryOrder::Acquire),
            ]
        } else {
            Seq::empty()
        }
    }
}

/// The accesses of `consume` of `len` elements: the store of the new read position when it
/// succeeds, nothing otherwise.
pub open spec fn consume_accesses(s: ReaderState, len: usize) -> Seq<Access> {
    let (t, ok) = consume_outcome(s, len);
    if ok {
        seq![Access::Store(READ, t.read, MemoryOrder::Release)]
    } else {
        Seq::empty()
    }
}

/// The consumer's state lies within the buffer and is one that `consume` can work on.
pub open spec fn reader_wf(s: ReaderState) -> bool {
    &&& s.read <= s.capacity
    &&& s.priv_write <= s.capacity
    &&& s.priv_last <= s.capacity
    &&& reader_consistent(s)
}

/// The values that the loads of `valid` return lie within the buffer, and a wrap-around point
/// loaded is not behind the read position (as the producer always publishes them).
pub open spec fn valid_loads_fit(s: ReaderState, write1: usize, last: usize, write2: usize) -> bool {
    &&& write1 <= s.capacity
    &&& write1 < s.read ==> {
        &&& s.read <= last <= s.capacity
        &&& s.read == last ==> write2 <= s.capacity
    }
}

} // verus!
