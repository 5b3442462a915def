//! The two sides of the buffer running against each other.
//!
//! A `System` is the whole buffer at one instant: the three shared indices, each side's state
//! and where it stands in its current call, the content of the storage, and (as a model) the
//! queue of elements sent and not yet consumed. A `Step` is one atomic action of one side:
//! every load or store of a shared index is a step of its own, and so is each write of an
//! element into a reservation. Each step changes the sides' states by the same spec functions
//! that the contracts of `reserve`, `send`, `valid` and `consume` state.
//!
//! Each step loads and stores shared indices (`step_accesses`): the same accesses, with the
//! same values, that the contracts of `reserve`, `send`, `valid` and `consume` record in
//! each side's trace (see `laws`). In the model a load returns the value that the last store
//! left (`replay`): the accesses of both sides form one global order.
//!
//! `inv` holds initially and after every step; from it follow the properties that the buffer
//! is for (`laws`).

use crate::spec::{
    consume_accesses, consume_outcome, readable_range, reader_consistent, reader_observe_last, reader_observe_write,
    reservation_base, reservation_decision, restart_needed, restart_reservation, room, writer_after_send, ReaderState, ReservationView,
    WriterState, Access, MemoryOrder, LAST, READ, WRITE,
};
use vstd::prelude::*;

verus! {

/// Where the producer stands: between calls, holding a reservation, or inside `send` after it
/// published the wrap-around point and before it publishes the write position.
pub enum WriterPhase {
    Idle,
    Reserved(ReservationView),
    Wrapped(ReservationView),
}

/// Where the consumer stands: between calls, inside `valid` waiting to load the wrap-around
/// point, or inside `valid` after it started over at the beginning of the buffer.
pub enum ReaderPhase {
    Idle,
    AwaitingLast,
    Restarting,
}

/// The whole buffer at one instant.
pub struct System<T> {
    /// The shared read position (published by the consumer).
    pub read: usize,
    /// The shared write position (published by the producer).
    pub write: usize,
    /// The shared wrap-around point (published by the producer).
    pub last: usize,
    pub writer: WriterState,
    pub writer_phase: WriterPhase,
    pub reader: ReaderState,
    pub reader_phase: ReaderPhase,
    /// The content of the storage.
    pub data: Seq<T>,
    /// The elements sent and not yet consumed, oldest first.
    pub queue: Seq<T>,
    /// Every element sent so far, in the order sent.
    pub sent: Seq<T>,
    /// Every element consumed so far, in the order consumed.
    pub consumed: Seq<T>,
    /// Each reservation sent so far, in the order sent: where its elements start in `sent`,
    /// and how many there are.
    pub messages: Seq<(nat, nat)>,
}

/// One atomic action of one side.
pub enum Step<T> {
    /// The producer loads the read position and decides on a reservation of this length; when
    /// `restart_needed`, it takes `restart_reservation`, which its next two steps send (both
    /// within the same call of `reserve`).
    Reserve(usize),
    /// The producer writes an element into its reservation.
    Write(int, T),
    /// `send` of a reservation that wraps around: the producer publishes the wrap-around point.
    SendWrap,
    /// `send`: the producer publishes the new write position.
    SendPublish,
    /// `valid`: the consumer loads the write position.
    LoadWrite,
    /// `valid`: the consumer loads the wrap-around point; when it starts over at the beginning
    /// of the buffer, it publishes its new read position in the same call.
    LoadLast,
    /// `consume` of this many elements, which publishes the new read position on success.
    Consume(usize),
}

/// The positions `a, a + 1, ..., b - 1`.
pub open spec fn positions(a: int, b: int) -> Seq<int> {
    Seq::new(room(b, a) as nat, |i: int| a + i)
}

/// The positions that hold elements sent and not consumed, oldest first: from the read
/// position to the write position, or, once the producer has wrapped around (its write
/// position is behind the read position), from the read position to the wrap-around point and
/// then from the start of the buffer to the write position.
pub open spec fn live_positions(read: int, write: int, last: int) -> Seq<int> {
    if write >= read {
        positions(read, write)
    } else {
        positions(read, last) + positions(0, write)
    }
}

/// The shared indices `(read, write, last)` after the accesses, in order, when each load
/// returns the value that the index holds at that point; `None` when a load returns another
/// value.
pub open spec fn replay(indices: (usize, usize, usize), accesses: Seq<Access>) -> Option<
    (usize, usize, usize),
>
    decreases accesses.len(),
{
    if accesses.len() == 0 {
        Some(indices)
    } else {
        let (read, write, last) = indices;
        let current = |i: usize|
            if i == READ {
                read
            } else if i == WRITE {
                write
            } else {
                last
            };
        match accesses[0] {
            Access::Load(i, v, o) => if current(i) == v {
                replay(indices, accesses.skip(1))
            } else {
                None
            },
            Access::Store(i, v, o) => replay(
                if i == READ {
                    (v, write, last)
                } else if i == WRITE {
                    (read, v, last)
                } else {
                    (read, write, v)
                },
                accesses.skip(1),
            ),
        }
    }
}

impl<T> System<T> {
    /// The buffer right after `bip_buffer_from(storage, capacity)`, with `data` in the
    /// storage.
    pub open spec fn initial(capacity: usize, data: Seq<T>) -> Self {
        System {
            read: 0,
            write: 0,
            last: 0,
            writer: WriterState { write: 0, last: capacity, capacity },
            writer_phase: WriterPhase::Idle,
            reader: ReaderState { read: 0, priv_write: 0, priv_last: capacity, capacity },
            reader_phase: ReaderPhase::Idle,
            data,
            queue: Seq::empty(),
            sent: Seq::empty(),
            consumed: Seq::empty(),
            messages: Seq::empty(),
        }
    }

    pub open spec fn capacity(self) -> int {
        self.writer.capacity as int
    }

    pub open spec fn live(self) -> Seq<int> {
        live_positions(self.read as int, self.write as int, self.last as int)
    }

    /// The producer has wrapped around and is behind the consumer.
    pub open spec fn wrapped(self) -> bool {
        self.write < self.read
    }

    /// The reservation that the producer holds, if any.
    pub open spec fn reservation(self) -> Option<ReservationView> {
        match self.writer_phase {
            WriterPhase::Idle => None,
            WriterPhase::Reserved(r) => Some(r),
            WriterPhase::Wrapped(r) => Some(r),
        }
    }

    /// Position `i` lies in the producer's reservation.
    pub open spec fn reserved(self, i: int) -> bool {
        match self.reservation() {
            Some(r) => r.start <= i < r.start + r.len,
            None => false,
        }
    }

    /// The region `[start, end)` that the consumer may read: the result of its last `valid`.
    pub open spec fn held(self) -> (usize, usize) {
        readable_range(self.reader)
    }

    /// Whether a step can be taken: the side is at the point where it takes it, and the
    /// function that takes it is called within its contract.
    pub open spec fn enabled(self, step: Step<T>) -> bool {
        match step {
            Step::Reserve(len) => self.writer_phase is Idle && len > 0,
            Step::Write(i, v) => self.writer_phase is Reserved && self.reserved(i),
            Step::SendWrap => match self.writer_phase {
                WriterPhase::Reserved(r) => r.wraparound,
                _ => false,
            },
            Step::SendPublish => match self.writer_phase {
                WriterPhase::Reserved(r) => !r.wraparound,
                WriterPhase::Wrapped(r) => true,
                _ => false,
            },
            Step::LoadWrite => self.reader_phase is Idle || self.reader_phase is Restarting,
            Step::LoadLast => self.reader_phase is AwaitingLast,
            Step::Consume(len) => self.reader_phase is Idle && reader_consistent(self.reader),
        }
    }

    /// The buffer after a step.
    pub open spec fn apply(self, step: Step<T>) -> Self {
        match step {
            Step::Reserve(len) => System {
                writer_phase: match reservation_decision(
                    self.writer.write,
                    self.read,
                    self.writer.capacity,
                    len,
                ) {
                    Some(r) => WriterPhase::Reserved(r),
                    None => if restart_needed(
                        self.writer.write,
                        self.read,
                        self.writer.capacity,
                        len,
                    ) {
                        WriterPhase::Reserved(restart_reservation())
                    } else {
                        WriterPhase::Idle
                    },
                },
                ..self
            },
            Step::Write(i, v) => System { data: self.data.update(i, v), ..self },
            Step::SendWrap => match self.writer_phase {
                WriterPhase::Reserved(r) => System {
                    last: self.writer.write,
                    writer: WriterState { write: 0, ..self.writer },
                    writer_phase: WriterPhase::Wrapped(r),
                    ..self
                },
                _ => self,
            },
            Step::SendPublish => match self.reservation() {
                Some(r) => {
                    let new_write = reservation_base(self.writer, r) + r.len;
                    System {
                        write: new_write as usize,
                        last: if new_write > self.writer.last {
                            new_write as usize
                        } else {
                            self.last
                        },
                        writer: writer_after_send(self.writer, r),
                        writer_phase: WriterPhase::Idle,
                        queue: self.queue + self.data.subrange(r.start as int, r.start + r.len),
                        sent: self.sent + self.data.subrange(r.start as int, r.start + r.len),
                        messages: self.messages.push((self.sent.len(), r.len as nat)),
                        ..self
                    }
                },
                None => self,
            },
            Step::LoadWrite => System {
                reader: reader_observe_write(self.reader, self.write),
                reader_phase: if self.write >= self.reader.read {
                    ReaderPhase::Idle
                } else {
                    ReaderPhase::AwaitingLast
                },
                ..self
            },
            Step::LoadLast => if self.reader.read == self.last {
                System {
                    read: 0,
                    reader: reader_observe_last(self.reader, self.last),
                    reader_phase: ReaderPhase::Restarting,
                    ..self
                }
            } else {
                System {
                    reader: reader_observe_last(self.reader, self.last),
                    reader_phase: ReaderPhase::Idle,
                    ..self
                }
            },
            Step::Consume(len) => {
                let (reader, ok) = consume_outcome(self.reader, len);
                if ok {
                    System {
                        read: reader.read,
                        reader,
                        queue: self.queue.skip(len as int),
                        consumed: self.consumed + self.queue.take(len as int),
                        ..self
                    }
                } else {
                    self
                }
            },
        }
    }

    /// The value of the shared index at position `index`.
    pub open spec fn shared(self, index: usize) -> usize {
        if index == READ {
            self.read
        } else if index == WRITE {
            self.write
        } else {
            self.last
        }
    }

    /// The loads and stores of shared indices that a step makes, in order, with the values
    /// that the loads return and the stores store.
    pub open spec fn step_accesses(self, step: Step<T>) -> Seq<Access> {
        match step {
            Step::Reserve(len) => seq![Access::Load(READ, self.read, MemoryOrder::Acquire)],
            Step::Write(i, v) => Seq::empty(),
            Step::SendWrap => seq![Access::Store(LAST, self.writer.write, MemoryOrder::Relaxed)],
            Step::SendPublish => match self.reservation() {
                Some(r) => {
                    let new_write = reservation_base(self.writer, r) + r.len;
                    let raise = if new_write > self.writer.last {
                        seq![Access::Store(LAST, new_write as usize, MemoryOrder::Relaxed)]
                    } else {
                        Seq::empty()
                    };
                    raise + seq![Access::Store(WRITE, new_write as usize, MemoryOrder::Release)]
                },
                None => Seq::empty(),
            },
            Step::LoadWrite => seq![Access::Load(WRITE, self.write, MemoryOrder::Acquire)],
            Step::LoadLast => seq![Access::Load(LAST, self.last, MemoryOrder::Relaxed)] + if self.reader.read
                == self.last {
                seq![Access::Store(READ, 0, MemoryOrder::Release)]
            } else {
                Seq::empty()
            },
            Step::Consume(len) => consume_accesses(self.reader, len),
        }
    }

    /// The buffer after one call of `valid` whose steps come back to back: `LoadWrite`, then
    /// `LoadLast` when the consumer is ahead of the write position, then `LoadWrite` again
    /// when it starts over.
    pub open spec fn valid_run(self) -> Self {
        let t1 = self.apply(Step::LoadWrite);
        if t1.reader_phase is Idle {
            t1
        } else {
            let t2 = t1.apply(Step::LoadLast);
            if t2.reader_phase is Restarting {
                t2.apply(Step::LoadWrite)
            } else {
                t2
            }
        }
    }

    /// The buffer after the steps, in order.
    pub open spec fn run(self, steps: Seq<Step<T>>) -> Self
        decreases steps.len(),
    {
        if steps.len() == 0 {
            self
        } else {
            self.apply(steps[0]).run(steps.skip(1))
        }
    }

    /// Each of the steps can be taken, in order.
    pub open spec fn can_run(self, steps: Seq<Step<T>>) -> bool
        decreases steps.len(),
    {
        steps.len() == 0 || (self.enabled(steps[0]) && self.apply(steps[0]).can_run(steps.skip(1)))
    }

    /// The producer's state agrees with the shared indices, and its reservation lies where
    /// nothing unconsumed is.
    pub open spec fn writer_inv(self) -> bool {
        match self.writer_phase {
            WriterPhase::Idle => self.writer.write == self.write,
            WriterPhase::Reserved(r) => {
                &&& self.writer.write == self.write
                &&& r.len > 0 || r.wraparound
                &&& if r.wraparound {
                    &&& r.start == 0
                    &&& !self.wrapped()
                    &&& r.len < self.read
                } else {
                    &&& r.start == self.write
                    &&& self.write + r.len <= self.capacity()
                    &&& self.wrapped() ==> self.write + r.len < self.read
                }
            },
            WriterPhase::Wrapped(r) => {
                &&& self.writer.write == 0
                &&& r.wraparound
                &&& r.start == 0
                &&& self.last == self.write
                &&& !self.wrapped()
                &&& r.len < self.read
            },
        }
    }

    /// `(a, b)` is a region of the buffer that holds the oldest unconsumed elements.
    pub open spec fn is_prefix_region(self, a: usize, b: usize) -> bool {
        &&& a <= b
        &&& b - a <= self.live().len()
        &&& forall|i: int| 0 <= i < b - a ==> #[trigger] self.live()[i] == a + i
    }

    /// The consumer's state agrees with the shared indices.
    pub open spec fn reader_inv(self) -> bool {
        &&& self.reader.read == self.read
        &&& self.reader.priv_write <= self.capacity()
        &&& self.reader.priv_last <= self.capacity()
        &&& match self.reader_phase {
            ReaderPhase::Idle => {
                &&& self.is_prefix_region(self.held().0, self.held().1)
                &&& self.reader.priv_write < self.reader.read ==> {
                    &&& self.reader.priv_last == self.last
                    &&& self.reader.read == self.read
                    &&& self.wrapped()
                    &&& self.reader.priv_write <= self.write
                }
            },
            ReaderPhase::AwaitingLast => {
                &&& self.wrapped()
                &&& self.reader.read == self.read
                &&& self.reader.priv_write < self.reader.read
                &&& self.reader.priv_write <= self.write
            },
            ReaderPhase::Restarting => self.reader.read == 0,
        }
    }

    /// The number of elements in the consumer's readable region.
    pub open spec fn held_len(self) -> int {
        self.held().1 - self.held().0
    }

    /// The first `n` elements sent and not consumed sit next to each other in the buffer.
    pub open spec fn front_is_contiguous(self, n: int) -> bool {
        &&& 0 <= n <= self.live().len()
        &&& forall|i: int| 0 <= i < n ==> #[trigger] self.live()[i] == self.live()[0] + i
    }

    /// Each reservation sent and not yet started on by the consumer still sits in one piece
    /// in the buffer.
    pub open spec fn messages_inv(self) -> bool {
        forall|j: int|
            0 <= j < self.messages.len() ==> {
                let (o, n) = #[trigger] self.messages[j];
                &&& o + n <= self.sent.len()
                &&& o >= self.consumed.len() ==> forall|i: int|
                    0 <= i < n ==> #[trigger] self.live()[o - self.consumed.len() + i]
                        == self.live()[o - self.consumed.len()] + i
            }
    }

    /// The invariant of the buffer.
    pub open spec fn inv(self) -> bool {
        &&& self.reader.capacity == self.writer.capacity
        &&& self.writer.last == self.writer.capacity
        &&& self.read <= self.capacity()
        &&& self.write <= self.capacity()
        &&& self.last <= self.capacity()
        &&& self.wrapped() ==> self.read <= self.last
        &&& self.data.len() == self.capacity()
        &&& self.writer_inv()
        &&& self.reader_inv()
        &&& self.sent == self.consumed + self.queue
        &&& self.messages_inv()
        &&& self.queue.len() == self.live().len()
        &&& forall|k: int|
            0 <= k < self.queue.len() ==> #[trigger] self.queue[k] == self.data[self.live()[k]]
    }
}

} // verus!
