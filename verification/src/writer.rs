//! The producer side.

use crate::external::arc_try_unwrap;
use crate::shared::{load_index, store_index, BipBuffer, Endpoint};
use crate::spec::{
    reservation_base, reservation_decision, reserve_accesses, reserve_outcome, send_accesses,
    writer_after_send, Access, ReservationView, WriterState, LAST, READ, WRITE,
};
use core::sync::atomic::Ordering;
use std::sync::Arc;
use vstd::prelude::*;

verus! {

/// The send side of the buffer. It is the only one that publishes the write position and
/// the wrap-around point.
pub struct BipBufferWriter<S> {
    end: Endpoint<S>,
    write: usize,
    last: usize,
}

/// A region of the buffer handed to the producer by `reserve`. Handing it over with `send`
/// makes its content available to the consumer.
pub struct BipBufferWriterReservation {
    start: usize,
    len: usize,
    wraparound: bool,
}

impl<S> View for BipBufferWriter<S> {
    type V = WriterState;

    closed spec fn view(&self) -> WriterState {
        WriterState { write: self.write, last: self.last, capacity: self.end.buffer.len }
    }
}

impl View for BipBufferWriterReservation {
    type V = ReservationView;

    closed spec fn view(&self) -> ReservationView {
        ReservationView { start: self.start, len: self.len, wraparound: self.wraparound }
    }
}

/// The view of an optional reservation.
pub open spec fn reservation_view(r: Option<BipBufferWriterReservation>) -> Option<ReservationView> {
    match r {
        Some(x) => Some(x@),
        None => None,
    }
}

impl<S> BipBufferWriter<S> {
    /// The write position lies within the buffer, and the highest write position published
    /// is the end of the buffer.
    #[verifier::type_invariant]
    spec fn wf(self) -> bool {
        &&& self.write <= self.end.buffer.len
        &&& self.last == self.end.buffer.len
    }

    /// The storage that the buffer was created with.
    pub closed spec fn storage_view(&self) -> S {
        self.end.buffer.storage
    }

    /// Every load and store of a shared index that this side made, in order.
    pub closed spec fn trace(&self) -> Seq<Access> {
        self.end.trace@
    }

    pub(crate) fn new(buffer: Arc<BipBuffer<S>>) -> (w: Self)
        ensures
            w@ == (WriterState { write: 0, last: buffer.len, capacity: buffer.len }),
            w.storage_view() == buffer.storage,
            w.trace() == Seq::<Access>::empty(),
    {
        let last = buffer.len;
        BipBufferWriter { end: Endpoint { buffer, trace: Ghost(Seq::empty()) }, write: 0, last }
    }

    /// The number of elements that the buffer holds.
    pub fn capacity(&self) -> (n: usize)
        ensures
            n == self@.capacity,
    {
        self.end.buffer.len
    }

    /// The storage that the buffer was created with.
    pub fn storage(&self) -> (s: &S)
        ensures
            *s == self.storage_view(),
    {
        &self.end.buffer.storage
    }

    /// Where a reservation of `len` elements goes when the consumer's read position is `read`:
    /// exactly `reservation_decision`. A region handed out lies within the buffer.
    pub fn reservation_for(&self, len: usize, read: usize) -> (r: Option<BipBufferWriterReservation>)
        ensures
            reservation_view(r) == reservation_decision(self@.write, read, self@.capacity, len),
            r matches Some(x) ==> x@.start + x@.len <= self@.capacity,
    {
        proof {
            use_type_invariant(self);
        }
        let capacity = self.end.buffer.len;
        if read > capacity {
            None
        } else if self.write >= read {
            if capacity.saturating_sub(self.write) >= len {
                Some(BipBufferWriterReservation { start: self.write, len, wraparound: false })
            } else if read.saturating_sub(1) >= len {
                Some(BipBufferWriterReservation { start: 0, len, wraparound: true })
            } else {
                None
            }
        } else {
            if (read - self.write).saturating_sub(1) >= len {
                Some(BipBufferWriterReservation { start: self.write, len, wraparound: false })
            } else {
                None
            }
        }
    }

    /// Attempts to reserve `len` contiguous elements. This loads the consumer's read position
    /// from the shared index `READ`, which the other thread publishes: whatever value the load
    /// returns, the result is `reserve_outcome` for that value and the accesses made are
    /// `reserve_accesses`. `None` means that the read position, as observed, leaves no room
    /// for `len` contiguous elements; when the consumer has read everything, the producer then
    /// starts over at the beginning of the buffer (`restart_needed`), so that the request fits
    /// once the consumer follows. A region handed out lies within the buffer.
    pub fn reserve(&mut self, len: usize) -> (r: Option<BipBufferWriterReservation>)
        requires
            len > 0,
        ensures
            final(self).storage_view() == old(self).storage_view(),
            exists|read: usize|
                #![trigger reserve_outcome(old(self)@, read, len)]
                {
                    &&& (reservation_view(r), final(self)@) == reserve_outcome(old(self)@, read, len)
                    &&& final(self).trace() == old(self).trace() + reserve_accesses(
                        old(self)@,
                        read,
                        len,
                    )
                },
            r matches Some(x) ==> {
                &&& x@.len == len
                &&& x@.start + x@.len <= old(self)@.capacity
                &&& final(self)@ == old(self)@
            },
    {
        proof {
            use_type_invariant(&*self);
        }
        let ghost before = self.trace();
        let read = load_index(&mut self.end, READ, Ordering::Acquire);
        let r = self.reserve_observed(len, read);
        assert(self.trace() =~= before + reserve_accesses(old(self)@, read, len));
        r
    }

    /// `reserve` once the read position `read` is loaded: exactly `reserve_outcome`.
    fn reserve_observed(&mut self, len: usize, read: usize) -> (r: Option<
        BipBufferWriterReservation,
    >)
        ensures
            final(self).storage_view() == old(self).storage_view(),
            (reservation_view(r), final(self)@) == reserve_outcome(old(self)@, read, len),
            final(self).trace() == old(self).trace() + reserve_accesses(old(self)@, read, len).skip(
                1,
            ),
            r matches Some(x) ==> x@.start + x@.len <= old(self)@.capacity,
    {
        proof {
            use_type_invariant(&*self);
        }
        let ghost before = self.trace();
        let r = self.reservation_for(len, read);
        if r.is_none() && self.write == read && self.write > 0 && len <= self.end.buffer.len {
            // Everything was read, and the request fits nowhere: start over at the beginning.
            let restart = BipBufferWriterReservation { start: 0, len: 0, wraparound: true };
            restart.publish(self);
        }
        assert(self.trace() =~= before + reserve_accesses(old(self)@, read, len).skip(1));
        r
    }

    /// Attempts to take the storage back. This succeeds only when the consumer side is gone;
    /// otherwise the writer is handed back unchanged.
    pub fn try_unwrap(self) -> (r: Result<S, Self>)
        ensures
            match r {
                Ok(s) => s == self.storage_view(),
                Err(w) => w@ == self@ && w.storage_view() == self.storage_view() && w.trace()
                    == self.trace(),
            },
    {
        proof {
            use_type_invariant(&self);
        }
        let BipBufferWriter { end, write, last } = self;
        let Endpoint { buffer, trace } = end;
        match arc_try_unwrap(buffer) {
            Ok(b) => Ok(b.storage),
            Err(buffer) => Err(BipBufferWriter { end: Endpoint { buffer, trace }, write, last }),
        }
    }
}

impl BipBufferWriterReservation {
    /// The first position of the region.
    pub fn start(&self) -> (n: usize)
        ensures
            n == self@.start,
    {
        self.start
    }

    /// The number of elements in the region.
    pub fn len(&self) -> (n: usize)
        ensures
            n == self@.len,
    {
        self.len
    }

    /// Whether the region starts over at the beginning of the buffer.
    pub fn is_wraparound(&self) -> (b: bool)
        ensures
            b == self@.wraparound,
    {
        self.wraparound
    }

    /// Marks the end of the write: publishes the region to the consumer. When the region
    /// starts over at the beginning of the buffer, the old write position is published first
    /// as the wrap-around point (shared index `LAST`); then the new write position is
    /// published (shared index `WRITE`): the stores are exactly `send_accesses`.
    ///
    /// The reservation must be one that `reserve` of this writer handed out in its current
    /// state (the borrow that the handles in front of this library hold makes sure of it).
    pub fn send<S>(self, writer: &mut BipBufferWriter<S>)
        requires
            exists|read: usize|
                #[trigger] reservation_decision(
                    old(writer)@.write,
                    read,
                    old(writer)@.capacity,
                    self@.len,
                ) == Some(self@),
        ensures
            final(writer)@ == writer_after_send(old(writer)@, self@),
            final(writer).storage_view() == old(writer).storage_view(),
            final(writer).trace() == old(writer).trace() + send_accesses(old(writer)@, self@),
    {
        proof {
            use_type_invariant(&*writer);
        }
        self.publish(writer)
    }

    /// The stores of `send`, for any region that ends within the buffer.
    fn publish<S>(self, writer: &mut BipBufferWriter<S>)
        requires
            reservation_base(old(writer)@, self@) + self@.len <= old(writer)@.capacity,
        ensures
            final(writer)@ == writer_after_send(old(writer)@, self@),
            final(writer).storage_view() == old(writer).storage_view(),
            final(writer).trace() == old(writer).trace() + send_accesses(old(writer)@, self@),
    {
        proof {
            use_type_invariant(&*writer);
        }
        let ghost before = writer.trace();
        if self.wraparound {
            store_index(&mut writer.end, LAST, writer.write, Ordering::Relaxed);
            writer.write = 0;
        }
        writer.write = writer.write + self.len;
        if writer.write > writer.last {
            writer.last = writer.write;
            store_index(&mut writer.end, LAST, writer.last, Ordering::Relaxed);
        }
        store_index(&mut writer.end, WRITE, writer.write, Ordering::Release);
        assert(writer.trace() =~= before + send_accesses(old(writer)@, self@));
    }
}

} // verus!
