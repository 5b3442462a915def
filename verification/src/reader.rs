//! The consumer side.

use crate::external::arc_try_unwrap;
use crate::shared::{load_index, store_index, BipBuffer, Endpoint};
use crate::spec::{
    consume_accesses, consume_outcome, reader_consistent, reader_observe_last,
    reader_observe_write, reader_wf, readable_range, valid_accesses, valid_loads_fit,
    valid_outcome, Access, ReaderState, LAST, READ, WRITE,
};
use core::sync::atomic::Ordering;
use std::sync::Arc;
use vstd::prelude::*;

verus! {

/// The receive side of the buffer. It is the only one that publishes the read position.
pub struct BipBufferReader<S> {
    end: Endpoint<S>,
    read: usize,
    priv_write: usize,
    priv_last: usize,
}

impl<S> View for BipBufferReader<S> {
    type V = ReaderState;

    closed spec fn view(&self) -> ReaderState {
        ReaderState {
            read: self.read,
            priv_write: self.priv_write,
            priv_last: self.priv_last,
            capacity: self.end.buffer.len,
        }
    }
}

impl<S> BipBufferReader<S> {
    /// The storage that the buffer was created with.
    pub closed spec fn storage_view(&self) -> S {
        self.end.buffer.storage
    }

    /// Every load and store of a shared index that this side made, in order.
    pub closed spec fn trace(&self) -> Seq<Access> {
        self.end.trace@
    }

    pub(crate) fn new(buffer: Arc<BipBuffer<S>>) -> (r: Self)
        ensures
            r@ == (ReaderState { read: 0, priv_write: 0, priv_last: buffer.len, capacity: buffer.len }),
            r.storage_view() == buffer.storage,
            r.trace() == Seq::<Access>::empty(),
    {
        let priv_last = buffer.len;
        BipBufferReader {
            end: Endpoint { buffer, trace: Ghost(Seq::empty()) },
            read: 0,
            priv_write: 0,
            priv_last,
        }
    }

    /// The number of elements that the buffer holds.
    pub fn capacity(&self) -> (n: usize)
        ensures
            n == self@.capacity,
    {
        self.end.buffer.len
    }

    /// The storage that the buffer was created with.
    pub fn storage(&self) -> (s: &S)
        ensures
            *s == self.storage_view(),
    {
        &self.end.buffer.storage
    }

    /// Whether `consume` can work on the current state (see `reader_consistent`).
    pub fn is_consistent(&self) -> (b: bool)
        ensures
            b == reader_consistent(self@),
    {
        self.priv_write >= self.read || self.read <= self.priv_last
    }

    /// Records the producer's write position as loaded: exactly `reader_observe_write`.
    /// Returns whether the readable region is settled, i.e. the consumer is not ahead of that
    /// position.
    fn observe_write(&mut self, write: usize) -> (settled: bool)
        ensures
            final(self)@ == reader_observe_write(old(self)@, write),
            settled == (write >= old(self)@.read),
            final(self).end == old(self).end,
    {
        self.priv_write = write;
        self.priv_write >= self.read
    }

    /// Records the producer's wrap-around point as loaded: exactly `reader_observe_last`.
    /// Returns whether the consumer starts over at the beginning of the buffer, having read
    /// everything up to that point.
    fn observe_last(&mut self, last: usize) -> (restart: bool)
        ensures
            final(self)@ == reader_observe_last(old(self)@, last),
            restart == (old(self)@.read == last),
            final(self).end == old(self).end,
    {
        self.priv_last = last;
        if self.read == self.priv_last {
            self.read = 0;
            true
        } else {
            false
        }
    }

    /// The region `[start, end)` of the buffer that holds data written by the producer and
    /// not yet consumed. This loads the producer's write position (shared index `WRITE`)
    /// and, once the producer has wrapped around, its wrap-around point (`LAST`); when
    /// everything up to that point was consumed, the consumer starts over at the beginning of
    /// the buffer, publishes that read position (`READ`) and loads the write position once
    /// more. Whatever values these loads return, the new state is `valid_outcome` of them,
    /// the accesses made are `valid_accesses`, and the region is `readable_range` of the new
    /// state. When the loaded values lie within the buffer (`valid_loads_fit`, as the
    /// producer publishes them), so does the region, and the new state is well formed.
    pub fn valid(&mut self) -> (range: (usize, usize))
        ensures
            exists|write1: usize, last: usize, write2: usize|
                #![trigger valid_outcome(old(self)@, write1, last, write2)]
                {
                    &&& final(self)@ == valid_outcome(old(self)@, write1, last, write2)
                    &&& final(self).trace() == old(self).trace() + valid_accesses(
                        old(self)@,
                        write1,
                        last,
                        write2,
                    )
                    &&& reader_wf(old(self)@) && valid_loads_fit(old(self)@, write1, last, write2)
                        ==> reader_wf(final(self)@) && range.0 <= range.1 <= final(self)@.capacity
                },
            range == readable_range(final(self)@),
            final(self).storage_view() == old(self).storage_view(),
    {
        let ghost before = self.trace();
        let write1 = load_index(&mut self.end, WRITE, Ordering::Acquire);
        if self.observe_write(write1) {
            assert(self.trace() =~= before + valid_accesses(old(self)@, write1, 0, 0));
            assert(self@ == valid_outcome(old(self)@, write1, 0, 0));
            (self.read, self.priv_write)
        } else {
            let last = load_index(&mut self.end, LAST, Ordering::Relaxed);
            if self.observe_last(last) {
                store_index(&mut self.end, READ, self.read, Ordering::Release);
                let write2 = load_index(&mut self.end, WRITE, Ordering::Acquire);
                self.observe_write(write2);
                assert(self.trace() =~= before + valid_accesses(old(self)@, write1, last, write2));
                assert(self@ == valid_outcome(old(self)@, write1, last, write2));
                (self.read, self.priv_write)
            } else {
                assert(self.trace() =~= before + valid_accesses(old(self)@, write1, last, 0));
                assert(self@ == valid_outcome(old(self)@, write1, last, 0));
                (self.read, self.priv_last)
            }
        }
    }

    /// Consumes the first `len` elements of the readable region that `valid` returned, which
    /// frees their space for the producer: on success the new read position is published
    /// (shared index `READ`), exactly `consume_accesses`. Returns false, changing nothing,
    /// when that region holds fewer than `len` elements.
    pub fn consume(&mut self, len: usize) -> (ok: bool)
        requires
            reader_consistent(old(self)@),
        ensures
            (final(self)@, ok) == consume_outcome(old(self)@, len),
            final(self).trace() == old(self).trace() + consume_accesses(old(self)@, len),
            reader_wf(old(self)@) ==> reader_wf(final(self)@),
            final(self).storage_view() == old(self).storage_view(),
    {
        if self.priv_write >= self.read {
            if len <= self.priv_write - self.read {
                self.read = self.read + len;
            } else {
                return false;
            }
        } else {
            let remaining = self.priv_last - self.read;
            if len == remaining {
                // The wrapped tail is consumed: start over, with nothing readable until the
                // next `valid`.
                self.read = 0;
                self.priv_write = 0;
            } else if len <= remaining {
                self.read = self.read + len;
            } else {
                return false;
            }
        }
        store_index(&mut self.end, READ, self.read, Ordering::Release);
        true
    }

    /// Attempts to take the storage back. This succeeds only when the producer side is gone;
    /// otherwise the reader is handed back unchanged.
    pub fn try_unwrap(self) -> (r: Result<S, Self>)
        ensures
            match r {
                Ok(s) => s == self.storage_view(),
                Err(rd) => rd@ == self@ && rd.storage_view() == self.storage_view() && rd.trace()
                    == self.trace(),
            },
    {
        let BipBufferReader { end, read, priv_write, priv_last } = self;
        let Endpoint { buffer, trace } = end;
        match arc_try_unwrap(buffer) {
            Ok(b) => Ok(b.storage),
            Err(buffer) => Err(
                BipBufferReader { end: Endpoint { buffer, trace }, read, priv_write, priv_last },
            ),
        }
    }
}

} // verus!
