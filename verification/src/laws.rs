//! The invariant of the buffer holds initially and after every step, and what follows from it.

use crate::protocol::{live_positions, positions, replay, Step, System};
use crate::spec::{
    acquires, consume_accesses, consume_outcome, readable_range, reader_consistent, reader_wf,
    releases, reservation_decision, reserve_accesses, reserve_outcome, restart_needed,
    restart_reservation, send_accesses, valid_accesses, valid_loads_fit, valid_outcome,
    writer_after_send, Access, ReaderState, ReservationView, WriterState, LAST, READ, WRITE,
};
use vstd::prelude::*;

verus! {

/// Each position unconsumed lies between the read and the write position, or, once the
/// producer has wrapped around, between the read position and the wrap-around point or
/// before the write position.
proof fn lemma_live_bounds(read: int, write: int, last: int)
    requires
        0 <= read,
        0 <= write,
        write < read ==> read <= last,
    ensures
        forall|k: int|
            0 <= k < live_positions(read, write, last).len() ==> {
                let p = #[trigger] live_positions(read, write, last)[k];
                &&& write >= read ==> read <= p < write && p == read + k
                &&& write < read ==> (k < last - read && p == read + k) || (last - read <= k
                    && p == k - (last - read) && p < write)
            },
        write >= read ==> live_positions(read, write, last).len() == write - read,
        write < read ==> live_positions(read, write, last).len() == (last - read) + write,
{
}

/// Once the producer has wrapped around, the consumer's readable region does not run past
/// the wrap-around point.
proof fn lemma_region_within_wrap<T>(s: System<T>)
    requires
        s.inv(),
        s.reader_phase is Idle,
        s.wrapped(),
    ensures
        s.held().1 <= s.last,
{
    lemma_live_bounds(s.read as int, s.write as int, s.last as int);
    let h = s.held();
    if s.reader.priv_write >= s.reader.read && h.1 > s.last {
        let k = s.last - s.read;
        assert(s.live()[k] == h.0 + k);
    }
}

/// A fresh buffer satisfies the invariant.
pub proof fn lemma_initial_inv<T>(capacity: usize, data: Seq<T>)
    requires
        data.len() == capacity,
    ensures
        System::initial(capacity, data).inv(),
{
    let s = System::<T>::initial(capacity, data);
    assert(s.live() =~= Seq::<int>::empty());
}

/// Nothing unconsumed lies in the producer's reservation.
proof fn lemma_reservation_disjoint<T>(s: System<T>)
    requires
        s.inv(),
    ensures
        forall|k: int, i: int| 0 <= k < s.live().len() && #[trigger] s.reserved(i) ==> #[trigger] s.live()[k] != i,
{
    lemma_live_bounds(s.read as int, s.write as int, s.last as int);
}

proof fn lemma_reserve<T>(s: System<T>, len: usize)
    requires
        s.inv(),
        s.enabled(Step::Reserve(len)),
    ensures
        s.apply(Step::Reserve(len)).inv(),
{
    let t = s.apply(Step::Reserve(len));
    assert(t.live() == s.live());
}

proof fn lemma_write<T>(s: System<T>, i: int, v: T)
    requires
        s.inv(),
        s.enabled(Step::Write(i, v)),
    ensures
        s.apply(Step::Write(i, v)).inv(),
{
    let t = s.apply(Step::Write(i, v));
    lemma_reservation_disjoint(s);
    lemma_live_bounds(s.read as int, s.write as int, s.last as int);
    assert forall|k: int| 0 <= k < t.queue.len() implies #[trigger] t.queue[k] == t.data[t.live()[k]] by {
        assert(s.live()[k] != i);
        assert(s.queue[k] == s.data[s.live()[k]]);
    }
}

proof fn lemma_send_wrap<T>(s: System<T>)
    requires
        s.inv(),
        s.enabled(Step::SendWrap),
    ensures
        s.apply(Step::SendWrap).inv(),
{
    let t = s.apply(Step::SendWrap);
    assert(t.live() == s.live());
}

proof fn lemma_send_publish<T>(s: System<T>)
    requires
        s.inv(),
        s.enabled(Step::SendPublish),
    ensures
        s.apply(Step::SendPublish).inv(),
{
    let t = s.apply(Step::SendPublish);
    let r = s.reservation().unwrap();
    let added = positions(r.start as int, r.start + r.len);
    lemma_live_bounds(s.read as int, s.write as int, s.last as int);
    lemma_live_bounds(t.read as int, t.write as int, t.last as int);
    assert(t.live() =~= s.live() + added);
    assert(t.sent =~= t.consumed + t.queue);
    let n = s.queue.len();
    assert forall|k: int| 0 <= k < t.queue.len() implies #[trigger] t.queue[k] == t.data[t.live()[k]] by {
        if k < n {
            assert(s.queue[k] == s.data[s.live()[k]]);
        } else {
            assert(t.live()[k] == added[k - n]);
        }
    }
}

proof fn lemma_load_write<T>(s: System<T>)
    requires
        s.inv(),
        s.enabled(Step::LoadWrite),
    ensures
        s.apply(Step::LoadWrite).inv(),
{
    let t = s.apply(Step::LoadWrite);
    lemma_live_bounds(s.read as int, s.write as int, s.last as int);
    assert(t.live() == s.live());
}

proof fn lemma_load_last<T>(s: System<T>)
    requires
        s.inv(),
        s.enabled(Step::LoadLast),
    ensures
        s.apply(Step::LoadLast).inv(),
{
    let t = s.apply(Step::LoadLast);
    lemma_live_bounds(s.read as int, s.write as int, s.last as int);
    assert(t.live() == s.live());
}

proof fn lemma_consume<T>(s: System<T>, len: usize)
    requires
        s.inv(),
        s.enabled(Step::Consume(len)),
    ensures
        s.apply(Step::Consume(len)).inv(),
{
    let t = s.apply(Step::Consume(len));
    lemma_live_bounds(s.read as int, s.write as int, s.last as int);
    if s.wrapped() {
        lemma_region_within_wrap(s);
    }
    if t != s {
        assert(t.wrapped() ==> t.read <= t.last);
        lemma_live_bounds(t.read as int, t.write as int, t.last as int);
        assert(t.live() =~= s.live().skip(len as int));
        assert(t.sent =~= t.consumed + t.queue);
        assert forall|k: int| 0 <= k < t.queue.len() implies #[trigger] t.queue[k] == t.data[t.live()[k]] by {
            assert(s.queue[k + len] == s.data[s.live()[k + len]]);
        }
        assert forall|j: int| 0 <= j < t.messages.len() implies {
            let (o, n) = #[trigger] t.messages[j];
            &&& o + n <= t.sent.len()
            &&& o >= t.consumed.len() ==> forall|i: int|
                0 <= i < n ==> #[trigger] t.live()[o - t.consumed.len() + i] == t.live()[o
                    - t.consumed.len()] + i
        } by {
            let (o, n) = t.messages[j];
            if o >= t.consumed.len() {
                assert forall|i: int| 0 <= i < n implies #[trigger] t.live()[o - t.consumed.len()
                    + i] == t.live()[o - t.consumed.len()] + i by {
                    assert(s.messages[j] == t.messages[j]);
                    assert(s.live()[o - s.consumed.len() + i] == s.live()[o - s.consumed.len()]
                        + i);
                }
            }
        }
    }
}

/// Every step keeps the invariant: whatever order the atomic steps of the two sides come
/// in, the buffer stays in a state that `inv` describes.
pub proof fn lemma_step_preserves_inv<T>(s: System<T>, step: Step<T>)
    requires
        s.inv(),
        s.enabled(step),
    ensures
        s.apply(step).inv(),
{
    match step {
        Step::Reserve(len) => lemma_reserve(s, len),
        Step::Write(i, v) => lemma_write(s, i, v),
        Step::SendWrap => lemma_send_wrap(s),
        Step::SendPublish => lemma_send_publish(s),
        Step::LoadWrite => lemma_load_write(s),
        Step::LoadLast => lemma_load_last(s),
        Step::Consume(len) => lemma_consume(s, len),
    }
}

/// What the consumer reads is what was sent: the readable region lies within the buffer and
/// holds the oldest elements sent and not yet consumed, in the order they were sent; none is
/// lost, repeated or made up.
pub proof fn lemma_reader_sees_queue<T>(s: System<T>)
    requires
        s.inv(),
        s.reader_phase is Idle,
    ensures
        s.held().0 <= s.held().1 <= s.capacity(),
        s.held().1 - s.held().0 <= s.queue.len(),
        forall|i: int|
            0 <= i < s.held().1 - s.held().0 ==> #[trigger] s.data[s.held().0 + i] == s.queue[i],
        s.consumed.len() + (s.held().1 - s.held().0) <= s.sent.len(),
        forall|i: int|
            0 <= i < s.held().1 - s.held().0 ==> #[trigger] s.data[s.held().0 + i]
                == s.sent[s.consumed.len() + i],
{
    lemma_live_bounds(s.read as int, s.write as int, s.last as int);
    let (a, b) = s.held();
    if b > a {
        let k = b - a - 1;
        assert(s.live()[k] == a + k);
    }
    assert forall|i: int| 0 <= i < s.held().1 - s.held().0 implies #[trigger] s.data[s.held().0
        + i] == s.queue[i] by {
        assert(s.live()[i] == a + i);
    }
}

/// The producer never writes where the consumer may read: its reservation lies within the
/// buffer, is never empty (but for the empty region with which the producer starts over at
/// the beginning of the buffer), and shares no position with the elements sent and not yet
/// consumed, nor with the consumer's readable region.
pub proof fn lemma_reservation_is_free<T>(s: System<T>)
    requires
        s.inv(),
        s.reservation() is Some,
    ensures
        s.reservation().unwrap().len > 0 || (s.reservation().unwrap().wraparound
            && s.reservation().unwrap().start == 0),
        s.reservation().unwrap().start + s.reservation().unwrap().len <= s.capacity(),
        forall|k: int, i: int|
            0 <= k < s.queue.len() && #[trigger] s.reserved(i) ==> #[trigger] s.live()[k] != i,
        s.reader_phase is Idle ==> forall|i: int|
            #[trigger] s.reserved(i) ==> !(s.held().0 <= i < s.held().1),
{
    lemma_reservation_disjoint(s);
    lemma_live_bounds(s.read as int, s.write as int, s.last as int);
    if s.reader_phase is Idle {
        let (a, b) = s.held();
        assert forall|i: int| #[trigger] s.reserved(i) implies !(s.held().0 <= i < s.held().1) by {
            if a <= i < b {
                assert(s.live()[i - a] == i);
            }
        }
    }
}

/// `consume` is always called within its contract: whenever the consumer is between calls,
/// its state is one that `consume` can work on.
pub proof fn lemma_consume_always_allowed<T>(s: System<T>, len: usize)
    requires
        s.inv(),
        s.reader_phase is Idle,
    ensures
        reader_consistent(s.reader),
        s.enabled(Step::Consume(len)),
{
}

/// When `valid` returns an empty region, nothing was waiting to be read: the region it
/// returns is never empty while elements are sent and not consumed.
pub proof fn lemma_valid_empty_only_when_nothing_sent<T>(s: System<T>, step: Step<T>)
    requires
        s.inv(),
        step is LoadWrite || step is LoadLast,
        s.enabled(step),
        s.apply(step).reader_phase is Idle,
    ensures
        s.apply(step).held().0 == s.apply(step).held().1 ==> s.apply(step).queue.len() == 0,
{
    lemma_live_bounds(s.read as int, s.write as int, s.last as int);
}

/// `send` is the two steps `SendWrap` (for a reservation that wraps around) and `SendPublish`:
/// together they take the producer to `writer_after_send`, the state that the contract of
/// `send` states, make the stores `send_accesses` that the contract of `send` records, and
/// append the content of the reservation to the elements waiting to be read.
pub proof fn lemma_send_is_steps<T>(s: System<T>)
    requires
        s.inv(),
        s.writer_phase is Reserved,
    ensures
        ({
            let r = s.reservation().unwrap();
            let t = if r.wraparound {
                s.apply(Step::SendWrap).apply(Step::SendPublish)
            } else {
                s.apply(Step::SendPublish)
            };
            let accesses = if r.wraparound {
                s.step_accesses(Step::SendWrap) + s.apply(Step::SendWrap).step_accesses(
                    Step::SendPublish,
                )
            } else {
                s.step_accesses(Step::SendPublish)
            };
            &&& t.writer == writer_after_send(s.writer, r)
            &&& accesses == send_accesses(s.writer, r)
            &&& t.queue == s.queue + s.data.subrange(r.start as int, r.start + r.len)
            &&& t.writer_phase is Idle
        }),
{
    let r = s.reservation().unwrap();
    if r.wraparound {
        assert(s.step_accesses(Step::SendWrap) + s.apply(Step::SendWrap).step_accesses(
            Step::SendPublish,
        ) =~= send_accesses(s.writer, r));
    } else {
        assert(s.step_accesses(Step::SendPublish) =~= send_accesses(s.writer, r));
    }
}

/// `valid` is the steps `LoadWrite`, then `LoadLast` when the consumer is ahead of the write
/// position, then `LoadWrite` again when it starts over: run back to back they take the
/// consumer to `valid_outcome` of the values loaded, the state that the contract of `valid`
/// states, make the accesses `valid_accesses` that the contract of `valid` records, and
/// leave it between calls.
pub proof fn lemma_valid_is_steps<T>(s: System<T>)
    requires
        s.inv(),
        s.reader_phase is Idle,
    ensures
        s.valid_run().reader == valid_outcome(s.reader, s.write, s.last, s.write),
        s.valid_run().reader_phase is Idle,
        ({
            let t1 = s.apply(Step::LoadWrite);
            let t2 = t1.apply(Step::LoadLast);
            let accesses = if t1.reader_phase is Idle {
                s.step_accesses(Step::LoadWrite)
            } else if t2.reader_phase is Restarting {
                s.step_accesses(Step::LoadWrite) + t1.step_accesses(Step::LoadLast)
                    + t2.step_accesses(Step::LoadWrite)
            } else {
                s.step_accesses(Step::LoadWrite) + t1.step_accesses(Step::LoadLast)
            };
            accesses == valid_accesses(s.reader, s.write, s.last, s.write)
        }),
{
    let t1 = s.apply(Step::LoadWrite);
    let t2 = t1.apply(Step::LoadLast);
    if t1.reader_phase is Idle {
        assert(s.step_accesses(Step::LoadWrite) =~= valid_accesses(
            s.reader,
            s.write,
            s.last,
            s.write,
        ));
    } else if t2.reader_phase is Restarting {
        assert(s.step_accesses(Step::LoadWrite) + t1.step_accesses(Step::LoadLast)
            + t2.step_accesses(Step::LoadWrite) =~= valid_accesses(
            s.reader,
            s.write,
            s.last,
            s.write,
        ));
    } else {
        assert(s.step_accesses(Step::LoadWrite) + t1.step_accesses(Step::LoadLast)
            =~= valid_accesses(s.reader, s.write, s.last, s.write));
    }
}

/// Two calls of `valid` with no step of the producer in between return the same region.
pub proof fn lemma_valid_twice_same_region<T>(s: System<T>)
    requires
        s.inv(),
        s.reader_phase is Idle,
    ensures
        s.valid_run().valid_run().reader == s.valid_run().reader,
        s.valid_run().valid_run().held() == s.valid_run().held(),
{
}

/// First in, first out: the elements consumed so far are the first elements sent, in the
/// order they were sent.
pub proof fn lemma_consumed_prefix_of_sent<T>(s: System<T>)
    requires
        s.inv(),
    ensures
        s.consumed.len() <= s.sent.len(),
        forall|i: int| 0 <= i < s.consumed.len() ==> #[trigger] s.consumed[i] == s.sent[i],
{
}

/// A successful `consume` of `len` elements consumes the first `len` elements of the
/// readable region, as the consumer read them.
pub proof fn lemma_consume_takes_readable<T>(s: System<T>, len: usize)
    requires
        s.inv(),
        s.reader_phase is Idle,
        consume_outcome(s.reader, len).1,
    ensures
        len <= s.held().1 - s.held().0,
        s.apply(Step::Consume(len)).consumed == s.consumed + s.data.subrange(
            s.held().0 as int,
            s.held().0 + len,
        ),
{
    lemma_reader_sees_queue(s);
    assert(s.queue.take(len as int) =~= s.data.subrange(s.held().0 as int, s.held().0 + len));
}

/// When a call of `valid` returns, its region is the longest run of unconsumed elements, from
/// the oldest on, that sit next to each other in the buffer. The step that ends the call
/// consumes nothing, sends nothing and leaves the read position where it is (the call moves
/// it only when it starts over, from the wrap-around point to the start of the buffer, where
/// no element lies between the two).
pub proof fn lemma_valid_returns_longest_run<T>(s: System<T>, step: Step<T>)
    requires
        s.inv(),
        step is LoadWrite || step is LoadLast,
        s.enabled(step),
        s.apply(step).reader_phase is Idle,
    ensures
        forall|n: int| #[trigger] s.apply(step).front_is_contiguous(n) ==> n <= s.apply(step).held_len(),
        s.apply(step).read == s.read,
        s.apply(step).queue == s.queue,
        s.apply(step).consumed == s.consumed,
        s.apply(step).sent == s.sent,
        s.apply(step).data == s.data,
{
    let t = s.apply(step);
    lemma_live_bounds(t.read as int, t.write as int, t.last as int);
    assert forall|n: int| #[trigger] t.front_is_contiguous(n) implies n <= t.held_len() by {
        if n > t.held_len() && t.wrapped() && t.held().0 == t.read {
            let k = t.last - t.read;
            assert(t.live()[k] == t.live()[0] + k);
        }
    }
}

/// Each reservation reaches the consumer in one piece: once the consumer has consumed
/// exactly the elements sent before it, the region that `valid` returns starts with all of
/// its elements, as they were sent.
pub proof fn lemma_message_read_whole<T>(s: System<T>, step: Step<T>, j: int)
    requires
        s.inv(),
        step is LoadWrite || step is LoadLast,
        s.enabled(step),
        s.apply(step).reader_phase is Idle,
        0 <= j < s.apply(step).messages.len(),
        s.apply(step).messages[j].0 == s.apply(step).consumed.len(),
    ensures
        ({
            let t = s.apply(step);
            let (o, n) = t.messages[j];
            &&& n <= t.held_len()
            &&& forall|i: int| 0 <= i < n ==> #[trigger] t.data[t.held().0 + i] == t.sent[o + i]
        }),
{
    let t = s.apply(step);
    lemma_step_preserves_inv(s, step);
    lemma_valid_returns_longest_run(s, step);
    let (o, n) = t.messages[j];
    assert(t.sent.len() == t.consumed.len() + t.queue.len());
    assert forall|i: int| 0 <= i < n implies #[trigger] t.live()[i] == t.live()[0] + i by {
        assert(t.live()[o - t.consumed.len() + i] == t.live()[o - t.consumed.len()] + i);
    }
    assert(t.front_is_contiguous(n as int));
    lemma_reader_sees_queue(t);
    assert forall|i: int| 0 <= i < n implies #[trigger] t.data[t.held().0 + i] == t.sent[o + i] by {
        assert(t.data[t.held().0 + i] == t.queue[i]);
    }
}

/// Consuming never takes room away from the producer: a reservation that the producer's
/// next `reserve` would be granted before a `consume` is still granted after it.
pub proof fn lemma_consume_keeps_room<T>(s: System<T>, n: usize, len: usize)
    requires
        s.inv(),
        s.enabled(Step::Consume(n)),
        reservation_decision(s.writer.write, s.read, s.writer.capacity, len) is Some,
    ensures
        reservation_decision(
            s.apply(Step::Consume(n)).writer.write,
            s.apply(Step::Consume(n)).read,
            s.apply(Step::Consume(n)).writer.capacity,
            len,
        ) is Some,
{
    lemma_consume(s, n);
    lemma_live_bounds(s.read as int, s.write as int, s.last as int);
    if s.wrapped() {
        lemma_region_within_wrap(s);
    }
}

/// A step other than `Consume` changes nothing that is unconsumed and only adds to it, and
/// keeps the consumer's region unless it ends a call of `valid`.
proof fn lemma_no_consume_step<T>(u: System<T>, step: Step<T>, q0: Seq<T>, n0: int)
    requires
        u.inv(),
        u.enabled(step),
        !(step is Consume),
        n0 <= q0.len() <= u.queue.len(),
        u.queue.take(q0.len() as int) == q0,
        u.front_is_contiguous(n0),
        u.reader_phase is Idle ==> n0 <= u.held_len(),
    ensures
        ({
            let v = u.apply(step);
            &&& v.inv()
            &&& v.consumed == u.consumed
            &&& q0.len() <= v.queue.len()
            &&& v.queue.take(q0.len() as int) == q0
            &&& v.front_is_contiguous(n0)
            &&& v.reader_phase is Idle ==> n0 <= v.held_len()
        }),
{
    let v = u.apply(step);
    lemma_step_preserves_inv(u, step);
    lemma_live_bounds(u.read as int, u.write as int, u.last as int);
    lemma_live_bounds(v.read as int, v.write as int, v.last as int);
    if step is SendPublish {
        let r = u.reservation().unwrap();
        assert(v.live() =~= u.live() + positions(r.start as int, r.start + r.len));
        assert(v.queue.take(q0.len() as int) =~= q0) by {
            assert(u.queue.take(q0.len() as int) =~= q0);
        }
    } else {
        assert(v.live() == u.live());
    }
    assert(v.front_is_contiguous(n0));
    if (step is LoadWrite || step is LoadLast) && v.reader_phase is Idle {
        lemma_valid_returns_longest_run(u, step);
        assert(n0 <= v.held_len());
    } else if v.reader_phase is Idle {
        assert(v.reader == u.reader && v.reader_phase == u.reader_phase);
    }
}

proof fn lemma_no_consume_run<T>(u: System<T>, steps: Seq<Step<T>>, q0: Seq<T>, n0: int)
    requires
        u.inv(),
        u.can_run(steps),
        forall|i: int| 0 <= i < steps.len() ==> !(#[trigger] steps[i] is Consume),
        n0 <= q0.len() <= u.queue.len(),
        u.queue.take(q0.len() as int) == q0,
        u.front_is_contiguous(n0),
        u.reader_phase is Idle ==> n0 <= u.held_len(),
    ensures
        ({
            let t = u.run(steps);
            &&& t.inv()
            &&& t.consumed == u.consumed
            &&& q0.len() <= t.queue.len()
            &&& t.queue.take(q0.len() as int) == q0
            &&& t.reader_phase is Idle ==> n0 <= t.held_len()
        }),
    decreases steps.len(),
{
    if steps.len() > 0 {
        assert(!(steps[0] is Consume));
        lemma_no_consume_step(u, steps[0], q0, n0);
        let rest = steps.skip(1);
        assert forall|i: int| 0 <= i < rest.len() implies !(#[trigger] rest[i] is Consume) by {
            assert(rest[i] == steps[i + 1]);
        }
        lemma_no_consume_run(u.apply(steps[0]), rest, q0, n0);
    }
}

/// Without a `consume`, the consumer's region only grows: whatever the producer does, and
/// however many calls of `valid` come in between, the region that the consumer holds next
/// starts with the elements that its region holds now. Meanwhile nothing is consumed.
pub proof fn lemma_valid_extends_region<T>(s: System<T>, steps: Seq<Step<T>>)
    requires
        s.inv(),
        s.reader_phase is Idle,
        s.can_run(steps),
        forall|i: int| 0 <= i < steps.len() ==> !(#[trigger] steps[i] is Consume),
    ensures
        ({
            let t = s.run(steps);
            &&& t.inv()
            &&& t.consumed == s.consumed
            &&& t.reader_phase is Idle ==> {
                &&& s.held_len() <= t.held_len()
                &&& forall|i: int|
                    0 <= i < s.held_len() ==> #[trigger] t.data[t.held().0 + i] == s.data[s.held().0
                        + i]
            }
        }),
{
    lemma_reader_sees_queue(s);
    let n0 = s.held_len();
    if n0 > 0 {
        assert(s.live()[0] == s.held().0);
    }
    assert(s.front_is_contiguous(n0));
    assert(s.queue.take(s.queue.len() as int) =~= s.queue);
    lemma_no_consume_run(s, steps, s.queue, n0);
    let t = s.run(steps);
    if t.reader_phase is Idle {
        lemma_reader_sees_queue(t);
        assert forall|i: int| 0 <= i < s.held_len() implies #[trigger] t.data[t.held().0 + i]
            == s.data[s.held().0 + i] by {
            assert(t.queue.take(s.queue.len() as int)[i] == s.queue[i]);
        }
    }
}

/// The steps of `valid` never take room away from the producer either: a reservation that
/// the producer's next `reserve` would be granted before such a step is still granted after
/// it.
pub proof fn lemma_valid_keeps_room<T>(s: System<T>, step: Step<T>, len: usize)
    requires
        s.inv(),
        step is LoadWrite || step is LoadLast,
        s.enabled(step),
        reservation_decision(s.writer.write, s.read, s.writer.capacity, len) is Some,
    ensures
        reservation_decision(
            s.apply(step).writer.write,
            s.apply(step).read,
            s.apply(step).writer.capacity,
            len,
        ) is Some,
{
}

/// `reserve` is the step `Reserve`, followed, when it starts over at the beginning of the
/// buffer, by the steps `SendWrap` and `SendPublish` of the empty region: together they take
/// the producer to `reserve_outcome` of the read position loaded, the state that the
/// contract of `reserve` states, hand out what `reserve_outcome` hands out, and make the
/// accesses `reserve_accesses` that the contract of `reserve` records.
pub proof fn lemma_reserve_is_steps<T>(s: System<T>, len: usize)
    requires
        s.inv(),
        s.enabled(Step::Reserve(len)),
    ensures
        ({
            let t = s.apply(Step::Reserve(len));
            let out = reserve_outcome(s.writer, s.read, len);
            if restart_needed(s.writer.write, s.read, s.writer.capacity, len) {
                &&& t.reservation() == Some(restart_reservation())
                &&& t.enabled(Step::SendWrap)
                &&& t.apply(Step::SendWrap).enabled(Step::SendPublish)
                &&& t.apply(Step::SendWrap).apply(Step::SendPublish).writer == out.1
                &&& t.apply(Step::SendWrap).apply(Step::SendPublish).writer_phase is Idle
                &&& out.0 is None
                &&& s.step_accesses(Step::Reserve(len)) + t.step_accesses(Step::SendWrap)
                    + t.apply(Step::SendWrap).step_accesses(Step::SendPublish)
                    == reserve_accesses(s.writer, s.read, len)
            } else {
                &&& t.reservation() == out.0
                &&& t.writer == out.1
                &&& s.step_accesses(Step::Reserve(len)) == reserve_accesses(s.writer, s.read, len)
            }
        }),
{
    let t = s.apply(Step::Reserve(len));
    if restart_needed(s.writer.write, s.read, s.writer.capacity, len) {
        assert(s.step_accesses(Step::Reserve(len)) + t.step_accesses(Step::SendWrap)
            + t.apply(Step::SendWrap).step_accesses(Step::SendPublish) =~= reserve_accesses(
            s.writer,
            s.read,
            len,
        ));
    } else {
        assert(s.step_accesses(Step::Reserve(len)) =~= reserve_accesses(s.writer, s.read, len));
    }
}

/// A request waits only until the consumer has read the data: once it has consumed
/// everything sent, a request for any `len` elements that the buffer can hold is granted
/// right away, or else by the producer's next `reserve` after one call of `valid` of the
/// consumer (the first `reserve` starts over at the beginning of the buffer when that is what
/// frees the room).
pub proof fn lemma_request_granted_after_catching_up<T>(s: System<T>, len: usize)
    requires
        s.inv(),
        s.writer_phase is Idle,
        s.reader_phase is Idle,
        s.queue.len() == 0,
        0 < len <= s.capacity(),
    ensures
        ({
            let t = s.apply(Step::Reserve(len));
            let u = if t.writer_phase is Reserved {
                t.apply(Step::SendWrap).apply(Step::SendPublish)
            } else {
                t
            };
            let v = u.valid_run();
            ||| t.reservation() matches Some(r) && r.len == len
            ||| {
                &&& t.writer_phase is Reserved ==> t.enabled(Step::SendWrap) && t.apply(
                    Step::SendWrap,
                ).enabled(Step::SendPublish)
                &&& u.inv()
                &&& u.writer_phase is Idle
                &&& u.reader_phase is Idle
                &&& v.writer_phase is Idle
                &&& v.apply(Step::Reserve(len)).reservation() matches Some(r) && r.len == len
            }
        }),
{
    lemma_live_bounds(s.read as int, s.write as int, s.last as int);
    let t = s.apply(Step::Reserve(len));
    lemma_reserve(s, len);
    if !(t.reservation() matches Some(r) && r.len == len) {
        if t.writer_phase is Reserved {
            lemma_send_wrap(t);
            let t1 = t.apply(Step::SendWrap);
            lemma_send_publish(t1);
            let u = t1.apply(Step::SendPublish);
            lemma_live_bounds(u.read as int, u.write as int, u.last as int);
        }
    }
}

/// In the model every access of a step behaves as an access to shared memory in one global
/// order: each load returns what the index holds, and the indices after the step are what its
/// stores left. `consume`'s step makes exactly `consume_accesses`, what the contract of
/// `consume` records.
pub proof fn lemma_step_accesses_replay<T>(s: System<T>, step: Step<T>)
    requires
        s.inv(),
        s.enabled(step),
    ensures
        replay((s.read, s.write, s.last), s.step_accesses(step)) == Some(
            (s.apply(step).read, s.apply(step).write, s.apply(step).last),
        ),
        step matches Step::Consume(len) ==> s.step_accesses(step) == consume_accesses(
            s.reader,
            len,
        ),
{
    reveal_with_fuel(replay, 3);
    let acc = s.step_accesses(step);
    if acc.len() >= 1 {
        assert(acc.skip(1).skip(1).len() == acc.len() - 2 || acc.len() < 2);
    }
    if acc.len() == 2 {
        assert(acc.skip(1).skip(1) =~= Seq::<Access>::empty());
    }
    if acc.len() == 1 {
        assert(acc.skip(1) =~= Seq::<Access>::empty());
    }
}

/// The values that a call of `valid` loads always lie within the buffer, and the consumer's
/// state between calls is well formed: so the bounds that the contract of `valid` states
/// under these conditions always hold.
pub proof fn lemma_valid_loads_fit<T>(s: System<T>)
    requires
        s.inv(),
        s.reader_phase is Idle,
    ensures
        reader_wf(s.reader),
        valid_loads_fit(s.reader, s.write, s.last, s.write),
{
}

/// `reserve` finds room wherever there is room: when `len` contiguous free elements lie after
/// the write position (up to the end of the buffer) or, with the producer ahead of the
/// consumer, strictly before the read position, a request for `len` elements is granted, in
/// one of those free areas, and the producer's state stays as it is.
pub proof fn lemma_reserve_grants_free_room(w: WriterState, read: usize, len: usize)
    requires
        w.write <= w.capacity,
        read <= w.capacity,
        len > 0,
        ({
            let after_write = if w.write >= read {
                w.capacity - w.write
            } else {
                read - w.write - 1
            };
            let before_read = if w.write >= read {
                read - 1
            } else {
                0
            };
            after_write >= len || before_read >= len
        }),
    ensures
        ({
            let (r, after) = reserve_outcome(w, read, len);
            &&& r matches Some(x) && {
                &&& x.len == len
                &&& x.start + x.len <= w.capacity
                &&& w.write >= read ==> (x.start == w.write || (x.start == 0 && x.len < read))
                &&& w.write < read ==> x.start == w.write && x.start + x.len < read
            }
            &&& after == w
        }),
{
}

/// A refused `reserve` leaves the producer where it is, unless the consumer has read
/// everything: only then (its read position, as loaded, is the producer's write position)
/// may the producer move, to start over at the beginning of the buffer. A refusal with data
/// left unread makes no access but the load of the read position.
pub proof fn lemma_reserve_moves_only_when_all_read(w: WriterState, read: usize, len: usize)
    ensures
        reserve_outcome(w, read, len).1 != w ==> {
            &&& w.write == read
            &&& reserve_outcome(w, read, len).0 is None
            &&& reserve_outcome(w, read, len).1.write == 0
        },
        reserve_outcome(w, read, len).0 is None && w.write != read ==> {
            &&& reserve_outcome(w, read, len).1 == w
            &&& reserve_accesses(w, read, len).len() == 1
        },
        reserve_accesses(w, read, len)[0] matches Access::Load(i, v, o) && i == READ && v == read
            && acquires(o),
{
}

/// `consume` takes any part of what `valid` returned: for `len` up to the length of the
/// readable region it succeeds, moving the read position forward by `len` (to the start of
/// the buffer when it reaches the wrap-around point, leaving nothing readable until the next
/// `valid`) and leaving the rest of the region readable; it publishes the new read position
/// with a releasing store, which frees the space for the producer. For a longer `len` it
/// fails and changes nothing.
pub proof fn lemma_consume_takes_prefix(s: ReaderState, len: usize)
    requires
        reader_consistent(s),
    ensures
        ({
            let (a, b) = readable_range(s);
            let (t, ok) = consume_outcome(s, len);
            let restart = s.priv_write < s.read && a + len == b;
            &&& ok <==> len <= b - a
            &&& !ok ==> t == s && consume_accesses(s, len).len() == 0
            &&& ok ==> {
                &&& t.read == if restart {
                    0
                } else {
                    a + len
                }
                &&& readable_range(t) == if restart {
                    (0usize, 0usize)
                } else {
                    ((a + len) as usize, b)
                }
                &&& consume_accesses(s, len).len() == 1
                &&& consume_accesses(s, len)[0] matches Access::Store(i, v, o) && i == READ && v
                    == t.read && releases(o)
            }
        }),
{
}

/// `send` publishes the region only after everything before it: its last access is the store
/// of the new write position, and that store is releasing, so a consumer that loads the new
/// write position with an acquiring load also sees every element written into the region
/// before `send` (and the wrap-around point, the only index stored before it).
pub proof fn lemma_send_publishes_last_with_release(w: WriterState, r: ReservationView)
    ensures
        ({
            let acc = send_accesses(w, r);
            let n = acc.len();
            &&& n >= 1
            &&& acc[n - 1] matches Access::Store(i, v, o) && i == WRITE && v == writer_after_send(
                w,
                r,
            ).write && releases(o)
            &&& forall|k: int|
                0 <= k < n - 1 ==> (#[trigger] acc[k] matches Access::Store(i, v, o) && i == LAST)
        }),
{
}

/// `valid` synchronises with the producer before it reads anything: its first access is an
/// acquiring load of the write position, every load of the write position is acquiring, the
/// wrap-around point is loaded only after such a load, and its only store is the releasing
/// store of the read position 0 when it starts over.
pub proof fn lemma_valid_loads_with_acquire(s: ReaderState, write1: usize, last: usize, write2: usize)
    ensures
        ({
            let acc = valid_accesses(s, write1, last, write2);
            &&& acc.len() >= 1
            &&& acc[0] matches Access::Load(i, v, o) && i == WRITE && v == write1 && acquires(o)
            &&& forall|k: int|
                0 <= k < acc.len() ==> match #[trigger] acc[k] {
                    Access::Load(i, v, o) => i == WRITE ==> acquires(o),
                    Access::Store(i, v, o) => i == READ && v == 0 && releases(o),
                }
            &&& forall|k: int|
                0 <= k < acc.len() && (#[trigger] acc[k] matches Access::Load(i, v, o) && i == LAST)
                    ==> k >= 1
        }),
{
}

} // verus!
