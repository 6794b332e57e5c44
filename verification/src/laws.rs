//! What holds of whole runs of operations.
//!
//! The contracts of [`crate::ring::Shared`] describe single steps through the
//! functions of [`Queue`]. The laws below are proved of those functions, so
//! each of them holds of every region that takes the steps it names.
use crate::model::Phase;
use crate::model::Queue;
use crate::model::Step;
use vstd::prelude::*;

verus! {

/// The part of `vs` that a queue with `room` free slots takes: its first
/// `room` values, or all of them if there are fewer.
pub open spec fn accepted<T>(vs: Seq<T>, room: nat) -> Seq<T> {
    if vs.len() <= room {
        vs
    } else {
        vs.take(room as int)
    }
}

/// No step leads out of the valid states: the queue never holds more values
/// than it has slots, and its capacity never changes.
pub proof fn steps_keep_valid<T>(q: Queue<T>, v: T)
    requires
        q.valid(),
    ensures
        q.send(v).valid() && q.send(v).capacity == q.capacity,
        q.recv().valid() && q.recv().capacity == q.capacity,
        q.release_sender().valid() && q.release_sender().capacity == q.capacity,
        q.release_receiver().valid() && q.release_receiver().capacity == q.capacity,
{
}

/// Offering a run of values buffers them behind what is already there, in the
/// order in which they were offered, until the queue is full; the values
/// offered after that are all handed back.
pub proof fn send_all_appends<T>(q: Queue<T>, vs: Seq<T>)
    requires
        q.valid(),
    ensures
        q.send_all(vs).items == q.items + accepted(vs, (q.capacity - q.items.len()) as nat),
        q.send_all(vs).capacity == q.capacity,
        q.send_all(vs).producer_gone == q.producer_gone,
        q.send_all(vs).consumer_gone == q.consumer_gone,
    decreases vs.len(),
{
    if vs.len() > 0 {
        send_all_appends(q, vs.drop_last());
    }
}

/// Receiving `n` times takes the `n` oldest values away, or all of them if
/// there are fewer, and touches nothing else.
pub proof fn recv_n_skips<T>(q: Queue<T>, n: nat)
    ensures
        q.recv_n(n).items == (if n <= q.items.len() {
            q.items.skip(n as int)
        } else {
            Seq::empty()
        }),
        q.recv_n(n).capacity == q.capacity,
        q.recv_n(n).producer_gone == q.producer_gone,
        q.recv_n(n).consumer_gone == q.consumer_gone,
    decreases n,
{
    if n > 0 {
        recv_n_skips(q, (n - 1) as nat);
    }
}

/// Order is preserved: when the values `vs` are offered to a new queue before
/// anything is received, the receives that follow yield the accepted values
/// in the order in which they were sent, and then report the queue empty.
pub proof fn order_preserved<T>(capacity: nat, vs: Seq<T>, k: nat)
    ensures
        Queue::<T>::fresh(capacity).send_all(vs).recv_n(k).received() == (if k < accepted(
            vs,
            capacity,
        ).len() {
            Some(vs[k as int])
        } else {
            None
        }),
{
    let q = Queue::<T>::fresh(capacity);
    send_all_appends(q, vs);
    recv_n_skips(q.send_all(vs), k);
}

/// Nothing is lost, repeated or reordered, however sends and receives are
/// interleaved: what was buffered at the start followed by what the sends got
/// in is, value for value, what the receives yielded followed by what is
/// still buffered.
pub proof fn run_keeps_order<T>(q: Queue<T>, steps: Seq<Step<T>>)
    requires
        q.valid(),
    ensures
        q.run(steps).valid(),
        q.run(steps).capacity == q.capacity,
        q.items + q.taken(steps) == q.given(steps) + q.run(steps).items,
    decreases steps.len(),
{
    if steps.len() > 0 {
        let earlier = steps.drop_last();
        run_keeps_order(q, earlier);
        let at = q.run(earlier);
        if let Step::Send(v) = steps.last() {
            if at.rejected(v) is None {
                assert(q.given(earlier) + at.items.push(v) =~= (q.given(earlier) + at.items).push(
                    v,
                ));
            }
        }
    }
}

/// Round trip: a value sent into an empty queue that has room is the value
/// the next receive yields, and the queue is then as it was before.
pub proof fn round_trip<T>(q: Queue<T>, v: T)
    requires
        q.valid(),
        q.is_empty(),
        q.capacity > 0,
    ensures
        q.rejected(v) is None,
        q.send(v).received() == Some(v),
        q.send(v).recv() == q,
{
}

/// A full queue hands every value back unchanged and stays as it is.
pub proof fn full_rejects<T>(q: Queue<T>, v: T)
    requires
        q.valid(),
        q.is_full(),
    ensures
        q.rejected(v) == Some(v),
        q.send(v) == q,
{
}

/// Capacity bound: once a new queue has taken as many values as it has slots,
/// with nothing received in between, the next send hands its value back and
/// the queue still holds exactly `capacity` values.
pub proof fn capacity_bound<T>(capacity: nat, vs: Seq<T>, v: T)
    requires
        vs.len() == capacity,
    ensures
        Queue::<T>::fresh(capacity).send_all(vs).items == vs,
        Queue::<T>::fresh(capacity).send_all(vs).rejected(v) == Some(v),
        Queue::<T>::fresh(capacity).send_all(vs).send(v).items.len() == capacity,
{
    let q = Queue::<T>::fresh(capacity);
    send_all_appends(q, vs);
}

/// A new queue is empty: a receive yields nothing and changes nothing.
pub proof fn fresh_is_empty<T>(capacity: nat)
    ensures
        Queue::<T>::fresh(capacity).valid(),
        Queue::<T>::fresh(capacity).received() is None,
        Queue::<T>::fresh(capacity).recv() == Queue::<T>::fresh(capacity),
{
}

/// A queue without slots is full and empty at once, whatever has been tried
/// on it: every send hands its value back, every receive yields nothing, and
/// neither changes the queue.
pub proof fn zero_capacity<T>(q: Queue<T>, v: T)
    requires
        q.valid(),
        q.capacity == 0,
    ensures
        q.rejected(v) == Some(v),
        q.send(v) == q,
        q.received() is None,
        q.recv() == q,
{
}

/// Teardown frees once: whichever handle is released first only marks itself
/// as gone, and the release of the other one is the one that frees.
pub proof fn teardown_frees_once<T>(q: Queue<T>)
    requires
        q.phase() == Phase::BothAlive,
    ensures
        !q.sender_frees(),
        q.release_sender().phase() == Phase::OneGone,
        q.release_sender().receiver_frees(),
        q.release_sender().release_receiver().phase() == Phase::Freed,
        !q.receiver_frees(),
        q.release_receiver().phase() == Phase::OneGone,
        q.release_receiver().sender_frees(),
        q.release_receiver().release_sender().phase() == Phase::Freed,
{
}

/// A release that does not free leaves the buffered values where they are,
/// so the handle that is still alive can go on using them.
pub proof fn mark_keeps_values<T>(q: Queue<T>)
    ensures
        !q.sender_frees() ==> q.release_sender().items == q.items,
        !q.receiver_frees() ==> q.release_receiver().items == q.items,
{
}

/// Nothing is freed twice: once the region has been freed no release frees
/// again, and none changes anything.
pub proof fn freed_is_final<T>(q: Queue<T>)
    requires
        q.phase() == Phase::Freed,
    ensures
        !q.sender_frees(),
        !q.receiver_frees(),
        q.release_sender() == q,
        q.release_receiver() == q,
{
}

/// Drain before free: the release that frees leaves no value behind, however
/// many were still buffered.
pub proof fn free_leaves_nothing<T>(q: Queue<T>)
    ensures
        q.sender_frees() ==> q.release_sender().is_empty() && q.release_sender().phase() == Phase::Freed,
        q.receiver_frees() ==> q.release_receiver().is_empty() && q.release_receiver().phase()
            == Phase::Freed,
{
}

} // verus!
