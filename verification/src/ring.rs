//! The shared region: a control block and the slot storage it governs.
//!
//! Every operation here takes the region by exclusive reference and has an
//! exact contract over its [`Queue`] view. The handles in [`crate::spsc`]
//! reach the region through a lock and run these operations on it.
use crate::cursor::lemma_lap_covers_ring;
use crate::cursor::lemma_laps_keep_slot;
use crate::cursor::lemma_slot_in_ring;
use crate::cursor::lemma_window_distinct;
use crate::cursor::position_of;
use crate::cursor::slot_of;
use crate::cursor::MAX_CAPACITY;
use crate::model::Queue;
use vstd::arithmetic::div_mod::lemma_fundamental_div_mod;
use vstd::arithmetic::div_mod::lemma_mod_decreases;
use vstd::prelude::*;

verus! {

/// The control block: two drop flags and the two cursors.
///
/// `head` counts the values written and belongs to the sender; `tail` counts
/// the values read and belongs to the receiver. Each flag is set once, when
/// its handle is released.
struct Meta {
    tx_dropped: bool,
    rx_dropped: bool,
    head: usize,
    tail: usize,
}

/// The region that a sender and a receiver share: the control block followed
/// by `capacity` slots. A slot holds a value exactly while its position lies
/// between the two cursors.
///
/// The cursors in the control block are machine integers. Should the head
/// ever reach the largest of them, both cursors are lowered by the same whole
/// number of laps; `lowered` remembers by how much in all, so that the
/// positions the contracts speak of, [`Shared::head`] and [`Shared::tail`],
/// only ever count upwards.
pub struct Shared<T> {
    meta: Meta,
    buffer: Vec<Option<T>>,
    lowered: Ghost<nat>,
}

impl<T> View for Shared<T> {
    type V = Queue<T>;

    closed spec fn view(&self) -> Queue<T> {
        Queue {
            items: Seq::new(
                (self.meta.head - self.meta.tail) as nat,
                |k: int| self.slot(self.tail() + k)->0,
            ),
            capacity: self.buffer@.len(),
            producer_gone: self.meta.tx_dropped,
            consumer_gone: self.meta.rx_dropped,
        }
    }
}

impl<T> Shared<T> {
    /// The write position: how many values have been written so far.
    pub closed spec fn head(&self) -> nat {
        (self.lowered@ + self.meta.head) as nat
    }

    /// The read position: how many values have been read so far.
    pub closed spec fn tail(&self) -> nat {
        (self.lowered@ + self.meta.tail) as nat
    }

    /// What the slot of position `pos` holds, which is the slot with index
    /// `pos` modulo the capacity.
    pub closed spec fn slot(&self, pos: int) -> Option<T> {
        self.buffer@[slot_of(pos, self.buffer@.len() as int)]
    }

    /// The invariant of the region: the tail never passes the head, the head
    /// is never more than one lap ahead, and over the lap that starts at the
    /// tail a slot is occupied exactly when its position is below the head.
    pub closed spec fn wf(&self) -> bool {
        &&& self.buffer@.len() <= MAX_CAPACITY
        &&& self.meta.tail <= self.meta.head
        &&& self.meta.head - self.meta.tail <= self.buffer@.len()
        &&& self.buffer@.len() > 0 ==> slot_of(self.lowered@ as int, self.buffer@.len() as int) == 0
        &&& forall|pos: int|
            self.tail() <= pos < self.tail() + self.buffer@.len() ==> (#[trigger] self.slot(pos) is Some
                <==> pos < self.head())
    }

    /// The cursors bound the queue: the buffered values are those written at
    /// the positions from the tail up to the head, and there are never more
    /// of them than slots.
    pub proof fn lemma_cursors(&self)
        requires
            self.wf(),
        ensures
            self.tail() <= self.head(),
            self.head() - self.tail() == self@.items.len(),
            self.head() - self.tail() <= self@.capacity,
    {
    }

    /// Over the lap that starts at the tail, the slot of a position holds a
    /// value exactly when the position lies below the head, and then it holds
    /// the value that was written at that position.
    pub proof fn lemma_slots(&self, pos: int)
        requires
            self.wf(),
            self.tail() <= pos < self.tail() + self@.capacity,
        ensures
            self.slot(pos) is Some <==> pos < self.head(),
            pos < self.head() ==> self.slot(pos) == Some(self@.items[pos - self.tail()]),
    {
    }

    /// The slot index that the machine computes from a cursor is the slot of
    /// the position that the cursor stands for.
    proof fn lemma_cursor_slot(&self, cursor: usize)
        requires
            self.wf(),
            self.buffer@.len() > 0,
        ensures
            slot_of(self.lowered@ + cursor, self.buffer@.len() as int) == cursor as int % (
            self.buffer@.len() as int),
    {
        let c: int = self.buffer@.len() as int;
        let laps: int = self.lowered@ as int / c;
        lemma_fundamental_div_mod(self.lowered@ as int, c);
        assert(self.lowered@ == laps * c) by (nonlinear_arith)
            requires
                self.lowered@ == c * laps + 0,
        ;
        lemma_laps_keep_slot(cursor as int, laps, c);
    }

    /// Well-formedness and the buffered values depend on the cursors and the
    /// slots alone, not on the drop flags.
    proof fn lemma_flags_apart(&self, other: &Self)
        requires
            self.wf(),
            other.buffer@ == self.buffer@,
            other.meta.head == self.meta.head,
            other.meta.tail == self.meta.tail,
            other.lowered == self.lowered,
        ensures
            other.wf(),
            other@.items == self@.items,
            other@.capacity == self@.capacity,
            other.head() == self.head(),
            other.tail() == self.tail(),
    {
        assert forall|pos: int| #[trigger] other.slot(pos) == self.slot(pos) by {}
    }

    /// A well-formed region is a valid queue of at most `MAX_CAPACITY` slots.
    pub proof fn lemma_valid(&self)
        requires
            self.wf(),
        ensures
            self@.valid(),
            self@.capacity <= MAX_CAPACITY,
    {
    }

    /// Whether no slot of the region holds a value.
    pub closed spec fn vacant(&self) -> bool {
        forall|j: int| 0 <= j < self.buffer@.len() ==> #[trigger] self.buffer@[j] is None
    }

    /// The slots hold exactly the buffered values: when the queue is empty
    /// every slot is empty, and only then.
    pub proof fn lemma_vacant_iff_empty(&self)
        requires
            self.wf(),
        ensures
            self.vacant() <==> self@.is_empty(),
    {
        let t: int = self.tail() as int;
        let c: int = self.buffer@.len() as int;
        if self.meta.head == self.meta.tail {
            assert forall|j: int| 0 <= j < c implies #[trigger] self.buffer@[j] is None by {
                lemma_lap_covers_ring(j, t, c);
                assert(!(self.slot(position_of(j, t, c)) is Some));
            }
        } else {
            lemma_slot_in_ring(t, c);
            assert(self.slot(t) is Some);
        }
    }

    /// Allocates a region of `cap` empty slots with both cursors at zero and
    /// both handles alive. There is no fallback when the memory cannot be
    /// had: the allocator's failure is fatal.
    pub fn new(cap: usize) -> (r: Self)
        requires
            cap <= MAX_CAPACITY,
        ensures
            r.wf(),
            r@ == Queue::<T>::fresh(cap as nat),
            r.head() == 0,
            r.tail() == 0,
            r.vacant(),
    {
        let mut buffer: Vec<Option<T>> = Vec::with_capacity(cap);
        let mut i: usize = 0;
        while i < cap
            invariant
                i <= cap,
                buffer@.len() == i,
                forall|j: int| 0 <= j < i ==> buffer@[j] is None,
            decreases cap - i,
        {
            buffer.push(None);
            i += 1;
        }
        let r = Shared {
            meta: Meta { tx_dropped: false, rx_dropped: false, head: 0, tail: 0 },
            buffer,
            lowered: Ghost(0),
        };
        proof {
            assert forall|pos: int| 0 <= pos < cap implies r.slot(pos) is None by {
                lemma_slot_in_ring(pos, cap as int);
            }
        }
        r
    }

    /// Offers `el` to the queue. A full queue hands it back unchanged and
    /// stays as it was; otherwise the value is written into the slot of the
    /// head position and the head moves on by one. The tail is not touched.
    pub fn try_send(&mut self, el: T) -> (r: Option<T>)
        requires
            old(self).wf(),
        ensures
            final(self).wf(),
            final(self)@ == old(self)@.send(el),
            r == old(self)@.rejected(el),
            final(self).tail() == old(self).tail(),
            final(self).head() == (if r is None {
                old(self).head() + 1
            } else {
                old(self).head()
            }),
            r is None ==> final(self).slot(old(self).head() as int) == Some(el),
    {
        if self.is_full() {
            return Some(el);
        }
        let cap: usize = self.buffer.len();
        if self.meta.head == usize::MAX {
            self.rebase();
        }
        let ghost before = *self;
        let idx: usize = self.meta.head % cap;
        self.buffer[idx] = Some(el);
        self.meta.head = self.meta.head + 1;
        proof {
            let t: int = before.tail() as int;
            let h: int = before.head() as int;
            let c: int = cap as int;
            before.lemma_cursor_slot(before.meta.head);
            assert forall|pos: int| t <= pos < t + c implies (#[trigger] self.slot(pos) is Some <==> pos
                < h + 1) by {
                if slot_of(pos, c) == slot_of(h, c) {
                    lemma_window_distinct(pos, h, t, c);
                } else {
                    assert(self.slot(pos) == before.slot(pos));
                }
            }
            assert forall|pos: int| t <= pos < h implies #[trigger] self.slot(pos) == before.slot(
                pos,
            ) by {
                if slot_of(pos, c) == slot_of(h, c) {
                    lemma_window_distinct(pos, h, t, c);
                }
            }
        }
        None
    }

    /// Takes the oldest value out of the queue. An empty queue yields nothing
    /// and stays as it was; otherwise the value is moved out of the slot of
    /// the tail position, which is left empty, and the tail moves on by one.
    /// The head is not touched.
    pub fn try_recv(&mut self) -> (r: Option<T>)
        requires
            old(self).wf(),
        ensures
            final(self).wf(),
            final(self)@ == old(self)@.recv(),
            r == old(self)@.received(),
            final(self).head() == old(self).head(),
            final(self).tail() == (if r is Some {
                old(self).tail() + 1
            } else {
                old(self).tail()
            }),
            r is Some ==> final(self).slot(old(self).tail() as int) is None,
    {
        if self.is_empty() {
            return None;
        }
        let ghost before = *self;
        let cap: usize = self.buffer.len();
        let idx: usize = self.meta.tail % cap;
        proof {
            before.lemma_cursor_slot(before.meta.tail);
        }
        let r = self.buffer[idx].take();
        self.meta.tail = self.meta.tail + 1;
        proof {
            let t: int = before.tail() as int;
            let h: int = before.head() as int;
            let c: int = cap as int;
            assert forall|pos: int| t + 1 <= pos < t + 1 + c implies (#[trigger] self.slot(pos) is Some
                <==> pos < h) by {
                if pos == t + c {
                    lemma_laps_keep_slot(t, 1, c);
                } else {
                    if slot_of(pos, c) == slot_of(t, c) {
                        lemma_window_distinct(pos, t, t, c);
                    }
                    assert(self.slot(pos) == before.slot(pos));
                }
            }
            assert forall|pos: int| t < pos < h implies #[trigger] self.slot(pos) == before.slot(
                pos,
            ) by {
                if slot_of(pos, c) == slot_of(t, c) {
                    lemma_window_distinct(pos, t, t, c);
                }
            }
        }
        r
    }

    /// Releases the sender's share of the region and says whether this was
    /// the release that frees it. If the receiver is still alive the sender
    /// is only marked as gone and the buffered values stay for the receiver.
    /// If the receiver has gone before, every value still buffered is
    /// destroyed, oldest first, and the region is ready to be given up.
    pub fn release_sender(&mut self) -> (freed: bool)
        requires
            old(self).wf(),
        ensures
            final(self).wf(),
            final(self)@ == old(self)@.release_sender(),
            freed == old(self)@.sender_frees(),
            final(self).head() == old(self).head(),
            final(self).tail() == (if freed {
                old(self).head()
            } else {
                old(self).tail()
            }),
            freed ==> final(self).vacant(),
    {
        if self.meta.tx_dropped {
            return false;
        }
        self.meta.tx_dropped = true;
        proof {
            old(self).lemma_flags_apart(self);
        }
        if self.meta.rx_dropped {
            self.drain();
            true
        } else {
            false
        }
    }

    /// Releases the receiver's share of the region; the mirror image of
    /// `release_sender`.
    pub fn release_receiver(&mut self) -> (freed: bool)
        requires
            old(self).wf(),
        ensures
            final(self).wf(),
            final(self)@ == old(self)@.release_receiver(),
            freed == old(self)@.receiver_frees(),
            final(self).head() == old(self).head(),
            final(self).tail() == (if freed {
                old(self).head()
            } else {
                old(self).tail()
            }),
            freed ==> final(self).vacant(),
    {
        if self.meta.rx_dropped {
            return false;
        }
        self.meta.rx_dropped = true;
        proof {
            old(self).lemma_flags_apart(self);
        }
        if self.meta.tx_dropped {
            self.drain();
            true
        } else {
            false
        }
    }

    /// Destroys the buffered values one by one, oldest first, which moves the
    /// tail up to the head.
    fn drain(&mut self)
        requires
            old(self).wf(),
        ensures
            final(self).wf(),
            final(self)@ == (Queue { items: Seq::empty(), ..old(self)@ }),
            final(self).head() == old(self).head(),
            final(self).tail() == old(self).head(),
            final(self).vacant(),
    {
        let ghost before = *self;
        while !self.is_empty()
            invariant
                self.wf(),
                self@.capacity == before@.capacity,
                self@.producer_gone == before@.producer_gone,
                self@.consumer_gone == before@.consumer_gone,
                self.head() == before.head(),
            decreases self@.items.len(),
        {
            let oldest = self.try_recv();
        }
        proof {
            self.lemma_cursors();
            self.lemma_vacant_iff_empty();
        }
    }

    /// The number of slots, fixed when the region was made.
    pub fn capacity(&self) -> (cap: usize)
        ensures
            cap == self@.capacity,
    {
        self.buffer.len()
    }

    /// The number of values buffered: the distance from tail to head.
    pub fn len(&self) -> (len: usize)
        requires
            self.wf(),
        ensures
            len == self@.items.len(),
            len == self.head() - self.tail(),
    {
        self.meta.head - self.meta.tail
    }

    /// Whether the tail has caught up with the head.
    pub fn is_empty(&self) -> (empty: bool)
        requires
            self.wf(),
        ensures
            empty == self@.is_empty(),
            empty == (self.tail() == self.head()),
    {
        self.meta.tail == self.meta.head
    }

    /// Whether the head is a whole lap ahead of the tail.
    pub fn is_full(&self) -> (full: bool)
        requires
            self.wf(),
        ensures
            full == self@.is_full(),
            full == (self.head() - self.tail() == self@.capacity),
    {
        self.meta.head - self.meta.tail == self.buffer.len()
    }

    /// Lowers both machine cursors by the same whole number of laps, so that
    /// the tail comes to lie in the first lap and the head gains room to
    /// count on. The positions they stand for, the slots and the buffered
    /// values are untouched.
    fn rebase(&mut self)
        requires
            old(self).wf(),
            old(self).buffer@.len() > 0,
        ensures
            final(self).wf(),
            final(self)@ == old(self)@,
            final(self).head() == old(self).head(),
            final(self).tail() == old(self).tail(),
            final(self).buffer@ == old(self).buffer@,
            final(self).meta.tail < final(self).buffer@.len(),
    {
        let ghost before = *self;
        let cap: usize = self.buffer.len();
        let low: usize = self.meta.tail % cap;
        proof {
            lemma_mod_decreases(self.meta.tail as nat, cap as nat);
        }
        let shift: usize = self.meta.tail - low;
        self.meta.tail = low;
        self.meta.head = self.meta.head - shift;
        self.lowered = Ghost((self.lowered@ + shift) as nat);
        proof {
            let c: int = cap as int;
            let laps: int = before.meta.tail as int / c;
            lemma_fundamental_div_mod(before.meta.tail as int, c);
            assert(shift == laps * c) by (nonlinear_arith)
                requires
                    before.meta.tail == c * laps + low,
                    shift == before.meta.tail - low,
            ;
            lemma_laps_keep_slot(before.lowered@ as int, laps, c);
            assert forall|pos: int| #[trigger] self.slot(pos) == before.slot(pos) by {}
        }
    }
}

} // verus!
