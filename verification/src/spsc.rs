//! The two handles of a channel and the constructor that makes them.
//!
//! Both handles point at one region behind a lock, which either side holds
//! for the few steps of one operation. What the lock hands out depends on
//! what the other side has done in the meantime, so the contracts here say
//! what holds of every region the lock can hold; what an operation does to a
//! given region is stated exactly on [`Shared`].
//!
//! A handle is given up with `close`. A handle that merely goes out of scope
//! releases nothing: its share of the region stays taken, and so the region
//! stays allocated.
use crate::cursor::MAX_CAPACITY;
use crate::ring::Shared;
use std::sync::Arc;
use vstd::prelude::*;
use vstd::rwlock::RwLock;
use vstd::rwlock::RwLockPredicate;

verus! {

/// What the lock promises of the region it guards: the region is well formed
/// and its capacity is the one it was made with.
struct Shape {
    capacity: usize,
}

impl<T> RwLockPredicate<Shared<T>> for Shape {
    closed spec fn inv(self, v: Shared<T>) -> bool {
        v.wf() && v@.capacity == self.capacity
    }
}

/// The writing end of a channel. There is one per channel and it cannot be
/// duplicated.
pub struct Sender<T> {
    shared: Arc<RwLock<Shared<T>, Shape>>,
}

/// The reading end of a channel. There is one per channel and it cannot be
/// duplicated.
pub struct Receiver<T> {
    shared: Arc<RwLock<Shared<T>, Shape>>,
}

/// `Arc::clone` of the standard library: it returns a second pointer to the
/// allocation that `first` points to. Nothing is copied, so the two pointers
/// hold the same value.
#[verifier::external_body]
fn second_owner<T>(first: &Arc<T>) -> (second: Arc<T>)
    ensures
        second == *first,
{
    Arc::clone(first)
}

/// Makes a channel of `cap` slots and returns its two ends. The region starts
/// empty, with both cursors at zero and both handles alive. A channel of zero
/// slots is permanently full and empty at once. Failing to allocate the
/// region is fatal.
pub fn new<T>(cap: usize) -> (pair: (Sender<T>, Receiver<T>))
    requires
        cap <= MAX_CAPACITY,
    ensures
        pair.0.capacity() == cap,
        pair.1.capacity() == cap,
        pair.0.is_peer_of(&pair.1),
{
    let region = Shared::<T>::new(cap);
    let tx = Arc::new(RwLock::new(region, Ghost(Shape { capacity: cap })));
    let rx = second_owner(&tx);
    (Sender { shared: tx }, Receiver { shared: rx })
}

impl<T> Sender<T> {
    /// The capacity of the channel this handle belongs to.
    pub closed spec fn capacity(&self) -> nat {
        self.shared.pred().capacity as nat
    }

    /// Whether `rx` is the other end of this handle's channel.
    pub closed spec fn is_peer_of(&self, rx: &Receiver<T>) -> bool {
        self.shared == rx.shared
    }

    /// Offers `el` to the channel without waiting for room. `None` means the
    /// value was taken; `Some` hands the same value back because the queue was
    /// full. A channel of capacity zero hands every value back.
    pub fn try_send(&mut self, el: T) -> (r: Option<T>)
        ensures
            r matches Some(back) ==> back == el,
            old(self).capacity() == 0 ==> r is Some,
            *final(self) == *old(self),
    {
        let (mut region, guard) = self.shared.acquire_write();
        proof {
            region.lemma_valid();
        }
        let r = region.try_send(el);
        guard.release_write(region);
        r
    }

    /// Gives up the sending end. If the receiver is still alive the sender is
    /// marked as gone and `false` is returned. If the receiver went first,
    /// this call destroys what is still buffered, frees the region and
    /// returns `true`.
    pub fn close(self) -> (freed: bool) {
        let (mut region, guard) = self.shared.acquire_write();
        let freed = region.release_sender();
        if !freed {
            guard.release_write(region);
        }
        freed
    }
}

impl<T> Receiver<T> {
    /// The capacity of the channel this handle belongs to.
    pub closed spec fn capacity(&self) -> nat {
        self.shared.pred().capacity as nat
    }

    /// Takes the oldest value out of the channel without waiting for one.
    /// `None` means the queue was empty. A channel of capacity zero is always
    /// empty.
    pub fn try_recv(&mut self) -> (r: Option<T>)
        ensures
            old(self).capacity() == 0 ==> r is None,
            *final(self) == *old(self),
    {
        let (mut region, guard) = self.shared.acquire_write();
        proof {
            region.lemma_valid();
        }
        let r = region.try_recv();
        guard.release_write(region);
        r
    }

    /// Gives up the receiving end; the mirror image of `Sender::close`.
    pub fn close(self) -> (freed: bool) {
        let (mut region, guard) = self.shared.acquire_write();
        let freed = region.release_receiver();
        if !freed {
            guard.release_write(region);
        }
        freed
    }
}

} // verus!
