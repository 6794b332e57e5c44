//! The abstract queue: what a shared region is, seen from outside.
use vstd::prelude::*;

verus! {

/// How far the teardown of one handle pair has come.
pub enum Phase {
    /// Neither handle has been released.
    BothAlive,
    /// Exactly one handle has been released; the region is still allocated.
    OneGone,
    /// Both handles have been released; the region has been given up.
    Freed,
}

/// One attempt on a queue: to send a value, or to receive one.
pub enum Step<T> {
    Send(T),
    Recv,
}

/// The state of one channel as a mathematical value.
///
/// `items` are the buffered values, oldest first. In terms of the cursors,
/// `items.len()` is `head - tail` and `items[k]` is the value written at
/// position `tail + k`.
#[verifier::ext_equal]
pub struct Queue<T> {
    pub items: Seq<T>,
    pub capacity: nat,
    pub producer_gone: bool,
    pub consumer_gone: bool,
}

impl<T> Queue<T> {
    /// A newly constructed queue: nothing buffered, both handles alive.
    pub open spec fn fresh(capacity: nat) -> Self {
        Queue { items: Seq::empty(), capacity, producer_gone: false, consumer_gone: false }
    }

    /// The queue never holds more than its capacity.
    pub open spec fn valid(self) -> bool {
        self.items.len() <= self.capacity
    }

    pub open spec fn is_full(self) -> bool {
        self.items.len() == self.capacity
    }

    pub open spec fn is_empty(self) -> bool {
        self.items.len() == 0
    }

    /// The queue after an attempt to send `v`.
    pub open spec fn send(self, v: T) -> Self {
        if self.is_full() {
            self
        } else {
            Queue { items: self.items.push(v), ..self }
        }
    }

    /// What an attempt to send `v` hands back: the value itself when the
    /// queue is full, nothing when the value was taken.
    pub open spec fn rejected(self, v: T) -> Option<T> {
        if self.is_full() {
            Some(v)
        } else {
            None
        }
    }

    /// The queue after an attempt to receive.
    pub open spec fn recv(self) -> Self {
        if self.is_empty() {
            self
        } else {
            Queue { items: self.items.drop_first(), ..self }
        }
    }

    /// What an attempt to receive yields: the oldest value, if there is one.
    pub open spec fn received(self) -> Option<T> {
        if self.is_empty() {
            None
        } else {
            Some(self.items[0])
        }
    }

    /// The queue after every value of `vs` has been offered in order.
    pub open spec fn send_all(self, vs: Seq<T>) -> Self
        decreases vs.len(),
    {
        if vs.len() == 0 {
            self
        } else {
            self.send_all(vs.drop_last()).send(vs.last())
        }
    }

    /// The queue after `n` attempts to receive.
    pub open spec fn recv_n(self, n: nat) -> Self
        decreases n,
    {
        if n == 0 {
            self
        } else {
            self.recv_n((n - 1) as nat).recv()
        }
    }

    /// The queue after one attempt.
    pub open spec fn step(self, s: Step<T>) -> Self {
        match s {
            Step::Send(v) => self.send(v),
            Step::Recv => self.recv(),
        }
    }

    /// The queue after a run of attempts, sends and receives in any order.
    pub open spec fn run(self, steps: Seq<Step<T>>) -> Self
        decreases steps.len(),
    {
        if steps.len() == 0 {
            self
        } else {
            self.run(steps.drop_last()).step(steps.last())
        }
    }

    /// The values that the sends of a run got into the queue, in the order in
    /// which they were sent.
    pub open spec fn taken(self, steps: Seq<Step<T>>) -> Seq<T>
        decreases steps.len(),
    {
        if steps.len() == 0 {
            Seq::empty()
        } else {
            let earlier = self.taken(steps.drop_last());
            match steps.last() {
                Step::Send(v) => if self.run(steps.drop_last()).rejected(v) is None {
                    earlier.push(v)
                } else {
                    earlier
                },
                Step::Recv => earlier,
            }
        }
    }

    /// The values that the receives of a run yielded, in the order in which
    /// they came out.
    pub open spec fn given(self, steps: Seq<Step<T>>) -> Seq<T>
        decreases steps.len(),
    {
        if steps.len() == 0 {
            Seq::empty()
        } else {
            let earlier = self.given(steps.drop_last());
            match steps.last() {
                Step::Send(_) => earlier,
                Step::Recv => match self.run(steps.drop_last()).received() {
                    Some(v) => earlier.push(v),
                    None => earlier,
                },
            }
        }
    }

    pub open spec fn phase(self) -> Phase {
        if self.producer_gone && self.consumer_gone {
            Phase::Freed
        } else if self.producer_gone || self.consumer_gone {
            Phase::OneGone
        } else {
            Phase::BothAlive
        }
    }

    /// Whether releasing the sender now is the release that frees the region:
    /// it is when the receiver has gone before and the sender has not.
    pub open spec fn sender_frees(self) -> bool {
        !self.producer_gone && self.consumer_gone
    }

    /// Whether releasing the receiver now is the release that frees the region.
    pub open spec fn receiver_frees(self) -> bool {
        !self.consumer_gone && self.producer_gone
    }

    /// The queue after the sender has been released. The release that frees
    /// destroys every value still buffered; the other one only marks the
    /// sender as gone. Releasing a sender that is already gone changes nothing.
    pub open spec fn release_sender(self) -> Self {
        if self.producer_gone {
            self
        } else if self.consumer_gone {
            Queue { items: Seq::empty(), producer_gone: true, ..self }
        } else {
            Queue { producer_gone: true, ..self }
        }
    }

    /// The queue after the receiver has been released; the mirror image of
    /// `release_sender`.
    pub open spec fn release_receiver(self) -> Self {
        if self.consumer_gone {
            self
        } else if self.producer_gone {
            Queue { items: Seq::empty(), consumer_gone: true, ..self }
        } else {
            Queue { consumer_gone: true, ..self }
        }
    }
}

} // verus!
