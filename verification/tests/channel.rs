use spsc_ring::spsc::new;
use std::cell::Cell;
use std::rc::Rc;

/// An element that counts how often it is destroyed.
struct Counted {
    id: u32,
    destroyed: Rc<Cell<usize>>,
}

impl Drop for Counted {
    fn drop(&mut self) {
        self.destroyed.set(self.destroyed.get() + 1);
    }
}

fn counted(id: u32, destroyed: &Rc<Cell<usize>>) -> Counted {
    Counted { id, destroyed: Rc::clone(destroyed) }
}

#[test]
fn create() {
    let (mut tx, mut rx) = new::<u32>(10);
    tx.try_send(10);
    tx.try_send(20);
    assert_eq!(rx.try_recv(), Some(10));
    assert_eq!(rx.try_recv(), Some(20));
}

#[test]
fn values_come_out_in_the_order_sent() {
    let (mut tx, mut rx) = new::<u64>(8);
    for v in [7u64, 3, 9, 1, 1, 42] {
        assert_eq!(tx.try_send(v), None);
    }
    for v in [7u64, 3, 9, 1, 1, 42] {
        assert_eq!(rx.try_recv(), Some(v));
    }
    assert_eq!(rx.try_recv(), None);
}

#[test]
fn send_then_receive_yields_the_value() {
    let (mut tx, mut rx) = new::<String>(1);
    assert_eq!(tx.try_send(String::from("ping")), None);
    assert_eq!(rx.try_recv(), Some(String::from("ping")));
    assert_eq!(rx.try_recv(), None);
}

#[test]
fn full_channel_hands_the_value_back() {
    let (mut tx, mut rx) = new::<String>(3);
    assert_eq!(tx.try_send(String::from("a")), None);
    assert_eq!(tx.try_send(String::from("b")), None);
    assert_eq!(tx.try_send(String::from("c")), None);
    assert_eq!(tx.try_send(String::from("d")), Some(String::from("d")));
    assert_eq!(tx.try_send(String::from("e")), Some(String::from("e")));
    assert_eq!(rx.try_recv(), Some(String::from("a")));
    assert_eq!(rx.try_recv(), Some(String::from("b")));
    assert_eq!(rx.try_recv(), Some(String::from("c")));
    assert_eq!(rx.try_recv(), None);
}

#[test]
fn room_returns_after_a_receive() {
    let (mut tx, mut rx) = new::<u8>(2);
    assert_eq!(tx.try_send(1), None);
    assert_eq!(tx.try_send(2), None);
    assert_eq!(tx.try_send(3), Some(3));
    assert_eq!(rx.try_recv(), Some(1));
    assert_eq!(tx.try_send(3), None);
    assert_eq!(tx.try_send(4), Some(4));
    assert_eq!(rx.try_recv(), Some(2));
    assert_eq!(rx.try_recv(), Some(3));
    assert_eq!(rx.try_recv(), None);
}

#[test]
fn fresh_channel_is_empty() {
    let (_tx, mut rx) = new::<u32>(4);
    assert_eq!(rx.try_recv(), None);
    assert_eq!(rx.try_recv(), None);
}

#[test]
fn zero_capacity_channel_takes_and_gives_nothing() {
    let (mut tx, mut rx) = new::<u32>(0);
    for v in 0u32..5 {
        assert_eq!(tx.try_send(v), Some(v));
        assert_eq!(rx.try_recv(), None);
    }
}

#[test]
fn slots_are_reused_lap_after_lap() {
    let (mut tx, mut rx) = new::<u32>(3);
    let mut next_in: u32 = 0;
    let mut next_out: u32 = 0;
    for round in 0u32..1000 {
        let burst = 1 + round % 3;
        for _ in 0..burst {
            assert_eq!(tx.try_send(next_in), None);
            next_in += 1;
        }
        for _ in 0..burst {
            assert_eq!(rx.try_recv(), Some(next_out));
            next_out += 1;
        }
        assert_eq!(rx.try_recv(), None);
    }
    assert_eq!(next_out, next_in);
}

#[test]
fn interleaved_polling_loses_and_repeats_nothing() {
    let (mut tx, mut rx) = new::<u32>(5);
    let mut collected: Vec<u32> = Vec::new();
    let mut next: u32 = 0;
    while collected.len() < 2000 {
        for _ in 0..7 {
            if next < 2000 && tx.try_send(next).is_none() {
                next += 1;
            }
        }
        for _ in 0..4 {
            if let Some(v) = rx.try_recv() {
                collected.push(v);
            }
        }
    }
    let expected: Vec<u32> = (0u32..2000).collect();
    assert_eq!(collected, expected);
}

#[test]
fn sender_closed_first_leaves_the_free_to_the_receiver() {
    let (tx, rx) = new::<u32>(4);
    assert_eq!(tx.close(), false);
    assert_eq!(rx.close(), true);
}

#[test]
fn receiver_closed_first_leaves_the_free_to_the_sender() {
    let (tx, rx) = new::<u32>(4);
    assert_eq!(rx.close(), false);
    assert_eq!(tx.close(), true);
}

#[test]
fn receiver_drains_after_the_sender_has_closed() {
    let (mut tx, mut rx) = new::<u32>(4);
    assert_eq!(tx.try_send(1), None);
    assert_eq!(tx.try_send(2), None);
    assert_eq!(tx.close(), false);
    assert_eq!(rx.try_recv(), Some(1));
    assert_eq!(rx.try_recv(), Some(2));
    assert_eq!(rx.try_recv(), None);
    assert_eq!(rx.close(), true);
}

#[test]
fn sender_fills_after_the_receiver_has_closed() {
    let (mut tx, rx) = new::<u32>(2);
    assert_eq!(rx.close(), false);
    assert_eq!(tx.try_send(1), None);
    assert_eq!(tx.try_send(2), None);
    assert_eq!(tx.try_send(3), Some(3));
    assert_eq!(tx.close(), true);
}

#[test]
fn closing_a_full_channel_destroys_each_value_once() {
    let destroyed = Rc::new(Cell::new(0usize));
    let (mut tx, rx) = new::<Counted>(4);
    for id in 0u32..4 {
        assert!(tx.try_send(counted(id, &destroyed)).is_none());
    }
    assert_eq!(destroyed.get(), 0);
    assert_eq!(tx.close(), false);
    assert_eq!(destroyed.get(), 0);
    assert_eq!(rx.close(), true);
    assert_eq!(destroyed.get(), 4);
}

#[test]
fn closing_receiver_first_destroys_each_value_once() {
    let destroyed = Rc::new(Cell::new(0usize));
    let (mut tx, mut rx) = new::<Counted>(3);
    for id in 0u32..3 {
        assert!(tx.try_send(counted(id, &destroyed)).is_none());
    }
    let first = rx.try_recv();
    assert_eq!(first.as_ref().map(|c| c.id), Some(0));
    drop(first);
    assert_eq!(destroyed.get(), 1);
    assert_eq!(rx.close(), false);
    assert_eq!(destroyed.get(), 1);
    assert_eq!(tx.close(), true);
    assert_eq!(destroyed.get(), 3);
}

#[test]
fn rejected_value_is_not_destroyed() {
    let destroyed = Rc::new(Cell::new(0usize));
    let (mut tx, rx) = new::<Counted>(1);
    assert!(tx.try_send(counted(1, &destroyed)).is_none());
    let back = tx.try_send(counted(2, &destroyed));
    assert_eq!(back.as_ref().map(|c| c.id), Some(2));
    assert_eq!(destroyed.get(), 0);
    drop(back);
    assert_eq!(destroyed.get(), 1);
    assert_eq!(rx.close(), false);
    assert_eq!(tx.close(), true);
    assert_eq!(destroyed.get(), 2);
}

fn must_be_send<H: Send>() {}

#[test]
fn handles_can_be_moved_to_another_thread() {
    must_be_send::<spsc_ring::spsc::Sender<u32>>();
    must_be_send::<spsc_ring::spsc::Receiver<u32>>();
    must_be_send::<spsc_ring::spsc::Sender<String>>();
    must_be_send::<spsc_ring::spsc::Receiver<Vec<u8>>>();
}
