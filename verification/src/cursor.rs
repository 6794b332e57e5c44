//! Arithmetic of cursors.
//!
//! A cursor is an unwrapped position: it counts writes (the head) or reads
//! (the tail). Only the slot index, the position modulo the capacity, wraps.
use vstd::arithmetic::div_mod::lemma_fundamental_div_mod;
use vstd::arithmetic::div_mod::lemma_mod_multiples_vanish;
use vstd::arithmetic::div_mod::lemma_small_mod;
use vstd::prelude::*;

verus! {

/// The largest capacity a region can have: twice the capacity must fit in a
/// cursor, and no allocation is larger than this many slots anyway.
pub const MAX_CAPACITY: usize = usize::MAX / 2;

/// The slot that position `pos` falls into in a ring of `cap` slots.
pub open spec fn slot_of(pos: int, cap: int) -> int {
    pos % cap
}

/// A slot index lies inside the ring.
pub proof fn lemma_slot_in_ring(pos: int, cap: int)
    requires
        0 < cap,
    ensures
        0 <= slot_of(pos, cap) < cap,
{
    lemma_fundamental_div_mod(pos, cap);
}

/// Within any window of `cap` consecutive positions no two positions share
/// a slot.
pub proof fn lemma_window_distinct(a: int, b: int, base: int, cap: int)
    requires
        0 < cap,
        base <= a < base + cap,
        base <= b < base + cap,
        slot_of(a, cap) == slot_of(b, cap),
    ensures
        a == b,
{
    lemma_fundamental_div_mod(a, cap);
    lemma_fundamental_div_mod(b, cap);
    let k: int = a / cap - b / cap;
    assert(a - b == cap * k) by (nonlinear_arith)
        requires
            a == cap * (a / cap) + (a % cap),
            b == cap * (b / cap) + (b % cap),
            a % cap == b % cap,
            k == a / cap - b / cap,
    ;
    assert(k == 0) by (nonlinear_arith)
        requires
            a - b == cap * k,
            -cap < a - b < cap,
            0 < cap,
    ;
}

/// Moving a position by whole laps of the ring keeps its slot.
pub proof fn lemma_laps_keep_slot(pos: int, laps: int, cap: int)
    requires
        0 < cap,
    ensures
        slot_of(pos + laps * cap, cap) == slot_of(pos, cap),
{
    lemma_mod_multiples_vanish(laps, pos, cap);
    assert(cap * laps + pos == pos + laps * cap) by (nonlinear_arith);
}

/// The position at which slot `j` comes up in the lap that starts at `base`.
pub open spec fn position_of(j: int, base: int, cap: int) -> int {
    let low: int = base % cap;
    if j >= low {
        base - low + j
    } else {
        base - low + cap + j
    }
}

/// Every slot comes up in every lap: the positions of one lap cover the ring.
pub proof fn lemma_lap_covers_ring(j: int, base: int, cap: int)
    requires
        0 <= j < cap,
        0 <= base,
    ensures
        base <= position_of(j, base, cap) < base + cap,
        slot_of(position_of(j, base, cap), cap) == j,
{
    let laps: int = base / cap;
    lemma_fundamental_div_mod(base, cap);
    assert(base - base % cap == laps * cap) by (nonlinear_arith)
        requires
            base == cap * laps + (base % cap),
    ;
    lemma_small_mod(j as nat, cap as nat);
    if j >= base % cap {
        lemma_laps_keep_slot(j, laps, cap);
    } else {
        lemma_laps_keep_slot(j, laps + 1, cap);
        assert((laps + 1) * cap == laps * cap + cap) by (nonlinear_arith);
    }
}

} // verus!
