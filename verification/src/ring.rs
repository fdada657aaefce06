//! Index arithmetic on a ring of slots.
//!
//! A ring queue numbers its elements from the oldest one on; the slots of its
//! buffer are numbered from the start of the buffer. This module maps the
//! first numbering to the second.

use vstd::arithmetic::div_mod::lemma_fundamental_div_mod_converse;
use vstd::prelude::*;

verus! {

/// The slot that lies `offset` steps after slot `head` in a ring of
/// `capacity` slots.
pub open spec fn ring_index(head: int, offset: int, capacity: int) -> int {
    (head + offset) % capacity
}

/// Going round the ring needs at most one subtraction: while `head` is a slot
/// of the ring and `offset` is no more than one full turn, the slot is
/// `head + offset`, less `capacity` where that runs past the end.
pub proof fn lemma_ring_index(head: int, offset: int, capacity: int)
    requires
        0 <= head < capacity,
        0 <= offset <= capacity,
    ensures
        0 <= ring_index(head, offset, capacity) < capacity,
        ring_index(head, offset, capacity) == if head + offset < capacity {
            head + offset
        } else {
            head + offset - capacity
        },
{
    if head + offset < capacity {
        lemma_fundamental_div_mod_converse(head + offset, capacity, 0, head + offset);
    } else {
        lemma_fundamental_div_mod_converse(head + offset, capacity, 1, head + offset - capacity);
    }
}

/// Computes `ring_index` without leaving the range of `usize`.
pub fn physical_index(head: usize, offset: usize, capacity: usize) -> (slot: usize)
    requires
        head < capacity,
        offset <= capacity,
    ensures
        slot == ring_index(head as int, offset as int, capacity as int),
        slot < capacity,
{
    proof {
        lemma_ring_index(head as int, offset as int, capacity as int);
    }
    let room: usize = capacity - head;
    if offset < room {
        head + offset
    } else {
        offset - room
    }
}

} // verus!
