use vstd::prelude::*;

verus! {

/// The slot that holds the `k`-th item of a circular window that starts at
/// slot `head` of `capacity` slots.
pub open spec fn slot_at(head: int, k: int, capacity: int) -> int {
    if head + k < capacity {
        head + k
    } else {
        head + k - capacity
    }
}

/// How many slots lie from `head` forward, going around, to slot `i`.
pub open spec fn distance_from(head: int, i: int, capacity: int) -> int {
    if i >= head {
        i - head
    } else {
        i + capacity - head
    }
}

/// Stepping a slot index forward by one with `%` wraps it to 0 at the end.
pub proof fn lemma_step_mod(x: int, capacity: int)
    requires
        0 <= x < capacity,
    ensures
        (x + 1) % capacity == if x + 1 == capacity { 0 } else { x + 1 },
{
    if x + 1 == capacity {
        vstd::arithmetic::div_mod::lemma_mod_self_0(capacity);
    } else {
        vstd::arithmetic::div_mod::lemma_small_mod((x + 1) as nat, capacity as nat);
    }
}

} // verus!
