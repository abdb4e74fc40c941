use vstd::prelude::*;

use vstd::arithmetic::div_mod::{
    lemma_add_mod_noop, lemma_fundamental_div_mod, lemma_mod_multiples_basic,
    lemma_mod_multiples_vanish, lemma_mod_self_0, lemma_small_mod,
};
use vstd::arithmetic::power2::{
    lemma2_to64, lemma_pow2_adds, lemma_pow2_pos, lemma_pow2_strictly_increases, pow2,
};
use vstd::bits::{
    lemma_usize_low_bits_mask_is_mod, lemma_usize_pow2_no_overflow, lemma_usize_shl_is_mul,
};

use super::ring_buffer_trait::{advance_count, next_count};

verus! {

/// `n` is a power of two: `n == 2^k` for some `k`.
pub open spec fn is_power_of_two(n: usize) -> bool {
    exists|k: nat| n == pow2(k)
}

/// How many steps a wrapping `usize` counter at `tail` must take to reach
/// `head`: their distance modulo `usize::MAX + 1`.
pub open spec fn counter_distance(head: usize, tail: usize) -> int {
    if head >= tail {
        head - tail
    } else {
        head - tail + usize::MAX + 1
    }
}

/// How many of `offered` items fit into a ring of `capacity` slots whose
/// producer counter is `head` and consumer counter `tail`: none when it is
/// full (or, what the protocol never lets happen, over-full), else as many as
/// there are free slots, up to `offered`.
pub open spec fn room_for(head: usize, tail: usize, capacity: usize, offered: usize) -> int {
    if counter_distance(head, tail) >= capacity {
        0
    } else if offered < capacity - counter_distance(head, tail) {
        offered as int
    } else {
        capacity - counter_distance(head, tail)
    }
}

/// How many items, up to `wanted`, a ring whose producer counter is `head`
/// and consumer counter `tail` holds for the consumer.
pub open spec fn ready_for(head: usize, tail: usize, wanted: usize) -> int {
    if counter_distance(head, tail) < wanted {
        counter_distance(head, tail)
    } else {
        wanted as int
    }
}

/// The slots of the `n` consecutive counters from `start` on, in a ring of
/// `capacity` slots.
pub open spec fn slot_run(start: usize, n: nat, capacity: usize) -> Seq<usize> {
    Seq::new(n, |k: int| (advance_count(start, k as usize) % capacity) as usize)
}

/// Whether `n` is a power of two (what `usize::is_power_of_two` answers).
pub fn power_of_two(n: usize) -> (r: bool)
    ensures
        r == is_power_of_two(n),
{
    let mut k: usize = 0;
    while k < usize::BITS as usize
        invariant
            k <= usize::BITS,
            forall|j: nat| j < k ==> n != pow2(j),
        decreases usize::BITS - k,
    {
        proof {
            lemma_usize_pow2_no_overflow(k as nat);
            lemma_usize_shl_is_mul(1, k);
        }
        if 1usize << k == n {
            return true;
        }
        k = k + 1;
    }
    proof {
        assert forall|j: nat| n != pow2(j) by {
            if j >= usize::BITS {
                lemma_pow2_word_exceeds(j);
            }
        }
    }
    false
}

/// The number of items between a consumer counter `tail` and a producer
/// counter `head`, both of which wrap.
pub fn occupied(head: usize, tail: usize) -> (n: usize)
    ensures
        n == counter_distance(head, tail),
{
    head.wrapping_sub(tail)
}

/// The slot that wrapping counter `counter` denotes in a ring of `capacity`
/// slots, found by masking: `capacity` is a power of two.
pub fn slot_of(counter: usize, capacity: usize) -> (i: usize)
    requires
        is_power_of_two(capacity),
    ensures
        i == counter % capacity,
        i < capacity,
{
    proof {
        lemma_mask_is_mod(counter, capacity);
    }
    counter & (capacity - 1)
}

/// Where a producer at counter `head` writes its next item, given the
/// consumer counter `tail` it observed: nowhere when the ring was seen full,
/// else the slot of `head`.
pub fn producer_slot(head: usize, tail: usize, capacity: usize) -> (slot: Option<usize>)
    requires
        is_power_of_two(capacity),
    ensures
        slot == if counter_distance(head, tail) == capacity {
            None
        } else {
            Some((head % capacity) as usize)
        },
        slot matches Some(i) ==> i < capacity,
{
    if occupied(head, tail) == capacity {
        None
    } else {
        Some(slot_of(head, capacity))
    }
}

/// Where a consumer at counter `tail` takes its next item, given the producer
/// counter `head` it observed: nowhere when the counters are equal, else the
/// slot of `tail`.
pub fn consumer_slot(head: usize, tail: usize, capacity: usize) -> (slot: Option<usize>)
    requires
        is_power_of_two(capacity),
    ensures
        slot == if head == tail {
            None
        } else {
            Some((tail % capacity) as usize)
        },
        slot matches Some(i) ==> i < capacity,
{
    if head == tail {
        None
    } else {
        Some(slot_of(tail, capacity))
    }
}

/// How many of `offered` items a producer at counter `head` publishes in one
/// batch, given the consumer counter `tail` it observed: as many as there is
/// room for, and none when the ring was seen full (or, what the protocol
/// never lets happen, over-full).
pub fn producer_room(head: usize, tail: usize, capacity: usize, offered: usize) -> (n: usize)
    ensures
        n == room_for(head, tail, capacity, offered),
        n <= offered,
        counter_distance(head, tail) + n <= capacity || n == 0,
        counter_distance(head, tail) < capacity ==> (n == offered || counter_distance(head, tail)
            + n == capacity),
{
    proof {
        lemma_room_fills(head, tail, capacity, offered);
    }
    let used = occupied(head, tail);
    if used >= capacity {
        return 0;
    }
    let available = capacity - used;
    if offered < available {
        offered
    } else {
        available
    }
}

/// How many items a consumer at counter `tail` takes in one batch of at most
/// `wanted`, given the producer counter `head` it observed.
pub fn consumer_ready(head: usize, tail: usize, wanted: usize) -> (n: usize)
    ensures
        n == ready_for(head, tail, wanted),
        n <= wanted,
        n <= counter_distance(head, tail),
        n == wanted || n == counter_distance(head, tail),
{
    proof {
        lemma_ready_takes(head, tail, wanted);
    }
    let available = occupied(head, tail);
    if available < wanted {
        available
    } else {
        wanted
    }
}

/// A batch publishes as many items as fit: never more than offered, never
/// past the capacity, and, unless the ring was seen full (or over-full), it
/// stops only when the offered items run out or the ring is full. So a ring
/// with a free slot takes at least one offered item.
pub proof fn lemma_room_fills(head: usize, tail: usize, capacity: usize, offered: usize)
    ensures
        0 <= room_for(head, tail, capacity, offered) <= offered,
        counter_distance(head, tail) >= capacity ==> room_for(head, tail, capacity, offered) == 0,
        counter_distance(head, tail) < capacity ==> counter_distance(head, tail) + room_for(
            head,
            tail,
            capacity,
            offered,
        ) <= capacity,
        counter_distance(head, tail) < capacity ==> (room_for(head, tail, capacity, offered)
            == offered || counter_distance(head, tail) + room_for(head, tail, capacity, offered)
            == capacity),
        counter_distance(head, tail) < capacity && offered >= 1 ==> room_for(
            head,
            tail,
            capacity,
            offered,
        ) >= 1,
{
}

/// A batch takes as many items as are there, up to the number wanted: never
/// more than wanted or than the ring holds, and fewer than wanted only when
/// it takes all the ring holds. So a batch that wants at least one item of a
/// ring that holds one takes one.
pub proof fn lemma_ready_takes(head: usize, tail: usize, wanted: usize)
    ensures
        0 <= ready_for(head, tail, wanted) <= wanted,
        ready_for(head, tail, wanted) <= counter_distance(head, tail),
        ready_for(head, tail, wanted) == wanted || ready_for(head, tail, wanted)
            == counter_distance(head, tail),
        wanted >= 1 && counter_distance(head, tail) >= 1 ==> ready_for(head, tail, wanted) >= 1,
{
}

/// Every power of two from the word size on exceeds `usize::MAX`, and
/// `usize::MAX + 1` is the power of two of the word size.
pub proof fn lemma_pow2_word_exceeds(j: nat)
    ensures
        usize::MAX + 1 == pow2(usize::BITS as nat),
        j >= usize::BITS ==> pow2(j) > usize::MAX,
{
    lemma2_to64();
    if j >= usize::BITS {
        if j > usize::BITS {
            lemma_pow2_strictly_increases(usize::BITS as nat, j);
        }
    }
}

/// The exponent of a power of two that fits in a `usize` is below the word
/// size.
proof fn lemma_exponent_fits(n: usize, k: nat)
    requires
        n == pow2(k),
    ensures
        k < usize::BITS,
{
    lemma_pow2_word_exceeds(k);
}

/// Masking with `n - 1` takes the remainder by `n` when `n` is a power of two.
pub proof fn lemma_mask_is_mod(x: usize, n: usize)
    requires
        is_power_of_two(n),
    ensures
        n > 0,
        x & ((n - 1) as usize) == x % n,
{
    let k = choose|k: nat| n == pow2(k);
    lemma_exponent_fits(n, k);
    lemma_pow2_pos(k);
    lemma_usize_low_bits_mask_is_mod(x, k);
}

/// Consecutive counter values denote consecutive slots, going around the
/// ring, also where the counter itself wraps to 0: a power of two divides
/// `usize::MAX + 1`.
pub proof fn lemma_next_slot(x: usize, n: usize)
    requires
        is_power_of_two(n),
    ensures
        next_count(x) % n == (x % n + 1) % (n as int),
{
    let k = choose|k: nat| n == pow2(k);
    lemma_exponent_fits(n, k);
    lemma_pow2_pos(k);
    lemma_add_mod_noop(x as int, 1, n as int);
    if n == 1 {
        lemma_mod_self_0(1);
        lemma_mod_multiples_basic(x as int, 1);
        lemma_mod_multiples_basic(next_count(x) as int, 1);
    } else {
        lemma_small_mod(1, n as nat);
    }
    if x == usize::MAX {
        lemma_pow2_word_exceeds(0);
        lemma_pow2_adds((usize::BITS - k) as nat, k);
        lemma_mod_multiples_basic(pow2((usize::BITS - k) as nat) as int, n as int);
        lemma_mod_self_0(n as int);
        lemma_small_mod(0, n as nat);
    }
}

/// Publishing one item puts the producer counter one step further from the
/// consumer counter, and taking one brings the consumer counter one step
/// closer, across wrap-around too.
pub proof fn lemma_distance_steps(head: usize, tail: usize)
    ensures
        counter_distance(head, tail) < usize::MAX ==> counter_distance(next_count(head), tail)
            == counter_distance(head, tail) + 1,
        counter_distance(head, tail) > 0 ==> counter_distance(head, next_count(tail))
            == counter_distance(head, tail) - 1,
        counter_distance(head, head) == 0,
{
}

/// A counter advanced by `n` steps is `n` steps further from any counter
/// that stays, as long as the distance stays below a full turn.
pub proof fn lemma_distance_advance(head: usize, tail: usize, n: usize)
    requires
        counter_distance(head, tail) + n <= usize::MAX,
    ensures
        counter_distance(advance_count(head, n), tail) == counter_distance(head, tail) + n,
{
}

/// Advancing a counter by `n` steps moves its slot `n` slots around the
/// ring, also where the counter wraps: a power of two divides
/// `usize::MAX + 1`.
pub proof fn lemma_advance_slot(count: usize, n: usize, capacity: usize)
    requires
        is_power_of_two(capacity),
    ensures
        advance_count(count, n) % capacity == (count + n) % (capacity as int),
{
    let k = choose|k: nat| capacity == pow2(k);
    lemma_exponent_fits(capacity, k);
    lemma_pow2_pos(k);
    if count + n > usize::MAX {
        lemma_pow2_word_exceeds(0);
        lemma_pow2_adds((usize::BITS - k) as nat, k);
        let q = pow2((usize::BITS - k) as nat) as int;
        assert(usize::MAX + 1 == capacity * q) by (nonlinear_arith)
            requires
                usize::MAX + 1 == q * capacity,
        ;
        lemma_mod_multiples_vanish(-q, count + n, capacity as int);
        assert(capacity * -q + (count + n) == count + n - (usize::MAX + 1)) by (nonlinear_arith)
            requires
                usize::MAX + 1 == capacity * q,
        ;
    }
}

/// The slots that hold unread items, those of the counters from `tail` up to
/// `head`, are all different from the slot of `head`, into which the producer
/// writes next: a producer that stops at a full ring never overwrites an item
/// the consumer has not taken.
pub proof fn lemma_unread_slots_differ(head: usize, tail: usize, capacity: usize, j: usize)
    requires
        is_power_of_two(capacity),
        counter_distance(head, tail) < capacity,
        j < counter_distance(head, tail),
    ensures
        advance_count(tail, j) % capacity != head % capacity,
{
    let d = counter_distance(head, tail) as usize;
    lemma_mask_is_mod(0, capacity);
    lemma_advance_slot(tail, j, capacity);
    lemma_advance_slot(tail, d, capacity);
    assert(advance_count(tail, d) == head);
    let c = capacity as int;
    let x = tail + j;
    let y = tail + d;
    lemma_fundamental_div_mod(x, c);
    lemma_fundamental_div_mod(y, c);
    if x % c == y % c {
        assert(c * (y / c - x / c) == y - x) by (nonlinear_arith)
            requires
                x == c * (x / c) + x % c,
                y == c * (y / c) + y % c,
                x % c == y % c,
        ;
        assert(false) by (nonlinear_arith)
            requires
                c * (y / c - x / c) == y - x,
                0 < y - x < c,
        ;
    }
}

/// A batch of `n` items that fits the room left after the unread items,
/// those of the counters from `tail` up to `head`, lands in slots none of
/// which holds an unread item: the `k`-th item of the batch, that of counter
/// `head + k`, goes where none of them is.
pub proof fn lemma_batch_misses_unread(
    head: usize,
    tail: usize,
    capacity: usize,
    n: usize,
    k: usize,
    j: usize,
)
    requires
        is_power_of_two(capacity),
        counter_distance(head, tail) + n <= capacity,
        k < n,
        j < counter_distance(head, tail),
    ensures
        advance_count(head, k) % capacity != advance_count(tail, j) % capacity,
{
    lemma_distance_advance(head, tail, k);
    lemma_unread_slots_differ(advance_count(head, k), tail, capacity, j);
}

} // verus!
