use vstd::prelude::*;
use vstd::rwlock::{RwLock, RwLockPredicate};

use std::sync::atomic::AtomicUsize;
use std::sync::Arc;

use super::atomic_counters::{load_acquire, load_relaxed, store_release};
use super::ring_buffer_trait::{advance_count, next_count, BufferState, Consumer, Producer};
use super::ring_counters::{
    consumer_ready, consumer_slot, counter_distance, is_power_of_two, lemma_batch_misses_unread,
    occupied, producer_room, producer_slot, ready_for, room_for, slot_of, slot_run,
};

verus! {

/// Any value may sit in a slot of the ring.
struct AnySlot;

impl<T> RwLockPredicate<Option<T>> for AnySlot {
    open spec fn inv(self, v: Option<T>) -> bool {
        true
    }
}

/// The state both handles of a ring share: the slots, and two wrapping
/// counters. `head` counts the items the producer has published and `tail`
/// the items the consumer has taken; counter `c` lives in slot
/// `c % capacity`. Each slot sits behind a lock of its own, which the
/// protocol leaves uncontended: the producer only writes slots the consumer
/// has released, and the consumer only takes slots the producer has published.
struct RingBufferInner<T> {
    data: Vec<RwLock<Option<T>, AnySlot>>,
    capacity: usize,
    head: AtomicUsize,
    tail: AtomicUsize,
}

impl<T> RingBufferInner<T> {
    spec fn wf(&self) -> bool {
        &&& is_power_of_two(self.capacity)
        &&& self.data@.len() == self.capacity
    }
}

/// Calls `Arc::clone`, which returns a new pointer to the same allocation; the
/// contract claims that it dereferences to the same value.
#[verifier::external_body]
fn share<X>(shared: &Arc<X>) -> (copy: Arc<X>)
    ensures
        copy == *shared,
{
    Arc::clone(shared)
}

/// The handle that publishes items into a ring. The producer alone advances
/// `head`, so it keeps the value it last stored; it also notes, as ghosts,
/// the consumer counter it last read and the slots its last call wrote.
pub struct RingBufferProducer<T> {
    inner: Arc<RingBufferInner<T>>,
    head: usize,
    seen_tail: Ghost<usize>,
    written: Ghost<Seq<usize>>,
}

/// The handle that takes items out of a ring. The consumer alone advances
/// `tail`, so it keeps the value it last stored; it also notes, as ghosts,
/// the producer counter it last read, the slots its last call read, and
/// whether its last call found a slot it read empty.
pub struct RingBufferConsumer<T> {
    inner: Arc<RingBufferInner<T>>,
    tail: usize,
    seen_head: Ghost<usize>,
    read: Ghost<Seq<usize>>,
    found_empty: Ghost<bool>,
}

impl<T> RingBufferProducer<T> {
    /// The consumer counter this producer read last: the count of items the
    /// consumer had taken by then, as a wrapping counter.
    pub closed spec fn seen_consumed(&self) -> usize {
        self.seen_tail@
    }

    /// The slots into which this producer's last call wrote items, in the
    /// order of the items.
    pub closed spec fn written_slots(&self) -> Seq<usize> {
        self.written@
    }

    /// Whether this producer and `consumer` hold the same ring state.
    pub closed spec fn is_paired_with(&self, consumer: &RingBufferConsumer<T>) -> bool {
        self.inner == consumer.inner
    }

    /// Publishes the front of `items`, as many as the ring was seen to have
    /// room for, removes them from `items`, and returns how many it published;
    /// the items that did not fit stay in `items`, in order. How many depends
    /// on the consumer counter read from the other thread: `producer_room`
    /// gives the count for each value that read may return.
    pub fn push_batch(&mut self, items: &mut Vec<T>) -> (pushed: usize)
        requires
            old(self).wf(),
        ensures
            final(self).wf(),
            final(self).spec_capacity() == old(self).spec_capacity(),
            pushed == room_for(
                old(self).produced(),
                final(self).seen_consumed(),
                old(self).spec_capacity() as usize,
                old(items)@.len() as usize,
            ),
            pushed <= old(items)@.len(),
            pushed <= old(self).spec_capacity(),
            final(items)@ == old(items)@.subrange(pushed as int, old(items)@.len() as int),
            final(self).produced() == advance_count(old(self).produced(), pushed),
            final(self).written_slots() == slot_run(
                old(self).produced(),
                pushed as nat,
                old(self).spec_capacity() as usize,
            ),
            forall|k: int, j: int|
                0 <= k < pushed && 0 <= j < counter_distance(
                    old(self).produced(),
                    final(self).seen_consumed(),
                ) ==> #[trigger] final(self).written_slots()[k] != (#[trigger] advance_count(
                    final(self).seen_consumed(),
                    j as usize,
                ) % (old(self).spec_capacity() as usize)),
    {
        let curr_head = self.head;
        let curr_tail = load_acquire(&self.inner.tail);
        self.seen_tail = Ghost(curr_tail);
        self.written = Ghost(Seq::empty());
        let capacity = self.inner.capacity;
        let count = producer_room(curr_head, curr_tail, capacity, items.len());
        if count == 0 {
            assert(items@ =~= items@.subrange(0, items@.len() as int));
            assert(self.written@ =~= slot_run(curr_head, 0, capacity));
            return 0;
        }
        let rest = items.split_off(count);
        self.written = Ghost(Seq::new(count as nat, |k: int| 0usize));
        let mut k = count;
        while k > 0
            invariant
                items@.len() == k,
                k <= count,
                count <= capacity,
                capacity == self.inner.capacity,
                self.inner.wf(),
                self.written@.len() == count,
                self.head == curr_head,
                self.seen_tail@ == curr_tail,
                forall|j: int|
                    k <= j < count ==> self.written@[j] == slot_run(curr_head, count as nat, capacity)[j],
            decreases k,
        {
            let item = items.pop().unwrap();
            k = k - 1;
            let index = slot_of(curr_head.wrapping_add(k), capacity);
            let (_previous, slot) = self.inner.data[index].acquire_write();
            slot.release_write(Some(item));
            self.written = Ghost(self.written@.update(k as int, index));
        }
        *items = rest;
        assert(self.written@ =~= slot_run(curr_head, count as nat, capacity));
        assert forall|a: int, j: int|
            0 <= a < count && 0 <= j < counter_distance(curr_head, curr_tail) implies
            #[trigger] self.written@[a] != (#[trigger] advance_count(curr_tail, j as usize)
                % capacity) by {
            lemma_batch_misses_unread(curr_head, curr_tail, capacity, count, a as usize, j as usize);
        }
        let next = curr_head.wrapping_add(count);
        store_release(&self.inner.head, next);
        self.head = next;
        count
    }
}

impl<T> RingBufferConsumer<T> {
    /// The producer counter this consumer read last: the count of items the
    /// producer had published by then, as a wrapping counter.
    pub closed spec fn seen_produced(&self) -> usize {
        self.seen_head@
    }

    /// The slots from which this consumer's last call took, in order.
    pub closed spec fn read_slots(&self) -> Seq<usize> {
        self.read@
    }

    /// Whether this consumer's last call found a slot it read empty, which
    /// the protocol never lets happen to a published slot.
    pub closed spec fn found_empty(&self) -> bool {
        self.found_empty@
    }

    /// Takes up to `max_items` of the published items, oldest first, and
    /// returns them: as many as were published, up to `max_items`, from the
    /// slots of the consumer counter on, in order; fewer only if a slot read
    /// was found empty. How many depends on the producer counter read from
    /// the other thread: `consumer_ready` gives the count for each value that
    /// read may return.
    pub fn pop_batch(&mut self, max_items: usize) -> (items: Vec<T>)
        requires
            old(self).wf(),
        ensures
            final(self).wf(),
            final(self).spec_capacity() == old(self).spec_capacity(),
            !final(self).found_empty() ==> items.len() == ready_for(
                final(self).seen_produced(),
                old(self).consumed(),
                max_items,
            ),
            final(self).found_empty() ==> items.len() < ready_for(
                final(self).seen_produced(),
                old(self).consumed(),
                max_items,
            ),
            final(self).read_slots() == slot_run(
                old(self).consumed(),
                if final(self).found_empty() {
                    (items.len() + 1) as nat
                } else {
                    items.len() as nat
                },
                old(self).spec_capacity() as usize,
            ),
            items.len() <= max_items,
            final(self).consumed() == advance_count(old(self).consumed(), items.len()),
    {
        let curr_tail = self.tail;
        let curr_head = load_acquire(&self.inner.head);
        self.seen_head = Ghost(curr_head);
        self.read = Ghost(Seq::empty());
        self.found_empty = Ghost(false);
        let capacity = self.inner.capacity;
        let to_read = consumer_ready(curr_head, curr_tail, max_items);
        let mut items: Vec<T> = Vec::new();
        if to_read == 0 {
            assert(self.read@ =~= slot_run(curr_tail, 0, capacity));
            return items;
        }
        let mut i: usize = 0;
        while i < to_read
            invariant_except_break
                i <= to_read,
                items@.len() == i,
                !self.found_empty@,
                self.read@ =~= slot_run(curr_tail, i as nat, capacity),
            invariant
                capacity == self.inner.capacity,
                self.inner.wf(),
                self.tail == curr_tail,
                self.seen_head@ == curr_head,
            ensures
                items@.len() <= to_read,
                !self.found_empty@ ==> items@.len() == to_read && self.read@ =~= slot_run(
                    curr_tail,
                    to_read as nat,
                    capacity,
                ),
                self.found_empty@ ==> items@.len() < to_read && self.read@ =~= slot_run(
                    curr_tail,
                    items@.len() + 1,
                    capacity,
                ),
            decreases to_read - i,
        {
            let index = slot_of(curr_tail.wrapping_add(i), capacity);
            let (value, slot) = self.inner.data[index].acquire_write();
            slot.release_write(None);
            self.read = Ghost(self.read@.push(index));
            assert(self.read@ =~= slot_run(curr_tail, (i + 1) as nat, capacity));
            match value {
                Some(item) => items.push(item),
                None => {
                    self.found_empty = Ghost(true);
                    break;
                },
            }
            i = i + 1;
        }
        let next = curr_tail.wrapping_add(items.len());
        store_release(&self.inner.tail, next);
        self.tail = next;
        items
    }
}

impl<T> BufferState for RingBufferProducer<T> {
    type Item = T;

    closed spec fn wf(&self) -> bool {
        self.inner.wf()
    }

    closed spec fn spec_capacity(&self) -> nat {
        self.inner.capacity as nat
    }

    /// Not decided by this handle: the consumer may take items at any time.
    open spec fn known_len(&self) -> Option<nat> {
        None
    }

    fn capacity(&self) -> (r: usize) {
        self.inner.capacity
    }

    fn len(&self) -> (r: usize) {
        let curr_tail = load_relaxed(&self.inner.tail);
        occupied(self.head, curr_tail)
    }
}

impl<T> BufferState for RingBufferConsumer<T> {
    type Item = T;

    closed spec fn wf(&self) -> bool {
        self.inner.wf()
    }

    closed spec fn spec_capacity(&self) -> nat {
        self.inner.capacity as nat
    }

    /// Not decided by this handle: the producer may publish items at any time.
    open spec fn known_len(&self) -> Option<nat> {
        None
    }

    fn capacity(&self) -> (r: usize) {
        self.inner.capacity
    }

    fn len(&self) -> (r: usize) {
        let curr_head = load_relaxed(&self.inner.head);
        occupied(curr_head, self.tail)
    }
}

impl<T> Producer for RingBufferProducer<T> {
    closed spec fn produced(&self) -> usize {
        self.head
    }

    /// The item is refused exactly when the ring was full at the consumer
    /// counter read.
    /// An accepted item goes into the slot of the producer counter, which,
    /// when the ring was not over-full, holds none of the items the consumer
    /// had not taken at the counter read.
    fn push(&mut self, item: T) -> (r: Result<(), T>)
        ensures
            r is Err <==> counter_distance(old(self).produced(), final(self).seen_consumed())
                == final(self).spec_capacity(),
            r is Err ==> final(self).written_slots() == Seq::<usize>::empty(),
            r is Ok ==> final(self).written_slots() == seq![
                (old(self).produced() % (final(self).spec_capacity() as usize)) as usize,
            ],
            r is Ok && counter_distance(old(self).produced(), final(self).seen_consumed())
                < final(self).spec_capacity() ==> forall|j: int|
                0 <= j < counter_distance(old(self).produced(), final(self).seen_consumed())
                    ==> final(self).written_slots()[0] != (#[trigger] advance_count(
                    final(self).seen_consumed(),
                    j as usize,
                ) % (final(self).spec_capacity() as usize)),
    {
        let curr_head = self.head;
        let curr_tail = load_relaxed(&self.inner.tail);
        self.seen_tail = Ghost(curr_tail);
        self.written = Ghost(Seq::empty());
        let index = match producer_slot(curr_head, curr_tail, self.inner.capacity) {
            Some(index) => index,
            None => return Err(item),
        };
        let (_previous, slot) = self.inner.data[index].acquire_write();
        slot.release_write(Some(item));
        self.written = Ghost(Seq::empty().push(index));
        proof {
            let capacity = self.inner.capacity;
            assert forall|j: int|
                0 <= j < counter_distance(curr_head, curr_tail) && counter_distance(
                    curr_head,
                    curr_tail,
                ) < capacity implies self.written@[0] != (#[trigger] advance_count(
                curr_tail,
                j as usize,
            ) % capacity) by {
                lemma_batch_misses_unread(curr_head, curr_tail, capacity, 1, 0, j as usize);
            }
        }
        let next = curr_head.wrapping_add(1);
        store_release(&self.inner.head, next);
        self.head = next;
        Ok(())
    }
}

impl<T> Consumer for RingBufferConsumer<T> {
    closed spec fn consumed(&self) -> usize {
        self.tail
    }

    /// Nothing is taken when the producer counter read equals the consumer's
    /// own. Otherwise the item comes from the slot of the consumer counter,
    /// the oldest published one; nothing comes back only if that slot was
    /// found empty.
    fn pop(&mut self) -> (r: Option<T>)
        ensures
            final(self).seen_produced() == old(self).consumed() ==> r is None
                && final(self).read_slots() == Seq::<usize>::empty(),
            final(self).seen_produced() != old(self).consumed() ==> final(self).read_slots()
                == seq![(old(self).consumed() % (final(self).spec_capacity() as usize)) as usize],
            ({
                let after = *final(self);
                r is None && after.seen_produced() != old(self).consumed() ==> after.found_empty()
            }),
            r is Some ==> !final(self).found_empty(),
    {
        let curr_tail = self.tail;
        let curr_head = load_acquire(&self.inner.head);
        self.seen_head = Ghost(curr_head);
        self.read = Ghost(Seq::empty());
        self.found_empty = Ghost(false);
        let index = match consumer_slot(curr_head, curr_tail, self.inner.capacity) {
            Some(index) => index,
            None => return None,
        };
        let (value, slot) = self.inner.data[index].acquire_write();
        slot.release_write(None);
        self.read = Ghost(Seq::empty().push(index));
        // A published slot holds its item; should it not, nothing is taken
        // and the counter stays, so the item is not skipped.
        match value {
            Some(item) => {
                let next = curr_tail.wrapping_add(1);
                store_release(&self.inner.tail, next);
                self.tail = next;
                Some(item)
            },
            None => {
                self.found_empty = Ghost(true);
                None
            },
        }
    }
}

/// A ring of `capacity` slots, split into its producer and consumer handles.
pub fn create_queue<T>(capacity: usize) -> (handles: (RingBufferProducer<T>, RingBufferConsumer<T>))
    requires
        is_power_of_two(capacity),
    ensures
        handles.0.wf(),
        handles.1.wf(),
        handles.0.spec_capacity() == capacity,
        handles.1.spec_capacity() == capacity,
        handles.0.produced() == 0,
        handles.1.consumed() == 0,
        handles.0.is_paired_with(&handles.1),
{
    let mut data: Vec<RwLock<Option<T>, AnySlot>> = Vec::with_capacity(capacity);
    let mut i: usize = 0;
    while i < capacity
        invariant
            i <= capacity,
            data@.len() == i,
        decreases capacity - i,
    {
        data.push(RwLock::new(None, Ghost(AnySlot)));
        i = i + 1;
    }
    let inner = Arc::new(
        RingBufferInner {
            data,
            capacity,
            head: AtomicUsize::new(0),
            tail: AtomicUsize::new(0),
        },
    );
    let producer = RingBufferProducer {
        inner: share(&inner),
        head: 0,
        seen_tail: Ghost(0),
        written: Ghost(Seq::empty()),
    };
    let consumer = RingBufferConsumer {
        inner,
        tail: 0,
        seen_head: Ghost(0),
        read: Ghost(Seq::empty()),
        found_empty: Ghost(false),
    };
    (producer, consumer)
}

} // verus!
