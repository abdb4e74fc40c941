use vstd::prelude::*;

use super::circular_index::{distance_from, lemma_step_mod, slot_at};
use super::ring_buffer_trait::{
    offer_answer, offered, take_answer, taken, BufferState, LocalQueue,
};

verus! {

/// An empty slot; the value every slot of a new array starts from.
fn vacant_slot<T>(_index: usize) -> (slot: Option<T>)
    ensures
        slot is None,
{
    None
}

/// Calls `core::array::from_fn` with `vacant_slot`, which builds the array
/// whose element `i` is `vacant_slot(i)`: here, an array of empty slots.
#[verifier::external_body]
fn vacant_slots<T, const N: usize>() -> (slots: [Option<T>; N])
    ensures
        forall|i: int| 0 <= i < N ==> slots@[i] is None,
{
    core::array::from_fn(vacant_slot)
}

/// A fixed-size circular queue whose `CAPACITY` slots live inline, so on the
/// stack when the queue does.
pub struct FixedSizeStackCircularQueue<T, const CAPACITY: usize> {
    data: [Option<T>; CAPACITY],
    head: usize,
    tail: usize,
    len: usize,
}

impl<T, const CAPACITY: usize> FixedSizeStackCircularQueue<T, CAPACITY> {
    /// An empty queue with room for `CAPACITY` items.
    pub fn new() -> (q: Self)
        requires
            CAPACITY > 0,
        ensures
            q.wf(),
            q.spec_capacity() == CAPACITY,
            q.contents() == Seq::<T>::empty(),
    {
        let q = Self { data: vacant_slots(), head: 0, tail: 0, len: 0 };
        assert(q.contents() =~= Seq::<T>::empty());
        q
    }
}

impl<T, const CAPACITY: usize> View for FixedSizeStackCircularQueue<T, CAPACITY> {
    type V = Seq<T>;

    /// The items the queue holds, front first.
    closed spec fn view(&self) -> Seq<T> {
        Seq::new(
            self.len as nat,
            |k: int| self.data@[slot_at(self.head as int, k, CAPACITY as int)].unwrap(),
        )
    }
}

impl<T, const CAPACITY: usize> BufferState for FixedSizeStackCircularQueue<T, CAPACITY> {
    type Item = T;

    closed spec fn wf(&self) -> bool {
        &&& CAPACITY > 0
        &&& self.head < CAPACITY
        &&& self.len <= CAPACITY
        &&& self.tail == slot_at(self.head as int, self.len as int, CAPACITY as int)
        &&& forall|i: int|
            0 <= i < CAPACITY ==> (#[trigger] self.data@[i] is Some <==> distance_from(
                self.head as int,
                i,
                CAPACITY as int,
            ) < self.len)
    }

    open spec fn spec_capacity(&self) -> nat {
        CAPACITY as nat
    }

    /// How many items the queue holds.
    open spec fn known_len(&self) -> Option<nat> {
        Some(self@.len())
    }

    fn capacity(&self) -> (r: usize) {
        CAPACITY
    }

    fn len(&self) -> (r: usize) {
        self.len
    }

    fn is_empty(&self) -> (r: bool) {
        self.len == 0
    }

    fn is_full(&self) -> (r: bool) {
        self.len == CAPACITY
    }
}

impl<T, const CAPACITY: usize> LocalQueue for FixedSizeStackCircularQueue<T, CAPACITY> {
    open spec fn contents(&self) -> Seq<T> {
        self@
    }

    proof fn lemma_wf(&self) {
    }

    fn push(&mut self, item: T) -> (r: Result<(), T>) {
        if self.is_full() {
            return Err(item);
        }
        let ghost old_q = *self;
        self.data[self.tail] = Some(item);
        proof {
            lemma_step_mod(self.tail as int, CAPACITY as int);
        }
        self.tail = (self.tail + 1) % CAPACITY;
        self.len = self.len + 1;
        assert(self.contents() =~= old_q.contents().push(item));
        Ok(())
    }

    fn pop(&mut self) -> (r: Option<T>) {
        if self.is_empty() {
            return None;
        }
        let ghost old_q = *self;
        assert(self.data@[self.head as int] is Some);
        let item = self.data[self.head].take().unwrap();
        proof {
            lemma_step_mod(self.head as int, CAPACITY as int);
        }
        self.head = (self.head + 1) % CAPACITY;
        self.len = self.len - 1;
        assert(self.contents() =~= old_q.contents().drop_first());
        Some(item)
    }
}

} // verus!
