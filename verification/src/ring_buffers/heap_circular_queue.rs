use vstd::prelude::*;

use super::circular_index::{distance_from, lemma_step_mod, slot_at};
use super::ring_buffer_trait::{
    offer_answer, offered, take_answer, taken, BufferState, LocalQueue,
};

verus! {

/// A fixed-size circular queue whose slots live on the heap.
pub struct FixedSizeHeapCircularQueue<T> {
    data: Vec<Option<T>>,
    head: usize,
    tail: usize,
    len: usize,
    capacity: usize,
}

impl<T> FixedSizeHeapCircularQueue<T> {
    /// An empty queue with room for `capacity` items.
    pub fn new(capacity: usize) -> (q: Self)
        requires
            capacity > 0,
        ensures
            q.wf(),
            q.spec_capacity() == capacity,
            q.contents() == Seq::<T>::empty(),
    {
        let mut data: Vec<Option<T>> = Vec::with_capacity(capacity);
        let mut i: usize = 0;
        while i < capacity
            invariant
                i <= capacity,
                data@.len() == i,
                forall|j: int| 0 <= j < i ==> data@[j] is None,
            decreases capacity - i,
        {
            data.push(None);
            i = i + 1;
        }
        let q = Self { data, head: 0, tail: 0, len: 0, capacity };
        assert(q.contents() =~= Seq::<T>::empty());
        q
    }
}

impl<T> View for FixedSizeHeapCircularQueue<T> {
    type V = Seq<T>;

    /// The items the queue holds, front first.
    closed spec fn view(&self) -> Seq<T> {
        Seq::new(
            self.len as nat,
            |k: int| self.data@[slot_at(self.head as int, k, self.capacity as int)].unwrap(),
        )
    }
}

impl<T> BufferState for FixedSizeHeapCircularQueue<T> {
    type Item = T;

    closed spec fn wf(&self) -> bool {
        &&& self.capacity > 0
        &&& self.data@.len() == self.capacity
        &&& self.head < self.capacity
        &&& self.len <= self.capacity
        &&& self.tail == slot_at(self.head as int, self.len as int, self.capacity as int)
        &&& forall|i: int|
            0 <= i < self.capacity ==> (#[trigger] self.data@[i] is Some <==> distance_from(
                self.head as int,
                i,
                self.capacity as int,
            ) < self.len)
    }

    closed spec fn spec_capacity(&self) -> nat {
        self.capacity as nat
    }

    /// How many items the queue holds.
    open spec fn known_len(&self) -> Option<nat> {
        Some(self@.len())
    }

    fn capacity(&self) -> (r: usize) {
        self.capacity
    }

    fn len(&self) -> (r: usize) {
        self.len
    }

    fn is_empty(&self) -> (r: bool) {
        self.len == 0
    }

    fn is_full(&self) -> (r: bool) {
        self.len == self.capacity
    }
}

impl<T> LocalQueue for FixedSizeHeapCircularQueue<T> {
    open spec fn contents(&self) -> Seq<T> {
        self@
    }

    proof fn lemma_wf(&self) {
    }

    fn push(&mut self, item: T) -> (r: Result<(), T>) {
        if self.is_full() {
            return Err(item);
        }
        let ghost old_q = *self;
        self.data.set(self.tail, Some(item));
        proof {
            lemma_step_mod(self.tail as int, self.capacity as int);
        }
        self.tail = (self.tail + 1) % self.capacity;
        self.len = self.len + 1;
        assert(self.contents() =~= old_q.contents().push(item));
        Ok(())
    }

    fn pop(&mut self) -> (r: Option<T>) {
        if self.is_empty() {
            return None;
        }
        let ghost old_q = *self;
        assert(self.data@[self.head as int] is Some);
        let item = self.data[self.head].take().unwrap();
        proof {
            lemma_step_mod(self.head as int, self.capacity as int);
        }
        self.head = (self.head + 1) % self.capacity;
        self.len = self.len - 1;
        assert(self.contents() =~= old_q.contents().drop_first());
        Some(item)
    }
}

} // verus!
