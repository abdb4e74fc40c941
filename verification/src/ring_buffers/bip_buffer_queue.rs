use vstd::prelude::*;
use vstd::slice::slice_subrange;

use super::ring_buffer_trait::{
    offer_answer, offered, take_answer, taken, BufferState, LocalQueue,
};

verus! {

/// A bip buffer: the items sit in up to two contiguous regions of one array,
/// region A (`a_start..a_end`, the older items) and region B (`0..b_end`,
/// which fills the space freed at the start once A reaches the end). When A
/// runs out, B becomes the new A.
pub struct BipBufferQueue<T> {
    data: Vec<Option<T>>,
    capacity: usize,
    a_start: usize,
    a_end: usize,
    b_end: usize,
}

impl<T> BipBufferQueue<T> {
    /// Where the regions lie: region A starts and ends at the first two
    /// slots, and region B, which starts at slot 0, ends at the third.
    pub closed spec fn regions(&self) -> (nat, nat, nat) {
        (self.a_start as nat, self.a_end as nat, self.b_end as nat)
    }

    /// How many items region A holds: the oldest ones.
    pub open spec fn readable_len(&self) -> nat {
        (self.regions().1 - self.regions().0) as nat
    }

    /// The items of region A, oldest first.
    closed spec fn readable(&self) -> Seq<T> {
        Seq::new(
            (self.a_end - self.a_start) as nat,
            |k: int| self.data@[self.a_start + k].unwrap(),
        )
    }

    /// The items of region B, oldest first.
    closed spec fn wrapped(&self) -> Seq<T> {
        Seq::new(self.b_end as nat, |k: int| self.data@[k].unwrap())
    }

    /// How the regions of a well-formed buffer lie: A is never before B, B
    /// is only in use while A reaches the end, and together they hold the
    /// items.
    pub proof fn lemma_regions(&self)
        requires
            self.wf(),
        ensures
            ({
                let (a_start, a_end, b_end) = self.regions();
                &&& b_end <= a_start <= a_end <= self.spec_capacity()
                &&& b_end > 0 ==> a_end == self.spec_capacity()
                &&& self@.len() == self.readable_len() + b_end
            }),
    {
    }

    /// An empty queue with room for `capacity` items.
    pub fn new(capacity: usize) -> (q: Self)
        requires
            capacity > 0,
        ensures
            q.wf(),
            q.spec_capacity() == capacity,
            q@ == Seq::<T>::empty(),
            q.regions() == (0nat, 0nat, 0nat),
    {
        let mut data: Vec<Option<T>> = Vec::with_capacity(capacity);
        let mut i: usize = 0;
        while i < capacity
            invariant
                i <= capacity,
                data@.len() == i,
                forall|j: int| 0 <= j < i ==> data@[j] is None,
            decreases capacity - i,
        {
            data.push(None);
            i = i + 1;
        }
        let q = Self { data, capacity, a_start: 0, a_end: 0, b_end: 0 };
        assert(q@ =~= Seq::<T>::empty());
        q
    }

    /// The slots of region A: the oldest items, in order, each in `Some`.
    pub fn read_slice(&self) -> (r: &[Option<T>])
        requires
            self.wf(),
        ensures
            r@ == self@.take(self.readable_len() as int).map_values(|item: T| Some(item)),
    {
        proof {
            assert(self.readable() =~= self@.take(self.readable_len() as int));
        }
        let r = if self.a_start < self.a_end {
            slice_subrange(self.data.as_slice(), self.a_start, self.a_end)
        } else {
            slice_subrange(self.data.as_slice(), 0, 0)
        };
        assert(r@ =~= self@.take(self.readable_len() as int).map_values(|item: T| Some(item)));
        r
    }
}

impl<T> View for BipBufferQueue<T> {
    type V = Seq<T>;

    /// The items the queue holds, front first: region A, then region B.
    closed spec fn view(&self) -> Seq<T> {
        self.readable() + self.wrapped()
    }
}

impl<T> BufferState for BipBufferQueue<T> {
    type Item = T;

    closed spec fn wf(&self) -> bool {
        &&& self.capacity > 0
        &&& self.data@.len() == self.capacity
        &&& self.a_start <= self.a_end <= self.capacity
        &&& self.b_end <= self.a_start
        &&& self.b_end > 0 ==> self.a_end == self.capacity
        &&& forall|i: int|
            0 <= i < self.capacity ==> (#[trigger] self.data@[i] is Some <==> (self.a_start <= i
                < self.a_end || i < self.b_end))
    }

    closed spec fn spec_capacity(&self) -> nat {
        self.capacity as nat
    }

    /// How many items the queue holds.
    open spec fn known_len(&self) -> Option<nat> {
        Some(self@.len())
    }

    fn capacity(&self) -> (r: usize) {
        self.capacity
    }

    fn len(&self) -> (r: usize) {
        (self.a_end - self.a_start) + self.b_end
    }
}

impl<T> LocalQueue for BipBufferQueue<T> {
    open spec fn contents(&self) -> Seq<T> {
        self@
    }

    proof fn lemma_wf(&self) {
    }

    /// A new item goes to the end of region B while B is in use, else to the
    /// end of region A while A has not reached the end, else it starts B.
    fn push(&mut self, item: T) -> (r: Result<(), T>)
        ensures
            ({
                let (s0, e0, b0) = old(self).regions();
                let (s1, e1, b1) = final(self).regions();
                let cap = old(self).spec_capacity();
                &&& r is Err ==> s1 == s0 && e1 == e0 && b1 == b0
                &&& r is Ok && b0 > 0 ==> s1 == s0 && e1 == e0 && b1 == b0 + 1
                &&& r is Ok && b0 == 0 && e0 < cap ==> s1 == s0 && e1 == e0 + 1 && b1 == 0
                &&& r is Ok && b0 == 0 && e0 == cap ==> s1 == s0 && e1 == e0 && b1 == 1
            }),
    {
        if self.is_full() {
            return Err(item);
        }
        let ghost old_q = *self;
        if self.b_end > 0 {
            self.data.set(self.b_end, Some(item));
            self.b_end = self.b_end + 1;
            assert(self.readable() =~= old_q.readable());
            assert(self.wrapped() =~= old_q.wrapped().push(item));
        } else if self.a_end < self.capacity {
            self.data.set(self.a_end, Some(item));
            self.a_end = self.a_end + 1;
            assert(self.readable() =~= old_q.readable().push(item));
            assert(self.wrapped() =~= old_q.wrapped());
        } else {
            self.data.set(0, Some(item));
            self.b_end = 1;
            assert(self.readable() =~= old_q.readable());
            assert(old_q.wrapped() =~= Seq::<T>::empty());
            assert(self.wrapped() =~= seq![item]);
        }
        assert(self@ =~= old_q@.push(item));
        Ok(())
    }

    /// An item comes from the start of region A; when A is used up, region B
    /// first becomes region A.
    fn pop(&mut self) -> (r: Option<T>)
        ensures
            ({
                let (s0, e0, b0) = old(self).regions();
                let (s1, e1, b1) = final(self).regions();
                &&& r is None ==> s1 == s0 && e1 == e0 && b1 == b0
                &&& r is Some && s0 < e0 ==> s1 == s0 + 1 && e1 == e0 && b1 == b0
                &&& r is Some && s0 == e0 ==> s1 == 1 && e1 == b0 && b1 == 0
            }),
    {
        if self.is_empty() {
            return None;
        }
        let ghost old_q = *self;
        if self.a_start == self.a_end {
            self.a_start = 0;
            self.a_end = self.b_end;
            self.b_end = 0;
            assert(self.readable() =~= old_q.wrapped());
            assert(self.wrapped() =~= Seq::<T>::empty());
            assert(old_q.readable() =~= Seq::<T>::empty());
            assert(self@ =~= old_q@);
        }
        let ghost mid_q = *self;
        assert(self.data@[self.a_start as int] is Some);
        let item = self.data[self.a_start].take().unwrap();
        self.a_start = self.a_start + 1;
        assert(self.readable() =~= mid_q.readable().drop_first());
        assert(self.wrapped() =~= mid_q.wrapped());
        assert(self@ =~= old_q@.drop_first());
        Some(item)
    }
}

} // verus!
