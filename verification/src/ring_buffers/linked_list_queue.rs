use vstd::prelude::*;

use std::collections::VecDeque;

use super::ring_buffer_trait::{
    offer_answer, offered, take_answer, taken, BufferState, LocalQueue,
};

verus! {

/// A queue with no bound of its own, kept in a standard-library deque; its
/// capacity is `usize::MAX`.
pub struct StdLinkedListQueue<T> {
    inner: VecDeque<T>,
}

impl<T> StdLinkedListQueue<T> {
    /// An empty queue.
    pub fn new() -> (q: Self)
        ensures
            q.wf(),
            q.spec_capacity() == usize::MAX,
            q.contents() == Seq::<T>::empty(),
    {
        Self { inner: VecDeque::new() }
    }
}

impl<T> View for StdLinkedListQueue<T> {
    type V = Seq<T>;

    /// The items the queue holds, front first.
    closed spec fn view(&self) -> Seq<T> {
        self.inner@
    }
}

impl<T> BufferState for StdLinkedListQueue<T> {
    type Item = T;

    closed spec fn wf(&self) -> bool {
        self.inner@.len() <= usize::MAX
    }

    open spec fn spec_capacity(&self) -> nat {
        usize::MAX as nat
    }

    /// How many items the queue holds.
    open spec fn known_len(&self) -> Option<nat> {
        Some(self@.len())
    }

    fn capacity(&self) -> (r: usize) {
        usize::MAX
    }

    fn len(&self) -> (r: usize) {
        self.inner.len()
    }
}

impl<T> LocalQueue for StdLinkedListQueue<T> {
    open spec fn contents(&self) -> Seq<T> {
        self@
    }

    proof fn lemma_wf(&self) {
    }

    fn push(&mut self, item: T) -> (r: Result<(), T>) {
        if self.is_full() {
            Err(item)
        } else {
            self.inner.push_back(item);
            Ok(())
        }
    }

    fn pop(&mut self) -> (r: Option<T>) {
        if self.is_empty() {
            None
        } else {
            let r = self.inner.pop_front();
            assert(self.inner@ =~= old(self).inner@.drop_first());
            r
        }
    }
}

} // verus!
