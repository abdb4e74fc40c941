use vstd::prelude::*;

verus! {

/// What a bounded FIFO holding `items`, with room for `capacity` items, holds
/// after `item` is offered: `item` joins the back when there is room, and the
/// queue is left as it was when it is full.
pub open spec fn offered<T>(items: Seq<T>, capacity: nat, item: T) -> Seq<T> {
    if items.len() < capacity {
        items.push(item)
    } else {
        items
    }
}

/// What offering `item` to a bounded FIFO answers: `Ok` when there was room,
/// and the item itself handed back when the queue was full.
pub open spec fn offer_answer<T>(items: Seq<T>, capacity: nat, item: T) -> Result<(), T> {
    if items.len() < capacity {
        Ok(())
    } else {
        Err(item)
    }
}

/// What a FIFO holding `items` holds after one item is taken from its front.
pub open spec fn taken<T>(items: Seq<T>) -> Seq<T> {
    if items.len() > 0 {
        items.drop_first()
    } else {
        items
    }
}

/// What taking from a FIFO holding `items` answers: its front item, or
/// nothing when it is empty.
pub open spec fn take_answer<T>(items: Seq<T>) -> Option<T> {
    if items.len() > 0 {
        Some(items[0])
    } else {
        None
    }
}

/// The next value of a wrapping `usize` counter.
pub open spec fn next_count(count: usize) -> usize {
    if count == usize::MAX {
        0
    } else {
        (count + 1) as usize
    }
}

/// The value of a wrapping `usize` counter after `n` more steps.
pub open spec fn advance_count(count: usize, n: usize) -> usize {
    if count + n > usize::MAX {
        (count + n - (usize::MAX + 1)) as usize
    } else {
        (count + n) as usize
    }
}

/// The state every buffer reports: its capacity and how many items it holds.
pub trait BufferState {
    type Item;

    /// The buffer's internal invariant, which its constructor establishes and
    /// every operation keeps.
    spec fn wf(&self) -> bool;

    /// How many items the buffer can hold.
    spec fn spec_capacity(&self) -> nat;

    /// How many items the buffer holds, where this value alone decides it;
    /// `None` for a handle that shares its buffer with another thread, since
    /// what such a handle reports depends on what that thread has done.
    spec fn known_len(&self) -> Option<nat>;

    fn capacity(&self) -> (r: usize)
        requires
            self.wf(),
        ensures
            r == self.spec_capacity(),
    ;

    fn len(&self) -> (r: usize)
        requires
            self.wf(),
        ensures
            self.known_len() matches Some(n) ==> r == n,
    ;

    fn is_empty(&self) -> (r: bool)
        requires
            self.wf(),
        ensures
            self.known_len() matches Some(n) ==> (r <==> n == 0),
    {
        self.len() == 0
    }

    fn is_full(&self) -> (r: bool)
        requires
            self.wf(),
        ensures
            self.known_len() matches Some(n) ==> (r <==> n == self.spec_capacity()),
    {
        let n = self.len();
        let c = self.capacity();
        n == c
    }
}

/// A bounded FIFO owned by one thread.
pub trait LocalQueue: BufferState {
    /// The items the queue holds, front first.
    spec fn contents(&self) -> Seq<Self::Item>;

    /// What a well-formed queue reports is exact and agrees with its contents,
    /// which never exceed its capacity.
    proof fn lemma_wf(&self)
        requires
            self.wf(),
        ensures
            self.known_len() == Some(self.contents().len()),
            self.contents().len() <= self.spec_capacity(),
    ;

    /// Appends `item` at the back, or hands it back when the queue is full.
    fn push(&mut self, item: Self::Item) -> (r: Result<(), Self::Item>)
        requires
            old(self).wf(),
        ensures
            final(self).wf(),
            final(self).spec_capacity() == old(self).spec_capacity(),
            r == offer_answer(old(self).contents(), old(self).spec_capacity(), item),
            final(self).contents() == offered(
                old(self).contents(),
                old(self).spec_capacity(),
                item,
            ),
    ;

    /// Removes and returns the front item, or `None` when the queue is empty.
    fn pop(&mut self) -> (r: Option<Self::Item>)
        requires
            old(self).wf(),
        ensures
            final(self).wf(),
            final(self).spec_capacity() == old(self).spec_capacity(),
            r == take_answer(old(self).contents()),
            final(self).contents() == taken(old(self).contents()),
    ;
}

/// The sending half of a queue shared between two threads.
pub trait Producer: BufferState {
    /// How many items this handle has published, as a wrapping counter.
    spec fn produced(&self) -> usize;

    /// Publishes `item`, or hands it back when the buffer was seen full.
    fn push(&mut self, item: Self::Item) -> (r: Result<(), Self::Item>)
        requires
            old(self).wf(),
        ensures
            final(self).wf(),
            final(self).spec_capacity() == old(self).spec_capacity(),
            match r {
                Ok(()) => final(self).produced() == next_count(old(self).produced()),
                Err(back) => back == item && final(self).produced() == old(self).produced(),
            },
    ;
}

/// The receiving half of a queue shared between two threads.
pub trait Consumer: BufferState {
    /// How many items this handle has taken, as a wrapping counter.
    spec fn consumed(&self) -> usize;

    /// Takes the oldest published item, or returns `None` when none was seen.
    fn pop(&mut self) -> (r: Option<Self::Item>)
        requires
            old(self).wf(),
        ensures
            final(self).wf(),
            final(self).spec_capacity() == old(self).spec_capacity(),
            r is Some ==> final(self).consumed() == next_count(old(self).consumed()),
            r is None ==> final(self).consumed() == old(self).consumed(),
    ;
}

/// A queue that splits into a producer handle and a consumer handle.
pub trait SPSCQueue {
    type Item;

    type ProducerHandle: Producer<Item = Self::Item>;

    type ConsumerHandle: Consumer<Item = Self::Item>;

    fn new(self) -> (Self::ProducerHandle, Self::ConsumerHandle);
}

} // verus!
