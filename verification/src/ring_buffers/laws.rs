use vstd::prelude::*;

use super::ring_buffer_trait::{offer_answer, offered, take_answer, taken, LocalQueue};

verus! {

/// What a bounded FIFO holding `items` holds after each of `arrivals` is
/// offered in turn.
pub open spec fn offer_all<T>(items: Seq<T>, capacity: nat, arrivals: Seq<T>) -> Seq<T>
    decreases arrivals.len(),
{
    if arrivals.len() == 0 {
        items
    } else {
        offered(offer_all(items, capacity, arrivals.drop_last()), capacity, arrivals.last())
    }
}

/// The answers of `n` takes in a row from a FIFO holding `items`.
pub open spec fn take_answers<T>(items: Seq<T>, n: nat) -> Seq<Option<T>>
    decreases n,
{
    if n == 0 {
        Seq::empty()
    } else {
        seq![take_answer(items)] + take_answers(taken(items), (n - 1) as nat)
    }
}

/// What a FIFO holding `items` holds after `n` takes in a row.
pub open spec fn taken_n<T>(items: Seq<T>, n: nat) -> Seq<T>
    decreases n,
{
    if n == 0 {
        items
    } else {
        taken_n(taken(items), (n - 1) as nat)
    }
}

/// Offering items while there is room appends them in order.
pub proof fn lemma_offers_append<T>(items: Seq<T>, capacity: nat, arrivals: Seq<T>)
    requires
        items.len() + arrivals.len() <= capacity,
    ensures
        offer_all(items, capacity, arrivals) == items + arrivals,
    decreases arrivals.len(),
{
    if arrivals.len() > 0 {
        lemma_offers_append(items, capacity, arrivals.drop_last());
        assert(items + arrivals =~= (items + arrivals.drop_last()).push(arrivals.last()));
    }
}

/// Taking `n` items in a row hands out the first `n` items in order and
/// leaves the rest.
pub proof fn lemma_takes_in_order<T>(items: Seq<T>, n: nat)
    requires
        n <= items.len(),
    ensures
        take_answers(items, n) == items.take(n as int).map_values(|x: T| Some(x)),
        taken_n(items, n) == items.skip(n as int),
    decreases n,
{
    if n > 0 {
        lemma_takes_in_order(items.drop_first(), (n - 1) as nat);
        assert(take_answers(items, n) =~= items.take(n as int).map_values(|x: T| Some(x)));
        assert(taken_n(items, n) =~= items.skip(n as int));
    }
}

/// First in, first out: whatever goes into an empty queue without being
/// refused comes out again, in the order it went in, and leaves the queue
/// empty.
pub proof fn lemma_fifo<T>(capacity: nat, arrivals: Seq<T>)
    requires
        arrivals.len() <= capacity,
    ensures
        take_answers(offer_all(Seq::empty(), capacity, arrivals), arrivals.len()) == arrivals.map_values(
            |x: T| Some(x),
        ),
        taken_n(offer_all(Seq::empty(), capacity, arrivals), arrivals.len()) == Seq::<T>::empty(),
{
    lemma_offers_append(Seq::empty(), capacity, arrivals);
    assert(Seq::<T>::empty() + arrivals =~= arrivals);
    lemma_takes_in_order(arrivals, arrivals.len());
    assert(arrivals.take(arrivals.len() as int) =~= arrivals);
    assert(arrivals.skip(arrivals.len() as int) =~= Seq::<T>::empty());
}

/// A full queue refuses what is offered: it hands the item back and stays as
/// it was.
pub proof fn lemma_full_refuses<T>(items: Seq<T>, capacity: nat, item: T)
    requires
        items.len() == capacity,
    ensures
        offer_answer(items, capacity, item) == Err::<(), T>(item),
        offered(items, capacity, item) == items,
{
}

/// Taking from an empty queue answers nothing and changes nothing.
pub proof fn lemma_empty_gives_nothing<T>()
    ensures
        take_answer(Seq::<T>::empty()) == None::<T>,
        taken(Seq::<T>::empty()) == Seq::<T>::empty(),
{
}

/// An offer counts one more item when there was room and none more when there
/// was not, and a take one fewer when there was an item; so a queue never
/// holds more than its capacity.
pub proof fn lemma_lengths<T>(items: Seq<T>, capacity: nat, item: T)
    requires
        items.len() <= capacity,
    ensures
        offered(items, capacity, item).len() == if items.len() < capacity {
            items.len() + 1
        } else {
            items.len()
        },
        offered(items, capacity, item).len() <= capacity,
        taken(items).len() == if items.len() > 0 {
            items.len() - 1
        } else {
            0
        },
{
}

/// An item pushed onto an empty queue is the next one popped, and the queue
/// is empty again afterwards.
pub proof fn lemma_push_then_pop<T>(capacity: nat, item: T)
    requires
        capacity > 0,
    ensures
        take_answer(offered(Seq::<T>::empty(), capacity, item)) == Some(item),
        taken(offered(Seq::<T>::empty(), capacity, item)) == Seq::<T>::empty(),
{
    assert(taken(offered(Seq::<T>::empty(), capacity, item)) =~= Seq::<T>::empty());
}

/// The two ends of a queue that is neither empty nor full are independent: a
/// push and a pop give the same answers and leave the same queue in either
/// order.
pub proof fn lemma_ends_commute<T>(items: Seq<T>, capacity: nat, item: T)
    requires
        0 < items.len() < capacity,
    ensures
        taken(offered(items, capacity, item)) == offered(taken(items), capacity, item),
        take_answer(offered(items, capacity, item)) == take_answer(items),
        offer_answer(items, capacity, item) == offer_answer(taken(items), capacity, item),
{
    assert(taken(offered(items, capacity, item)) =~= offered(taken(items), capacity, item));
}

/// One call on a queue: a push of an item, or a pop.
#[derive(Debug, PartialEq, Eq)]
pub enum QueueOp<T> {
    Push(T),
    Pop,
}

/// What one call on a queue answers.
#[derive(Debug, PartialEq, Eq)]
pub enum QueueAnswer<T> {
    Pushed(Result<(), T>),
    Popped(Option<T>),
}

/// What a bounded FIFO holding `items` holds after the call `op`, and what
/// the call answers. A `push` or a `pop` of any `LocalQueue` is exactly one
/// such step of its contents, by its contract.
pub open spec fn step<T>(items: Seq<T>, capacity: nat, op: QueueOp<T>) -> (Seq<T>, QueueAnswer<T>) {
    match op {
        QueueOp::Push(item) => (
            offered(items, capacity, item),
            QueueAnswer::Pushed(offer_answer(items, capacity, item)),
        ),
        QueueOp::Pop => (taken(items), QueueAnswer::Popped(take_answer(items))),
    }
}

/// What a bounded FIFO holding `items` holds after the calls `ops`, in turn,
/// and what each call answers.
pub open spec fn replay<T>(items: Seq<T>, capacity: nat, ops: Seq<QueueOp<T>>) -> (Seq<T>, Seq<
    QueueAnswer<T>,
>)
    decreases ops.len(),
{
    if ops.len() == 0 {
        (items, Seq::empty())
    } else {
        let (before, answers) = replay(items, capacity, ops.drop_last());
        let (after, answer) = step(before, capacity, ops.last());
        (after, answers.push(answer))
    }
}

/// How many of `answers` are pushes that were accepted.
pub open spec fn accepted<T>(answers: Seq<QueueAnswer<T>>) -> nat
    decreases answers.len(),
{
    if answers.len() == 0 {
        0
    } else {
        accepted(answers.drop_last()) + if answers.last() matches QueueAnswer::Pushed(Ok(_)) {
            1nat
        } else {
            0nat
        }
    }
}

/// How many of `answers` are pops that gave an item.
pub open spec fn served<T>(answers: Seq<QueueAnswer<T>>) -> nat
    decreases answers.len(),
{
    if answers.len() == 0 {
        0
    } else {
        served(answers.drop_last()) + if answers.last() matches QueueAnswer::Popped(Some(_)) {
            1nat
        } else {
            0nat
        }
    }
}

/// Over any run of calls, a queue answers every call once, holds what it
/// held plus the accepted pushes minus the pops that gave an item, and never
/// more than its capacity. From a new queue, which holds nothing, its length
/// is the number of accepted pushes minus the number of pops that gave an
/// item.
pub proof fn lemma_replay_counts<T>(items: Seq<T>, capacity: nat, ops: Seq<QueueOp<T>>)
    requires
        items.len() <= capacity,
    ensures
        replay(items, capacity, ops).1.len() == ops.len(),
        replay(items, capacity, ops).0.len() + served(replay(items, capacity, ops).1) == items.len()
            + accepted(replay(items, capacity, ops).1),
        replay(items, capacity, ops).0.len() <= capacity,
    decreases ops.len(),
{
    if ops.len() > 0 {
        lemma_replay_counts(items, capacity, ops.drop_last());
        let (before, answers) = replay(items, capacity, ops.drop_last());
        let (after, answer) = step(before, capacity, ops.last());
        assert(answers.push(answer).drop_last() =~= answers);
    }
}

/// Two queues that hold the same items and have the same capacity, of
/// whatever kind, answer any run of calls alike and end up holding the same
/// items, as far as `replay` goes: it is a function of the items and the
/// capacity alone. `run_calls` states that an actual run of calls on any
/// local queue is what `replay` says, so, with this, a bip buffer answers an
/// actual run of calls exactly as a circular queue of the same capacity
/// does.
pub proof fn lemma_queues_answer_alike<Q1: LocalQueue, Q2: LocalQueue<Item = Q1::Item>>(
    first: &Q1,
    second: &Q2,
    ops: Seq<QueueOp<Q1::Item>>,
)
    requires
        first.wf(),
        second.wf(),
        first.contents() == second.contents(),
        first.spec_capacity() == second.spec_capacity(),
    ensures
        replay(first.contents(), first.spec_capacity(), ops) == replay(
            second.contents(),
            second.spec_capacity(),
            ops,
        ),
{
}

/// Makes the calls `ops` on `queue`, in turn, and returns their answers. An
/// actual run of calls on any local queue answers and leaves what `replay`
/// says; so the queue answers every call once, and from a new queue, which
/// holds nothing, its length is the number of accepted pushes minus the number
/// of pops that gave an item, never more than its capacity, which stays.
pub fn run_calls<Q: LocalQueue>(queue: &mut Q, ops: Vec<QueueOp<Q::Item>>) -> (answers: Vec<
    QueueAnswer<Q::Item>,
>)
    requires
        old(queue).wf(),
    ensures
        final(queue).wf(),
        final(queue).spec_capacity() == old(queue).spec_capacity(),
        (final(queue).contents(), answers@) == replay(
            old(queue).contents(),
            old(queue).spec_capacity(),
            ops@,
        ),
        answers@.len() == ops@.len(),
        final(queue).contents().len() + served(answers@) == old(queue).contents().len() + accepted(
            answers@,
        ),
        final(queue).contents().len() <= final(queue).spec_capacity(),
{
    let ghost all = ops@;
    let ghost start = old(queue).contents();
    let ghost capacity = old(queue).spec_capacity();
    proof {
        queue.lemma_wf();
        lemma_replay_counts(start, capacity, all);
        assert(all.subrange(0, 0) =~= Seq::<QueueOp<Q::Item>>::empty());
        assert(all.subrange(0, all.len() as int) =~= all);
    }
    let mut ops = ops;
    let mut answers: Vec<QueueAnswer<Q::Item>> = Vec::new();
    while ops.len() > 0
        invariant
            queue.wf(),
            queue.spec_capacity() == capacity,
            ops@.len() <= all.len(),
            ops@ == all.subrange(all.len() - ops@.len(), all.len() as int),
            (queue.contents(), answers@) == replay(
                start,
                capacity,
                all.subrange(0, all.len() - ops@.len()),
            ),
        decreases ops@.len(),
    {
        let ghost done = (all.len() - ops@.len()) as int;
        let op = ops.remove(0);
        assert(op == all[done]);
        let answer = match op {
            QueueOp::Push(item) => QueueAnswer::Pushed(queue.push(item)),
            QueueOp::Pop => QueueAnswer::Popped(queue.pop()),
        };
        answers.push(answer);
        proof {
            let next = all.subrange(0, done + 1);
            assert(next.drop_last() =~= all.subrange(0, done));
            assert(next.last() == all[done]);
            assert(ops@ =~= all.subrange(done + 1, all.len() as int));
        }
    }
    proof {
        assert(all.subrange(0, all.len() as int) =~= all);
        queue.lemma_wf();
    }
    answers
}

} // verus!
