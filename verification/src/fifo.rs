//! First-in, first-out behaviour, stated on sequences.
//!
//! The contracts of the queue say what one operation does to the sequence of
//! its elements: adding a value pushes it at the end, taking one out hands
//! out the first and leaves the rest. This module follows whole runs of such
//! operations on a queue that starts out empty, and proves what holds after
//! every run.

use crate::sequence::{first, without_first};
use vstd::prelude::*;

verus! {

/// One operation on a queue.
pub enum Op<T> {
    /// Add the value as the newest element.
    Enqueue(T),
    /// Take the oldest element out, if there is one.
    Dequeue,
}

/// The elements of a queue that was empty before `ops` ran on it.
pub open spec fn contents<T>(ops: Seq<Op<T>>) -> Seq<T>
    decreases ops.len(),
{
    if ops.len() == 0 {
        Seq::empty()
    } else {
        match ops.last() {
            Op::Enqueue(value) => contents(ops.drop_last()).push(value),
            Op::Dequeue => without_first(contents(ops.drop_last())),
        }
    }
}

/// The values that `ops` added, in the order in which they were added.
pub open spec fn enqueued<T>(ops: Seq<Op<T>>) -> Seq<T>
    decreases ops.len(),
{
    if ops.len() == 0 {
        Seq::empty()
    } else {
        match ops.last() {
            Op::Enqueue(value) => enqueued(ops.drop_last()).push(value),
            Op::Dequeue => enqueued(ops.drop_last()),
        }
    }
}

/// The values that `ops` handed out, in the order in which they came out,
/// on a queue that was empty before. Taking from an empty queue hands out
/// nothing.
pub open spec fn dequeued<T>(ops: Seq<Op<T>>) -> Seq<T>
    decreases ops.len(),
{
    if ops.len() == 0 {
        Seq::empty()
    } else {
        match ops.last() {
            Op::Enqueue(_) => dequeued(ops.drop_last()),
            Op::Dequeue => match first(contents(ops.drop_last())) {
                Some(value) => dequeued(ops.drop_last()).push(value),
                None => dequeued(ops.drop_last()),
            },
        }
    }
}

/// A run that ends with adding `value`: the queue holds what it held before
/// with `value` pushed at the end, which is what `enqueue` does to the view
/// of a queue; one more value has been added, and none has come out.
pub proof fn lemma_run_then_enqueue<T>(ops: Seq<Op<T>>, value: T)
    ensures
        contents(ops.push(Op::Enqueue(value))) == contents(ops).push(value),
        enqueued(ops.push(Op::Enqueue(value))) == enqueued(ops).push(value),
        dequeued(ops.push(Op::Enqueue(value))) == dequeued(ops),
{
    assert(ops.push(Op::Enqueue(value)).drop_last() =~= ops);
}

/// A run that ends with taking an element out: the queue holds what it held
/// before without the first, which is what `dequeue` does to the view of a
/// queue; the first, where there was one, has come out, and nothing has been
/// added.
pub proof fn lemma_run_then_dequeue<T>(ops: Seq<Op<T>>)
    ensures
        contents(ops.push(Op::Dequeue)) == without_first(contents(ops)),
        enqueued(ops.push(Op::Dequeue)) == enqueued(ops),
        dequeued(ops.push(Op::Dequeue)) == match first(contents(ops)) {
            Some(value) => dequeued(ops).push(value),
            None => dequeued(ops),
        },
{
    assert(ops.push(Op::<T>::Dequeue).drop_last() =~= ops);
}

/// First in, first out: after any run of operations, the values handed out
/// so far, followed by the elements still in the queue, are the values added,
/// in the order in which they were added. Nothing is skipped, and nothing
/// changes places.
pub proof fn lemma_fifo_order<T>(ops: Seq<Op<T>>)
    ensures
        dequeued(ops) + contents(ops) == enqueued(ops),
    decreases ops.len(),
{
    if ops.len() > 0 {
        lemma_fifo_order(ops.drop_last());
    }
}

/// After any run of operations, the number of elements is the number of
/// values added less the number of values handed out.
pub proof fn lemma_size_counts<T>(ops: Seq<Op<T>>)
    ensures
        contents(ops).len() == enqueued(ops).len() - dequeued(ops).len(),
{
    lemma_fifo_order(ops);
}

/// A queue that has handed out as many values as were added is empty: it has
/// no oldest element, and taking one out changes nothing. The same holds of
/// a queue on which nothing has run yet.
pub proof fn lemma_drained_is_empty<T>(ops: Seq<Op<T>>)
    requires
        dequeued(ops).len() == enqueued(ops).len(),
    ensures
        contents(ops) == Seq::<T>::empty(),
        first(contents(ops)) == None::<T>,
        without_first(contents(ops)) == contents(ops),
{
    lemma_size_counts(ops);
}

/// No element is handed out twice: the value that comes out at position
/// `k` among all the values handed out is the one that went in at position
/// `k` among all the values added.
pub proof fn lemma_dequeued_by_position<T>(ops: Seq<Op<T>>, k: int)
    requires
        0 <= k < dequeued(ops).len(),
    ensures
        k < enqueued(ops).len(),
        dequeued(ops)[k] == enqueued(ops)[k],
{
    lemma_fifo_order(ops);
}

/// Taking an element out uncovers the next one: once the oldest of `items`
/// is out, the oldest element is the one that was second, and there is none
/// where there was no second.
pub proof fn lemma_dequeue_moves_on<T>(items: Seq<T>)
    requires
        items.len() > 0,
    ensures
        first(without_first(items)) == if items.len() > 1 {
            Some(items[1])
        } else {
            None
        },
{
}

} // verus!
