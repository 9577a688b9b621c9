//! A mathematical model of a family of first-in first-out queues, one per
//! key, and the order law that all of them obey. Lane queues and the
//! queues of reply blocks are instances of it.

use vstd::prelude::*;

verus! {

/// One operation on a family of queues.
pub enum QueueOp<T> {
    /// Appends `items`, in order, to the queue of `key`.
    Push { key: u128, items: Seq<T> },
    /// Takes the first item of the queue of `key`, if it has one.
    Pop { key: u128 },
}

/// The queue of `key` after `op` was applied to a family in which it was `queue`.
pub open spec fn queue_step<T>(queue: Seq<T>, op: QueueOp<T>, key: u128) -> Seq<T> {
    match op {
        QueueOp::Push { key: k, items } => if k == key {
            queue + items
        } else {
            queue
        },
        QueueOp::Pop { key: k } => if k == key && queue.len() > 0 {
            queue.drop_first()
        } else {
            queue
        },
    }
}

/// The queue of `key` after all of `ops`, starting from empty queues.
pub open spec fn queue_after<T>(ops: Seq<QueueOp<T>>, key: u128) -> Seq<T>
    decreases ops.len(),
{
    if ops.len() == 0 {
        Seq::empty()
    } else {
        queue_step(queue_after(ops.drop_last(), key), ops.last(), key)
    }
}

/// Everything that `ops` appended to the queue of `key`, in the order of the operations.
pub open spec fn pushed_on<T>(ops: Seq<QueueOp<T>>, key: u128) -> Seq<T>
    decreases ops.len(),
{
    if ops.len() == 0 {
        Seq::empty()
    } else {
        let earlier = pushed_on(ops.drop_last(), key);
        match ops.last() {
            QueueOp::Push { key: k, items } => if k == key {
                earlier + items
            } else {
                earlier
            },
            QueueOp::Pop { .. } => earlier,
        }
    }
}

/// Everything that `ops` took out of the queue of `key`, in the order in which it left.
pub open spec fn popped_on<T>(ops: Seq<QueueOp<T>>, key: u128) -> Seq<T>
    decreases ops.len(),
{
    if ops.len() == 0 {
        Seq::empty()
    } else {
        let earlier = popped_on(ops.drop_last(), key);
        let queue = queue_after(ops.drop_last(), key);
        match ops.last() {
            QueueOp::Push { .. } => earlier,
            QueueOp::Pop { key: k } => if k == key && queue.len() > 0 {
                earlier.push(queue.first())
            } else {
                earlier
            },
        }
    }
}

/// Conservation: what was appended to a queue is what has left it followed
/// by what it still holds. Nothing is lost, duplicated or reordered.
pub proof fn lemma_queue_conservation<T>(ops: Seq<QueueOp<T>>, key: u128)
    ensures
        pushed_on(ops, key) == popped_on(ops, key) + queue_after(ops, key),
    decreases ops.len(),
{
    if ops.len() == 0 {
        assert(pushed_on(ops, key) =~= popped_on(ops, key) + queue_after(ops, key));
    } else {
        lemma_queue_conservation(ops.drop_last(), key);
        let earlier = popped_on(ops.drop_last(), key);
        let queue = queue_after(ops.drop_last(), key);
        match ops.last() {
            QueueOp::Push { key: k, items } => {
                assert((earlier + queue) + items =~= earlier + (queue + items));
            },
            QueueOp::Pop { key: k } => {
                if k == key && queue.len() > 0 {
                    assert(earlier.push(queue.first()) + queue.drop_first() =~= earlier + queue);
                }
            },
        }
    }
}

/// First in, first out: what has left a queue is a prefix of what was appended to it.
pub proof fn lemma_queue_fifo<T>(ops: Seq<QueueOp<T>>, key: u128)
    ensures
        popped_on(ops, key).is_prefix_of(pushed_on(ops, key)),
{
    lemma_queue_conservation(ops, key);
    let popped = popped_on(ops, key);
    let pushed = pushed_on(ops, key);
    assert(pushed.subrange(0, popped.len() as int) =~= popped);
}

/// Single use: the `i`-th and the `j`-th item to leave a queue are the
/// `i`-th and the `j`-th that entered it, so no entry leaves twice.
pub proof fn lemma_queue_single_use<T>(ops: Seq<QueueOp<T>>, key: u128, i: int, j: int)
    requires
        0 <= i < j < popped_on(ops, key).len(),
    ensures
        popped_on(ops, key).len() <= pushed_on(ops, key).len(),
        popped_on(ops, key)[i] == pushed_on(ops, key)[i],
        popped_on(ops, key)[j] == pushed_on(ops, key)[j],
{
    lemma_queue_conservation(ops, key);
}

} // verus!
