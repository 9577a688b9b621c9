//! Lanes: the queues in which fragments wait for their turn to be sent, one
//! queue per lane, and the queue lengths that producers sample.

use vstd::prelude::*;
use crate::fifo::{lemma_queue_conservation, popped_on, pushed_on, queue_after, queue_step, QueueOp};
use crate::randomness::random_below;
use crate::table::Table;

verus! {

/// Names a logical stream of messages.
pub type LaneId = u64;

/// The published length of every lane; a lane that was never used has length zero.
#[derive(Debug, Clone)]
pub struct LaneQueueLengths {
    lengths: Table<u64>,
}

impl LaneQueueLengths {
    pub closed spec fn wf(&self) -> bool {
        self.lengths.wf()
    }

    /// The published length of `lane`.
    pub closed spec fn length(&self, lane: LaneId) -> nat {
        if self.lengths.map().contains_key(lane as u128) {
            self.lengths.map()[lane as u128] as nat
        } else {
            0
        }
    }

    pub fn new() -> (lengths: LaneQueueLengths)
        ensures
            lengths.wf(),
            forall|lane: LaneId| #[trigger] lengths.length(lane) == 0,
    {
        LaneQueueLengths { lengths: Table::new() }
    }

    /// The published length of `lane`.
    pub fn get(&self, lane: LaneId) -> (len: u64)
        requires
            self.wf(),
        ensures
            len == self.length(lane),
    {
        match self.lengths.get(lane as u128) {
            Some(len) => *len,
            None => 0,
        }
    }

    /// Publishes `len` as the length of `lane`.
    pub fn set(&mut self, lane: LaneId, len: u64)
        requires
            old(self).wf(),
        ensures
            final(self).wf(),
            final(self).length(lane) == len,
            forall|other: LaneId| other != lane ==> #[trigger] final(self).length(other)
                == old(self).length(other),
    {
        let _ = self.lengths.insert(lane as u128, len);
    }

    /// One more fragment waits in `lane`. The count saturates.
    pub fn increment(&mut self, lane: LaneId)
        requires
            old(self).wf(),
        ensures
            final(self).wf(),
            old(self).length(lane) < u64::MAX ==> final(self).length(lane) == old(self).length(lane)
                + 1,
            old(self).length(lane) == u64::MAX ==> final(self).length(lane) == u64::MAX,
            forall|other: LaneId| other != lane ==> #[trigger] final(self).length(other)
                == old(self).length(other),
    {
        let len = self.get(lane);
        self.set(lane, len.saturating_add(1));
    }

    /// One fragment has left `lane`. An empty lane stays empty.
    pub fn decrement(&mut self, lane: LaneId)
        requires
            old(self).wf(),
        ensures
            final(self).wf(),
            old(self).length(lane) > 0 ==> final(self).length(lane) == old(self).length(lane) - 1,
            old(self).length(lane) == 0 ==> final(self).length(lane) == 0,
            forall|other: LaneId| other != lane ==> #[trigger] final(self).length(other)
                == old(self).length(other),
    {
        let len = self.get(lane);
        self.set(lane, len.saturating_sub(1));
    }
}

/// The fragments that wait to be sent, one first-in first-out queue per lane.
pub struct LaneQueues<T> {
    queues: Table<Vec<T>>,
    lengths: LaneQueueLengths,
}

impl<T> LaneQueues<T> {
    /// The published length of every lane is the length of its queue.
    pub closed spec fn wf(&self) -> bool {
        &&& self.queues.wf()
        &&& self.lengths.wf()
        &&& forall|lane: LaneId| #[trigger] self.lengths.length(lane) == self.queue(lane).len()
        &&& forall|i: int|
            0 <= i < self.queues.order().len() ==> #[trigger] self.queues.order()[i] <= u64::MAX
    }

    /// What waits in `lane`, oldest first.
    pub closed spec fn queue(&self, lane: LaneId) -> Seq<T> {
        if self.queues.map().contains_key(lane as u128) {
            self.queues.map()[lane as u128]@
        } else {
            Seq::empty()
        }
    }

    pub fn new() -> (lanes: LaneQueues<T>)
        ensures
            lanes.wf(),
            forall|lane: LaneId| #[trigger] lanes.queue(lane) == Seq::<T>::empty(),
    {
        let lanes = LaneQueues { queues: Table::new(), lengths: LaneQueueLengths::new() };
        assert forall|lane: LaneId| #[trigger] lanes.lengths.length(lane) == lanes.queue(
            lane,
        ).len() by {}
        lanes
    }

    /// The lengths as producers see them.
    pub fn lengths(&self) -> (lengths: &LaneQueueLengths)
        requires
            self.wf(),
        ensures
            lengths.wf(),
            forall|lane: LaneId| #[trigger] lengths.length(lane) == self.queue(lane).len(),
    {
        &self.lengths
    }

    /// How many fragments wait in `lane`.
    pub fn lane_length(&self, lane: LaneId) -> (len: u64)
        requires
            self.wf(),
        ensures
            len == self.queue(lane).len(),
    {
        self.lengths.get(lane)
    }

    /// Appends `items`, in order, to the queue of `lane`.
    pub fn enqueue(&mut self, lane: LaneId, items: Vec<T>)
        requires
            old(self).wf(),
        ensures
            final(self).wf(),
            final(self).queue(lane) == old(self).queue(lane) + items@,
            forall|other: LaneId| #[trigger]
                final(self).queue(other) == queue_step(
                    old(self).queue(other),
                    QueueOp::Push { key: lane as u128, items: items@ },
                    other as u128,
                ),
    {
        let ghost appended = items@;
        let mut items = items;
        let key = lane as u128;
        let mut queue: Vec<T> = match self.queues.position(key) {
            Some(at) => {
                proof {
                    self.queues.lemma_map_at(at as int);
                }
                self.queues.replace_at(at, Vec::new())
            },
            None => Vec::new(),
        };
        assert(queue@ == old(self).queue(lane));
        queue.append(&mut items);
        let len = queue.len() as u64;
        let _ = self.queues.insert(key, queue);
        self.lengths.set(lane, len);
        proof {
            assert(final(self).queue(lane) =~= old(self).queue(lane) + appended);
            assert forall|other: LaneId| #[trigger]
                final(self).queue(other) == queue_step(
                    old(self).queue(other),
                    QueueOp::Push { key: lane as u128, items: appended },
                    other as u128,
                ) by {
                if other != lane {
                    assert(other as u128 != key);
                }
            }
            assert forall|other: LaneId| #[trigger]
                final(self).lengths.length(other) == final(self).queue(other).len() by {
                if other != lane {
                    assert(other as u128 != key);
                    assert(old(self).lengths.length(other) == old(self).queue(other).len());
                }
            }
            assert forall|i: int| 0 <= i < final(self).queues.order().len() implies #[trigger]
                final(self).queues.order()[i] <= u64::MAX by {
                let k = final(self).queues.order()[i];
                final(self).queues.lemma_map_at(i);
                if k != key {
                    assert(old(self).queues.map().contains_key(k));
                    old(self).queues.lemma_key_position(k);
                }
            }
        }
    }

    /// Takes the oldest fragment of `lane`, if one waits there.
    pub fn pop(&mut self, lane: LaneId) -> (item: Option<T>)
        requires
            old(self).wf(),
        ensures
            final(self).wf(),
            item is Some <==> old(self).queue(lane).len() > 0,
            item is Some ==> item.unwrap() == old(self).queue(lane).first(),
            forall|other: LaneId| #[trigger]
                final(self).queue(other) == queue_step(
                    old(self).queue(other),
                    QueueOp::<T>::Pop { key: lane as u128 },
                    other as u128,
                ),
    {
        let key = lane as u128;
        match self.queues.position(key) {
            None => None,
            Some(at) => {
                proof {
                    self.queues.lemma_map_at(at as int);
                }
                if self.queues.value_at(at).len() == 0 {
                    return None;
                }
                let mut queue = self.queues.replace_at(at, Vec::new());
                let item = queue.remove(0);
                let len = queue.len() as u64;
                let _ = self.queues.replace_at(at, queue);
                self.lengths.set(lane, len);
                proof {
                    assert(final(self).queue(lane) =~= old(self).queue(lane).drop_first());
                    assert forall|other: LaneId| #[trigger]
                        final(self).queue(other) == queue_step(
                            old(self).queue(other),
                            QueueOp::<T>::Pop { key: lane as u128 },
                            other as u128,
                        ) by {
                        if other != lane {
                            assert(other as u128 != key);
                        }
                    }
                    assert forall|other: LaneId| #[trigger]
                        final(self).lengths.length(other) == final(self).queue(other).len() by {
                        if other != lane {
                            assert(other as u128 != key);
                            assert(old(self).lengths.length(other) == old(self).queue(other).len());
                        }
                    }
                }
                Some(item)
            },
        }
    }

    /// The lanes in which something waits, in the order in which the lanes were first used.
    pub fn waiting_lanes(&self) -> (lanes: Vec<LaneId>)
        requires
            self.wf(),
        ensures
            forall|i: int| 0 <= i < lanes@.len() ==> self.queue(#[trigger] lanes@[i]).len() > 0,
            forall|lane: LaneId| self.queue(lane).len() > 0 ==> #[trigger] lanes@.contains(lane),
    {
        let mut lanes: Vec<LaneId> = Vec::new();
        let mut i: usize = 0;
        while i < self.queues.len()
            invariant
                self.wf(),
                i <= self.queues.order().len(),
                forall|j: int| 0 <= j < lanes@.len() ==> self.queue(#[trigger] lanes@[j]).len() > 0,
                forall|j: int|
                    0 <= j < i && (#[trigger] self.queues.items()[j])@.len() > 0
                        ==> lanes@.contains(self.queues.order()[j] as u64),
            decreases self.queues.order().len() - i,
        {
            let key = self.queues.key_at(i);
            proof {
                self.queues.lemma_map_at(i as int);
            }
            if self.queues.value_at(i).len() > 0 {
                let ghost before = lanes@;
                lanes.push(key as u64);
                proof {
                    assert(lanes@[before.len() as int] == key as u64);
                    assert forall|j: int|
                        0 <= j < i + 1
                            && (#[trigger] self.queues.items()[j])@.len() > 0 implies lanes@.contains(
                        self.queues.order()[j] as u64,
                    ) by {
                        if j < i {
                            let p = choose|p: int|
                                0 <= p < before.len() && before[p] == self.queues.order()[j] as u64;
                            assert(lanes@[p] == before[p]);
                        }
                    }
                }
            }
            i += 1;
        }
        proof {
            assert forall|lane: LaneId| self.queue(lane).len() > 0 implies #[trigger] lanes@.contains(
                lane,
            ) by {
                self.queues.lemma_key_position(lane as u128);
            }
        }
        lanes
    }

    /// Looks at the oldest fragment of `lane` without taking it.
    pub fn peek(&self, lane: LaneId) -> (item: Option<&T>)
        requires
            self.wf(),
        ensures
            item is Some <==> self.queue(lane).len() > 0,
            item is Some ==> *item.unwrap() == self.queue(lane).first(),
    {
        match self.queues.get(lane as u128) {
            None => None,
            Some(queue) => {
                if queue.len() == 0 {
                    None
                } else {
                    Some(&queue[0])
                }
            },
        }
    }

    /// Draws a lane at random among those in which something waits.
    pub fn pick_lane(&self) -> (picked: Option<LaneId>)
        requires
            self.wf(),
        ensures
            picked is None <==> forall|lane: LaneId| #[trigger] self.queue(lane).len() == 0,
            picked is Some ==> self.queue(picked.unwrap()).len() > 0,
    {
        let waiting = self.waiting_lanes();
        if waiting.len() == 0 {
            proof {
                assert forall|lane: LaneId| #[trigger] self.queue(lane).len() == 0 by {
                    if self.queue(lane).len() > 0 {
                        assert(waiting@.contains(lane));
                    }
                }
            }
            return None;
        }
        let pick = random_below(waiting.len());
        assert(self.queue(waiting@[pick as int]).len() > 0);
        Some(waiting[pick])
    }

    /// Takes the oldest fragment of a lane drawn at random among those in
    /// which something waits. Returns the lane with the fragment, or `None`
    /// when every lane is empty.
    pub fn pop_any(&mut self) -> (taken: Option<(LaneId, T)>)
        requires
            old(self).wf(),
        ensures
            final(self).wf(),
            taken is None <==> forall|lane: LaneId| #[trigger] old(self).queue(lane).len() == 0,
            taken is Some ==> {
                let (lane, item) = taken.unwrap();
                &&& old(self).queue(lane).len() > 0
                &&& item == old(self).queue(lane).first()
                &&& forall|other: LaneId| #[trigger]
                    final(self).queue(other) == queue_step(
                        old(self).queue(other),
                        QueueOp::<T>::Pop { key: lane as u128 },
                        other as u128,
                    )
            },
            taken is None ==> forall|lane: LaneId| #[trigger]
                final(self).queue(lane) == old(self).queue(lane),
    {
        let waiting = self.waiting_lanes();
        if waiting.len() == 0 {
            proof {
                assert forall|lane: LaneId| #[trigger] self.queue(lane).len() == 0 by {
                    if self.queue(lane).len() > 0 {
                        assert(waiting@.contains(lane));
                    }
                }
            }
            return None;
        }
        let pick = random_below(waiting.len());
        let lane = waiting[pick];
        assert(self.queue(waiting@[pick as int]).len() > 0);
        match self.pop(lane) {
            Some(item) => Some((lane, item)),
            None => None,
        }
    }
}

/// Lane FIFO. Whatever is enqueued and sent on whatever lanes, what has
/// left a lane is a prefix of what was enqueued on it: the fragments of an
/// earlier message of a lane leave before those of a later one, in order,
/// and none leaves twice.
pub proof fn lemma_lane_fifo<T>(ops: Seq<QueueOp<T>>, lane: LaneId)
    ensures
        popped_on(ops, lane as u128).is_prefix_of(pushed_on(ops, lane as u128)),
        pushed_on(ops, lane as u128) == popped_on(ops, lane as u128) + queue_after(
            ops,
            lane as u128,
        ),
{
    lemma_queue_conservation(ops, lane as u128);
    crate::fifo::lemma_queue_fifo(ops, lane as u128);
}

} // verus!
