//! The reassembly table: the fragments of messages that are not complete
//! yet, bounded in size, and the record of the messages completed lately.

use vstd::prelude::*;
use crate::fragments::{complete, joined, unpad, unpadded, Fragment, FragmentView};
use crate::table::{lemma_position_unique, position_of, Table};

verus! {

/// The fragments of one message that have arrived so far.
pub struct PartialSet {
    slots: Vec<Option<Vec<u8>>>,
}

impl PartialSet {
    /// How many fragments the message has.
    pub closed spec fn total(&self) -> int {
        self.slots@.len() as int
    }

    /// The data of the fragments that have arrived, by index.
    pub closed spec fn parts(&self) -> Map<int, Seq<u8>> {
        Map::new(
            |i: int| 0 <= i < self.slots@.len() && self.slots@[i] is Some,
            |i: int| self.slots@[i].unwrap()@,
        )
    }

    /// An empty set for a message of `total` fragments.
    pub fn new(total: u16) -> (set: PartialSet)
        ensures
            set.total() == total,
            set.parts() == Map::<int, Seq<u8>>::empty(),
    {
        let mut slots: Vec<Option<Vec<u8>>> = Vec::new();
        let mut i: u16 = 0;
        while i < total
            invariant
                i <= total,
                slots@.len() == i,
                forall|j: int| 0 <= j < i ==> #[trigger] slots@[j] is None,
            decreases total - i,
        {
            slots.push(None);
            i += 1;
        }
        let set = PartialSet { slots };
        assert(set.parts() =~= Map::<int, Seq<u8>>::empty());
        set
    }

    pub fn fragment_count(&self) -> (total: usize)
        ensures
            total == self.total(),
    {
        self.slots.len()
    }

    pub fn has(&self, index: u16) -> (held: bool)
        ensures
            held == self.parts().contains_key(index as int),
    {
        (index as usize) < self.slots.len() && self.slots[index as usize].is_some()
    }

    /// Stores the data of fragment `index`.
    pub fn put(&mut self, index: u16, data: Vec<u8>)
        requires
            index < old(self).total(),
        ensures
            final(self).total() == old(self).total(),
            final(self).parts() == old(self).parts().insert(index as int, data@),
    {
        let mut slot = Some(data);
        std::mem::swap(&mut self.slots[index as usize], &mut slot);
        assert(final(self).parts() =~= old(self).parts().insert(index as int, data@));
    }

    /// Whether every fragment has arrived.
    pub fn is_complete(&self) -> (done: bool)
        ensures
            done == complete(self.parts(), self.total()),
    {
        let mut i: usize = 0;
        while i < self.slots.len()
            invariant
                i <= self.slots@.len(),
                forall|j: int| 0 <= j < i ==> #[trigger] self.parts().contains_key(j),
            decreases self.slots@.len() - i,
        {
            if self.slots[i].is_none() {
                assert(!self.parts().contains_key(i as int));
                return false;
            }
            i += 1;
        }
        true
    }

    /// The data of all fragments, one after the other.
    pub fn join(&self) -> (bytes: Vec<u8>)
        requires
            complete(self.parts(), self.total()),
        ensures
            bytes@ == joined(self.parts(), self.total()),
    {
        let mut bytes: Vec<u8> = Vec::new();
        let mut i: usize = 0;
        while i < self.slots.len()
            invariant
                i <= self.slots@.len(),
                complete(self.parts(), self.total()),
                bytes@ == joined(self.parts(), i as int),
            decreases self.slots@.len() - i,
        {
            assert(self.parts().contains_key(i as int));
            match &self.slots[i] {
                Some(data) => {
                    let ghost before = bytes@;
                    let mut k: usize = 0;
                    while k < data.len()
                        invariant
                            k <= data@.len(),
                            bytes@ == before + data@.subrange(0, k as int),
                        decreases data@.len() - k,
                    {
                        bytes.push(data[k]);
                        assert(bytes@ =~= before + data@.subrange(0, k + 1));
                        k += 1;
                    }
                    assert(data@.subrange(0, data@.len() as int) =~= data@);
                },
                None => {},
            }
            i += 1;
        }
        bytes
    }
}

/// What storing a fragment led to.
#[derive(Debug, Clone, PartialEq, Eq)]
pub enum ReassemblyOutcome {
    /// The fragment was stored; its message is not complete yet.
    Stored,
    /// A fragment with this index was already there; nothing changed.
    Duplicate,
    /// The fragment contradicts what is known of its message; nothing changed.
    Inconsistent,
    /// The fragment completed its message; here is the payload, padding removed.
    Completed { payload: Vec<u8> },
    /// The fragment completed its message, but the bytes are not a padded message.
    Malformed,
}

/// The partial sets of the messages that are being received. When a new
/// message arrives while `capacity` sets are held, the set that has not
/// been added to for the longest time is evicted.
pub struct ReassemblyTable {
    sets: Table<PartialSet>,
    capacity: usize,
}

impl ReassemblyTable {
    pub closed spec fn wf(&self) -> bool {
        &&& self.sets.wf()
        &&& self.capacity > 0
        &&& self.sets.order().len() <= self.capacity
        &&& forall|i: int|
            0 <= i < self.sets.order().len() ==> #[trigger] self.sets.order()[i] <= u64::MAX
        &&& forall|i: int|
            0 <= i < self.sets.items().len() ==> 0 < (#[trigger] self.sets.items()[i]).total()
                <= u16::MAX
    }

    pub closed spec fn capacity(&self) -> nat {
        self.capacity as nat
    }

    /// Whether fragments of `message_id` are held.
    pub closed spec fn holds(&self, message_id: u64) -> bool {
        self.sets.map().contains_key(message_id as u128)
    }

    /// The messages of which fragments are held, least recently added-to first.
    pub closed spec fn held_ids(&self) -> Seq<u128> {
        self.sets.order()
    }

    /// The fragments held of `message_id`, by index; empty if none are held.
    pub closed spec fn parts(&self, message_id: u64) -> Map<int, Seq<u8>> {
        if self.holds(message_id) {
            self.sets.map()[message_id as u128].parts()
        } else {
            Map::empty()
        }
    }

    /// How many fragments `message_id` is known to have.
    pub closed spec fn total(&self, message_id: u64) -> int {
        self.sets.map()[message_id as u128].total()
    }

    /// The message whose set is evicted when a new message needs room.
    pub open spec fn eviction_candidate(&self) -> Option<u128> {
        if self.held_ids().len() >= self.capacity() {
            Some(self.held_ids()[0])
        } else {
            None
        }
    }

    /// A table that holds the partial sets of at most `capacity` messages; a
    /// capacity of zero is raised to one.
    pub fn new(capacity: usize) -> (table: ReassemblyTable)
        ensures
            table.wf(),
            table.capacity() == if capacity == 0 {
                1
            } else {
                capacity as nat
            },
            table.held_ids() == Seq::<u128>::empty(),
            forall|id: u64| !#[trigger] table.holds(id),
    {
        ReassemblyTable { sets: Table::new(), capacity: if capacity == 0 {
            1
        } else {
            capacity
        } }
    }

    pub fn len(&self) -> (n: usize)
        requires
            self.wf(),
        ensures
            n == self.held_ids().len(),
    {
        self.sets.len()
    }

    pub fn is_held(&self, message_id: u64) -> (held: bool)
        requires
            self.wf(),
        ensures
            held == self.holds(message_id),
    {
        self.sets.contains_key(message_id as u128)
    }

    /// Stores one fragment and says what came of it.
    pub fn insert_fragment(&mut self, fragment: Fragment) -> (outcome: ReassemblyOutcome)
        requires
            old(self).wf(),
            fragment@.wf(),
        ensures
            final(self).wf(),
            stored(*old(self), *final(self), fragment@),
            outcome is Inconsistent <==> old(self).holds(fragment.message_id) && old(self).total(
                fragment.message_id,
            ) != fragment.total,
            outcome is Duplicate <==> old(self).holds(fragment.message_id) && old(self).total(
                fragment.message_id,
            ) == fragment.total && old(self).parts(fragment.message_id).contains_key(
                fragment.index as int,
            ),
            (outcome is Stored || outcome is Completed || outcome is Malformed) ==> {
                let gathered = old(self).parts(fragment.message_id).insert(
                    fragment.index as int,
                    fragment.data@,
                );
                &&& outcome is Stored <==> !complete(gathered, fragment.total as int)
                &&& outcome matches ReassemblyOutcome::Completed { payload } ==> unpadded(
                    joined(gathered, fragment.total as int),
                ) == Some(payload@)
                &&& outcome is Malformed ==> unpadded(joined(gathered,
                    fragment.total as int)) is None
            },
    {
        let key = fragment.message_id as u128;
        let ghost gathered = old(self).parts(fragment.message_id).insert(
            fragment.index as int,
            fragment.data@,
        );
        let mut set = match self.sets.position(key) {
            Some(at) => {
                proof {
                    self.sets.lemma_map_at(at as int);
                    lemma_position_unique(self.sets.order(), at as int);
                }
                let known = self.sets.value_at(at);
                if known.fragment_count() != fragment.total as usize {
                    return ReassemblyOutcome::Inconsistent;
                }
                if known.has(fragment.index) {
                    return ReassemblyOutcome::Duplicate;
                }
                let (_, set) = self.sets.remove_at(at);
                proof {
                    self.lemma_after_removal(*old(self), at as int);
                }
                set
            },
            None => PartialSet::new(fragment.total),
        };
        assert(set.parts() == old(self).parts(fragment.message_id));
        let ghost without = *self;
        assert(without.wf());
        assert(!without.holds(fragment.message_id));
        assert(forall|id: u64|
            id != fragment.message_id ==> without.holds(id) == old(self).holds(id)
                && #[trigger] without.parts(id) == old(self).parts(id) && (without.holds(id)
                ==> without.total(id) == old(self).total(id)));
        set.put(fragment.index, fragment.data);
        if set.is_complete() {
            let bytes = set.join();
            return match unpad(bytes.as_slice()) {
                Some(payload) => ReassemblyOutcome::Completed { payload },
                None => ReassemblyOutcome::Malformed,
            };
        }
        let ghost mut evicted: Option<u128> = None;
        if self.sets.len() >= self.capacity {
            proof {
                evicted = Some(self.sets.order()[0]);
                self.sets.lemma_map_at(0);
                old(self).sets.lemma_order_is_domain();
            }
            let _ = self.sets.remove_at(0);
            proof {
                self.lemma_after_removal(without, 0);
                assert(self.sets.order() =~= without.sets.order().drop_first());
            }
        }
        let ghost room = *self;
        let _ = self.sets.insert(key, set);
        proof {
            let before = room.sets;
            assert(!before.map().contains_key(key));
            assert forall|i: int| 0 <= i < self.sets.order().len() implies #[trigger]
                self.sets.order()[i] <= u64::MAX by {
                if i < before.order().len() {
                    assert(self.sets.order()[i] == before.order()[i]);
                }
            }
            assert forall|i: int| 0 <= i < self.sets.items().len() implies 0 < (
            #[trigger] self.sets.items()[i]).total() <= u16::MAX by {
                if i < before.items().len() {
                    assert(self.sets.items()[i] == before.items()[i]);
                }
            }
            assert forall|id: u64| id != fragment.message_id implies if evicted == Some(
                id as u128,
            ) {
                !#[trigger] final(self).holds(id)
            } else {
                final(self).holds(id) == old(self).holds(id) && final(self).parts(id)
                    == old(self).parts(id) && (final(self).holds(id) ==> final(self).total(id)
                    == old(self).total(
                    id,
                ))
            } by {
                assert(id as u128 != key);
            }
            if old(self).holds(fragment.message_id) {
                assert(evicted is None) by {
                    old(self).sets.lemma_order_is_domain();
                }
            }
        }
        ReassemblyOutcome::Stored
    }

    /// Taking the entry at `at` out of `before` gave `self`: what that means for the sets.
    proof fn lemma_after_removal(&self, before: ReassemblyTable, at: int)
        requires
            before.wf(),
            self.sets.wf(),
            self.capacity == before.capacity,
            0 <= at < before.sets.order().len(),
            self.sets.order() == before.sets.order().remove(at),
            self.sets.items() == before.sets.items().remove(at),
            self.sets.map() == before.sets.map().remove(before.sets.order()[at]),
        ensures
            self.wf(),
            self.sets.order().len() == before.sets.order().len() - 1,
            forall|id: u64|
                id as u128 != before.sets.order()[at] ==> self.holds(id) == before.holds(id)
                    && #[trigger] self.parts(id) == before.parts(id) && (self.holds(id)
                    ==> self.total(id) == before.total(id)),
            forall|id: u64| id as u128 == before.sets.order()[at] ==> !#[trigger] self.holds(id),
    {
        assert forall|i: int| 0 <= i < self.sets.order().len() implies #[trigger]
            self.sets.order()[i] <= u64::MAX by {
            let i0 = if i < at { i } else { i + 1 };
            assert(self.sets.order()[i] == before.sets.order()[i0]);
        }
        assert forall|i: int| 0 <= i < self.sets.items().len() implies 0 < (
        #[trigger] self.sets.items()[i]).total() <= u16::MAX by {
            let i0 = if i < at { i } else { i + 1 };
            assert(self.sets.items()[i] == before.sets.items()[i0]);
        }
    }
}

/// The fragment contradicts what the table holds of its message, or is held already.
pub open spec fn refused(table: ReassemblyTable, fragment: FragmentView) -> bool {
    table.holds(fragment.message_id) && (table.total(fragment.message_id) != fragment.total
        || table.parts(fragment.message_id).contains_key(fragment.index as int))
}

/// How storing `fragment` changes the table. A fragment that is refused
/// changes nothing. Otherwise the fragment joins the set of its message,
/// which becomes the most recently used; a set that is complete leaves the
/// table; and a new message that finds the table full takes the place of
/// the least recently used.
pub open spec fn stored(before: ReassemblyTable, after: ReassemblyTable,
    fragment: FragmentView) -> bool {
    let id = fragment.message_id;
    let gathered = before.parts(id).insert(fragment.index as int, fragment.data);
    let whole = complete(gathered, fragment.total as int);
    let evicted = if before.holds(id) {
        None
    } else {
        before.eviction_candidate()
    };
    let kept = if before.holds(id) {
        before.held_ids().remove(position_of(before.held_ids(), id as u128))
    } else if !whole && evicted is Some {
        before.held_ids().drop_first()
    } else {
        before.held_ids()
    };
    &&& after.capacity() == before.capacity()
    &&& refused(before, fragment) ==> {
        &&& after.held_ids() == before.held_ids()
        &&& forall|other: u64|
            #![trigger after.parts(other)]
            after.holds(other) == before.holds(other) && after.parts(other) == before.parts(other)
                && (after.holds(other) ==> after.total(other) == before.total(other))
    }
    &&& !refused(before, fragment) ==> {
        &&& after.held_ids() == if whole {
            kept
        } else {
            kept.push(id as u128)
        }
        &&& whole ==> !after.holds(id)
        &&& !whole ==> after.holds(id) && after.parts(id) == gathered && after.total(id)
            == fragment.total
        &&& forall|other: u64|
            other != id ==> if !whole && evicted == Some(other as u128) {
                !#[trigger] after.holds(other)
            } else {
                after.holds(other) == before.holds(other) && after.parts(other) == before.parts(
                    other,
                ) && (after.holds(other) ==> after.total(other) == before.total(other))
            }
    }
}

/// The record after `message_id` was completed: a known id is left where it
/// is; a new one is added at the end and pushes out the oldest when the
/// record is full; a record without room records nothing.
pub open spec fn remembered(record: Seq<u64>, message_id: u64, capacity: nat) -> Seq<u64> {
    if record.contains(message_id) || capacity == 0 {
        record
    } else if record.len() < capacity {
        record.push(message_id)
    } else {
        record.drop_first().push(message_id)
    }
}

/// The ids of the messages completed lately, oldest first, at most `capacity` of them.
pub struct RecentlyCompleted {
    ids: Vec<u64>,
    capacity: usize,
}

impl View for RecentlyCompleted {
    type V = Seq<u64>;

    closed spec fn view(&self) -> Seq<u64> {
        self.ids@
    }
}

impl RecentlyCompleted {
    pub closed spec fn wf(&self) -> bool {
        &&& self.ids@.no_duplicates()
        &&& self.ids@.len() <= self.capacity
    }

    pub closed spec fn capacity(&self) -> nat {
        self.capacity as nat
    }

    pub fn new(capacity: usize) -> (recent: RecentlyCompleted)
        ensures
            recent.wf(),
            recent@ == Seq::<u64>::empty(),
            recent.capacity() == capacity,
    {
        RecentlyCompleted { ids: Vec::new(), capacity }
    }

    pub fn contains(&self, message_id: u64) -> (held: bool)
        ensures
            held == self@.contains(message_id),
    {
        let mut i: usize = 0;
        while i < self.ids.len()
            invariant
                i <= self.ids@.len(),
                forall|j: int| 0 <= j < i ==> self.ids@[j] != message_id,
            decreases self.ids@.len() - i,
        {
            if self.ids[i] == message_id {
                return true;
            }
            i += 1;
        }
        false
    }

    /// Records that `message_id` was completed. Returns whether it was new.
    /// A known id is left where it is; a new one pushes out the oldest when
    /// the record is full.
    pub fn remember(&mut self, message_id: u64) -> (fresh: bool)
        requires
            old(self).wf(),
        ensures
            final(self).wf(),
            final(self).capacity() == old(self).capacity(),
            fresh == !old(self)@.contains(message_id),
            final(self)@ == remembered(old(self)@, message_id, old(self).capacity()),
            fresh && old(self).capacity() > 0 ==> final(self)@.contains(message_id),
    {
        if self.contains(message_id) {
            return false;
        }
        if self.capacity == 0 {
            return true;
        }
        if self.ids.len() == self.capacity {
            let _ = self.ids.remove(0);
            assert(self.ids@ =~= old(self)@.drop_first());
            assert forall|a: int, b: int|
                0 <= a < self.ids@.len() && 0 <= b < self.ids@.len() && a != b implies self.ids@[a]
                != self.ids@[b] by {
                assert(self.ids@[a] == old(self)@[a + 1]);
                assert(self.ids@[b] == old(self)@[b + 1]);
            }
            assert(!self.ids@.contains(message_id)) by {
                if self.ids@.contains(message_id) {
                    let p = choose|p: int| 0 <= p < self.ids@.len() && self.ids@[p] == message_id;
                    assert(old(self)@[p + 1] == message_id);
                }
            }
        }
        let ghost before = self.ids@;
        self.ids.push(message_id);
        proof {
            assert forall|a: int, b: int|
                0 <= a < self.ids@.len() && 0 <= b < self.ids@.len() && a != b implies self.ids@[a]
                != self.ids@[b] by {
                if a < before.len() {
                    assert(before[a] == self.ids@[a]);
                    assert(before.contains(self.ids@[a]));
                }
                if b < before.len() {
                    assert(before[b] == self.ids@[b]);
                    assert(before.contains(self.ids@[b]));
                }
            }
            assert(self.ids@[before.len() as int] == message_id);
        }
        true
    }
}

} // verus!
