//! A small ordered map keyed by an integer. Entries keep the order in which
//! they were inserted, so the oldest entry is always the first one.

use vstd::prelude::*;

verus! {

/// The position of `key` in `keys`; meaningful when `keys` holds it.
pub open spec fn position_of(keys: Seq<u128>, key: u128) -> int {
    choose|i: int| 0 <= i < keys.len() && keys[i] == key
}

/// In a sequence without duplicates, an element is found where it stands.
pub proof fn lemma_position_unique(keys: Seq<u128>, i: int)
    requires
        keys.no_duplicates(),
        0 <= i < keys.len(),
    ensures
        position_of(keys, keys[i]) == i,
{
    let p = position_of(keys, keys[i]);
    assert(0 <= p < keys.len() && keys[p] == keys[i]);
}

/// The map that pairs each key of `keys` with the item at the same position.
pub open spec fn pairing<V>(keys: Seq<u128>, items: Seq<V>) -> Map<u128, V> {
    Map::new(|k: u128| keys.contains(k), |k: u128| items[position_of(keys, k)])
}

/// The map that results from storing each item under its key, in order.
pub open spec fn inserted_all<V>(keys: Seq<u128>, items: Seq<V>) -> Map<u128, V>
    decreases keys.len(),
{
    if keys.len() == 0 {
        Map::empty()
    } else {
        inserted_all(keys.drop_last(), items.drop_last()).insert(keys.last(), items.last())
    }
}

/// Where no key occurs twice, storing the items one by one gives the pairing.
pub proof fn lemma_pairing_is_inserted_all<V>(keys: Seq<u128>, items: Seq<V>)
    requires
        keys.len() == items.len(),
        keys.no_duplicates(),
    ensures
        pairing(keys, items) == inserted_all(keys, items),
    decreases keys.len(),
{
    if keys.len() == 0 {
        assert(pairing(keys, items) =~= Map::<u128, V>::empty());
    } else {
        let n = keys.len() - 1;
        let earlier_keys = keys.drop_last();
        let earlier_items = items.drop_last();
        lemma_pairing_is_inserted_all(earlier_keys, earlier_items);
        let grown = pairing(earlier_keys, earlier_items).insert(keys.last(), items.last());
        assert forall|k: u128| #[trigger] pairing(keys, items).contains_key(k)
            == grown.contains_key(
            k,
        ) by {
            if keys.contains(k) {
                let p = position_of(keys, k);
                if p < n {
                    assert(earlier_keys[p] == k);
                }
            }
            if earlier_keys.contains(k) {
                let p = position_of(earlier_keys, k);
                assert(keys[p] == k);
            }
            if k == keys.last() {
                assert(keys[n] == k);
            }
        }
        assert forall|k: u128| #[trigger] pairing(keys, items).contains_key(k) implies pairing(
            keys,
            items,
        )[k] == grown[k] by {
            let p = position_of(keys, k);
            lemma_position_unique(keys, p);
            if p < n {
                assert(earlier_keys[p] == k);
                lemma_position_unique(earlier_keys, p);
                assert(k != keys.last());
            }
        }
        assert(pairing(keys, items) =~= grown);
    }
}

/// An insertion-ordered map from `u128` keys to values.
#[derive(Debug, Clone)]
pub struct Table<V> {
    keys: Vec<u128>,
    values: Vec<V>,
}

impl<V> Table<V> {
    /// The keys, oldest first.
    pub closed spec fn order(&self) -> Seq<u128> {
        self.keys@
    }

    /// The values, in the order of their keys.
    pub closed spec fn items(&self) -> Seq<V> {
        self.values@
    }

    /// No key occurs twice and every key has its value.
    pub open spec fn wf(&self) -> bool {
        &&& self.order().len() == self.items().len()
        &&& self.order().no_duplicates()
    }

    /// The table as a mathematical map.
    pub open spec fn map(&self) -> Map<u128, V> {
        pairing(self.order(), self.items())
    }

    /// A key of the table maps to the item that stands at the key's position.
    pub proof fn lemma_map_at(&self, i: int)
        requires
            self.wf(),
            0 <= i < self.order().len(),
        ensures
            self.map().contains_key(self.order()[i]),
            self.map()[self.order()[i]] == self.items()[i],
    {
        lemma_position_unique(self.order(), i);
    }

    /// A key of the map stands somewhere in the order.
    pub proof fn lemma_key_position(&self, key: u128)
        requires
            self.wf(),
            self.map().contains_key(key),
        ensures
            0 <= position_of(self.order(), key) < self.order().len(),
            self.order()[position_of(self.order(), key)] == key,
            self.map()[key] == self.items()[position_of(self.order(), key)],
    {
    }

    /// The table holds as many keys as its order is long.
    pub proof fn lemma_order_is_domain(&self)
        requires
            self.wf(),
        ensures
            self.map().dom().finite(),
            self.map().dom().len() == self.order().len(),
    {
        assert(self.map().dom() =~= self.order().to_set());
        self.order().unique_seq_to_set();
        vstd::seq_lib::seq_to_set_is_finite(self.order());
    }

    pub fn new() -> (table: Table<V>)
        ensures
            table.wf(),
            table.order() == Seq::<u128>::empty(),
            table.items() == Seq::<V>::empty(),
            table.map() == Map::<u128, V>::empty(),
    {
        let table = Table { keys: Vec::new(), values: Vec::new() };
        assert(table.map() =~= Map::<u128, V>::empty());
        table
    }

    pub fn len(&self) -> (n: usize)
        requires
            self.wf(),
        ensures
            n == self.order().len(),
    {
        self.keys.len()
    }

    /// Takes the table apart: its keys and its values, in order.
    pub fn into_parts(self) -> (parts: (Vec<u128>, Vec<V>))
        requires
            self.wf(),
        ensures
            parts.0@ == self.order(),
            parts.1@ == self.items(),
            self.map() == inserted_all(parts.0@, parts.1@),
    {
        proof {
            lemma_pairing_is_inserted_all(self.order(), self.items());
        }
        (self.keys, self.values)
    }

    /// Where `key` stands, if the table holds it.
    pub fn position(&self, key: u128) -> (found: Option<usize>)
        requires
            self.wf(),
        ensures
            found is Some <==> self.map().contains_key(key),
            found is Some ==> found.unwrap() < self.order().len()
                && self.order()[found.unwrap() as int]
                == key,
    {
        let mut i: usize = 0;
        while i < self.keys.len()
            invariant
                i <= self.keys.len(),
                forall|j: int| 0 <= j < i ==> self.keys@[j] != key,
            decreases self.keys.len() - i,
        {
            if self.keys[i] == key {
                assert(self.order().contains(key));
                return Some(i);
            }
            i += 1;
        }
        None
    }

    pub fn contains_key(&self, key: u128) -> (held: bool)
        requires
            self.wf(),
        ensures
            held == self.map().contains_key(key),
    {
        self.position(key).is_some()
    }

    pub fn get(&self, key: u128) -> (value: Option<&V>)
        requires
            self.wf(),
        ensures
            value is Some <==> self.map().contains_key(key),
            value is Some ==> *value.unwrap() == self.map()[key],
    {
        match self.position(key) {
            Some(i) => {
                proof {
                    self.lemma_map_at(i as int);
                }
                Some(&self.values[i])
            },
            None => None,
        }
    }

    /// The key at position `i`.
    pub fn key_at(&self, i: usize) -> (key: u128)
        requires
            self.wf(),
            i < self.order().len(),
        ensures
            key == self.order()[i as int],
            self.map().contains_key(key),
    {
        proof {
            self.lemma_map_at(i as int);
        }
        self.keys[i]
    }

    /// The value at position `i`.
    pub fn value_at(&self, i: usize) -> (value: &V)
        requires
            self.wf(),
            i < self.order().len(),
        ensures
            *value == self.items()[i as int],
            *value == self.map()[self.order()[i as int]],
    {
        proof {
            self.lemma_map_at(i as int);
        }
        &self.values[i]
    }

    /// Puts `value` in the place of the value at position `i` and returns the old one.
    pub fn replace_at(&mut self, i: usize, value: V) -> (previous: V)
        requires
            old(self).wf(),
            i < old(self).order().len(),
        ensures
            final(self).wf(),
            previous == old(self).items()[i as int],
            previous == old(self).map()[old(self).order()[i as int]],
            final(self).order() == old(self).order(),
            final(self).items() == old(self).items().update(i as int, value),
            final(self).map() == old(self).map().insert(old(self).order()[i as int], value),
    {
        proof {
            self.lemma_map_at(i as int);
        }
        let mut slot = value;
        std::mem::swap(&mut self.values[i], &mut slot);
        proof {
            let before = old(self);
            let key = before.order()[i as int];
            assert forall|k: u128| #[trigger]
                self.map().contains_key(k) == before.map().insert(key, value).contains_key(k) by {
                if k == key {
                    assert(self.order().contains(key));
                }
            }
            assert forall|k: u128| #[trigger] self.map().contains_key(k) implies self.map()[k]
                == before.map().insert(key, value)[k] by {
                let p = position_of(self.order(), k);
                lemma_position_unique(self.order(), p);
                lemma_position_unique(self.order(), i as int);
            }
            assert(self.map() =~= before.map().insert(key, value));
        }
        slot
    }

    /// Stores `value` under `key`. A new key goes to the end of the order;
    /// a key that is already held keeps its place and gets the new value.
    pub fn insert(&mut self, key: u128, value: V) -> (previous: Option<V>)
        requires
            old(self).wf(),
        ensures
            final(self).wf(),
            final(self).map() == old(self).map().insert(key, value),
            previous is Some <==> old(self).map().contains_key(key),
            previous is Some ==> previous.unwrap() == old(self).map()[key],
            previous is Some ==> final(self).order() == old(self).order(),
            previous is Some ==> final(self).items() == old(self).items().update(
                position_of(old(self).order(), key),
                value,
            ),
            previous is None ==> final(self).order() == old(self).order().push(key),
            previous is None ==> final(self).items() == old(self).items().push(value),
    {
        match self.position(key) {
            Some(i) => {
                proof {
                    lemma_position_unique(self.order(), i as int);
                }
                Some(self.replace_at(i, value))
            },
            None => {
                self.keys.push(key);
                self.values.push(value);
                proof {
                    let before = old(self);
                    let n = before.order().len() as int;
                    assert forall|a: int, b: int|
                        0 <= a < self.order().len() && 0 <= b < self.order().len()
                            && a != b implies self.order()[a]
                        != self.order()[b] by {
                        if a < n && b < n {
                        } else if a == n {
                            assert(before.order()[b] == self.order()[b]);
                            assert(before.order().contains(self.order()[b]));
                        } else {
                            assert(before.order()[a] == self.order()[a]);
                            assert(before.order().contains(self.order()[a]));
                        }
                    }
                    assert forall|k: u128| #[trigger]
                        self.map().contains_key(k) == before.map().insert(key, value).contains_key(
                            k,
                        ) by {
                        if k == key {
                            assert(self.order()[n] == key);
                        } else if before.order().contains(k) {
                            let p = position_of(before.order(), k);
                            assert(self.order()[p] == k);
                        } else if self.order().contains(k) {
                            let p = position_of(self.order(), k);
                            assert(p < n);
                            assert(before.order()[p] == k);
                        }
                    }
                    assert forall|k: u128| #[trigger]
                        self.map().contains_key(k) implies self.map()[k] == before.map().insert(
                        key,
                        value,
                    )[k] by {
                        let p = position_of(self.order(), k);
                        lemma_position_unique(self.order(), p);
                        if k != key {
                            assert(p < n);
                            assert(before.order()[p] == k);
                            lemma_position_unique(before.order(), p);
                        } else {
                            lemma_position_unique(self.order(), n);
                        }
                    }
                    assert(self.map() =~= before.map().insert(key, value));
                }
                None
            },
        }
    }

    /// Takes the entry at position `i` out of the table; the others keep their order.
    pub fn remove_at(&mut self, i: usize) -> (entry: (u128, V))
        requires
            old(self).wf(),
            i < old(self).order().len(),
        ensures
            final(self).wf(),
            entry.0 == old(self).order()[i as int],
            entry.1 == old(self).items()[i as int],
            entry.1 == old(self).map()[entry.0],
            final(self).order() == old(self).order().remove(i as int),
            final(self).items() == old(self).items().remove(i as int),
            final(self).map() == old(self).map().remove(entry.0),
    {
        proof {
            self.lemma_map_at(i as int);
        }
        let key = self.keys.remove(i);
        let value = self.values.remove(i);
        proof {
            let before = old(self);
            let at = i as int;
            assert forall|a: int, b: int|
                0 <= a < self.order().len() && 0 <= b < self.order().len()
                    && a != b implies self.order()[a]
                != self.order()[b] by {
                let a0 = if a < at { a } else { a + 1 };
                let b0 = if b < at { b } else { b + 1 };
                assert(self.order()[a] == before.order()[a0]);
                assert(self.order()[b] == before.order()[b0]);
            }
            assert forall|k: u128| #[trigger]
                self.map().contains_key(k) == before.map().remove(key).contains_key(k) by {
                if self.order().contains(k) {
                    let p = position_of(self.order(), k);
                    let q = if p < at { p } else { p + 1 };
                    assert(before.order()[q] == k);
                    assert(before.order().contains(k));
                    assert(k != key);
                } else if before.order().contains(k) && k != key {
                    let q = position_of(before.order(), k);
                    assert(q != at);
                    let p = if q < at { q } else { q - 1 };
                    assert(self.order()[p] == k);
                }
            }
            assert forall|k: u128| #[trigger] self.map().contains_key(k) implies self.map()[k]
                == before.map().remove(key)[k] by {
                let p = position_of(self.order(), k);
                let q = if p < at { p } else { p + 1 };
                assert(before.order()[q] == k);
                lemma_position_unique(before.order(), q);
                assert(self.items()[p] == before.items()[q]);
            }
            assert(self.map() =~= before.map().remove(key));
        }
        (key, value)
    }

    /// Takes `key` and its value out of the table, if it is held.
    pub fn remove(&mut self, key: u128) -> (value: Option<V>)
        requires
            old(self).wf(),
        ensures
            final(self).wf(),
            value is Some <==> old(self).map().contains_key(key),
            value is Some ==> value.unwrap() == old(self).map()[key],
            final(self).map() == old(self).map().remove(key),
            value is Some ==> final(self).order() == old(self).order().remove(
                position_of(old(self).order(), key),
            ),
            value is None ==> final(self).order() == old(self).order() && final(self).items()
                == old(self).items(),
    {
        match self.position(key) {
            Some(i) => {
                proof {
                    lemma_position_unique(self.order(), i as int);
                }
                let entry = self.remove_at(i);
                Some(entry.1)
            },
            None => {
                assert(self.map() =~= self.map().remove(key));
                None
            },
        }
    }
}

} // verus!
