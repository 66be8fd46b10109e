//! A map kept in ascending key order.

use vstd::prelude::*;

verus! {

/// A key whose rank orders it among the keys of one map.
pub trait OrderedKey: Copy + Sized {
    /// The key's place in the order.
    spec fn rank(self) -> nat;

    /// Keys of one rank are the same key.
    proof fn lemma_rank_injective(a: Self, b: Self)
        ensures
            a.rank() == b.rank() ==> a == b,
    ;

    /// Whether this key comes before `other`.
    fn precedes(self, other: Self) -> (before: bool)
        ensures
            before == (self.rank() < other.rank()),
    ;
}

/// Every key comes before the keys listed after it.
pub open spec fn keys_ascend<K: OrderedKey, V>(entries: Seq<(K, V)>) -> bool {
    forall|i: int, j: int|
        0 <= i < j < entries.len() ==> (#[trigger] entries[i]).0.rank() < (
        #[trigger] entries[j]).0.rank()
}

/// The map that lists its entries as `entries`.
pub open spec fn map_of<K, V>(entries: Seq<(K, V)>) -> Map<K, V>
    decreases entries.len(),
{
    if entries.len() == 0 {
        Map::empty()
    } else {
        map_of(entries.drop_last()).insert(entries.last().0, entries.last().1)
    }
}

/// A listing in ascending order lists every key of its map once, with its value.
pub proof fn lemma_map_of<K: OrderedKey, V>(entries: Seq<(K, V)>)
    requires
        keys_ascend(entries),
    ensures
        map_of(entries).dom().finite(),
        map_of(entries).dom().len() == entries.len(),
        forall|i: int|
            0 <= i < entries.len() ==> map_of(entries).contains_pair(
                (#[trigger] entries[i]).0,
                entries[i].1,
            ),
        forall|k: K| #[trigger]
            map_of(entries).contains_key(k) ==> exists|i: int|
                0 <= i < entries.len() && (#[trigger] entries[i]).0 == k,
    decreases entries.len(),
{
    if entries.len() > 0 {
        let shorter = entries.drop_last();
        assert forall|i: int, j: int| 0 <= i < j < shorter.len() implies (
        #[trigger] shorter[i]).0.rank() < (#[trigger] shorter[j]).0.rank() by {
            assert(shorter[i] == entries[i] && shorter[j] == entries[j]);
        }
        lemma_map_of(shorter);
        let last = entries.last();
        assert forall|i: int| 0 <= i < shorter.len() implies (#[trigger] entries[i]).0 != last.0 by {
            assert(entries[i].0.rank() < entries[entries.len() - 1].0.rank());
        }
        assert(!map_of(shorter).contains_key(last.0)) by {
            if map_of(shorter).contains_key(last.0) {
                let i = choose|i: int| 0 <= i < shorter.len() && (#[trigger] shorter[i]).0 == last.0;
                assert(entries[i].0 == last.0);
            }
        }
        assert forall|i: int| 0 <= i < entries.len() implies map_of(entries).contains_pair(
            (#[trigger] entries[i]).0,
            entries[i].1,
        ) by {
            if i < shorter.len() {
                assert(shorter[i] == entries[i]);
            }
        }
        assert forall|k: K| #[trigger] map_of(entries).contains_key(k) implies exists|i: int|
            0 <= i < entries.len() && (#[trigger] entries[i]).0 == k by {
            if k != last.0 {
                assert(map_of(shorter).contains_key(k));
                let i = choose|i: int| 0 <= i < shorter.len() && (#[trigger] shorter[i]).0 == k;
                assert(entries[i].0 == k);
            } else {
                assert(entries[entries.len() - 1].0 == k);
            }
        }
    }
}

/// A map whose entries are listed in ascending key order.
pub struct OrderedMap<K, V> {
    entries: Vec<(K, V)>,
}

impl<K: OrderedKey, V> OrderedMap<K, V> {
    /// The entries in listing order.
    pub closed spec fn listing(&self) -> Seq<(K, V)> {
        self.entries@
    }

    /// The map itself.
    pub open spec fn view(&self) -> Map<K, V> {
        map_of(self.listing())
    }

    /// The listing ascends.
    pub open spec fn wf(&self) -> bool {
        keys_ascend(self.listing())
    }

    /// The empty map.
    pub fn new() -> (map: Self)
        ensures
            map.wf(),
            map.listing() == Seq::<(K, V)>::empty(),
            map@ == Map::<K, V>::empty(),
    {
        let map = OrderedMap { entries: Vec::new() };
        assert(map.listing() =~= Seq::<(K, V)>::empty());
        map
    }

    /// How many keys the map holds.
    pub fn len(&self) -> (len: usize)
        requires
            self.wf(),
        ensures
            len == self.listing().len(),
            len == self@.dom().len(),
    {
        proof {
            lemma_map_of(self.listing());
        }
        self.entries.len()
    }

    /// The entry at `index` of the listing.
    pub fn entry_at(&self, index: usize) -> (entry: &(K, V))
        requires
            index < self.listing().len(),
        ensures
            *entry == self.listing()[index as int],
    {
        &self.entries[index]
    }

    /// The number of keys that come before `key`.
    fn rank_of(&self, key: K) -> (index: usize)
        requires
            self.wf(),
        ensures
            index <= self.listing().len(),
            forall|i: int|
                0 <= i < index ==> (#[trigger] self.listing()[i]).0.rank() < key.rank(),
            forall|i: int|
                index <= i < self.listing().len() ==> (#[trigger] self.listing()[i]).0.rank()
                    >= key.rank(),
    {
        let mut low: usize = 0;
        let mut high: usize = self.entries.len();
        while low < high
            invariant
                self.wf(),
                low <= high <= self.listing().len(),
                self.listing() == self.entries@,
                forall|i: int|
                    0 <= i < low ==> (#[trigger] self.listing()[i]).0.rank() < key.rank(),
                forall|i: int|
                    high <= i < self.listing().len() ==> (#[trigger] self.listing()[i]).0.rank()
                        >= key.rank(),
            decreases high - low,
        {
            let middle: usize = low + (high - low) / 2;
            let probe: K = self.entries[middle].0;
            proof {
                assert(self.listing()[middle as int].0 == probe);
            }
            if probe.precedes(key) {
                low = middle + 1;
            } else {
                high = middle;
            }
        }
        low
    }

    /// Where `key` is listed, if it is.
    fn find(&self, key: K) -> (found: Option<usize>)
        requires
            self.wf(),
        ensures
            match found {
                Some(index) => {
                    &&& index < self.listing().len()
                    &&& self.listing()[index as int].0 == key
                    &&& self@.contains_key(key)
                    &&& self@[key] == self.listing()[index as int].1
                },
                None => !self@.contains_key(key),
            },
    {
        let index: usize = self.rank_of(key);
        proof {
            lemma_map_of(self.listing());
        }
        if index < self.entries.len() {
            let probe: K = self.entries[index].0;
            if !key.precedes(probe) {
                proof {
                    assert(self.listing()[index as int].0 == probe);
                    K::lemma_rank_injective(key, probe);
                }
                return Some(index);
            }
        }
        None
    }

    /// The value of `key`.
    pub fn get(&self, key: K) -> (value: Option<&V>)
        requires
            self.wf(),
        ensures
            match value {
                Some(value) => self@.contains_key(key) && self@[key] == *value,
                None => !self@.contains_key(key),
            },
    {
        match self.find(key) {
            Some(index) => Some(&self.entries[index].1),
            None => None,
        }
    }

    /// Whether the map holds `key`.
    pub fn contains_key(&self, key: K) -> (found: bool)
        requires
            self.wf(),
        ensures
            found == self@.contains_key(key),
    {
        self.find(key).is_some()
    }

    /// Give `key` the value `value`.
    pub fn insert(&mut self, key: K, value: V)
        requires
            old(self).wf(),
        ensures
            final(self).wf(),
            final(self)@ == old(self)@.insert(key, value),
    {
        let index: usize = self.rank_of(key);
        let ghost before = self.listing();
        proof {
            lemma_map_of(before);
        }
        let mut replaced = false;
        if index < self.entries.len() {
            let probe: K = self.entries[index].0;
            if !key.precedes(probe) {
                proof {
                    assert(before[index as int].0 == probe);
                    K::lemma_rank_injective(key, probe);
                }
                replaced = true;
            }
        }
        if replaced {
            self.entries.set(index, (key, value));
            proof {
                let after = self.listing();
                assert(after == before.update(index as int, (key, value)));
                lemma_map_of(after);
                lemma_replaced(before, index as int, value);
            }
        } else {
            self.entries.insert(index, (key, value));
            proof {
                let after = self.listing();
                assert(after == before.insert(index as int, (key, value)));
                lemma_inserted(before, index as int, key, value);
            }
        }
    }

    /// Forget `key`, giving back its value.
    pub fn remove(&mut self, key: K) -> (removed: Option<V>)
        requires
            old(self).wf(),
        ensures
            final(self).wf(),
            final(self)@ == old(self)@.remove(key),
            removed == (if old(self)@.contains_key(key) {
                Some(old(self)@[key])
            } else {
                None
            }),
    {
        let ghost before = self.listing();
        match self.find(key) {
            Some(index) => {
                let (_, value) = self.entries.remove(index);
                proof {
                    assert(self.listing() == before.remove(index as int));
                    lemma_removed(before, index as int);
                }
                Some(value)
            },
            None => {
                proof {
                    assert(self@.remove(key) =~= self@);
                }
                None
            },
        }
    }

    /// Forget the key listed at `index`, giving back its entry.
    pub fn remove_at(&mut self, index: usize) -> (removed: (K, V))
        requires
            old(self).wf(),
            index < old(self).listing().len(),
        ensures
            final(self).wf(),
            removed == old(self).listing()[index as int],
            final(self).listing() == old(self).listing().remove(index as int),
            final(self)@ == old(self)@.remove(removed.0),
    {
        let ghost before = self.listing();
        let removed = self.entries.remove(index);
        proof {
            assert(self.listing() == before.remove(index as int));
            lemma_removed(before, index as int);
        }
        removed
    }

    /// The value of `key`, to change.
    pub fn get_mut(&mut self, key: K) -> (value: Option<&mut V>)
        requires
            old(self).wf(),
        ensures
            match value {
                Some(value) => {
                    &&& old(self)@.contains_key(key)
                    &&& *value == old(self)@[key]
                    &&& final(self).wf()
                    &&& final(self)@ == old(self)@.insert(key, *final(value))
                },
                None => !old(self)@.contains_key(key) && *final(self) == *old(self),
            },
    {
        match self.find(key) {
            Some(index) => {
                proof {
                    assert forall|value: V| #![trigger self.listing().update(index as int, (key, value))]
                        keys_ascend(self.listing().update(index as int, (key, value))) && map_of(
                        self.listing().update(index as int, (key, value)),
                    ) == map_of(self.listing()).insert(key, value) by {
                        lemma_replaced(self.listing(), index as int, value);
                    }
                }
                let entry = &mut self.entries[index];
                Some(&mut entry.1)
            },
            None => None,
        }
    }

    /// List `key` after every other key.
    pub fn push(&mut self, key: K, value: V)
        requires
            old(self).wf(),
            forall|i: int|
                0 <= i < old(self).listing().len() ==> (#[trigger] old(self).listing()[i]).0.rank()
                    < key.rank(),
        ensures
            final(self).wf(),
            final(self).listing() == old(self).listing().push((key, value)),
            final(self)@ == old(self)@.insert(key, value),
    {
        let ghost before = self.listing();
        self.entries.push((key, value));
        proof {
            let after = self.listing();
            assert(after == before.push((key, value)));
            assert(after.drop_last() =~= before);
        }
    }

    /// A listing in ascending order lists every key of its map once, with its value.
    pub proof fn lemma_listing(&self)
        requires
            self.wf(),
        ensures
            self@.dom().finite(),
            self@.dom().len() == self.listing().len(),
            forall|i: int|
                0 <= i < self.listing().len() ==> self@.contains_pair(
                    (#[trigger] self.listing()[i]).0,
                    self.listing()[i].1,
                ),
            forall|k: K| #[trigger]
                self@.contains_key(k) ==> exists|i: int|
                    0 <= i < self.listing().len() && (#[trigger] self.listing()[i]).0 == k,
    {
        lemma_map_of(self.listing());
    }
}

proof fn lemma_replaced<K: OrderedKey, V>(before: Seq<(K, V)>, index: int, value: V)
    requires
        keys_ascend(before),
        0 <= index < before.len(),
    ensures
        keys_ascend(before.update(index, (before[index].0, value))),
        map_of(before.update(index, (before[index].0, value))) == map_of(before).insert(
            before[index].0,
            value,
        ),
{
    let key = before[index].0;
    let after = before.update(index, (key, value));
    assert(keys_ascend(after));
    lemma_map_of(before);
    lemma_map_of(after);
    assert forall|k: K| #![trigger map_of(after).contains_key(k)]
        map_of(after).contains_key(k) == map_of(before).insert(key, value).contains_key(k) && (
        map_of(after).contains_key(k) ==> map_of(after)[k] == map_of(before).insert(key, value)[k])
        by {
        if map_of(after).contains_key(k) {
            let i = choose|i: int| 0 <= i < after.len() && (#[trigger] after[i]).0 == k;
            assert(before[i].0 == k);
            assert(after[i].0 == k);
            if i != index {
                assert(after[i] == before[i]);
                assert(k != key) by {
                    if i < index {
                        assert(before[i].0.rank() < before[index].0.rank());
                    } else {
                        assert(before[index].0.rank() < before[i].0.rank());
                    }
                }
            }
        }
        if map_of(before).contains_key(k) {
            let i = choose|i: int| 0 <= i < before.len() && (#[trigger] before[i]).0 == k;
            assert(after[i].0 == k);
        }
        if k == key {
            assert(after[index].0 == k);
        }
    }
    assert(map_of(after) =~= map_of(before).insert(key, value));
}

proof fn lemma_inserted<K: OrderedKey, V>(before: Seq<(K, V)>, index: int, key: K, value: V)
    requires
        keys_ascend(before),
        0 <= index <= before.len(),
        forall|i: int| 0 <= i < index ==> (#[trigger] before[i]).0.rank() < key.rank(),
        forall|i: int| index <= i < before.len() ==> (#[trigger] before[i]).0.rank() > key.rank(),
    ensures
        keys_ascend(before.insert(index, (key, value))),
        map_of(before.insert(index, (key, value))) == map_of(before).insert(key, value),
{
    let after = before.insert(index, (key, value));
    assert forall|i: int, j: int| 0 <= i < j < after.len() implies (
    #[trigger] after[i]).0.rank() < (#[trigger] after[j]).0.rank() by {
        let bi = if i < index { before[i] } else { before[i - 1] };
        let bj = if j < index { before[j] } else { before[j - 1] };
    }
    lemma_map_of(before);
    lemma_map_of(after);
    assert forall|k: K| #![trigger map_of(after).contains_key(k)]
        map_of(after).contains_key(k) == map_of(before).insert(key, value).contains_key(k) && (
        map_of(after).contains_key(k) ==> map_of(after)[k] == map_of(before).insert(key, value)[k])
        by {
        if map_of(after).contains_key(k) {
            let i = choose|i: int| 0 <= i < after.len() && (#[trigger] after[i]).0 == k;
            if i < index {
                assert(after[i] == before[i]);
            } else if i > index {
                assert(after[i] == before[i - 1]);
            }
        }
        if map_of(before).contains_key(k) {
            let i = choose|i: int| 0 <= i < before.len() && (#[trigger] before[i]).0 == k;
            if i < index {
                assert(after[i].0 == k);
            } else {
                assert(after[i + 1].0 == k);
            }
        }
        if k == key {
            assert(after[index].0 == k);
        }
    }
    assert(map_of(after) =~= map_of(before).insert(key, value));
}

proof fn lemma_removed<K: OrderedKey, V>(before: Seq<(K, V)>, index: int)
    requires
        keys_ascend(before),
        0 <= index < before.len(),
    ensures
        keys_ascend(before.remove(index)),
        map_of(before.remove(index)) == map_of(before).remove(before[index].0),
{
    let key = before[index].0;
    let after = before.remove(index);
    assert forall|i: int, j: int| 0 <= i < j < after.len() implies (
    #[trigger] after[i]).0.rank() < (#[trigger] after[j]).0.rank() by {
        let bi = if i < index { before[i] } else { before[i + 1] };
        let bj = if j < index { before[j] } else { before[j + 1] };
    }
    lemma_map_of(before);
    lemma_map_of(after);
    assert forall|k: K| #![trigger map_of(after).contains_key(k)]
        map_of(after).contains_key(k) == map_of(before).remove(key).contains_key(k) && (
        map_of(after).contains_key(k) ==> map_of(after)[k] == map_of(before).remove(key)[k]) by {
        if map_of(after).contains_key(k) {
            let i = choose|i: int| 0 <= i < after.len() && (#[trigger] after[i]).0 == k;
            if i < index {
                assert(after[i] == before[i]);
                assert(before[i].0.rank() < before[index].0.rank());
            } else {
                assert(after[i] == before[i + 1]);
                assert(before[index].0.rank() < before[i + 1].0.rank());
            }
        }
        if map_of(before).contains_key(k) && k != key {
            let i = choose|i: int| 0 <= i < before.len() && (#[trigger] before[i]).0 == k;
            if i < index {
                assert(after[i].0 == k);
            } else {
                assert(after[i - 1].0 == k);
            }
        }
    }
    assert(map_of(after) =~= map_of(before).remove(key));
}

/// What was stored under a key is found under it and nowhere else, until it is removed.
pub proof fn law_stored_value_is_found<K: OrderedKey, V>(
    stored: &mut OrderedMap<K, V>,
    key: K,
    value: V,
    done: (),
    found: Option<&V>,
    removed: &mut OrderedMap<K, V>,
    taken: Option<V>,
    present: bool,
)
    requires
        old(stored).wf(),
        call_ensures(OrderedMap::<K, V>::insert, (stored, key, value), done),
        call_ensures(OrderedMap::<K, V>::get, (final(stored), key), found),
        *old(removed) == *final(stored),
        call_ensures(OrderedMap::<K, V>::remove, (removed, key), taken),
        call_ensures(OrderedMap::<K, V>::contains_key, (final(removed), key), present),
    ensures
        found is Some,
        *found->0 == value,
        taken is Some,
        taken->0 == value,
        !present,
{
}

} // verus!
