//! A keyed store: text keys, one value per key, with the get / set / has
//! operations of a persistent key-value namespace.

use vstd::prelude::*;
use vstd::string::*;
use crate::text::same_text;

verus! {

/// Index of the slot that holds `key`, where one does.
pub closed spec fn slot_of(keys: Seq<String>, key: Seq<char>) -> int {
    choose|i: int| 0 <= i < keys.len() && keys[i]@ == key
}

/// No two slots hold the same key.
pub closed spec fn distinct_keys(keys: Seq<String>) -> bool {
    forall|i: int, j: int|
        0 <= i < keys.len() && 0 <= j < keys.len() && keys[i]@ == keys[j]@ ==> i == j
}

/// The map that a sequence of keys and a sequence of values stand for.
pub closed spec fn contents<V>(keys: Seq<String>, values: Seq<V>) -> Map<Seq<char>, V> {
    Map::new(
        |k: Seq<char>| exists|i: int| 0 <= i < keys.len() && keys[i]@ == k,
        |k: Seq<char>| values[slot_of(keys, k)],
    )
}

proof fn lemma_slot<V>(keys: Seq<String>, values: Seq<V>, i: int)
    requires
        distinct_keys(keys),
        keys.len() == values.len(),
        0 <= i < keys.len(),
    ensures
        contents(keys, values).dom().contains(keys[i]@),
        slot_of(keys, keys[i]@) == i,
        contents(keys, values)[keys[i]@] == values[i],
{
}

proof fn lemma_absent<V>(keys: Seq<String>, values: Seq<V>, key: Seq<char>)
    requires
        forall|j: int| 0 <= j < keys.len() ==> keys[j]@ != key,
    ensures
        !contents(keys, values).dom().contains(key),
{
}

proof fn lemma_replace<V>(keys: Seq<String>, values: Seq<V>, i: int, value: V)
    requires
        distinct_keys(keys),
        keys.len() == values.len(),
        0 <= i < keys.len(),
    ensures
        contents(keys, values.update(i, value)) == contents(keys, values).insert(keys[i]@, value),
{
}

proof fn lemma_extend<V>(keys: Seq<String>, values: Seq<V>, key: String, value: V)
    requires
        distinct_keys(keys),
        keys.len() == values.len(),
        forall|j: int| 0 <= j < keys.len() ==> keys[j]@ != key@,
    ensures
        distinct_keys(keys.push(key)),
        contents(keys.push(key), values.push(value)) == contents(keys, values).insert(key@, value),
{
    let keys2 = keys.push(key);
    let values2 = values.push(value);
    let before = contents(keys, values);
    let after = contents(keys2, values2);
    assert forall|k: Seq<char>| before.insert(key@, value).dom().contains(k) implies #[trigger]
        after.dom().contains(k) && after[k] == before.insert(key@, value)[k] by {
        if k == key@ {
            lemma_slot(keys2, values2, keys.len() as int);
        } else {
            let j = slot_of(keys, k);
            lemma_slot(keys2, values2, j);
        }
    }
}

/// The map that a list of keys with their values stands for; of two values
/// under one key the later one counts.
pub open spec fn map_of<V>(entries: Seq<(Seq<char>, V)>) -> Map<Seq<char>, V>
    decreases entries.len(),
{
    if entries.len() == 0 {
        Map::empty()
    } else {
        map_of(entries.drop_last()).insert(entries.last().0, entries.last().1)
    }
}

/// No key comes twice in the list.
pub open spec fn distinct_entries<V>(entries: Seq<(Seq<char>, V)>) -> bool {
    forall|i: int, j: int|
        0 <= i < entries.len() && 0 <= j < entries.len() && entries[i].0 == entries[j].0 ==> i
            == j
}

/// The map of a list has finitely many keys.
pub proof fn lemma_map_of_finite<V>(entries: Seq<(Seq<char>, V)>)
    ensures
        map_of(entries).dom().finite(),
    decreases entries.len(),
{
    if entries.len() > 0 {
        lemma_map_of_finite(entries.drop_last());
    }
}

/// Every key of the map of a list is the key of one of its entries.
pub proof fn lemma_map_of_keys<V>(entries: Seq<(Seq<char>, V)>, key: Seq<char>)
    requires
        map_of(entries).dom().contains(key),
    ensures
        exists|i: int| 0 <= i < entries.len() && entries[i].0 == key,
    decreases entries.len(),
{
    if entries.len() > 0 && entries.last().0 != key {
        lemma_map_of_keys(entries.drop_last(), key);
    }
}

/// Each entry of a list without a key twice is found under its key.
pub proof fn lemma_map_of_holds<V>(entries: Seq<(Seq<char>, V)>, i: int)
    requires
        distinct_entries(entries),
        0 <= i < entries.len(),
    ensures
        map_of(entries).dom().contains(entries[i].0),
        map_of(entries)[entries[i].0] == entries[i].1,
    decreases entries.len(),
{
    if i < entries.len() - 1 {
        lemma_map_of_holds(entries.drop_last(), i);
    }
}

/// A store of values under text keys. Its view is the map from each key to
/// the value last set for it.
#[derive(Debug)]
pub struct Store<V> {
    keys: Vec<String>,
    values: Vec<V>,
}

impl<V> View for Store<V> {
    type V = Map<Seq<char>, V>;

    closed spec fn view(&self) -> Map<Seq<char>, V> {
        contents(self.keys@, self.values@)
    }
}

impl<V> Store<V> {
    /// The representation is sound: one value per slot and no key twice.
    pub closed spec fn inv(&self) -> bool {
        &&& self.keys@.len() == self.values@.len()
        &&& distinct_keys(self.keys@)
    }

    /// The empty store.
    pub fn new() -> (store: Self)
        ensures
            store.inv(),
            store@ == Map::<Seq<char>, V>::empty(),
    {
        let store = Store { keys: Vec::new(), values: Vec::new() };
        store
    }

    fn find(&self, key: &str) -> (at: Option<usize>)
        requires
            self.inv(),
        ensures
            match at {
                Some(i) => i < self.keys@.len() && self.keys@[i as int]@ == key@,
                None => forall|j: int| 0 <= j < self.keys@.len() ==> self.keys@[j]@ != key@,
            },
    {
        let n: usize = self.keys.len();
        let mut i: usize = 0;
        while i < n
            invariant
                n == self.keys@.len(),
                i <= n,
                forall|j: int| 0 <= j < i ==> self.keys@[j]@ != key@,
            decreases n - i,
        {
            if same_text(self.keys[i].as_str(), key) {
                return Some(i);
            }
            i += 1;
        }
        None
    }

    /// Whether a value is stored under `key`.
    pub fn has(&self, key: &str) -> (present: bool)
        requires
            self.inv(),
        ensures
            present == self@.dom().contains(key@),
    {
        match self.find(key) {
            Some(i) => {
                proof {
                    lemma_slot(self.keys@, self.values@, i as int);
                }
                true
            },
            None => {
                proof {
                    lemma_absent(self.keys@, self.values@, key@);
                }
                false
            },
        }
    }

    /// The value stored under `key`, if there is one.
    pub fn get(&self, key: &str) -> (found: Option<&V>)
        requires
            self.inv(),
        ensures
            match found {
                Some(value) => self@.dom().contains(key@) && *value == self@[key@],
                None => !self@.dom().contains(key@),
            },
    {
        match self.find(key) {
            Some(i) => {
                proof {
                    lemma_slot(self.keys@, self.values@, i as int);
                }
                Some(&self.values[i])
            },
            None => {
                proof {
                    lemma_absent(self.keys@, self.values@, key@);
                }
                None
            },
        }
    }

    /// Stores `value` under `key`, in place of any value stored there before.
    pub fn set(&mut self, key: &str, value: V)
        requires
            old(self).inv(),
        ensures
            final(self).inv(),
            final(self)@ == old(self)@.insert(key@, value),
    {
        match self.find(key) {
            Some(i) => {
                proof {
                    lemma_replace(self.keys@, self.values@, i as int, value);
                }
                self.values.set(i, value);
            },
            None => {
                let owned = key.to_owned();
                proof {
                    lemma_extend(self.keys@, self.values@, owned, value);
                }
                self.keys.push(owned);
                self.values.push(value);
            },
        }
    }

    /// The keys held, in the order of their slots.
    pub closed spec fn keys(&self) -> Seq<Seq<char>> {
        Seq::new(self.keys@.len(), |i: int| self.keys@[i]@)
    }

    /// The values held, in the order of their slots.
    pub closed spec fn values(&self) -> Seq<V> {
        self.values@
    }

    /// The slots of a sound store list its contents: each slot holds a key of
    /// the store with the value stored under it, no key sits in two slots,
    /// and every key of the store sits in one.
    pub proof fn lemma_slots(&self)
        requires
            self.inv(),
        ensures
            self.keys().len() == self.values().len(),
            forall|i: int|
                0 <= i < self.keys().len() ==> self@.dom().contains(#[trigger] self.keys()[i])
                    && self@[self.keys()[i]] == self.values()[i],
            forall|i: int, j: int|
                0 <= i < self.keys().len() && 0 <= j < self.keys().len() && self.keys()[i]
                    == self.keys()[j] ==> i == j,
            forall|key: Seq<char>| #[trigger]
                self@.dom().contains(key) ==> exists|i: int|
                    0 <= i < self.keys().len() && self.keys()[i] == key,
    {
        assert forall|key: Seq<char>| #[trigger] self@.dom().contains(key) implies exists|i: int|
            0 <= i < self.keys().len() && self.keys()[i] == key by {
            let i = slot_of(self.keys@, key);
            assert(self.keys()[i] == key);
        }
    }

    /// The number of slots, which is the number of keys.
    pub fn len(&self) -> (n: usize)
        requires
            self.inv(),
        ensures
            n == self.keys().len(),
    {
        self.keys.len()
    }

    /// The key in slot `i`.
    pub fn key_at(&self, i: usize) -> (key: &str)
        requires
            self.inv(),
            i < self.keys().len(),
        ensures
            key@ == self.keys()[i as int],
    {
        self.keys[i].as_str()
    }

    /// The value in slot `i`.
    pub fn value_at(&self, i: usize) -> (value: &V)
        requires
            self.inv(),
            i < self.keys().len(),
        ensures
            *value == self.values()[i as int],
    {
        &self.values[i]
    }
}

} // verus!
