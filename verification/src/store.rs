//! A map from addresses to records, kept as two parallel vectors.

use crate::address::Address;
use vstd::prelude::*;

verus! {

/// Records filed under distinct addresses, in the order in which they came.
pub struct AddressMap<V> {
    pub keys: Vec<Address>,
    pub values: Vec<V>,
}

/// Whether `key` is one of `keys`.
pub open spec fn has_key(keys: Seq<Address>, key: Address) -> bool {
    exists|i: int| 0 <= i < keys.len() && keys[i] == key
}

/// A place of `key` among `keys`.
pub open spec fn place_of(keys: Seq<Address>, key: Address) -> int {
    choose|i: int| 0 <= i < keys.len() && keys[i] == key
}

/// No address occurs twice in `keys`.
pub open spec fn distinct(keys: Seq<Address>) -> bool {
    forall|i: int, j: int| 0 <= i < keys.len() && 0 <= j < keys.len() && keys[i] == keys[j] ==> i == j
}

/// The map that files `values[i]` under `keys[i]`.
pub open spec fn filed<V>(keys: Seq<Address>, values: Seq<V>) -> Map<Address, V> {
    Map::new(|key: Address| has_key(keys, key), |key: Address| values[place_of(keys, key)])
}

/// In distinct keys, the place of a key is the index at which it stands.
pub proof fn lemma_place(keys: Seq<Address>, i: int)
    requires
        distinct(keys),
        0 <= i < keys.len(),
    ensures
        has_key(keys, keys[i]),
        place_of(keys, keys[i]) == i,
{
}

/// Filing one more record under a new key adds it to the map.
pub proof fn lemma_filed_push<V>(keys: Seq<Address>, values: Seq<V>, key: Address, value: V)
    requires
        distinct(keys),
        keys.len() == values.len(),
        !has_key(keys, key),
    ensures
        distinct(keys.push(key)),
        filed(keys.push(key), values.push(value)) == filed(keys, values).insert(key, value),
{
    let pushed = keys.push(key);
    assert forall|k: Address| has_key(pushed, k) <==> (k == key || has_key(keys, k)) by {
        if has_key(keys, k) {
            assert(pushed[place_of(keys, k)] == k);
        }
        if k == key {
            assert(pushed[keys.len() as int] == k);
        }
    }
    assert forall|k: Address| has_key(pushed, k) implies #[trigger] filed(
        pushed,
        values.push(value),
    )[k] == filed(keys, values).insert(key, value)[k] by {
        if k == key {
            lemma_place(pushed, keys.len() as int);
        } else {
            assert(pushed[place_of(keys, k)] == k);
        }
    }
}

/// Replacing the record at one place replaces it in the map.
pub proof fn lemma_filed_update<V>(keys: Seq<Address>, values: Seq<V>, i: int, value: V)
    requires
        distinct(keys),
        keys.len() == values.len(),
        0 <= i < keys.len(),
    ensures
        filed(keys, values.update(i, value)) == filed(keys, values).insert(keys[i], value),
{
    lemma_place(keys, i);
}

/// Taking the record at one place out takes its key out of the map.
pub proof fn lemma_filed_remove<V>(keys: Seq<Address>, values: Seq<V>, i: int)
    requires
        distinct(keys),
        keys.len() == values.len(),
        0 <= i < keys.len(),
    ensures
        distinct(keys.remove(i)),
        filed(keys.remove(i), values.remove(i)) == filed(keys, values).remove(keys[i]),
{
    let rest = keys.remove(i);
    let back = |a: int| if a < i { a } else { a + 1 };
    assert forall|a: int, b: int|
        0 <= a < rest.len() && 0 <= b < rest.len() && rest[a] == rest[b] implies a == b by {
        assert(keys[back(a)] == keys[back(b)]);
    }
    assert forall|k: Address| has_key(rest, k) <==> (k != keys[i] && has_key(keys, k)) by {
        if has_key(rest, k) {
            assert(keys[back(place_of(rest, k))] == k);
        }
        if k != keys[i] && has_key(keys, k) {
            let j = place_of(keys, k);
            assert(rest[if j < i { j } else { j - 1 }] == k);
        }
    }
    assert forall|k: Address| has_key(rest, k) implies #[trigger] filed(rest, values.remove(i))[k]
        == filed(keys, values).remove(keys[i])[k] by {
        lemma_place(keys, back(place_of(rest, k)));
    }
}

impl<V: Copy> AddressMap<V> {
    /// The keys are distinct and each has its record.
    pub open spec fn wf(&self) -> bool {
        &&& self.keys@.len() == self.values@.len()
        &&& distinct(self.keys@)
    }

    /// The records by address.
    pub open spec fn map(&self) -> Map<Address, V> {
        filed(self.keys@, self.values@)
    }

    /// A map without records.
    pub fn new() -> (store: Self)
        ensures
            store.wf(),
            store.keys@.len() == 0,
            store.values@.len() == 0,
            store.map() == Map::<Address, V>::empty(),
    {
        AddressMap { keys: Vec::new(), values: Vec::new() }
    }

    /// The place of `key`, if it has a record.
    pub fn find(&self, key: &Address) -> (place: Option<usize>)
        requires
            self.wf(),
        ensures
            match place {
                Some(i) => {
                    &&& i < self.keys@.len()
                    &&& self.keys@[i as int] == *key
                    &&& self.map().dom().contains(*key)
                    &&& self.map()[*key] == self.values@[i as int]
                },
                None => !self.map().dom().contains(*key),
            },
    {
        let mut i: usize = 0;
        while i < self.keys.len()
            invariant
                self.wf(),
                i <= self.keys@.len(),
                forall|k: int| 0 <= k < i ==> self.keys@[k] != *key,
            decreases self.keys@.len() - i,
        {
            if self.keys[i].same_as(key) {
                proof {
                    lemma_place(self.keys@, i as int);
                }
                return Some(i);
            }
            i += 1;
        }
        None
    }

    /// The record of `key`, if it has one.
    pub fn get(&self, key: &Address) -> (found: Option<V>)
        requires
            self.wf(),
        ensures
            found == (if self.map().dom().contains(*key) {
                Some(self.map()[*key])
            } else {
                None
            }),
    {
        match self.find(key) {
            Some(i) => Some(self.values[i]),
            None => None,
        }
    }

    /// Files `value` under the new key `key`.
    pub fn push(&mut self, key: Address, value: V)
        requires
            old(self).wf(),
            !old(self).map().dom().contains(key),
        ensures
            final(self).wf(),
            final(self).keys@ == old(self).keys@.push(key),
            final(self).values@ == old(self).values@.push(value),
            final(self).map() == old(self).map().insert(key, value),
    {
        proof {
            lemma_filed_push(self.keys@, self.values@, key, value);
        }
        self.keys.push(key);
        self.values.push(value);
    }

    /// Replaces the record at the place `i`.
    pub fn set(&mut self, i: usize, value: V)
        requires
            old(self).wf(),
            i < old(self).keys@.len(),
        ensures
            final(self).wf(),
            final(self).keys@ == old(self).keys@,
            final(self).values@ == old(self).values@.update(i as int, value),
            final(self).map() == old(self).map().insert(old(self).keys@[i as int], value),
    {
        proof {
            lemma_filed_update(self.keys@, self.values@, i as int, value);
        }
        self.values.set(i, value);
    }

    /// Takes the record at the place `i` out.
    pub fn remove(&mut self, i: usize)
        requires
            old(self).wf(),
            i < old(self).keys@.len(),
        ensures
            final(self).wf(),
            final(self).keys@ == old(self).keys@.remove(i as int),
            final(self).values@ == old(self).values@.remove(i as int),
            final(self).map() == old(self).map().remove(old(self).keys@[i as int]),
    {
        proof {
            lemma_filed_remove(self.keys@, self.values@, i as int);
        }
        self.keys.remove(i);
        self.values.remove(i);
    }
}

} // verus!
