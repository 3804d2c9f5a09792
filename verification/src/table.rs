//! Small tables and sets that keep their entries in the order of insertion.

use vstd::prelude::*;

use crate::text::str_eq;
use crate::wire::BlockPos;

verus! {

/// What a table can be keyed by: values that can be compared, and the
/// mathematical value that the comparison is about.
pub trait Key: Sized {
    type Model;

    spec fn model(self) -> Self::Model;

    fn same(&self, other: &Self) -> (r: bool)
        ensures
            r == (self.model() == other.model()),
    ;
}

impl Key for String {
    type Model = Seq<char>;

    open spec fn model(self) -> Seq<char> {
        self@
    }

    fn same(&self, other: &Self) -> (r: bool) {
        str_eq(self.as_str(), other.as_str())
    }
}

impl Key for i32 {
    type Model = i32;

    open spec fn model(self) -> i32 {
        self
    }

    fn same(&self, other: &Self) -> (r: bool) {
        *self == *other
    }
}

impl Key for BlockPos {
    type Model = BlockPos;

    open spec fn model(self) -> BlockPos {
        self
    }

    fn same(&self, other: &Self) -> (r: bool) {
        *self == *other
    }
}

impl Key for (i32, i32) {
    type Model = (i32, i32);

    open spec fn model(self) -> (i32, i32) {
        self
    }

    fn same(&self, other: &Self) -> (r: bool) {
        self.0 == other.0 && self.1 == other.1
    }
}

/// The place of a key among keys.
pub open spec fn place<K: Key>(keys: Seq<K>, key: K::Model) -> int {
    choose|i: int| 0 <= i < keys.len() && (#[trigger] keys[i]).model() == key
}

/// Whether a key is among keys.
pub open spec fn among<K: Key>(keys: Seq<K>, key: K::Model) -> bool {
    exists|i: int| 0 <= i < keys.len() && (#[trigger] keys[i]).model() == key
}

/// Whether no key occurs twice.
pub open spec fn distinct<K: Key>(keys: Seq<K>) -> bool {
    forall|i: int, j: int|
        0 <= i < j < keys.len() ==> (#[trigger] keys[i]).model() != (#[trigger] keys[j]).model()
}

proof fn lemma_place<K: Key>(keys: Seq<K>, i: int)
    requires
        distinct(keys),
        0 <= i < keys.len(),
    ensures
        among(keys, keys[i].model()),
        place(keys, keys[i].model()) == i,
{
    let m = keys[i].model();
    assert(keys[i].model() == m);
    let p = place(keys, m);
    assert(0 <= p < keys.len() && keys[p].model() == m);
    if p < i {
        assert(keys[p].model() != keys[i].model());
    } else if i < p {
        assert(keys[i].model() != keys[p].model());
    }
}

/// The place of a key in a vector of keys.
fn find<K: Key>(keys: &Vec<K>, key: &K) -> (r: Option<usize>)
    ensures
        match r {
            Some(i) => i < keys@.len() && keys@[i as int].model() == key.model(),
            None => !among(keys@, key.model()),
        },
{
    let mut i: usize = 0;
    while i < keys.len()
        invariant
            i <= keys@.len(),
            forall|j: int| 0 <= j < i ==> (#[trigger] keys@[j]).model() != key.model(),
        decreases keys@.len() - i,
    {
        if keys[i].same(key) {
            return Some(i);
        }
        i = i + 1;
    }
    None
}

/// A value was added to values, or took the place of one.
pub open spec fn stored<V>(before: Seq<V>, value: V, after: Seq<V>) -> bool {
    ||| after == before.push(value)
    ||| exists|i: int| 0 <= i < before.len() && after == #[trigger] before.update(i, value)
}

/// A value was taken out of values.
pub open spec fn taken<V>(before: Seq<V>, value: V, after: Seq<V>) -> bool {
    exists|i: int| 0 <= i < before.len() && value == before[i] && after == #[trigger] before.remove(i)
}

/// A table without duplicate keys.
#[derive(Debug)]
pub struct Table<K, V> {
    pub keys: Vec<K>,
    pub values: Vec<V>,
}

impl<K: Key, V: View> View for Table<K, V> {
    type V = Map<K::Model, V::V>;

    open spec fn view(&self) -> Map<K::Model, V::V> {
        Map::new(
            |key: K::Model| among(self.keys@, key),
            |key: K::Model| self.values@[place(self.keys@, key)]@,
        )
    }
}

impl<K: Key, V: View> Table<K, V> {
    /// No key occurs twice, and every key has a value.
    pub open spec fn wf(&self) -> bool {
        self.keys@.len() == self.values@.len() && distinct(self.keys@)
    }

    pub fn new() -> (table: Self)
        ensures
            table.wf(),
            table@ == Map::<K::Model, V::V>::empty(),
            table.keys@.len() == 0,
            table.values@.len() == 0,
    {
        let table = Table { keys: Vec::new(), values: Vec::new() };
        proof {
            assert(table@ =~= Map::<K::Model, V::V>::empty());
        }
        table
    }

    pub fn len(&self) -> (n: usize)
        ensures
            n == self.keys@.len(),
    {
        self.keys.len()
    }

    /// The value at place `i` is the one of the key at place `i`.
    pub proof fn lemma_at(&self, i: int)
        requires
            self.wf(),
            0 <= i < self.keys@.len(),
        ensures
            self@.dom().contains(self.keys@[i].model()),
            self@[self.keys@[i].model()] == self.values@[i]@,
    {
        lemma_place(self.keys@, i);
    }

    /// Every key stands at some place.
    pub proof fn lemma_key(&self, key: K::Model) -> (i: int)
        requires
            self.wf(),
            self@.dom().contains(key),
        ensures
            0 <= i < self.keys@.len(),
            self.keys@[i].model() == key,
            self@[key] == self.values@[i]@,
    {
        place(self.keys@, key)
    }

    pub fn find(&self, key: &K) -> (r: Option<usize>)
        requires
            self.wf(),
        ensures
            match r {
                Some(i) => i < self.keys@.len() && self.keys@[i as int].model() == key.model()
                    && self@.dom().contains(key.model()) && self@[key.model()]
                    == self.values@[i as int]@,
                None => !self@.dom().contains(key.model()),
            },
    {
        let r = find(&self.keys, key);
        proof {
            if let Some(i) = r {
                self.lemma_at(i as int);
            }
        }
        r
    }

    pub fn contains(&self, key: &K) -> (r: bool)
        requires
            self.wf(),
        ensures
            r == self@.dom().contains(key.model()),
    {
        self.find(key).is_some()
    }

    pub fn get(&self, key: &K) -> (r: Option<&V>)
        requires
            self.wf(),
        ensures
            match r {
                Some(value) => self@.dom().contains(key.model()) && self@[key.model()] == value@,
                None => !self@.dom().contains(key.model()),
            },
    {
        match self.find(key) {
            Some(i) => Some(&self.values[i]),
            None => None,
        }
    }

    /// Stores a value under a key, in place of an earlier one.
    pub fn insert(&mut self, key: K, value: V)
        requires
            old(self).wf(),
        ensures
            final(self).wf(),
            final(self)@ == old(self)@.insert(key.model(), value@),
            stored(old(self).values@, value, final(self).values@),
    {
        let ghost before = *self;
        let ghost model = key.model();
        match self.find(&key) {
            Some(i) => {
                self.values[i] = value;
                proof {
                    let after = *self;
                    assert(after.keys@ == before.keys@);
                    assert(after.values@ == before.values@.update(i as int, value));
                    assert(stored(before.values@, value, after.values@));
                    assert forall|k: K::Model| after@.dom().contains(k) implies #[trigger] after@[k]
                        == before@.insert(model, value@)[k] by {
                        let p = place(after.keys@, k);
                        lemma_place(after.keys@, p);
                        lemma_place(after.keys@, i as int);
                    }
                    assert(after@ =~= before@.insert(model, value@));
                }
            },
            None => {
                self.keys.push(key);
                self.values.push(value);
                proof {
                    let after = *self;
                    assert(after.keys@ == before.keys@.push(key));
                    assert(distinct(after.keys@));
                    let n = before.keys@.len() as int;
                    lemma_place(after.keys@, n);
                    assert forall|k: K::Model|
                        after@.dom().contains(k) <==> before@.insert(model, value@).dom().contains(
                            k,
                        ) by {
                        if before@.dom().contains(k) {
                            let p = place(before.keys@, k);
                            assert(after.keys@[p] == before.keys@[p]);
                        }
                        if after@.dom().contains(k) {
                            let p = place(after.keys@, k);
                            if p < n {
                                assert(before.keys@[p].model() == k);
                            }
                        }
                    }
                    assert forall|k: K::Model| after@.dom().contains(k) implies #[trigger] after@[k]
                        == before@.insert(model, value@)[k] by {
                        let p = place(after.keys@, k);
                        lemma_place(after.keys@, p);
                        if p < n {
                            assert(after.keys@[p] == before.keys@[p]);
                            lemma_place(before.keys@, p);
                        }
                    }
                    assert(after@ =~= before@.insert(model, value@));
                }
            },
        }
    }

    /// Takes a key and its value out of the table.
    pub fn remove(&mut self, key: &K) -> (r: Option<V>)
        requires
            old(self).wf(),
        ensures
            final(self).wf(),
            final(self)@ == old(self)@.remove(key.model()),
            match r {
                Some(value) => old(self)@.dom().contains(key.model()) && value@
                    == old(self)@[key.model()] && taken(
                    old(self).values@,
                    value,
                    final(self).values@,
                ),
                None => !old(self)@.dom().contains(key.model()) && *final(self) == *old(self),
            },
    {
        let ghost before = *self;
        let ghost model = key.model();
        match self.find(key) {
            Some(i) => {
                let _ = self.keys.remove(i);
                let value = self.values.remove(i);
                proof {
                    let after = *self;
                    assert(after.keys@ == before.keys@.remove(i as int));
                    assert(after.values@ == before.values@.remove(i as int));
                    assert(taken(before.values@, value, after.values@));
                    assert forall|a: int, b: int| 0 <= a < b < after.keys@.len() implies (
                    #[trigger] after.keys@[a]).model() != (#[trigger] after.keys@[b]).model() by {
                        let a2 = if a < i { a } else { a + 1 };
                        let b2 = if b < i { b } else { b + 1 };
                        assert(after.keys@[a] == before.keys@[a2]);
                        assert(after.keys@[b] == before.keys@[b2]);
                    }
                    assert forall|k: K::Model|
                        after@.dom().contains(k) <==> before@.remove(model).dom().contains(k) by {
                        if before@.remove(model).dom().contains(k) {
                            let p = place(before.keys@, k);
                            let q = if p < i { p } else { p - 1 };
                            assert(after.keys@[q] == before.keys@[p]);
                        }
                        if after@.dom().contains(k) {
                            let q = place(after.keys@, k);
                            let p = if q < i { q } else { q + 1 };
                            assert(after.keys@[q] == before.keys@[p]);
                            lemma_place(before.keys@, p);
                            lemma_place(before.keys@, i as int);
                        }
                    }
                    assert forall|k: K::Model| after@.dom().contains(k) implies #[trigger] after@[k]
                        == before@.remove(model)[k] by {
                        let q = place(after.keys@, k);
                        lemma_place(after.keys@, q);
                        let p = if q < i { q } else { q + 1 };
                        assert(after.keys@[q] == before.keys@[p]);
                        lemma_place(before.keys@, p);
                    }
                    assert(after@ =~= before@.remove(model));
                }
                Some(value)
            },
            None => {
                proof {
                    assert(before@.remove(model) =~= before@);
                }
                None
            },
        }
    }
}

/// A set without duplicates.
#[derive(Debug)]
pub struct KeySet<K> {
    pub items: Vec<K>,
}

impl<K: Key> View for KeySet<K> {
    type V = Set<K::Model>;

    open spec fn view(&self) -> Set<K::Model> {
        Set::new(|key: K::Model| among(self.items@, key))
    }
}

impl<K: Key> KeySet<K> {
    pub open spec fn wf(&self) -> bool {
        distinct(self.items@)
    }

    pub fn new() -> (set: Self)
        ensures
            set.wf(),
            set@ == Set::<K::Model>::empty(),
    {
        let set = KeySet { items: Vec::new() };
        proof {
            assert(set@ =~= Set::<K::Model>::empty());
        }
        set
    }

    pub fn contains(&self, key: &K) -> (r: bool)
        ensures
            r == self@.contains(key.model()),
    {
        find(&self.items, key).is_some()
    }

    /// Adds a key; one that is there already stays where it is.
    pub fn insert(&mut self, key: K)
        requires
            old(self).wf(),
        ensures
            final(self).wf(),
            final(self)@ == old(self)@.insert(key.model()),
    {
        let ghost before = *self;
        let ghost model = key.model();
        if find(&self.items, &key).is_some() {
            proof {
                assert(before@.insert(model) =~= before@);
            }
            return ;
        }
        self.items.push(key);
        proof {
            let after = *self;
            let n = before.items@.len() as int;
            assert(after.items@ == before.items@.push(key));
            assert forall|k: K::Model| after@.contains(k) <==> before@.insert(model).contains(k) by {
                if before@.contains(k) {
                    let p = place(before.items@, k);
                    assert(after.items@[p] == before.items@[p]);
                }
                if k == model {
                    assert(after.items@[n].model() == k);
                }
                if after@.contains(k) {
                    let p = place(after.items@, k);
                    if p < n {
                        assert(before.items@[p].model() == k);
                    }
                }
            }
            assert(after@ =~= before@.insert(model));
        }
    }

    pub fn remove(&mut self, key: &K)
        requires
            old(self).wf(),
        ensures
            final(self).wf(),
            final(self)@ == old(self)@.remove(key.model()),
    {
        let ghost before = *self;
        let ghost model = key.model();
        match find(&self.items, key) {
            Some(i) => {
                let _ = self.items.remove(i);
                proof {
                    let after = *self;
                    assert(after.items@ == before.items@.remove(i as int));
                    assert forall|a: int, b: int| 0 <= a < b < after.items@.len() implies (
                    #[trigger] after.items@[a]).model() != (#[trigger] after.items@[b]).model() by {
                        let a2 = if a < i { a } else { a + 1 };
                        let b2 = if b < i { b } else { b + 1 };
                        assert(after.items@[a] == before.items@[a2]);
                        assert(after.items@[b] == before.items@[b2]);
                    }
                    assert forall|k: K::Model|
                        after@.contains(k) <==> before@.remove(model).contains(k) by {
                        if before@.remove(model).contains(k) {
                            let p = place(before.items@, k);
                            let q = if p < i { p } else { p - 1 };
                            assert(after.items@[q] == before.items@[p]);
                        }
                        if after@.contains(k) {
                            let q = place(after.items@, k);
                            let p = if q < i { q } else { q + 1 };
                            assert(after.items@[q] == before.items@[p]);
                            lemma_place(before.items@, p);
                            lemma_place(before.items@, i as int);
                        }
                    }
                    assert(after@ =~= before@.remove(model));
                }
            },
            None => {
                proof {
                    assert(before@.remove(model) =~= before@);
                }
            },
        }
    }
}

/// A table gives for each of its keys the value at the same place, and nothing for others.
pub proof fn tables_pair_keys_with_values<K: Key, V: View>(
    table: &Table<K, V>,
    i: int,
    key: K::Model,
)
    requires
        table.wf(),
        0 <= i < table.keys@.len(),
    ensures
        table@.dom().contains(table.keys@[i].model()),
        table@[table.keys@[i].model()] == table.values@[i]@,
        table@.dom().contains(key) ==> exists|k: int|
            0 <= k < table.keys@.len() && (#[trigger] table.keys@[k]).model() == key,
{
    table.lemma_at(i);
}

/// Texts, numbers, positions and pairs are keys by what they are.
pub proof fn keys_are_what_they_are(text: String, number: i32, position: BlockPos, pair: (i32, i32))
    ensures
        text.model() == text@,
        number.model() == number,
        position.model() == position,
        pair.model() == pair,
{
}

} // verus!
