//! A table from texts to values: a list of entries with distinct keys, which can
//! be walked, and an index that says where each key stands.

use vstd::hash_map::StringHashMap;
use vstd::prelude::*;
use vstd::string::*;

verus! {

/// One row of a [`Table`].
pub struct Entry<V> {
    key: String,
    value: V,
}

/// A table from texts to values.
pub struct Table<V> {
    entries: Vec<Entry<V>>,
    /// The position of each key.
    index: StringHashMap<usize>,
}

impl<V: View> View for Table<V> {
    type V = Map<Seq<char>, V::V>;

    closed spec fn view(&self) -> Map<Seq<char>, V::V> {
        Map::new(
            |key: Seq<char>| self.keys().contains(key),
            |key: Seq<char>| self.entries@[self.keys().index_of(key)].value@,
        )
    }
}

impl<V: View> Table<V> {
    /// The keys, in the order in which the rows are kept.
    pub closed spec fn keys(&self) -> Seq<Seq<char>> {
        self.entries@.map_values(|entry: Entry<V>| entry.key@)
    }

    /// No key has two rows, and the index knows where each key stands.
    pub closed spec fn wf(&self) -> bool {
        &&& self.keys().no_duplicates()
        &&& self.indexed()
    }

    /// The index knows the keys, and where each of them stands.
    closed spec fn indexed(&self) -> bool {
        &&& forall|key: Seq<char>| #[trigger]
            self.index@.contains_key(key) ==> self.index@[key] < self.keys().len()
                && self.keys()[self.index@[key] as int] == key
        &&& forall|i: int|
            0 <= i < self.keys().len() ==> self.index@.contains_key(#[trigger] self.keys()[i])
    }

    /// The table holds exactly the keys it lists.
    pub proof fn lemma_keys(&self)
        requires
            self.wf(),
        ensures
            self.keys().no_duplicates(),
            forall|key: Seq<char>| #[trigger] self@.contains_key(key) == self.keys().contains(key),
            self@.dom() == self.keys().to_set(),
            self@.dom().finite(),
            self@.len() == self.keys().len(),
    {
        assert(self@.dom() =~= self.keys().to_set());
        self.keys().unique_seq_to_set();
    }

    proof fn lemma_row(&self, i: int)
        requires
            self.wf(),
            0 <= i < self.entries@.len(),
        ensures
            self.keys()[i] == self.entries@[i].key@,
            self@.contains_key(self.keys()[i]),
            self@[self.keys()[i]] == self.entries@[i].value@,
    {
        let key = self.keys()[i];
        assert(self.keys().contains(key));
        let j = self.keys().index_of(key);
        assert(self.keys()[j] == key);
        assert(i == j);
    }

    /// A table without rows.
    pub fn new() -> (res: Self)
        ensures
            res.wf(),
            res@ == Map::<Seq<char>, V::V>::empty(),
    {
        let res = Table { entries: Vec::new(), index: StringHashMap::new() };
        assert(res@ =~= Map::<Seq<char>, V::V>::empty());
        res
    }

    /// How many keys the table holds.
    pub fn len(&self) -> (res: usize)
        requires
            self.wf(),
        ensures
            res == self@.len(),
            res == self.keys().len(),
            self@.dom().finite(),
    {
        proof {
            self.lemma_keys();
        }
        self.entries.len()
    }

    fn position(&self, key: &str) -> (res: Option<usize>)
        requires
            self.wf(),
        ensures
            match res {
                Some(i) => i < self.entries@.len() && self.keys()[i as int] == key@,
                None => !self.keys().contains(key@),
            },
    {
        match self.index.get(key) {
            Some(i) => Some(*i),
            None => None,
        }
    }

    /// The value of a key, if the table holds it.
    pub fn get(&self, key: &str) -> (res: Option<&V>)
        requires
            self.wf(),
        ensures
            match res {
                Some(value) => self@.contains_key(key@) && self@[key@] == value@,
                None => !self@.contains_key(key@),
            },
    {
        match self.position(key) {
            Some(i) => {
                proof {
                    self.lemma_row(i as int);
                }
                Some(&self.entries[i].value)
            },
            None => None,
        }
    }

    /// Does the table hold the key?
    pub fn contains_key(&self, key: &str) -> (res: bool)
        requires
            self.wf(),
        ensures
            res == self@.contains_key(key@),
    {
        self.get(key).is_some()
    }

    /// Gives the key a new value, whether or not the table holds it.
    pub fn insert(&mut self, key: String, value: V)
        requires
            old(self).wf(),
        ensures
            final(self).wf(),
            final(self)@ == old(self)@.insert(key@, value@),
    {
        let ghost before = *self;
        let ghost inserted = value@;
        match self.position(key.as_str()) {
            Some(i) => {
                self.entries.set(i, Entry { key, value });
                proof {
                    assert(self.keys() =~= before.keys());
                    assert forall|k: Seq<char>| self.keys().contains(k) implies self@[k] == before@.insert(
                        key@,
                        inserted,
                    )[k] by {
                        let j = self.keys().index_of(k);
                        self.lemma_row(j);
                        before.lemma_row(j);
                    }
                    assert(before.keys()[i as int] == key@);
                    assert(self@ =~= before@.insert(key@, inserted));
                }
            },
            None => {
                let at: usize = self.entries.len();
                self.index.insert(key.clone(), at);
                self.entries.push(Entry { key, value });
                proof {
                    assert(self.keys() =~= before.keys().push(key@));
                    assert forall|k: Seq<char>| self.keys().contains(k) implies self@[k] == before@.insert(
                        key@,
                        inserted,
                    )[k] by {
                        let j = self.keys().index_of(k);
                        self.lemma_row(j);
                        if j < before.keys().len() {
                            before.lemma_row(j);
                        }
                    }
                    assert forall|k: Seq<char>| self.keys().contains(k) == (before.keys().contains(k)
                        || k == key@) by {
                        if before.keys().contains(k) {
                            let j = before.keys().index_of(k);
                            assert(self.keys()[j] == k);
                        }
                        assert(self.keys()[before.keys().len() as int] == key@);
                    }
                    assert(self@ =~= before@.insert(key@, inserted));
                }
            },
        }
    }

    /// Removes the row at a position of [`Table::keys`]; the last row takes its
    /// place.
    pub fn remove_at(&mut self, i: usize)
        requires
            old(self).wf(),
            i < old(self).keys().len(),
        ensures
            final(self).wf(),
            final(self)@ == old(self)@.remove(old(self).keys()[i as int]),
            final(self).keys() == old(self).keys().update(
                i as int,
                old(self).keys().last(),
            ).drop_last(),
    {
        let ghost before = *self;
        let ghost key = self.keys()[i as int];
        let removed: Entry<V> = self.entries.swap_remove(i);
        self.index.remove(removed.key.as_str());
        if i < self.entries.len() {
            self.index.insert(self.entries[i].key.clone(), i);
        }
        proof {
            assert(self.keys() =~= before.keys().update(i as int, before.keys().last()).drop_last());
            let last = before.keys().len() - 1;
            assert forall|k: Seq<char>| self.keys().contains(k) == (before.keys().contains(k) && k
                != key) by {
                if self.keys().contains(k) {
                    let j = self.keys().index_of(k);
                    if j == i {
                        assert(before.keys()[last] == k);
                    } else {
                        assert(before.keys()[j] == k);
                    }
                }
                if before.keys().contains(k) && k != key {
                    let j = before.keys().index_of(k);
                    if j == last {
                        assert(self.keys()[i as int] == k);
                    } else {
                        assert(self.keys()[j] == k);
                    }
                }
            }
            assert forall|k: Seq<char>| self.keys().contains(k) implies self@[k] == before@[k] by {
                let j = self.keys().index_of(k);
                self.lemma_row(j);
                if j == i {
                    before.lemma_row(last);
                } else {
                    before.lemma_row(j);
                }
            }
            assert(self@ =~= before@.remove(key));
        }
    }

    /// Removes a key, if the table holds it.
    pub fn remove(&mut self, key: &str)
        requires
            old(self).wf(),
        ensures
            final(self).wf(),
            final(self)@ == old(self)@.remove(key@),
    {
        match self.position(key) {
            Some(i) => {
                self.remove_at(i);
            },
            None => {
                assert(self@.remove(key@) =~= self@);
            },
        }
    }

    /// The key at a position of [`Table::keys`].
    pub fn key_at(&self, i: usize) -> (res: &String)
        requires
            self.wf(),
            i < self.keys().len(),
        ensures
            res@ == self.keys()[i as int],
            self@.contains_key(res@),
    {
        proof {
            self.lemma_row(i as int);
        }
        &self.entries[i].key
    }

    /// The value of the key at a position of [`Table::keys`].
    pub fn value_at(&self, i: usize) -> (res: &V)
        requires
            self.wf(),
            i < self.keys().len(),
        ensures
            self@.contains_key(self.keys()[i as int]),
            res@ == self@[self.keys()[i as int]],
    {
        proof {
            self.lemma_row(i as int);
        }
        &self.entries[i].value
    }
}

} // verus!
