//! A small keyed store: each key is held at most once, and the store is
//! viewed as a finite map from the key's characters to the value.

use vstd::prelude::*;

verus! {

/// One stored association.
#[derive(Debug)]
pub struct Entry<V> {
    pub key: String,
    pub value: V,
}

/// A store of values keyed by strings.
#[derive(Debug)]
pub struct Table<V> {
    entries: Vec<Entry<V>>,
}

/// The keys of a sequence of entries, in order.
pub open spec fn keys_of<V>(entries: Seq<Entry<V>>) -> Seq<Seq<char>> {
    entries.map_values(|e: Entry<V>| e.key@)
}

/// The map that a sequence of entries stands for.
pub open spec fn map_of<V>(entries: Seq<Entry<V>>) -> Map<Seq<char>, V> {
    let keys = keys_of(entries);
    Map::new(|k: Seq<char>| keys.contains(k), |k: Seq<char>| entries[keys.index_of(k)].value)
}

/// Each entry of a sequence without repeated keys is found under its key.
proof fn lemma_present<V>(entries: Seq<Entry<V>>, i: int)
    requires
        keys_of(entries).no_duplicates(),
        0 <= i < entries.len(),
    ensures
        map_of(entries).contains_key(entries[i].key@),
        map_of(entries)[entries[i].key@] == entries[i].value,
{
    let keys = keys_of(entries);
    let k = entries[i].key@;
    assert(keys[i] == k);
    let j = keys.index_of(k);
    assert(keys[j] == k);
}

/// A key of the map is the key of some entry.
proof fn lemma_witness<V>(entries: Seq<Entry<V>>, k: Seq<char>) -> (i: int)
    requires
        map_of(entries).contains_key(k),
    ensures
        0 <= i < entries.len(),
        entries[i].key@ == k,
{
    let keys = keys_of(entries);
    let j = keys.index_of(k);
    assert(keys[j] == k);
    j
}

impl<V> View for Table<V> {
    type V = Map<Seq<char>, V>;

    closed spec fn view(&self) -> Map<Seq<char>, V> {
        map_of(self.entries@)
    }
}

impl<V> Table<V> {
    /// No key is stored twice.
    pub closed spec fn wf(&self) -> bool {
        keys_of(self.entries@).no_duplicates()
    }

    /// The store holds finitely many keys.
    pub proof fn lemma_finite(&self)
        ensures
            self@.dom().finite(),
    {
        let keys = keys_of(self.entries@);
        vstd::seq_lib::seq_to_set_is_finite(keys);
        assert(self@.dom() =~= keys.to_set());
    }

    /// An empty store.
    pub fn new() -> (t: Self)
        ensures
            t.wf(),
            t@ == Map::<Seq<char>, V>::empty(),
    {
        let t = Table { entries: Vec::new() };
        proof {
            assert(keys_of(t.entries@) =~= Seq::<Seq<char>>::empty());
            assert(t@ =~= Map::<Seq<char>, V>::empty());
        }
        t
    }

    fn find(&self, key: &String) -> (r: Option<usize>)
        ensures
            match r {
                Some(i) => i < self.entries@.len() && self.entries@[i as int].key@ == key@,
                None => forall|i: int| 0 <= i < self.entries@.len() ==> self.entries@[i].key@ != key@,
            },
    {
        let mut i: usize = 0;
        while i < self.entries.len()
            invariant
                i <= self.entries@.len(),
                forall|j: int| 0 <= j < i ==> self.entries@[j].key@ != key@,
            decreases self.entries@.len() - i,
        {
            if self.entries[i].key == *key {
                return Some(i);
            }
            i += 1;
        }
        None
    }

    /// The value stored under `key`, if any.
    pub fn get(&self, key: &String) -> (r: Option<&V>)
        requires
            self.wf(),
        ensures
            match r {
                Some(v) => self@.contains_key(key@) && *v == self@[key@],
                None => !self@.contains_key(key@),
            },
    {
        match self.find(key) {
            Some(i) => {
                proof {
                    lemma_present(self.entries@, i as int);
                }
                Some(&self.entries[i].value)
            },
            None => {
                proof {
                    if self@.contains_key(key@) {
                        let j = lemma_witness(self.entries@, key@);
                    }
                }
                None
            },
        }
    }

    /// Stores `value` under `key`, in place of what was stored there.
    pub fn insert(&mut self, key: String, value: V)
        requires
            old(self).wf(),
        ensures
            final(self).wf(),
            final(self)@ == old(self)@.insert(key@, value),
    {
        let ghost before = self.entries@;
        let ghost k = key@;
        match self.find(&key) {
            Some(i) => {
                self.entries.set(i, Entry { key, value });
                proof {
                    let after = self.entries@;
                    assert(keys_of(after) =~= keys_of(before));
                    assert forall|q: Seq<char>| #[trigger]
                        map_of(before).insert(k, value).contains_key(q) implies map_of(
                        after,
                    ).contains_key(q) && map_of(after)[q] == map_of(before).insert(k, value)[q] by {
                        if q == k {
                            lemma_present(after, i as int);
                        } else {
                            let j = lemma_witness(before, q);
                            lemma_present(before, j);
                            lemma_present(after, j);
                        }
                    }
                    assert forall|q: Seq<char>| #[trigger]
                        map_of(after).contains_key(q) implies map_of(before).insert(
                        k,
                        value,
                    ).contains_key(q) by {
                        let j = lemma_witness(after, q);
                        lemma_present(before, j);
                    }
                    assert(self@ =~= old(self)@.insert(k, value));
                }
            },
            None => {
                self.entries.push(Entry { key, value });
                proof {
                    let after = self.entries@;
                    let n = before.len() as int;
                    assert(keys_of(after) =~= keys_of(before).push(k));
                    assert forall|a: int, b: int|
                        0 <= a < after.len() && 0 <= b < after.len() && a != b implies keys_of(
                        after,
                    )[a] != keys_of(after)[b] by {
                        if a < n && b < n {
                            assert(keys_of(before)[a] != keys_of(before)[b]);
                        }
                    }
                    assert forall|q: Seq<char>| #[trigger]
                        map_of(before).insert(k, value).contains_key(q) implies map_of(
                        after,
                    ).contains_key(q) && map_of(after)[q] == map_of(before).insert(k, value)[q] by {
                        if q == k {
                            lemma_present(after, n);
                        } else {
                            let j = lemma_witness(before, q);
                            lemma_present(before, j);
                            lemma_present(after, j);
                        }
                    }
                    assert forall|q: Seq<char>| #[trigger]
                        map_of(after).contains_key(q) implies map_of(before).insert(
                        k,
                        value,
                    ).contains_key(q) by {
                        let j = lemma_witness(after, q);
                        if j < n {
                            lemma_present(before, j);
                        }
                    }
                    assert(self@ =~= old(self)@.insert(k, value));
                }
            },
        }
    }

    /// Takes out what is stored under `key`, and returns it.
    pub fn remove(&mut self, key: &String) -> (r: Option<V>)
        requires
            old(self).wf(),
        ensures
            final(self).wf(),
            final(self)@ == old(self)@.remove(key@),
            match r {
                Some(v) => old(self)@.contains_key(key@) && v == old(self)@[key@],
                None => !old(self)@.contains_key(key@),
            },
    {
        let ghost before = self.entries@;
        let ghost k = key@;
        match self.find(key) {
            Some(i) => {
                let entry = self.entries.remove(i);
                proof {
                    let after = self.entries@;
                    lemma_present(before, i as int);
                    assert(keys_of(after) =~= keys_of(before).remove(i as int));
                    assert forall|a: int, b: int|
                        0 <= a < after.len() && 0 <= b < after.len() && a != b implies keys_of(
                        after,
                    )[a] != keys_of(after)[b] by {
                        let a0 = if a < i { a } else { a + 1 };
                        let b0 = if b < i { b } else { b + 1 };
                        assert(keys_of(before)[a0] != keys_of(before)[b0]);
                    }
                    assert forall|q: Seq<char>| #[trigger]
                        map_of(before).remove(k).contains_key(q) implies map_of(
                        after,
                    ).contains_key(q) && map_of(after)[q] == map_of(before).remove(k)[q] by {
                        let j = lemma_witness(before, q);
                        lemma_present(before, j);
                        let j1 = if j < i { j } else { j - 1 };
                        lemma_present(after, j1);
                    }
                    assert forall|q: Seq<char>| #[trigger]
                        map_of(after).contains_key(q) implies map_of(before).remove(
                        k,
                    ).contains_key(q) by {
                        let j = lemma_witness(after, q);
                        let j0 = if j < i { j } else { j + 1 };
                        lemma_present(before, j0);
                        assert(keys_of(before)[j0] != keys_of(before)[i as int]);
                    }
                    assert(self@ =~= old(self)@.remove(k));
                }
                Some(entry.value)
            },
            None => {
                proof {
                    if self@.contains_key(k) {
                        let j = lemma_witness(before, k);
                    }
                    assert(self@ =~= old(self)@.remove(k));
                }
                None
            },
        }
    }
}

} // verus!
