//! A map from strings to values, kept as a list of entries with distinct keys.

use vstd::prelude::*;
use crate::text::str_eq;

verus! {

/// A finite map keyed by strings. No key occurs twice among the entries, so
/// the order in which they are stored is never observable through the view.
pub struct Table<V> {
    entries: Vec<(String, V)>,
}

/// The keys of `entries`, in the order in which they are stored.
pub open spec fn entry_keys<V>(entries: Seq<(String, V)>) -> Seq<Seq<char>> {
    Seq::new(entries.len(), |i: int| entries[i].0@)
}

/// The map that `entries` stand for: a key is bound to the value of the
/// first entry that carries it.
pub open spec fn entry_map<V: View>(entries: Seq<(String, V)>) -> Map<Seq<char>, V::V> {
    Map::new(
        |k: Seq<char>| entry_keys(entries).contains(k),
        |k: Seq<char>| entries[entry_keys(entries).index_of(k)].1@,
    )
}

/// In a list without repeated keys, the entry at `i` is the binding of its key.
proof fn lemma_entry_lookup<V: View>(entries: Seq<(String, V)>, i: int)
    requires
        entry_keys(entries).no_duplicates(),
        0 <= i < entries.len(),
    ensures
        entry_map(entries).contains_key(entries[i].0@),
        entry_map(entries)[entries[i].0@] == entries[i].1@,
{
    let keys = entry_keys(entries);
    assert(keys[i] == entries[i].0@);
    let j = keys.index_of(entries[i].0@);
    assert(keys[j] == keys[i]);
}

impl<V: View> View for Table<V> {
    type V = Map<Seq<char>, V::V>;

    closed spec fn view(&self) -> Map<Seq<char>, V::V> {
        entry_map(self.entries@)
    }
}

impl<V> Table<V> {
    #[verifier::type_invariant]
    spec fn distinct_keys(self) -> bool {
        entry_keys(self.entries@).no_duplicates()
    }
}

impl<V: View> Table<V> {
    /// The bound keys in storage order.
    pub closed spec fn keys(self) -> Seq<Seq<char>> {
        entry_keys(self.entries@)
    }

    /// An empty table.
    pub fn new() -> (t: Self)
        ensures
            t@ == Map::<Seq<char>, V::V>::empty(),
            t.keys() == Seq::<Seq<char>>::empty(),
    {
        let t = Table { entries: Vec::new() };
        assert(t@ =~= Map::<Seq<char>, V::V>::empty());
        assert(t.keys() =~= Seq::<Seq<char>>::empty());
        t
    }

    /// The number of bindings. The keys are pairwise distinct and are
    /// exactly the domain of the view.
    pub fn len(&self) -> (n: usize)
        ensures
            n == self.keys().len(),
            self.keys().no_duplicates(),
            forall|k: Seq<char>| self.keys().contains(k) <==> self@.contains_key(k),
    {
        proof {
            use_type_invariant(self);
        }
        self.entries.len()
    }

    /// The key of the `i`-th binding.
    pub fn key_at(&self, i: usize) -> (key: &String)
        requires
            i < self.keys().len(),
        ensures
            key@ == self.keys()[i as int],
            self@.contains_key(key@),
    {
        proof {
            use_type_invariant(self);
            lemma_entry_lookup(self.entries@, i as int);
        }
        &self.entries[i].0
    }

    /// The value of the `i`-th binding.
    pub fn value_at(&self, i: usize) -> (value: &V)
        requires
            i < self.keys().len(),
        ensures
            self@.contains_key(self.keys()[i as int]),
            value@ == self@[self.keys()[i as int]],
    {
        proof {
            use_type_invariant(self);
            lemma_entry_lookup(self.entries@, i as int);
        }
        &self.entries[i].1
    }

    /// The position of `key` among the entries, if it is bound.
    fn position(&self, key: &str) -> (found: Option<usize>)
        ensures
            match found {
                Some(i) => i < self.entries@.len() && self.entries@[i as int].0@ == key@,
                None => !entry_keys(self.entries@).contains(key@),
            },
    {
        let mut i: usize = 0;
        while i < self.entries.len()
            invariant
                i <= self.entries@.len(),
                forall|j: int| 0 <= j < i ==> self.entries@[j].0@ != key@,
            decreases self.entries@.len() - i,
        {
            if str_eq(self.entries[i].0.as_str(), key) {
                return Some(i);
            }
            i += 1;
        }
        None
    }

    /// Whether `key` is bound.
    pub fn contains_key(&self, key: &str) -> (bound: bool)
        ensures
            bound == self@.contains_key(key@),
    {
        match self.position(key) {
            Some(i) => {
                assert(entry_keys(self.entries@)[i as int] == key@);
                true
            },
            None => false,
        }
    }

    /// The value bound to `key`, if any.
    pub fn get(&self, key: &str) -> (value: Option<&V>)
        ensures
            match value {
                Some(v) => self@.contains_key(key@) && v@ == self@[key@],
                None => !self@.contains_key(key@),
            },
    {
        match self.position(key) {
            Some(i) => {
                proof {
                    use_type_invariant(self);
                    lemma_entry_lookup(self.entries@, i as int);
                }
                Some(&self.entries[i].1)
            },
            None => None,
        }
    }

    /// Moves the entries out and leaves the table empty.
    fn take_entries(&mut self) -> (entries: Vec<(String, V)>)
        ensures
            entries@ == old(self).entries@,
            final(self).entries@.len() == 0,
    {
        let mut taken = Table { entries: Vec::new() };
        core::mem::swap(self, &mut taken);
        taken.entries
    }

    /// Binds `key` to `value`, in place of an earlier binding of `key`.
    pub fn insert(&mut self, key: String, value: V)
        ensures
            final(self)@ == old(self)@.insert(key@, value@),
    {
        proof {
            use_type_invariant(&*self);
        }
        let ghost before = self.entries@;
        let found = self.position(key.as_str());
        let mut entries = self.take_entries();
        match found {
            Some(i) => {
                entries.set(i, (key, value));
                proof {
                    let after = entries@;
                    assert(entry_keys(after) =~= entry_keys(before));
                    assert(entry_keys(before)[i as int] == key@);
                    assert forall|k: Seq<char>| #[trigger]
                        entry_map(before).insert(key@, value@).contains_key(k) implies entry_map(
                        after,
                    )[k] == entry_map(before).insert(key@, value@)[k] by {
                        assert(entry_keys(after).contains(k));
                        let j = entry_keys(after).index_of(k);
                        assert(entry_keys(after)[j] == k);
                        lemma_entry_lookup(after, j);
                        if j != i {
                            lemma_entry_lookup(before, j);
                        }
                    }
                    assert(entry_keys(before)[i as int] == key@);
                    assert(entry_map(after) =~= entry_map(before).insert(key@, value@));
                }
            },
            None => {
                entries.push((key, value));
                proof {
                    let after = entries@;
                    assert(entry_keys(after) =~= entry_keys(before).push(key@));
                    assert forall|k: Seq<char>| #[trigger]
                        entry_map(before).insert(key@, value@).contains_key(k) implies entry_map(
                        after,
                    ).contains_key(k) && entry_map(after)[k] == entry_map(before).insert(
                        key@,
                        value@,
                    )[k] by {
                        if k == key@ {
                            assert(entry_keys(after)[before.len() as int] == k);
                            lemma_entry_lookup(after, before.len() as int);
                        } else {
                            let j = entry_keys(before).index_of(k);
                            assert(entry_keys(before)[j] == k);
                            assert(entry_keys(after)[j] == k);
                            lemma_entry_lookup(after, j);
                            lemma_entry_lookup(before, j);
                        }
                    }
                    assert forall|k: Seq<char>| #[trigger]
                        entry_map(after).contains_key(k) implies entry_map(before).insert(
                        key@,
                        value@,
                    ).contains_key(k) by {
                        let j = entry_keys(after).index_of(k);
                        assert(entry_keys(after)[j] == k);
                        if j < before.len() {
                            assert(entry_keys(before)[j] == k);
                        }
                    }
                    assert(entry_map(after) =~= entry_map(before).insert(key@, value@));
                }
            },
        }
        *self = Table { entries };
    }

    /// Takes the binding of `key` out of the table and returns its value.
    pub fn remove(&mut self, key: &str) -> (value: Option<V>)
        ensures
            final(self)@ == old(self)@.remove(key@),
            match value {
                Some(v) => old(self)@.contains_key(key@) && v@ == old(self)@[key@],
                None => !old(self)@.contains_key(key@),
            },
    {
        proof {
            use_type_invariant(&*self);
        }
        let ghost before = self.entries@;
        match self.position(key) {
            Some(i) => {
                let mut entries = self.take_entries();
                let entry = entries.remove(i);
                proof {
                    let after = entries@;
                    lemma_entry_lookup(before, i as int);
                    assert(entry_keys(after) =~= entry_keys(before).remove(i as int));
                    assert forall|a: int, b: int|
                        0 <= a < b < after.len() implies entry_keys(after)[a] != entry_keys(
                        after,
                    )[b] by {
                        let a0 = if a < i { a } else { a + 1 };
                        let b0 = if b < i { b } else { b + 1 };
                        assert(entry_keys(after)[a] == entry_keys(before)[a0]);
                        assert(entry_keys(after)[b] == entry_keys(before)[b0]);
                    }
                    assert forall|k: Seq<char>| #[trigger]
                        entry_map(before).remove(key@).contains_key(k) implies entry_map(
                        after,
                    ).contains_key(k) && entry_map(after)[k] == entry_map(before)[k] by {
                        let j = entry_keys(before).index_of(k);
                        assert(entry_keys(before)[j] == k);
                        let j1 = if j < i { j } else { j - 1 };
                        assert(entry_keys(after)[j1] == k);
                        lemma_entry_lookup(after, j1);
                        lemma_entry_lookup(before, j);
                    }
                    assert forall|k: Seq<char>| #[trigger]
                        entry_map(after).contains_key(k) implies entry_map(before).remove(
                        key@,
                    ).contains_key(k) by {
                        let j = entry_keys(after).index_of(k);
                        assert(entry_keys(after)[j] == k);
                        let j0 = if j < i { j } else { j + 1 };
                        assert(entry_keys(before)[j0] == k);
                        assert(entry_keys(before)[i as int] == key@);
                    }
                    assert(entry_map(after) =~= entry_map(before).remove(key@));
                }
                *self = Table { entries };
                Some(entry.1)
            },
            None => {
                assert(entry_map(before) =~= entry_map(before).remove(key@));
                None
            },
        }
    }
}

} // verus!
