//! A map from strings to values that keeps the order in which keys first came.
use vstd::prelude::*;

use crate::text::same;

verus! {

/// A map whose keys are strings. No key occurs twice.
#[derive(Debug)]
pub struct TextMap<V> {
    entries: Vec<(String, V)>,
}

/// Whether no key occurs twice among the entries.
pub open spec fn distinct_keys<V>(entries: Seq<(Seq<char>, V)>) -> bool {
    forall|i: int, j: int|
        0 <= i < j < entries.len() ==> (#[trigger] entries[i]).0 != (#[trigger] entries[j]).0
}

/// Whether one of the entries has the key `key`.
pub open spec fn has_key<V>(entries: Seq<(Seq<char>, V)>, key: Seq<char>) -> bool {
    exists|i: int| 0 <= i < entries.len() && (#[trigger] entries[i]).0 == key
}

/// The map that a list of entries with distinct keys stands for.
pub open spec fn map_of<V>(entries: Seq<(Seq<char>, V)>) -> Map<Seq<char>, V> {
    Map::new(
        |k: Seq<char>| has_key(entries, k),
        |k: Seq<char>|
            entries[choose|i: int| 0 <= i < entries.len() && (#[trigger] entries[i]).0 == k].1,
    )
}

/// Each entry's key stands for the entry's value.
pub proof fn lemma_entry<V>(entries: Seq<(Seq<char>, V)>, i: int)
    requires
        distinct_keys(entries),
        0 <= i < entries.len(),
    ensures
        map_of(entries).dom().contains(entries[i].0),
        map_of(entries)[entries[i].0] == entries[i].1,
{
    let k = entries[i].0;
    let j = choose|j: int| 0 <= j < entries.len() && (#[trigger] entries[j]).0 == k;
    assert(entries[i].0 == k);
    if j < i {
        assert(entries[j].0 != entries[i].0);
    } else if i < j {
        assert(entries[i].0 != entries[j].0);
    }
}

impl<V> View for TextMap<V> {
    type V = Map<Seq<char>, V>;

    open spec fn view(&self) -> Map<Seq<char>, V> {
        map_of(self.listed())
    }
}

impl<V> TextMap<V> {
    /// The entries in the order in which their keys first came.
    pub closed spec fn listed(&self) -> Seq<(Seq<char>, V)> {
        self.entries@.map_values(|e: (String, V)| (e.0@, e.1))
    }

    #[verifier::type_invariant]
    closed spec fn keys_are_distinct(&self) -> bool {
        distinct_keys(self.listed())
    }

    /// An empty map.
    pub fn new() -> (map: Self)
        ensures
            map@ == Map::<Seq<char>, V>::empty(),
            map.listed() == Seq::<(Seq<char>, V)>::empty(),
    {
        let map = TextMap { entries: Vec::new() };
        assert(map.listed() =~= Seq::empty());
        assert(map@ =~= Map::empty());
        map
    }

    /// The number of entries.
    pub fn len(&self) -> (n: usize)
        ensures
            n == self.listed().len(),
            distinct_keys(self.listed()),
    {
        proof {
            use_type_invariant(self);
        }
        self.entries.len()
    }

    /// The key of the entry at `i`.
    pub fn key_at(&self, i: usize) -> (key: &String)
        requires
            i < self.listed().len(),
        ensures
            key@ == self.listed()[i as int].0,
    {
        &self.entries[i].0
    }

    /// The value of the entry at `i`.
    pub fn value_at(&self, i: usize) -> (value: &V)
        requires
            i < self.listed().len(),
        ensures
            *value == self.listed()[i as int].1,
    {
        &self.entries[i].1
    }

    /// The position of the entry with the key `key`.
    fn find(&self, key: &str) -> (found: Option<usize>)
        ensures
            found is Some <==> has_key(self.listed(), key@),
            found matches Some(i) ==> i < self.listed().len() && self.listed()[i as int].0 == key@,
    {
        let mut i: usize = 0;
        while i < self.entries.len()
            invariant
                i <= self.entries.len(),
                forall|j: int| 0 <= j < i ==> (#[trigger] self.listed()[j]).0 != key@,
            decreases self.entries.len() - i,
        {
            assert(self.listed()[i as int].0 == self.entries@[i as int].0@);
            if same(self.entries[i].0.as_str(), key) {
                return Some(i);
            }
            i += 1;
        }
        None
    }

    /// The value that `key` stands for.
    pub fn get(&self, key: &str) -> (value: Option<&V>)
        ensures
            value == (if self@.dom().contains(key@) {
                Some(&self@[key@])
            } else {
                None
            }),
    {
        proof {
            use_type_invariant(self);
        }
        match self.find(key) {
            Some(i) => {
                proof {
                    lemma_entry(self.listed(), i as int);
                }
                Some(&self.entries[i].1)
            },
            None => None,
        }
    }

    /// Makes `key` stand for `value`, whatever it stood for before. A new key
    /// comes last; a known one keeps its place.
    pub fn insert(&mut self, key: String, value: V)
        ensures
            final(self)@ == old(self)@.insert(key@, value),
            !has_key(old(self).listed(), key@) ==> final(self).listed() == old(self).listed().push(
                (key@, value),
            ),
            has_key(old(self).listed(), key@) ==> final(self).listed() == old(
                self,
            ).listed().map_values(
                |e: (Seq<char>, V)|
                    if e.0 == key@ {
                        (key@, value)
                    } else {
                        e
                    },
            ),
    {
        proof {
            use_type_invariant(&*self);
        }
        let ghost before = self.listed();
        let ghost k = key@;
        let found = self.find(key.as_str());
        let mut entries: Vec<(String, V)> = Vec::new();
        std::mem::swap(&mut entries, &mut self.entries);
        match found {
            Some(i) => {
                entries.set(i, (key, value));
                let ghost after = entries@.map_values(|e: (String, V)| (e.0@, e.1));
                assert(after =~= before.update(i as int, (k, value)));
            },
            None => {
                entries.push((key, value));
                let ghost after = entries@.map_values(|e: (String, V)| (e.0@, e.1));
                assert(after =~= before.push((k, value)));
            },
        }
        let ghost after = entries@.map_values(|e: (String, V)| (e.0@, e.1));
        assert(distinct_keys(after)) by {
            assert forall|i: int, j: int| 0 <= i < j < after.len() implies (
            #[trigger] after[i]).0 != (#[trigger] after[j]).0 by {
                if i < before.len() && j < before.len() {
                    assert(before[i].0 != before[j].0);
                } else {
                    assert(!has_key(before, k));
                    assert(before[i].0 != k);
                }
            }
        }
        self.entries = entries;
        proof {
            assert(self.listed() == after);
            assert forall|x: Seq<char>|
                has_key(after, x) <==> has_key(before, x) || x == k by {
                if has_key(before, x) {
                    let i = choose|i: int| 0 <= i < before.len() && (#[trigger] before[i]).0 == x;
                    assert(after[i].0 == x);
                }
                if x == k {
                    if found is Some {
                        assert(after[found->0 as int].0 == k);
                    } else {
                        assert(after[before.len() as int].0 == k);
                    }
                }
                if has_key(after, x) && x != k {
                    let i = choose|i: int| 0 <= i < after.len() && (#[trigger] after[i]).0 == x;
                    assert(before[i].0 == x);
                }
            }
            assert forall|x: Seq<char>| has_key(after, x) implies map_of(after)[x] == map_of(
                before,
            ).insert(k, value)[x] by {
                let i = choose|i: int| 0 <= i < after.len() && (#[trigger] after[i]).0 == x;
                lemma_entry(after, i);
                if x != k {
                    lemma_entry(before, i);
                } else if found is Some {
                    lemma_entry(after, found->0 as int);
                } else {
                    lemma_entry(after, before.len() as int);
                }
            }
            assert(map_of(after) =~= map_of(before).insert(k, value));
            if let Some(i) = found {
                let replaced = before.map_values(
                    |e: (Seq<char>, V)|
                        if e.0 == k {
                            (k, value)
                        } else {
                            e
                        },
                );
                assert forall|j: int| 0 <= j < before.len() implies after[j] == replaced[j] by {
                    if j < i {
                        assert(before[j].0 != before[i as int].0);
                    } else if i < j {
                        assert(before[i as int].0 != before[j].0);
                    }
                }
                assert(after =~= replaced);
            }
        }
    }
}

impl<V: Clone> Clone for TextMap<V> {
    fn clone(&self) -> (copy: Self)
        ensures
            copy.listed().len() == self.listed().len(),
            forall|i: int|
                #![trigger copy.listed()[i]]
                0 <= i < self.listed().len() ==> copy.listed()[i].0 == self.listed()[i].0
                    && cloned(self.listed()[i].1, copy.listed()[i].1),
    {
        proof {
            use_type_invariant(self);
        }
        let mut entries: Vec<(String, V)> = Vec::new();
        let mut i: usize = 0;
        while i < self.entries.len()
            invariant
                i <= self.entries.len(),
                entries.len() == i,
                forall|j: int|
                    #![trigger entries@[j]]
                    0 <= j < i ==> entries@[j].0@ == self.listed()[j].0 && cloned(
                        self.listed()[j].1,
                        entries@[j].1,
                    ),
            decreases self.entries.len() - i,
        {
            let key = self.entries[i].0.clone();
            let value = self.entries[i].1.clone();
            entries.push((key, value));
            i += 1;
        }
        let ghost listed = entries@.map_values(|e: (String, V)| (e.0@, e.1));
        assert forall|i: int, j: int| 0 <= i < j < listed.len() implies (#[trigger] listed[i]).0
            != (#[trigger] listed[j]).0 by {
            assert(entries@[i].0@ == self.listed()[i].0);
            assert(entries@[j].0@ == self.listed()[j].0);
        }
        let copy = TextMap { entries };
        assert(copy.listed() == listed);
        copy
    }
}

}
