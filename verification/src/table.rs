//! A table from text keys to values that keeps its entries in the order in
//! which their keys first came.

use crate::text::same_text;
use vstd::prelude::*;

verus! {

/// A finite map from text keys to values, held as a list of entries. No key
/// occurs twice, and an entry keeps its place once it is in.
#[derive(Debug, PartialEq, Eq)]
pub struct Table<V> {
    entries: Vec<(String, V)>,
}

impl<V: Clone> Clone for Table<V> {
    fn clone(&self) -> (copy: Table<V>)
        ensures
            copy.keys() == self.keys(),
    {
        proof {
            use_type_invariant(self);
        }
        let mut entries: Vec<(String, V)> = Vec::new();
        let mut i: usize = 0;
        while i < self.entries.len()
            invariant
                i <= self.entries.len(),
                entries.len() == i,
                forall|j: int| 0 <= j < i ==> (#[trigger] entries@[j]).0@ == self.entries@[j].0@,
            decreases self.entries.len() - i,
        {
            entries.push((self.entries[i].0.clone(), self.entries[i].1.clone()));
            i = i + 1;
        }
        proof {
            let keys = entries@.map_values(|e: (String, V)| e.0@);
            assert(keys == self.keys());
        }
        Table { entries }
    }
}

impl<V> View for Table<V> {
    type V = Map<Seq<char>, V>;

    /// The table as a map from keys to values.
    open spec fn view(&self) -> Map<Seq<char>, V> {
        Map::new(
            |key: Seq<char>| self.keys().contains(key),
            |key: Seq<char>| self.values()[self.keys().index_of(key)],
        )
    }
}

impl<V> Table<V> {
    /// The keys, in the order of the entries.
    pub closed spec fn keys(self) -> Seq<Seq<char>> {
        self.entries@.map_values(|e: (String, V)| e.0@)
    }

    /// The values, in the order of the entries.
    pub closed spec fn values(self) -> Seq<V> {
        self.entries@.map_values(|e: (String, V)| e.1)
    }

    #[verifier::type_invariant]
    closed spec fn distinct(self) -> bool {
        self.keys().no_duplicates()
    }

    /// There is one value for each key, and no key occurs twice.
    pub open spec fn wf(self) -> bool {
        &&& self.keys().len() == self.values().len()
        &&& self.keys().no_duplicates()
    }

    /// The empty table.
    pub fn new() -> (table: Table<V>)
        ensures
            table.wf(),
            table.keys() == Seq::<Seq<char>>::empty(),
            table.values() == Seq::<V>::empty(),
    {
        let table = Table { entries: Vec::new() };
        assert(table.keys() == Seq::<Seq<char>>::empty());
        assert(table.values() == Seq::<V>::empty());
        table
    }

    /// The number of entries.
    pub fn len(&self) -> (n: usize)
        ensures
            self.wf(),
            n == self.keys().len(),
    {
        proof {
            use_type_invariant(self);
        }
        self.entries.len()
    }

    /// Whether the table has no entry.
    pub fn is_empty(&self) -> (empty: bool)
        ensures
            self.wf(),
            empty == (self.keys().len() == 0),
    {
        self.len() == 0
    }

    /// The key of the entry at `index`.
    pub fn key_at(&self, index: usize) -> (key: &String)
        requires
            index < self.keys().len(),
        ensures
            key@ == self.keys()[index as int],
    {
        &self.entries[index].0
    }

    /// The value of the entry at `index`.
    pub fn value_at(&self, index: usize) -> (value: &V)
        requires
            index < self.keys().len(),
        ensures
            *value == self.values()[index as int],
    {
        &self.entries[index].1
    }

    /// The place of the entry with the key `key`, if there is one.
    pub fn position(&self, key: &str) -> (place: Option<usize>)
        ensures
            self.wf(),
            match place {
                Some(index) => index < self.keys().len() && self.keys()[index as int] == key@,
                None => !self.keys().contains(key@),
            },
    {
        proof {
            use_type_invariant(self);
        }
        let mut index: usize = 0;
        assert(self.wf());
        while index < self.entries.len()
            invariant
                self.wf(),
                index <= self.entries.len(),
                forall|j: int| 0 <= j < index ==> self.keys()[j] != key@,
            decreases self.entries.len() - index,
        {
            if same_text(self.entries[index].0.as_str(), key) {
                return Some(index);
            }
            index = index + 1;
        }
        None
    }

    /// Whether there is an entry with the key `key`.
    pub fn contains_key(&self, key: &str) -> (found: bool)
        ensures
            found == self@.contains_key(key@),
            found == self.keys().contains(key@),
    {
        self.position(key).is_some()
    }

    /// The value under the key `key`, if there is one.
    pub fn get(&self, key: &str) -> (value: Option<&V>)
        ensures
            self.wf(),
            match value {
                Some(v) => self@.contains_key(key@) && *v == self@[key@],
                None => !self@.contains_key(key@),
            },
    {
        match self.position(key) {
            Some(index) => {
                proof {
                    self.keys().index_of_first_ensures(key@);
                }
                Some(&self.entries[index].1)
            },
            None => None,
        }
    }

    /// The table with the same keys in the same order, and under each key
    /// what `f` makes of the value that stands under it here.
    pub fn map<W, F: Fn(&V) -> W>(&self, f: F) -> (mapped: Table<W>)
        requires
            forall|i: int|
                0 <= i < self.values().len() ==> call_requires(f, (&#[trigger] self.values()[i],)),
        ensures
            self.wf(),
            mapped.wf(),
            mapped.keys() == self.keys(),
            forall|i: int|
                0 <= i < self.values().len() ==> call_ensures(
                    f,
                    (&self.values()[i],),
                    #[trigger] mapped.values()[i],
                ),
    {
        proof {
            use_type_invariant(self);
        }
        let mut entries: Vec<(String, W)> = Vec::new();
        let mut i: usize = 0;
        while i < self.entries.len()
            invariant
                i <= self.entries.len(),
                entries.len() == i,
                forall|j: int|
                    0 <= j < self.values().len() ==> call_requires(
                        f,
                        (&#[trigger] self.values()[j],),
                    ),
                forall|j: int| 0 <= j < i ==> (#[trigger] entries@[j]).0@ == self.entries@[j].0@,
                forall|j: int|
                    0 <= j < i ==> call_ensures(
                        f,
                        (&self.entries@[j].1,),
                        (#[trigger] entries@[j]).1,
                    ),
            decreases self.entries.len() - i,
        {
            assert(self.values()[i as int] == self.entries@[i as int].1);
            let value = f(&self.entries[i].1);
            entries.push((self.entries[i].0.clone(), value));
            i = i + 1;
        }
        proof {
            let keys = entries@.map_values(|e: (String, W)| e.0@);
            assert(keys == self.keys());
        }
        let mapped = Table { entries };
        proof {
            assert(mapped.keys() == self.keys());
            assert forall|i: int| 0 <= i < self.values().len() implies call_ensures(
                f,
                (&self.values()[i],),
                #[trigger] mapped.values()[i],
            ) by {
                assert(mapped.values()[i] == entries@[i].1);
                assert(self.values()[i] == self.entries@[i].1);
            }
        }
        mapped
    }

    /// The table with one more entry at the end, if the key is new; the table
    /// as it is, if the key is in it already.
    pub fn with(self, key: String, value: V) -> (table: Table<V>)
        ensures
            table.wf(),
            self.keys().contains(key@) ==> table.keys() == self.keys() && table.values()
                == self.values(),
            !self.keys().contains(key@) ==> table.keys() == self.keys().push(key@)
                && table.values() == self.values().push(value),
            table@ == if self@.contains_key(key@) {
                self@
            } else {
                self@.insert(key@, value)
            },
    {
        proof {
            use_type_invariant(&self);
        }
        if self.position(key.as_str()).is_some() {
            return self;
        }
        let ghost before_keys = self.keys();
        let ghost before_values = self.values();
        let mut entries = self.entries;
        entries.push((key, value));
        proof {
            let keys = entries@.map_values(|e: (String, V)| e.0@);
            assert(keys == before_keys.push(key@));
            assert(keys.no_duplicates()) by {
                assert forall|i: int, j: int|
                    0 <= i < keys.len() && 0 <= j < keys.len() && i != j implies keys[i]
                    != keys[j] by {
                    if i < before_keys.len() {
                        assert(before_keys.contains(keys[i]));
                    }
                    if j < before_keys.len() {
                        assert(before_keys.contains(keys[j]));
                    }
                }
            }
        }
        let table = Table { entries };
        proof {
            assert(table.keys() == before_keys.push(key@));
            assert(table.values() == before_values.push(value));
            assert(table@ =~= self@.insert(key@, value)) by {
                assert forall|k: Seq<char>| #[trigger] table@.contains_key(k) <==> self@.insert(
                    key@,
                    value,
                ).contains_key(k) by {
                    if before_keys.contains(k) {
                        let at = before_keys.index_of(k);
                        assert(table.keys()[at] == k);
                    }
                    if k == key@ {
                        assert(table.keys()[before_keys.len() as int] == k);
                    }
                }
                assert forall|k: Seq<char>| #[trigger] table@.contains_key(k) implies table@[k]
                    == self@.insert(key@, value)[k] by {
                    let at = table.keys().index_of(k);
                    if k != key@ {
                        assert(before_keys[at] == k);
                        assert(before_keys.contains(k));
                        let old_at = before_keys.index_of(k);
                        assert(table.keys()[old_at] == k);
                    } else {
                        assert(table.keys()[before_keys.len() as int] == k);
                    }
                }
            }
        }
        table
    }
}

} // verus!
