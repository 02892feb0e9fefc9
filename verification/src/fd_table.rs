//! The table of open descriptors: which traced file each descriptor stands
//! for, keyed by the descriptor's text as the trace writes it.
use vstd::prelude::*;

verus! {

/// A map from descriptor text to a value, with at most one entry per key.
pub struct FdTable<V: View> {
    entries: Vec<(String, V)>,
    contents: Ghost<Map<Seq<char>, V::V>>,
}

/// No key occurs twice among the entries.
pub open spec fn keys_distinct<V>(entries: Seq<(String, V)>) -> bool {
    forall|i: int, j: int|
        0 <= i < j < entries.len() ==> #[trigger] entries[i].0@ != #[trigger] entries[j].0@
}

/// Every entry is in the map with its value.
pub open spec fn entries_in_map<V: View>(entries: Seq<(String, V)>, m: Map<Seq<char>, V::V>) -> bool {
    forall|i: int|
        0 <= i < entries.len() ==> #[trigger] m.contains_key(entries[i].0@) && m[entries[i].0@]
            == entries[i].1@
}

/// Every key of the map has an entry.
pub open spec fn map_in_entries<V: View>(entries: Seq<(String, V)>, m: Map<Seq<char>, V::V>) -> bool {
    forall|k: Seq<char>|
        #[trigger] m.contains_key(k) ==> exists|i: int| 0 <= i < entries.len() && #[trigger] entries[i].0@ == k
}

impl<V: View> FdTable<V> {
    #[verifier::type_invariant]
    spec fn well_formed(self) -> bool {
        &&& keys_distinct(self.entries@)
        &&& entries_in_map(self.entries@, self.contents@)
        &&& map_in_entries(self.entries@, self.contents@)
    }

    /// What the table maps each key to.
    pub closed spec fn view(&self) -> Map<Seq<char>, V::V> {
        self.contents@
    }

    /// An empty table.
    pub fn new() -> (t: Self)
        ensures
            t@ == Map::<Seq<char>, V::V>::empty(),
    {
        FdTable { entries: Vec::new(), contents: Ghost(Map::empty()) }
    }

    /// The position of `key` among the entries.
    fn find(&self, key: &String) -> (r: Option<usize>)
        ensures
            match r {
                Some(i) => i < self.entries@.len() && self.entries@[i as int].0@ == key@
                    && self@.contains_key(key@) && self@[key@] == self.entries@[i as int].1@,
                None => !self@.contains_key(key@),
            },
    {
        proof {
            use_type_invariant(self);
        }
        let mut i: usize = 0;
        while i < self.entries.len()
            invariant
                i <= self.entries@.len(),
                entries_in_map(self.entries@, self.contents@),
                map_in_entries(self.entries@, self.contents@),
                forall|k: int| 0 <= k < i ==> self.entries@[k].0@ != key@,
            decreases self.entries@.len() - i,
        {
            if self.entries[i].0 == *key {
                assert(entries_in_map(self.entries@, self.contents@));
                assert(self.contents@.contains_key(self.entries@[i as int].0@));
                return Some(i);
            }
            i = i + 1;
        }
        proof {
            if self.contents@.contains_key(key@) {
                let j = choose|j: int| 0 <= j < self.entries@.len() && #[trigger] self.entries@[j].0@ == key@;
                assert(self.entries@[j].0@ != key@);
            }
        }
        None
    }

    /// Whether `key` has an entry.
    pub fn contains_key(&self, key: &String) -> (b: bool)
        ensures
            b == self@.contains_key(key@),
    {
        match self.find(key) {
            Some(_) => true,
            None => false,
        }
    }

    /// The value of `key`, if it has one.
    pub fn get(&self, key: &String) -> (r: Option<&V>)
        ensures
            match r {
                Some(v) => self@.contains_key(key@) && v@ == self@[key@],
                None => !self@.contains_key(key@),
            },
    {
        match self.find(key) {
            Some(i) => Some(&self.entries[i].1),
            None => None,
        }
    }

    /// Maps `key` to `value`, replacing what it was mapped to.
    pub fn insert(&mut self, key: String, value: V)
        ensures
            final(self)@ == old(self)@.insert(key@, value@),
    {
        proof {
            use_type_invariant(&*self);
        }
        let ghost k = key@;
        let ghost old_entries = self.entries@;
        let ghost old_map = self.contents@;
        let ghost new_map = old_map.insert(k, value@);
        let found = self.find(&key);
        let mut taken = FdTable::new();
        std::mem::swap(&mut taken, self);
        let FdTable { mut entries, contents: _ } = taken;
        assert(entries@ == old_entries);
        match found {
            Some(i) => {
                entries.set(i, (key, value));
                assert forall|a: int, b: int|
                    0 <= a < b < entries@.len() implies #[trigger] entries@[a].0@
                        != #[trigger] entries@[b].0@ by {
                    assert(old_entries[a].0@ != old_entries[b].0@);
                }
                assert forall|a: int| 0 <= a < entries@.len() implies #[trigger] new_map.contains_key(
                    entries@[a].0@,
                ) && new_map[entries@[a].0@] == entries@[a].1@ by {
                    if a != i {
                        assert(old_entries[a].0@ != old_entries[i as int].0@);
                        assert(old_map.contains_key(old_entries[a].0@));
                    }
                }
                assert forall|k2: Seq<char>| #[trigger] new_map.contains_key(k2) implies exists|j: int|
                    0 <= j < entries@.len() && #[trigger] entries@[j].0@ == k2 by {
                    if k2 == k {
                        assert(entries@[i as int].0@ == k2);
                    } else {
                        assert(old_map.contains_key(k2));
                        let j = choose|j: int| 0 <= j < old_entries.len() && #[trigger] old_entries[j].0@ == k2;
                        assert(entries@[j].0@ == k2);
                    }
                }
                *self = FdTable { entries, contents: Ghost(new_map) };
            },
            None => {
                entries.push((key, value));
                let ghost n = old_entries.len() as int;
                assert forall|a: int, b: int|
                    0 <= a < b < entries@.len() implies #[trigger] entries@[a].0@
                        != #[trigger] entries@[b].0@ by {
                    if b == n {
                        assert(old_map.contains_key(old_entries[a].0@));
                    } else {
                        assert(old_entries[a].0@ != old_entries[b].0@);
                    }
                }
                assert forall|a: int| 0 <= a < entries@.len() implies #[trigger] new_map.contains_key(
                    entries@[a].0@,
                ) && new_map[entries@[a].0@] == entries@[a].1@ by {
                    if a < n {
                        assert(old_map.contains_key(old_entries[a].0@));
                    }
                }
                assert forall|k2: Seq<char>| #[trigger] new_map.contains_key(k2) implies exists|j: int|
                    0 <= j < entries@.len() && #[trigger] entries@[j].0@ == k2 by {
                    if k2 == k {
                        assert(entries@[n].0@ == k2);
                    } else {
                        assert(old_map.contains_key(k2));
                        let j = choose|j: int| 0 <= j < old_entries.len() && #[trigger] old_entries[j].0@ == k2;
                        assert(entries@[j].0@ == k2);
                    }
                }
                *self = FdTable { entries, contents: Ghost(new_map) };
            },
        }
    }

    /// Removes the entry of `key` and gives back its value.
    pub fn remove(&mut self, key: &String) -> (r: Option<V>)
        ensures
            final(self)@ == old(self)@.remove(key@),
            match r {
                Some(v) => old(self)@.contains_key(key@) && v@ == old(self)@[key@],
                None => !old(self)@.contains_key(key@),
            },
    {
        proof {
            use_type_invariant(&*self);
        }
        let ghost old_entries = self.entries@;
        let ghost old_map = self.contents@;
        let ghost new_map = old_map.remove(key@);
        match self.find(key) {
            Some(i) => {
                let mut taken = FdTable::new();
                std::mem::swap(&mut taken, self);
                let FdTable { mut entries, contents: _ } = taken;
                assert(entries@ == old_entries);
                let (_, v) = entries.remove(i);
                assert(entries@ == old_entries.remove(i as int));
                assert forall|a: int, b: int|
                    0 <= a < b < entries@.len() implies #[trigger] entries@[a].0@
                        != #[trigger] entries@[b].0@ by {
                    let a2 = if a < i { a } else { a + 1 };
                    let b2 = if b < i { b } else { b + 1 };
                    assert(entries@[a] == old_entries[a2]);
                    assert(entries@[b] == old_entries[b2]);
                    assert(old_entries[a2].0@ != old_entries[b2].0@);
                }
                assert forall|a: int| 0 <= a < entries@.len() implies #[trigger] new_map.contains_key(
                    entries@[a].0@,
                ) && new_map[entries@[a].0@] == entries@[a].1@ by {
                    let a2 = if a < i { a } else { a + 1 };
                    assert(entries@[a] == old_entries[a2]);
                    assert(old_entries[a2].0@ != old_entries[i as int].0@);
                    assert(old_map.contains_key(old_entries[a2].0@));
                }
                assert forall|k2: Seq<char>| #[trigger] new_map.contains_key(k2) implies exists|j: int|
                    0 <= j < entries@.len() && #[trigger] entries@[j].0@ == k2 by {
                    assert(old_map.contains_key(k2));
                    let j = choose|j: int| 0 <= j < old_entries.len() && #[trigger] old_entries[j].0@ == k2;
                    assert(j != i);
                    if j < i {
                        assert(entries@[j].0@ == k2);
                    } else {
                        assert(entries@[j - 1].0@ == k2);
                    }
                }
                *self = FdTable { entries, contents: Ghost(new_map) };
                Some(v)
            },
            None => {
                assert(old_map.remove(key@) =~= old_map);
                None
            },
        }
    }
}

} // verus!
