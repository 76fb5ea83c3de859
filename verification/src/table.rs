//! A finite map kept as a list of distinct keys with their values; the
//! in-memory form of a contract's storage mappings.
use vstd::prelude::*;

verus! {

/// Keys that can be compared for equality at run time.
pub trait TableKey: Copy {
    /// Whether the two keys are the same key.
    fn same_key(&self, other: &Self) -> (r: bool)
        ensures
            r == (*self == *other),
    ;
}

impl TableKey for i16 {
    fn same_key(&self, other: &Self) -> (r: bool) {
        *self == *other
    }
}

impl TableKey for i128 {
    fn same_key(&self, other: &Self) -> (r: bool) {
        *self == *other
    }
}

impl TableKey for u128 {
    fn same_key(&self, other: &Self) -> (r: bool) {
        *self == *other
    }
}

/// A finite map from keys to values; its view is the `Map` it holds.
#[verifier::reject_recursive_types(K)]
pub struct Table<K, V> {
    entries: Vec<(K, V)>,
    contents: Ghost<Map<K, V>>,
}

impl<K, V> View for Table<K, V> {
    type V = Map<K, V>;

    closed spec fn view(&self) -> Map<K, V> {
        self.contents@
    }
}

/// The entry list holds exactly the pairs of `contents`, each key once.
spec fn entries_match<K, V>(entries: Seq<(K, V)>, contents: Map<K, V>) -> bool {
    &&& forall|i: int|
        0 <= i < entries.len() ==> #[trigger] contents.contains_key(entries[i].0)
            && contents[entries[i].0] == entries[i].1
    &&& forall|k: K|
        #[trigger] contents.contains_key(k) ==> exists|i: int|
            0 <= i < entries.len() && entries[i].0 == k
    &&& forall|i: int, j: int| 0 <= i < j < entries.len() ==> entries[i].0 != entries[j].0
}

impl<K, V> Table<K, V> {
    #[verifier::type_invariant]
    spec fn well_formed(self) -> bool {
        entries_match(self.entries@, self.contents@)
    }
}

impl<K: TableKey, V: Copy> Table<K, V> {
    /// The empty map.
    pub fn new() -> (r: Self)
        ensures
            r@ == Map::<K, V>::empty(),
    {
        Table { entries: Vec::new(), contents: Ghost(Map::empty()) }
    }

    /// Position of `k` in the entry list, if present.
    fn find(&self, k: K) -> (r: Option<usize>)
        ensures
            match r {
                Some(i) => i < self.entries@.len() && self.entries@[i as int].0 == k,
                None => !self@.contains_key(k),
            },
    {
        proof {
            use_type_invariant(self);
        }
        let mut i: usize = 0;
        while i < self.entries.len()
            invariant
                i <= self.entries@.len(),
                forall|j: int| 0 <= j < i ==> self.entries@[j].0 != k,
            decreases self.entries@.len() - i,
        {
            if self.entries[i].0.same_key(&k) {
                return Some(i);
            }
            i = i + 1;
        }
        proof {
            if self@.contains_key(k) {
                let j = choose|j: int| 0 <= j < self.entries@.len() && self.entries@[j].0 == k;
                assert(self.entries@[j].0 == k);
            }
        }
        None
    }

    /// The value stored under `k`, if any.
    pub fn get(&self, k: K) -> (r: Option<V>)
        ensures
            match r {
                Some(v) => self@.contains_key(k) && self@[k] == v,
                None => !self@.contains_key(k),
            },
    {
        proof {
            use_type_invariant(self);
        }
        match self.find(k) {
            Some(i) => {
                assert(self.contents@.contains_key(self.entries@[i as int].0));
                Some(self.entries[i].1)
            },
            None => None,
        }
    }

    /// Stores `v` under `k`, replacing any earlier value.
    pub fn insert(&mut self, k: K, v: V)
        ensures
            final(self)@ == old(self)@.insert(k, v),
    {
        proof {
            use_type_invariant(&*self);
        }
        let found = self.find(k);
        let mut taken = Table::new();
        std::mem::swap(self, &mut taken);
        proof {
            use_type_invariant(&taken);
        }
        let Table { entries: mut entries, contents: Ghost(contents) } = taken;
        let ghost old_entries = entries@;
        match found {
            Some(i) => {
                assert(old_entries[i as int].0 == k);
                entries.set(i, (k, v));
                assert forall|j: int| 0 <= j < entries@.len() implies entries@[j].0
                    == old_entries[j].0 by {}
                assert forall|j: int| 0 <= j < entries@.len() implies #[trigger] contents.insert(
                    k,
                    v,
                ).contains_key(entries@[j].0) && contents.insert(k, v)[entries@[j].0]
                    == entries@[j].1 by {
                    if j != i as int {
                        assert(old_entries[j].0 != old_entries[i as int].0);
                        assert(contents.contains_key(old_entries[j].0));
                        assert(contents[old_entries[j].0] == old_entries[j].1);
                    }
                }
                assert forall|key: K| #[trigger] contents.insert(k, v).contains_key(key) implies exists|
                    j: int,
                | 0 <= j < entries@.len() && entries@[j].0 == key by {
                    if key != k {
                        let j = choose|j: int| 0 <= j < old_entries.len() && old_entries[j].0 == key;
                        assert(entries@[j].0 == key);
                    } else {
                        assert(entries@[i as int].0 == key);
                    }
                }
            },
            None => {
                assert(!contents.contains_key(k));
                entries.push((k, v));
                assert forall|j: int| 0 <= j < entries@.len() implies #[trigger] contents.insert(
                    k,
                    v,
                ).contains_key(entries@[j].0) && contents.insert(k, v)[entries@[j].0]
                    == entries@[j].1 by {
                    if j < old_entries.len() {
                        assert(contents.contains_key(old_entries[j].0));
                    }
                }
                assert forall|a: int, b: int| 0 <= a < b < entries@.len() implies entries@[a].0
                    != entries@[b].0 by {
                    if b == old_entries.len() {
                        assert(contents.contains_key(old_entries[a].0));
                    }
                }
                assert forall|key: K| #[trigger] contents.insert(k, v).contains_key(key) implies exists|
                    j: int,
                | 0 <= j < entries@.len() && entries@[j].0 == key by {
                    if key != k {
                        let j = choose|j: int| 0 <= j < old_entries.len() && old_entries[j].0 == key;
                        assert(entries@[j].0 == key);
                    } else {
                        assert(entries@[old_entries.len() as int].0 == key);
                    }
                }
            },
        }
        let ghost m = contents.insert(k, v);
        assert(entries_match(entries@, m));
        *self = Table { entries, contents: Ghost(m) };
    }
}

} // verus!
