//! A small keyed store: the persistent records of the contract, one table per
//! kind of record, each read as a finite map from keys to values.

use vstd::prelude::*;

use crate::ledger::copy_list;

verus! {

/// Keys of a [`Table`]: plain values compared field by field.
pub trait TableKey: Sized {
    fn same_key(&self, other: &Self) -> (r: bool)
        ensures
            r == (*self == *other),
    ;
}

impl TableKey for u64 {
    fn same_key(&self, other: &Self) -> (r: bool) {
        *self == *other
    }
}

/// A finite map from keys to values, kept as a list of distinct keys.
pub struct Table<K, V> {
    entries: Vec<(K, V)>,
}

impl<K, V> Table<K, V> {
    /// Position `i` holds the key `k`.
    pub closed spec fn holds_at(&self, k: K, i: int) -> bool {
        0 <= i < self.entries@.len() && self.entries@[i].0 == k
    }

    pub closed spec fn has_key(&self, k: K) -> bool {
        exists|i: int| self.holds_at(k, i)
    }

    pub closed spec fn value_of(&self, k: K) -> V {
        self.entries@[choose|i: int| self.holds_at(k, i)].1
    }

    /// No key occurs twice.
    pub closed spec fn wf(&self) -> bool {
        forall|i: int, j: int|
            0 <= i < j < self.entries@.len() ==> self.entries@[i].0 != self.entries@[j].0
    }
}

impl<K, V> View for Table<K, V> {
    type V = Map<K, V>;

    closed spec fn view(&self) -> Map<K, V> {
        Map::new(|k: K| self.has_key(k), |k: K| self.value_of(k))
    }
}

impl<K: TableKey, V> Table<K, V> {
    proof fn lemma_at(&self, k: K, i: int)
        requires
            self.wf(),
            self.holds_at(k, i),
        ensures
            self@.contains_key(k),
            self@[k] == self.entries@[i].1,
    {
        let j = choose|j: int| self.holds_at(k, j);
        assert(self.holds_at(k, j));
        if i < j {
            assert(self.entries@[i].0 != self.entries@[j].0);
        } else if j < i {
            assert(self.entries@[j].0 != self.entries@[i].0);
        }
    }

    /// The empty table.
    pub fn new() -> (t: Self)
        ensures
            t.wf(),
            t@ == Map::<K, V>::empty(),
    {
        let t = Table { entries: Vec::new() };
        assert(t@ =~= Map::<K, V>::empty());
        t
    }

    /// Where `k` stands in the list, if it stands there.
    fn find(&self, k: &K) -> (r: Option<usize>)
        requires
            self.wf(),
        ensures
            r matches Some(i) ==> self.holds_at(*k, i as int),
            r is None ==> !self@.contains_key(*k),
    {
        let mut i: usize = 0;
        while i < self.entries.len()
            invariant
                i <= self.entries@.len(),
                forall|j: int| 0 <= j < i ==> self.entries@[j].0 != *k,
            decreases self.entries@.len() - i,
        {
            if self.entries[i].0.same_key(k) {
                return Some(i);
            }
            i = i + 1;
        }
        assert(!self.has_key(*k));
        None
    }

    /// Whether `k` has a value.
    pub fn contains(&self, k: &K) -> (r: bool)
        requires
            self.wf(),
        ensures
            r == self@.contains_key(*k),
    {
        match self.find(k) {
            Some(i) => {
                proof {
                    self.lemma_at(*k, i as int);
                }
                true
            },
            None => false,
        }
    }

    /// The value under `k`, if any.
    pub fn get(&self, k: &K) -> (r: Option<&V>)
        requires
            self.wf(),
        ensures
            r matches Some(v) ==> self@.contains_key(*k) && *v == self@[*k],
            r is None ==> !self@.contains_key(*k),
    {
        match self.find(k) {
            Some(i) => {
                proof {
                    self.lemma_at(*k, i as int);
                }
                Some(&self.entries[i].1)
            },
            None => None,
        }
    }

    /// Puts `v` under `k`, replacing what was there.
    pub fn insert(&mut self, k: K, v: V)
        requires
            old(self).wf(),
        ensures
            final(self).wf(),
            final(self)@ == old(self)@.insert(k, v),
    {
        let ghost before = self@;
        match self.find(&k) {
            Some(i) => {
                self.entries.set(i, (k, v));
                proof {
                    assert forall|a: int, b: int|
                        0 <= a < b < self.entries@.len() implies self.entries@[a].0
                        != self.entries@[b].0 by {
                        assert(old(self).entries@[a].0 != old(self).entries@[b].0);
                    }
                    assert forall|key: K| #[trigger]
                        self@.contains_key(key) == before.insert(k, v).contains_key(key) by {
                        if key != k && before.contains_key(key) {
                            let j = choose|j: int| old(self).holds_at(key, j);
                            assert(self.holds_at(key, j));
                        }
                        if key != k && self@.contains_key(key) {
                            let j = choose|j: int| self.holds_at(key, j);
                            assert(j != i);
                            assert(old(self).holds_at(key, j));
                        }
                        if key == k {
                            assert(self.holds_at(k, i as int));
                        }
                    }
                    assert forall|key: K| #[trigger]
                        self@.contains_key(key) implies self@[key] == before.insert(k, v)[key] by {
                        let j = choose|j: int| self.holds_at(key, j);
                        self.lemma_at(key, j);
                        if key != k {
                            assert(old(self).holds_at(key, j));
                            old(self).lemma_at(key, j);
                        } else {
                            self.lemma_at(k, i as int);
                        }
                    }
                    assert(self@ =~= before.insert(k, v));
                }
            },
            None => {
                self.entries.push((k, v));
                proof {
                    let n = old(self).entries@.len() as int;
                    assert(self.holds_at(k, n));
                    assert forall|a: int, b: int|
                        0 <= a < b < self.entries@.len() implies self.entries@[a].0
                        != self.entries@[b].0 by {
                        if b == n {
                            if self.entries@[a].0 == k {
                                assert(old(self).holds_at(k, a));
                            }
                        } else {
                            assert(old(self).entries@[a].0 != old(self).entries@[b].0);
                        }
                    }
                    assert forall|key: K| #[trigger]
                        self@.contains_key(key) == before.insert(k, v).contains_key(key) by {
                        if key != k && before.contains_key(key) {
                            let j = choose|j: int| old(self).holds_at(key, j);
                            assert(self.holds_at(key, j));
                        }
                        if key != k && self@.contains_key(key) {
                            let j = choose|j: int| self.holds_at(key, j);
                            assert(old(self).holds_at(key, j));
                        }
                    }
                    assert forall|key: K| #[trigger]
                        self@.contains_key(key) implies self@[key] == before.insert(k, v)[key] by {
                        let j = choose|j: int| self.holds_at(key, j);
                        self.lemma_at(key, j);
                        if key != k {
                            assert(old(self).holds_at(key, j));
                            old(self).lemma_at(key, j);
                        } else {
                            self.lemma_at(k, n);
                        }
                    }
                    assert(self@ =~= before.insert(k, v));
                }
            },
        }
    }

    /// Takes the value under `k` out of the table.
    pub fn remove(&mut self, k: &K) -> (r: Option<V>)
        requires
            old(self).wf(),
        ensures
            final(self).wf(),
            final(self)@ == old(self)@.remove(*k),
            r matches Some(v) ==> old(self)@.contains_key(*k) && v == old(self)@[*k],
            r is None ==> !old(self)@.contains_key(*k),
    {
        let ghost before = self@;
        match self.find(k) {
            Some(i) => {
                proof {
                    old(self).lemma_at(*k, i as int);
                }
                let (_, v) = self.entries.remove(i);
                proof {
                    let s0 = old(self).entries@;
                    assert forall|a: int, b: int|
                        0 <= a < b < self.entries@.len() implies self.entries@[a].0
                        != self.entries@[b].0 by {
                        let a0 = if a < i { a } else { a + 1 };
                        let b0 = if b < i { b } else { b + 1 };
                        assert(self.entries@[a] == s0[a0]);
                        assert(self.entries@[b] == s0[b0]);
                    }
                    assert forall|key: K| #[trigger]
                        self@.contains_key(key) == before.remove(*k).contains_key(key) by {
                        if key != *k && before.contains_key(key) {
                            let j = choose|j: int| old(self).holds_at(key, j);
                            let j1 = if j < i { j } else { j - 1 };
                            assert(j != i);
                            assert(self.holds_at(key, j1));
                        }
                        if self@.contains_key(key) {
                            let j = choose|j: int| self.holds_at(key, j);
                            let j0 = if j < i { j } else { j + 1 };
                            assert(old(self).holds_at(key, j0));
                            if key == *k {
                                assert(s0[j0].0 == s0[i as int].0);
                                assert(j0 != i);
                            }
                        }
                    }
                    assert forall|key: K| #[trigger]
                        self@.contains_key(key) implies self@[key] == before.remove(*k)[key] by {
                        let j = choose|j: int| self.holds_at(key, j);
                        self.lemma_at(key, j);
                        let j0 = if j < i { j } else { j + 1 };
                        assert(old(self).holds_at(key, j0));
                        old(self).lemma_at(key, j0);
                    }
                    assert(self@ =~= before.remove(*k));
                }
                Some(v)
            },
            None => {
                assert(self@ =~= before.remove(*k));
                None
            },
        }
    }

    /// The number of keys with a value.
    pub fn len(&self) -> (n: usize)
        requires
            self.wf(),
        ensures
            n == self@.dom().len(),
    {
        proof {
            self.lemma_len();
        }
        self.entries.len()
    }

    proof fn lemma_len(&self)
        requires
            self.wf(),
        ensures
            self@.dom().len() == self.entries@.len(),
            self@.dom().finite(),
        decreases self.entries@.len(),
    {
        let keys = self.entries@.map_values(|e: (K, V)| e.0);
        assert(keys.no_duplicates()) by {
            assert forall|a: int, b: int|
                0 <= a < keys.len() && 0 <= b < keys.len() && a != b implies keys[a]
                != keys[b] by {
                if a < b {
                    assert(self.entries@[a].0 != self.entries@[b].0);
                } else {
                    assert(self.entries@[b].0 != self.entries@[a].0);
                }
            }
        }
        assert(self@.dom() =~= keys.to_set()) by {
            assert forall|key: K| self@.dom().contains(key) <==> keys.to_set().contains(key) by {
                if self@.dom().contains(key) {
                    let j = choose|j: int| self.holds_at(key, j);
                    assert(keys[j] == key);
                }
                if keys.to_set().contains(key) {
                    let j = choose|j: int| 0 <= j < keys.len() && keys[j] == key;
                    assert(self.holds_at(key, j));
                }
            }
        }
        keys.unique_seq_to_set();
    }
}

/// The list stored under `k` in `m`, or the empty list.
pub open spec fn list_at<K, T>(m: Map<K, Vec<T>>, k: K) -> Seq<T> {
    if m.contains_key(k) {
        m[k]@
    } else {
        Seq::empty()
    }
}

impl<K: TableKey, T> Table<K, Vec<T>> {
    /// Appends `x` to the list under `k`, starting a list where there is none.
    pub fn push_onto(&mut self, k: K, x: T)
        requires
            old(self).wf(),
        ensures
            final(self).wf(),
            list_at(final(self)@, k) == list_at(old(self)@, k).push(x),
            forall|j: K| j != k ==> #[trigger] list_at(final(self)@, j) == list_at(old(self)@, j),
    {
        let mut v = match self.remove(&k) {
            Some(v) => v,
            None => Vec::new(),
        };
        v.push(x);
        self.insert(k, v);
        proof {
            assert forall|j: K| j != k implies #[trigger] list_at(self@, j) == list_at(old(self)@, j) by {
                assert(self@.contains_key(j) == old(self)@.contains_key(j));
            }
        }
    }

    /// Puts `v` in place of the list under `k`.
    pub fn replace_list(&mut self, k: K, v: Vec<T>)
        requires
            old(self).wf(),
        ensures
            final(self).wf(),
            list_at(final(self)@, k) == v@,
            forall|j: K| j != k ==> #[trigger] list_at(final(self)@, j) == list_at(old(self)@, j),
    {
        self.insert(k, v);
        proof {
            assert forall|j: K| j != k implies #[trigger] list_at(self@, j) == list_at(old(self)@, j) by {
                assert(self@.contains_key(j) == old(self)@.contains_key(j));
            }
        }
    }
}

impl<K: TableKey, T: Copy> Table<K, Vec<T>> {
    /// A copy of the list under `k`, or an empty list.
    pub fn list_copy(&self, k: &K) -> (r: Vec<T>)
        requires
            self.wf(),
        ensures
            r@ == list_at(self@, *k),
    {
        match self.get(k) {
            Some(v) => copy_list(v),
            None => Vec::new(),
        }
    }
}

} // verus!
