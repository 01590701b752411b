//! A map keyed by strings, kept as a list of entries in insertion order in
//! which no key occurs twice.

use vstd::prelude::*;

verus! {

/// A string-keyed map. Its view is a `Map` from the keys' characters to the
/// values; `key_seq` gives the keys in the order they were first inserted.
pub struct StrMap<V> {
    entries: Vec<(String, V)>,
}

/// `i` indexes an entry of `entries` whose key is `k`.
pub open spec fn holds_key_at<V>(entries: Seq<(String, V)>, k: Seq<char>, i: int) -> bool {
    0 <= i < entries.len() && entries[i].0@ == k
}

impl<V> StrMap<V> {
    #[verifier::type_invariant]
    closed spec fn keys_unique(self) -> bool {
        forall|i: int, j: int|
            0 <= i < self.entries.len() && 0 <= j < self.entries.len() && i != j
                ==> (#[trigger] self.entries@[i]).0@ != (#[trigger] self.entries@[j]).0@
    }

    /// The keys, in insertion order.
    pub closed spec fn key_seq(&self) -> Seq<Seq<char>> {
        self.entries@.map_values(|e: (String, V)| e.0@)
    }

    pub closed spec fn as_map(&self) -> Map<Seq<char>, V> {
        Map::new(
            |k: Seq<char>| exists|i: int| holds_key_at(self.entries@, k, i),
            |k: Seq<char>| self.entries@[choose|i: int| holds_key_at(self.entries@, k, i)].1,
        )
    }

    proof fn lemma_key_seq(&self)
        requires
            self.keys_unique(),
        ensures
            self.key_seq().no_duplicates(),
            forall|k: Seq<char>| self@.contains_key(k) <==> self.key_seq().contains(k),
            self.key_seq().len() == self@.dom().len(),
    {
        let ks = self.key_seq();
        assert forall|k: Seq<char>| self@.contains_key(k) <==> ks.contains(k) by {
            if self@.contains_key(k) {
                let i = choose|i: int| holds_key_at(self.entries@, k, i);
                assert(ks[i] == k);
            }
            if ks.contains(k) {
                let i = choose|i: int| 0 <= i < ks.len() && ks[i] == k;
                assert(holds_key_at(self.entries@, k, i));
            }
        }
        assert(ks.no_duplicates()) by {
            assert forall|i: int, j: int| 0 <= i < ks.len() && 0 <= j < ks.len() && i != j
                implies ks[i] != ks[j] by {
                assert(self.entries@[i].0@ != self.entries@[j].0@);
            }
        }
        ks.unique_seq_to_set();
        assert(ks.to_set() =~= self@.dom());
    }

    /// An empty map.
    pub fn new() -> (m: Self)
        ensures
            m@ == Map::<Seq<char>, V>::empty(),
            m.key_seq() == Seq::<Seq<char>>::empty(),
    {
        let m = StrMap { entries: Vec::new() };
        assert(m@ =~= Map::<Seq<char>, V>::empty());
        assert(m.key_seq() =~= Seq::<Seq<char>>::empty());
        m
    }

    /// The index of the entry holding `key`, if any.
    fn find(&self, key: &String) -> (r: Option<usize>)
        ensures
            match r {
                Some(i) => holds_key_at(self.entries@, key@, i as int),
                None => forall|i: int| !holds_key_at(self.entries@, key@, i),
            },
    {
        let mut i: usize = 0;
        while i < self.entries.len()
            invariant
                i <= self.entries.len(),
                forall|j: int| 0 <= j < i ==> !holds_key_at(self.entries@, key@, j),
            decreases self.entries.len() - i,
        {
            if self.entries[i].0 == *key {
                return Some(i);
            }
            i = i + 1;
        }
        None
    }

    proof fn lemma_at_index(&self, k: Seq<char>, i: int)
        requires
            self.keys_unique(),
            holds_key_at(self.entries@, k, i),
        ensures
            self@.contains_key(k),
            self@[k] == self.entries@[i].1,
    {
        assert(self@.contains_key(k));
        let j = choose|j: int| holds_key_at(self.entries@, k, j);
        assert(self.entries@[i].0@ == self.entries@[j].0@);
    }

    /// Whether `key` is in the map.
    pub fn contains_key(&self, key: &String) -> (b: bool)
        ensures
            b == self@.contains_key(key@),
    {
        proof { use_type_invariant(self); }
        match self.find(key) {
            Some(i) => {
                proof { self.lemma_at_index(key@, i as int); }
                true
            },
            None => false,
        }
    }

    /// The value stored under `key`.
    pub fn get(&self, key: &String) -> (r: Option<&V>)
        ensures
            match r {
                Some(v) => self@.contains_key(key@) && *v == self@[key@],
                None => !self@.contains_key(key@),
            },
    {
        proof { use_type_invariant(self); }
        match self.find(key) {
            Some(i) => {
                proof { self.lemma_at_index(key@, i as int); }
                Some(&self.entries[i].1)
            },
            None => None,
        }
    }

    /// Stores `value` under `key`, returning the value it replaces. A new key
    /// goes after all others in `key_seq`; a present key keeps its place.
    pub fn insert(&mut self, key: String, value: V) -> (r: Option<V>)
        ensures
            final(self)@ == old(self)@.insert(key@, value),
            match r {
                Some(v) => old(self)@.contains_key(key@) && v == old(self)@[key@],
                None => !old(self)@.contains_key(key@),
            },
            old(self)@.contains_key(key@) ==> final(self).key_seq() == old(self).key_seq(),
            !old(self)@.contains_key(key@) ==> final(self).key_seq() == old(self).key_seq().push(key@),
    {
        proof { use_type_invariant(&*self); }
        let ghost old_entries = self.entries@;
        match self.find(&key) {
            Some(i) => {
                proof { self.lemma_at_index(key@, i as int); }
                let ghost k = key@;
                let ghost gk = key;
                let entry = (key, value);
                let mut entries: Vec<(String, V)> = Vec::new();
                std::mem::swap(&mut entries, &mut self.entries);
                let old_entry = entries.remove(i);
                entries.insert(i, entry);
                assert(entries@ =~= old_entries.update(i as int, (gk, value)));
                assert forall|a: int, b: int|
                    0 <= a < entries.len() && 0 <= b < entries.len() && a != b
                        implies (#[trigger] entries@[a]).0@ != (#[trigger] entries@[b]).0@ by {
                    assert(old_entries[a].0@ != old_entries[b].0@);
                }
                self.entries = entries;
                proof { use_type_invariant(&*self); }
                assert(self.key_seq() =~= old(self).key_seq());
                assert(self@ =~= old(self)@.insert(k, value)) by {
                    assert forall|kk: Seq<char>| #[trigger] self@.contains_key(kk)
                        implies old(self)@.insert(k, value).contains_key(kk)
                            && self@[kk] == old(self)@.insert(k, value)[kk] by {
                        let j = choose|j: int| holds_key_at(self.entries@, kk, j);
                        self.lemma_at_index(kk, j);
                        if j != i {
                            assert(holds_key_at(old_entries, kk, j));
                            old(self).lemma_at_index(kk, j);
                        }
                    }
                    assert forall|kk: Seq<char>| old(self)@.insert(k, value).contains_key(kk)
                        implies #[trigger] self@.contains_key(kk) by {
                        if kk != k {
                            let j = choose|j: int| holds_key_at(old_entries, kk, j);
                            assert(holds_key_at(self.entries@, kk, j));
                        } else {
                            assert(holds_key_at(self.entries@, kk, i as int));
                        }
                    }
                }
                Some(old_entry.1)
            },
            None => {
                let ghost k = key@;
                let mut entries: Vec<(String, V)> = Vec::new();
                std::mem::swap(&mut entries, &mut self.entries);
                entries.push((key, value));
                assert forall|a: int, b: int|
                    0 <= a < entries.len() && 0 <= b < entries.len() && a != b
                        implies (#[trigger] entries@[a]).0@ != (#[trigger] entries@[b]).0@ by {
                    if a < old_entries.len() && b < old_entries.len() {
                        assert(old_entries[a].0@ != old_entries[b].0@);
                    } else if a < old_entries.len() {
                        assert(!holds_key_at(old_entries, k, a));
                    } else {
                        assert(!holds_key_at(old_entries, k, b));
                    }
                }
                self.entries = entries;
                proof { use_type_invariant(&*self); }
                let ghost n = old_entries.len() as int;
                assert(self.key_seq() =~= old(self).key_seq().push(k));
                assert(self@ =~= old(self)@.insert(k, value)) by {
                    assert(holds_key_at(self.entries@, k, n));
                    self.lemma_at_index(k, n);
                    assert forall|kk: Seq<char>| #[trigger] self@.contains_key(kk) && kk != k
                        implies old(self)@.contains_key(kk) && self@[kk] == old(self)@[kk] by {
                        let j = choose|j: int| holds_key_at(self.entries@, kk, j);
                        assert(j != n);
                        assert(holds_key_at(old_entries, kk, j));
                        self.lemma_at_index(kk, j);
                        old(self).lemma_at_index(kk, j);
                    }
                    assert forall|kk: Seq<char>| #[trigger] old(self)@.contains_key(kk)
                        implies self@.contains_key(kk) by {
                        let j = choose|j: int| holds_key_at(old_entries, kk, j);
                        assert(holds_key_at(self.entries@, kk, j));
                    }
                }
                None
            },
        }
    }

    /// Removes `key`, returning the value it held; the other keys keep
    /// their order.
    pub fn remove(&mut self, key: &String) -> (r: Option<V>)
        ensures
            final(self)@ == old(self)@.remove(key@),
            !old(self)@.contains_key(key@) ==> final(self).key_seq() == old(self).key_seq(),
            old(self)@.contains_key(key@) ==> exists|i: int|
                0 <= i < old(self).key_seq().len() && old(self).key_seq()[i] == key@
                    && final(self).key_seq() == old(self).key_seq().remove(i),
            match r {
                Some(v) => old(self)@.contains_key(key@) && v == old(self)@[key@],
                None => !old(self)@.contains_key(key@),
            },
    {
        proof { use_type_invariant(&*self); }
        let ghost old_entries = self.entries@;
        let ghost k = key@;
        match self.find(key) {
            Some(i) => {
                proof { self.lemma_at_index(k, i as int); }
                let mut entries: Vec<(String, V)> = Vec::new();
                std::mem::swap(&mut entries, &mut self.entries);
                let old_entry = entries.remove(i);
                assert(entries@ =~= old_entries.remove(i as int));
                assert forall|a: int, b: int|
                    0 <= a < entries.len() && 0 <= b < entries.len() && a != b
                        implies (#[trigger] entries@[a]).0@ != (#[trigger] entries@[b]).0@ by {
                    let oa = if a < i { a } else { a + 1 };
                    let ob = if b < i { b } else { b + 1 };
                    assert(old_entries[oa].0@ != old_entries[ob].0@);
                }
                self.entries = entries;
                proof { use_type_invariant(&*self); }
                assert(self@ =~= old(self)@.remove(k)) by {
                    assert forall|kk: Seq<char>| #[trigger] self@.contains_key(kk)
                        implies old(self)@.remove(k).contains_key(kk)
                            && self@[kk] == old(self)@.remove(k)[kk] by {
                        let j = choose|j: int| holds_key_at(self.entries@, kk, j);
                        self.lemma_at_index(kk, j);
                        let oj = if j < i { j } else { j + 1 };
                        assert(holds_key_at(old_entries, kk, oj));
                        old(self).lemma_at_index(kk, oj);
                        assert(old_entries[oj].0@ != old_entries[i as int].0@);
                    }
                    assert forall|kk: Seq<char>| old(self)@.remove(k).contains_key(kk)
                        implies #[trigger] self@.contains_key(kk) by {
                        let j = choose|j: int| holds_key_at(old_entries, kk, j);
                        assert(j != i);
                        let nj = if j < i { j } else { j - 1 };
                        assert(holds_key_at(self.entries@, kk, nj));
                    }
                }
                assert(self.key_seq() =~= old(self).key_seq().remove(i as int));
                assert(old(self).key_seq()[i as int] == k);
                Some(old_entry.1)
            },
            None => {
                assert(old(self)@.remove(k) =~= old(self)@);
                None
            },
        }
    }

    /// The keys in insertion order; each key of the map occurs exactly once.
    pub fn keys(&self) -> (r: Vec<String>)
        ensures
            r@.map_values(|s: String| s@) == self.key_seq(),
            self.key_seq().no_duplicates(),
            forall|k: Seq<char>| self@.contains_key(k) <==> self.key_seq().contains(k),
            r.len() == self@.dom().len(),
    {
        proof {
            use_type_invariant(self);
            self.lemma_key_seq();
        }
        let mut r: Vec<String> = Vec::new();
        let mut i: usize = 0;
        while i < self.entries.len()
            invariant
                i <= self.entries.len(),
                r@.map_values(|s: String| s@) == self.key_seq().take(i as int),
            decreases self.entries.len() - i,
        {
            let ghost prev = r@;
            let key = self.entries[i].0.clone();
            r.push(key);
            assert(r@ == prev.push(key));
            assert(key@ == self.key_seq()[i as int]);
            assert(r@.map_values(|s: String| s@) =~= prev.map_values(|s: String| s@).push(key@));
            i = i + 1;
            assert(r@.map_values(|s: String| s@) =~= self.key_seq().take(i as int));
        }
        assert(self.key_seq().take(i as int) =~= self.key_seq());
        r
    }

    /// The number of keys.
    pub fn len(&self) -> (n: usize)
        ensures
            n == self@.dom().len(),
    {
        proof {
            use_type_invariant(self);
            self.lemma_key_seq();
        }
        self.entries.len()
    }
}

impl<V> View for StrMap<V> {
    type V = Map<Seq<char>, V>;

    closed spec fn view(&self) -> Map<Seq<char>, V> {
        self.as_map()
    }
}

} // verus!
