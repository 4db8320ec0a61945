//! A map from strings to strings kept as a list of entries with distinct keys.
use vstd::prelude::*;

verus! {

/// Whether the keys of the entries are pairwise distinct.
pub open spec fn keys_distinct(s: Seq<(String, String)>) -> bool {
    forall|i: int, j: int| 0 <= i < s.len() && 0 <= j < s.len() && i != j ==> s[i].0@ != s[j].0@
}

/// The map the entries describe.
pub open spec fn entries_map(s: Seq<(String, String)>) -> Map<Seq<char>, Seq<char>> {
    Map::new(
        |k: Seq<char>| exists|i: int| 0 <= i < s.len() && s[i].0@ == k,
        |k: Seq<char>| s[choose|i: int| 0 <= i < s.len() && s[i].0@ == k].1@,
    )
}

/// With distinct keys, the entry at `i` gives the value of its key.
pub proof fn lemma_entry_value(s: Seq<(String, String)>, i: int)
    requires
        keys_distinct(s),
        0 <= i < s.len(),
    ensures
        entries_map(s).dom().contains(s[i].0@),
        entries_map(s)[s[i].0@] == s[i].1@,
{
    let k = s[i].0@;
    assert(exists|j: int| 0 <= j < s.len() && s[j].0@ == k);
    let j = choose|j: int| 0 <= j < s.len() && s[j].0@ == k;
    assert(j == i);
}

/// A map from strings to strings (kept as entries with distinct keys)
#[derive(Debug)]
pub struct StringMap {
    entries: Vec<(String, String)>,
}

impl View for StringMap {
    type V = Map<Seq<char>, Seq<char>>;

    closed spec fn view(&self) -> Map<Seq<char>, Seq<char>> {
        entries_map(self.entries@)
    }
}

impl StringMap {
    /// Keys are distinct.
    #[verifier::type_invariant]
    spec fn inv(self) -> bool {
        keys_distinct(self.entries@)
    }

    /// The entries in insertion order.
    pub closed spec fn spec_entries(self) -> Seq<(String, String)> {
        self.entries@
    }

    /// An empty map
    pub fn new() -> (r: Self)
        ensures
            r@ == Map::<Seq<char>, Seq<char>>::empty(),
    {
        let r = StringMap { entries: Vec::new() };
        assert(r@ =~= Map::<Seq<char>, Seq<char>>::empty());
        r
    }

    /// Number of keys
    pub fn len(&self) -> (r: usize)
        ensures
            r == self@.dom().len(),
    {
        proof {
            use_type_invariant(self);
            self.lemma_len();
        }
        self.entries.len()
    }

    proof fn lemma_len(self)
        requires
            keys_distinct(self.entries@),
        ensures
            self@.dom().finite(),
            self@.dom().len() == self.entries@.len(),
        decreases self.entries@.len(),
    {
        let s = self.entries@;
        let keys = s.map_values(|e: (String, String)| e.0@);
        assert(keys.no_duplicates()) by {
            assert forall|i: int, j: int| 0 <= i < keys.len() && 0 <= j < keys.len() && i != j
                implies keys[i] != keys[j] by {}
        }
        keys.unique_seq_to_set();
        assert(self@.dom() =~= keys.to_set()) by {
            assert forall|k: Seq<char>| self@.dom().contains(k) <==> keys.to_set().contains(k) by {
                if self@.dom().contains(k) {
                    let i = choose|i: int| 0 <= i < s.len() && s[i].0@ == k;
                    assert(keys[i] == k);
                }
                if keys.to_set().contains(k) {
                    let i = choose|i: int| 0 <= i < keys.len() && keys[i] == k;
                    assert(s[i].0@ == k);
                }
            }
        }
    }

    /// Index of the entry with key `key`, if any
    fn find(&self, key: &String) -> (r: Option<usize>)
        ensures
            r matches Some(i) ==> i < self.entries@.len() && self.entries@[i as int].0@ == key@,
            r is None ==> forall|i: int| 0 <= i < self.entries@.len() ==> self.entries@[i].0@ != key@,
    {
        let mut i: usize = 0;
        while i < self.entries.len()
            invariant
                i <= self.entries@.len(),
                forall|j: int| 0 <= j < i ==> self.entries@[j].0@ != key@,
            decreases self.entries@.len() - i,
        {
            if self.entries[i].0.eq(key) {
                return Some(i);
            }
            i = i + 1;
        }
        None
    }

    /// The value of `key`, if present
    pub fn get(&self, key: &String) -> (r: Option<&String>)
        ensures
            r is Some <==> self@.dom().contains(key@),
            r matches Some(v) ==> v@ == self@[key@],
    {
        proof { use_type_invariant(self); }
        match self.find(key) {
            Some(i) => {
                proof { lemma_entry_value(self.entries@, i as int); }
                Some(&self.entries[i].1)
            },
            None => None,
        }
    }

    /// Whether `key` is present
    pub fn contains_key(&self, key: &String) -> (r: bool)
        ensures
            r == self@.dom().contains(key@),
    {
        self.get(key).is_some()
    }

    /// Sets `key` to `value`
    pub fn insert(&mut self, key: String, value: String)
        ensures
            final(self)@ == old(self)@.insert(key@, value@),
    {
        proof { use_type_invariant(&*self); }
        let ghost old_entries = self.entries@;
        match self.find(&key) {
            Some(i) => {
                let mut entries: Vec<(String, String)> = Vec::new();
                std::mem::swap(&mut entries, &mut self.entries);
                entries.set(i, (key, value));
                self.entries = entries;
                proof {
                    let s = self.entries@;
                    assert(keys_distinct(s));
                    lemma_entry_value(s, i as int);
                    assert forall|k: Seq<char>| #[trigger] self@.dom().contains(k) == old_entries_map_contains(old_entries, k) by {
                        if self@.dom().contains(k) {
                            let j = choose|j: int| 0 <= j < s.len() && s[j].0@ == k;
                            assert(old_entries[j].0@ == k);
                        }
                        if old_entries_map_contains(old_entries, k) {
                            let j = choose|j: int| 0 <= j < old_entries.len() && old_entries[j].0@ == k;
                            assert(s[j].0@ == k);
                        }
                    }
                    assert forall|k: Seq<char>| self@.dom().contains(k) && k != key@ implies
                        self@[k] == entries_map(old_entries)[k] by {
                        let j = choose|j: int| 0 <= j < s.len() && s[j].0@ == k;
                        lemma_entry_value(s, j);
                        lemma_entry_value(old_entries, j);
                    }
                    assert(self@ =~= entries_map(old_entries).insert(key@, value@));
                }
            },
            None => {
                let mut entries: Vec<(String, String)> = Vec::new();
                std::mem::swap(&mut entries, &mut self.entries);
                entries.push((key, value));
                self.entries = entries;
                proof {
                    let s = self.entries@;
                    assert(keys_distinct(s));
                    lemma_entry_value(s, s.len() - 1);
                    assert forall|k: Seq<char>| self@.dom().contains(k) && k != key@ implies
                        self@[k] == entries_map(old_entries)[k] by {
                        let j = choose|j: int| 0 <= j < s.len() && s[j].0@ == k;
                        lemma_entry_value(s, j);
                        lemma_entry_value(old_entries, j);
                    }
                    assert forall|k: Seq<char>| #[trigger] self@.dom().contains(k) == (
                        old_entries_map_contains(old_entries, k) || k == key@) by {
                        if self@.dom().contains(k) && k != key@ {
                            let j = choose|j: int| 0 <= j < s.len() && s[j].0@ == k;
                            assert(j < old_entries.len());
                            assert(old_entries[j].0@ == k);
                        }
                        if old_entries_map_contains(old_entries, k) {
                            let j = choose|j: int| 0 <= j < old_entries.len() && old_entries[j].0@ == k;
                            assert(s[j].0@ == k);
                        }
                    }
                    assert(self@ =~= entries_map(old_entries).insert(key@, value@));
                }
            },
        }
    }

    /// Removes `key`, returning its value if it was present
    pub fn remove(&mut self, key: &String) -> (r: Option<String>)
        ensures
            r is Some <==> old(self)@.dom().contains(key@),
            r matches Some(v) ==> v@ == old(self)@[key@],
            final(self)@ == old(self)@.remove(key@),
    {
        proof { use_type_invariant(&*self); }
        let ghost old_entries = self.entries@;
        match self.find(key) {
            Some(i) => {
                proof { lemma_entry_value(old_entries, i as int); }
                let mut entries: Vec<(String, String)> = Vec::new();
                std::mem::swap(&mut entries, &mut self.entries);
                let (_k, v) = entries.remove(i);
                proof {
                    let s = entries@;
                    assert forall|a: int, b: int| 0 <= a < s.len() && 0 <= b < s.len() && a != b
                        implies s[a].0@ != s[b].0@ by {
                        let oa = if a < i { a } else { a + 1 };
                        let ob = if b < i { b } else { b + 1 };
                        assert(s[a] == old_entries[oa]);
                        assert(s[b] == old_entries[ob]);
                    }
                }
                self.entries = entries;
                proof {
                    let s = self.entries@;
                    assert(keys_distinct(s)) by {
                        assert forall|a: int, b: int| 0 <= a < s.len() && 0 <= b < s.len() && a != b
                            implies s[a].0@ != s[b].0@ by {
                            let oa = if a < i { a } else { a + 1 };
                            let ob = if b < i { b } else { b + 1 };
                            assert(s[a] == old_entries[oa]);
                            assert(s[b] == old_entries[ob]);
                        }
                    }
                    assert forall|k: Seq<char>| #[trigger] self@.dom().contains(k) == (
                        old_entries_map_contains(old_entries, k) && k != key@) by {
                        if self@.dom().contains(k) {
                            let j = choose|j: int| 0 <= j < s.len() && s[j].0@ == k;
                            let oj = if j < i { j } else { j + 1 };
                            assert(old_entries[oj].0@ == k);
                            assert(oj != i);
                        }
                        if old_entries_map_contains(old_entries, k) && k != key@ {
                            let j = choose|j: int| 0 <= j < old_entries.len() && old_entries[j].0@ == k;
                            assert(j != i);
                            let nj = if j < i { j } else { j - 1 };
                            assert(s[nj].0@ == k);
                        }
                    }
                    assert forall|k: Seq<char>| self@.dom().contains(k) implies
                        self@[k] == entries_map(old_entries)[k] by {
                        let j = choose|j: int| 0 <= j < s.len() && s[j].0@ == k;
                        let oj = if j < i { j } else { j + 1 };
                        lemma_entry_value(s, j);
                        lemma_entry_value(old_entries, oj);
                    }
                    assert(self@ =~= entries_map(old_entries).remove(key@));
                }
                Some(v)
            },
            None => {
                proof {
                    assert(!entries_map(old_entries).dom().contains(key@));
                    assert(self@ =~= entries_map(old_entries).remove(key@));
                }
                None
            },
        }
    }

    /// A copy of this map, entries in the same order
    pub fn duplicate(&self) -> (r: Self)
        ensures
            r@ == self@,
            r.spec_entries() == self.spec_entries(),
    {
        proof { use_type_invariant(self); }
        let mut entries: Vec<(String, String)> = Vec::new();
        let mut i: usize = 0;
        while i < self.entries.len()
            invariant
                i <= self.entries@.len(),
                entries@ == self.entries@.subrange(0, i as int),
            decreases self.entries@.len() - i,
        {
            let k = self.entries[i].0.clone();
            let v = self.entries[i].1.clone();
            entries.push((k, v));
            i = i + 1;
            assert(entries@ =~= self.entries@.subrange(0, i as int));
        }
        assert(self.entries@.subrange(0, self.entries@.len() as int) =~= self.entries@);
        StringMap { entries }
    }

    /// Removes every entry
    pub fn clear(&mut self)
        ensures
            final(self)@ == Map::<Seq<char>, Seq<char>>::empty(),
    {
        self.entries = Vec::new();
        assert(self@ =~= Map::<Seq<char>, Seq<char>>::empty());
    }
}

/// Whether a key occurs among the entries.
pub open spec fn old_entries_map_contains(s: Seq<(String, String)>, k: Seq<char>) -> bool {
    exists|i: int| 0 <= i < s.len() && s[i].0@ == k
}

} // verus!
