//! Lists of records with distinct keys, seen as maps from key to record.
use vstd::prelude::*;

verus! {

/// A record identified by a key.
pub trait Keyed: Sized {
    type Key;

    /// The key of the record.
    spec fn key(self) -> Self::Key;
}

/// Whether no two records of the list share a key.
pub open spec fn keys_unique<T: Keyed>(s: Seq<T>) -> bool {
    forall|i: int, j: int| 0 <= i < s.len() && 0 <= j < s.len() && i != j ==> (#[trigger] s[i]).key() != (#[trigger] s[j]).key()
}

/// Whether some record of the list has the key.
pub open spec fn has_key<T: Keyed>(s: Seq<T>, k: T::Key) -> bool {
    exists|i: int| 0 <= i < s.len() && (#[trigger] s[i]).key() == k
}

/// The map from each key of the list to its record.
pub open spec fn keyed_map<T: Keyed>(s: Seq<T>) -> Map<T::Key, T> {
    Map::new(
        |k: T::Key| has_key(s, k),
        |k: T::Key| s[choose|i: int| 0 <= i < s.len() && (#[trigger] s[i]).key() == k],
    )
}

/// With unique keys, each record is the map's value at its key.
pub proof fn lemma_keyed_index<T: Keyed>(s: Seq<T>, i: int)
    requires
        keys_unique(s),
        0 <= i < s.len(),
    ensures
        keyed_map(s).dom().contains(s[i].key()),
        keyed_map(s)[s[i].key()] == s[i],
{
    let k = s[i].key();
    assert(has_key(s, k));
    let j = choose|j: int| 0 <= j < s.len() && (#[trigger] s[j]).key() == k;
    assert(j == i);
}

/// Appending a record with a new key adds it to the map.
pub proof fn lemma_keyed_push<T: Keyed>(s: Seq<T>, x: T)
    requires
        keys_unique(s),
        !has_key(s, x.key()),
    ensures
        keys_unique(s.push(x)),
        keyed_map(s.push(x)) == keyed_map(s).insert(x.key(), x),
{
    let t = s.push(x);
    assert(keys_unique(t)) by {
        assert forall|i: int, j: int| 0 <= i < t.len() && 0 <= j < t.len() && i != j
            implies (#[trigger] t[i]).key() != (#[trigger] t[j]).key() by {
            if i < s.len() && j < s.len() {
                assert(t[i] == s[i] && t[j] == s[j]);
            } else if i < s.len() {
                assert(t[i] == s[i]);
            } else {
                assert(t[j] == s[j]);
            }
        }
    }
    assert forall|k: T::Key| #[trigger] keyed_map(t).dom().contains(k) <==> keyed_map(s).insert(x.key(), x).dom().contains(k) by {
        if has_key(t, k) {
            let i = choose|i: int| 0 <= i < t.len() && (#[trigger] t[i]).key() == k;
            if i < s.len() {
                assert(t[i] == s[i]);
            }
        }
        if has_key(s, k) {
            let i = choose|i: int| 0 <= i < s.len() && (#[trigger] s[i]).key() == k;
            assert(t[i] == s[i]);
        }
        if k == x.key() {
            assert(t[s.len() as int] == x);
        }
    }
    assert forall|k: T::Key| #[trigger] keyed_map(t).dom().contains(k) implies keyed_map(t)[k] == keyed_map(s).insert(x.key(), x)[k] by {
        let i = choose|i: int| 0 <= i < t.len() && (#[trigger] t[i]).key() == k;
        lemma_keyed_index(t, i);
        if i < s.len() {
            assert(t[i] == s[i]);
            lemma_keyed_index(s, i);
        }
    }
    assert(keyed_map(t) =~= keyed_map(s).insert(x.key(), x));
}

/// Removing the record at a position removes its key from the map.
pub proof fn lemma_keyed_remove<T: Keyed>(s: Seq<T>, i: int)
    requires
        keys_unique(s),
        0 <= i < s.len(),
    ensures
        keys_unique(s.remove(i)),
        keyed_map(s.remove(i)) == keyed_map(s).remove(s[i].key()),
{
    let t = s.remove(i);
    assert forall|a: int| 0 <= a < t.len() implies #[trigger] t[a] == s[if a < i { a } else { a + 1 }] by {}
    assert(keys_unique(t)) by {
        assert forall|a: int, b: int| 0 <= a < t.len() && 0 <= b < t.len() && a != b
            implies (#[trigger] t[a]).key() != (#[trigger] t[b]).key() by {
            let oa = if a < i { a } else { a + 1 };
            let ob = if b < i { b } else { b + 1 };
            assert(t[a] == s[oa]);
            assert(t[b] == s[ob]);
        }
    }
    assert forall|k: T::Key| #[trigger] keyed_map(t).dom().contains(k) <==> keyed_map(s).remove(s[i].key()).dom().contains(k) by {
        if has_key(t, k) {
            let a = choose|a: int| 0 <= a < t.len() && (#[trigger] t[a]).key() == k;
            let oa = if a < i { a } else { a + 1 };
            assert(t[a] == s[oa]);
        }
        if has_key(s, k) && k != s[i].key() {
            let a = choose|a: int| 0 <= a < s.len() && (#[trigger] s[a]).key() == k;
            let ta = if a < i { a } else { a - 1 };
            assert(t[ta] == s[a]);
        }
    }
    assert forall|k: T::Key| #[trigger] keyed_map(t).dom().contains(k) implies keyed_map(t)[k] == keyed_map(s).remove(s[i].key())[k] by {
        let a = choose|a: int| 0 <= a < t.len() && (#[trigger] t[a]).key() == k;
        let oa = if a < i { a } else { a + 1 };
        assert(t[a] == s[oa]);
        lemma_keyed_index(t, a);
        lemma_keyed_index(s, oa);
    }
    assert(keyed_map(t) =~= keyed_map(s).remove(s[i].key()));
}

/// Replacing the record at a position by one with the same key replaces it in the map.
pub proof fn lemma_keyed_update<T: Keyed>(s: Seq<T>, i: int, x: T)
    requires
        keys_unique(s),
        0 <= i < s.len(),
        x.key() == s[i].key(),
    ensures
        keys_unique(s.update(i, x)),
        keyed_map(s.update(i, x)) == keyed_map(s).insert(x.key(), x),
{
    let t = s.update(i, x);
    assert(keys_unique(t)) by {
        assert forall|a: int, b: int| 0 <= a < t.len() && 0 <= b < t.len() && a != b
            implies (#[trigger] t[a]).key() != (#[trigger] t[b]).key() by {
            assert(t[a].key() == s[a].key());
            assert(t[b].key() == s[b].key());
        }
    }
    assert forall|k: T::Key| #[trigger] keyed_map(t).dom().contains(k) <==> keyed_map(s).insert(x.key(), x).dom().contains(k) by {
        if has_key(t, k) {
            let a = choose|a: int| 0 <= a < t.len() && (#[trigger] t[a]).key() == k;
            assert(t[a].key() == s[a].key());
        }
        if has_key(s, k) {
            let a = choose|a: int| 0 <= a < s.len() && (#[trigger] s[a]).key() == k;
            assert(t[a].key() == s[a].key());
        }
    }
    assert forall|k: T::Key| #[trigger] keyed_map(t).dom().contains(k) implies keyed_map(t)[k] == keyed_map(s).insert(x.key(), x)[k] by {
        let a = choose|a: int| 0 <= a < t.len() && (#[trigger] t[a]).key() == k;
        lemma_keyed_index(t, a);
        if a != i {
            assert(t[a] == s[a]);
            lemma_keyed_index(s, a);
        }
    }
    assert(keyed_map(t) =~= keyed_map(s).insert(x.key(), x));
}


/// Changing every record without changing its key changes every value of the map alike.
pub proof fn lemma_keyed_map_values<T: Keyed>(s: Seq<T>, f: spec_fn(T) -> T)
    requires
        keys_unique(s),
        forall|x: T| #[trigger] f(x).key() == x.key(),
    ensures
        keys_unique(s.map_values(f)),
        keyed_map(s.map_values(f)) == keyed_map(s).map_values(f),
{
    let t = s.map_values(f);
    assert forall|a: int, b: int| 0 <= a < t.len() && 0 <= b < t.len() && a != b
        implies (#[trigger] t[a]).key() != (#[trigger] t[b]).key() by {
        assert(t[a].key() == s[a].key());
        assert(t[b].key() == s[b].key());
    }
    assert forall|k: T::Key| #[trigger] keyed_map(t).dom().contains(k) <==> keyed_map(s).dom().contains(k) by {
        if has_key(t, k) {
            let a = choose|a: int| 0 <= a < t.len() && (#[trigger] t[a]).key() == k;
            assert(t[a].key() == s[a].key());
        }
        if has_key(s, k) {
            let a = choose|a: int| 0 <= a < s.len() && (#[trigger] s[a]).key() == k;
            assert(t[a].key() == s[a].key());
        }
    }
    assert forall|k: T::Key| #[trigger] keyed_map(t).dom().contains(k) implies keyed_map(t)[k] == keyed_map(s).map_values(f)[k] by {
        let a = choose|a: int| 0 <= a < t.len() && (#[trigger] t[a]).key() == k;
        assert(t[a].key() == s[a].key());
        lemma_keyed_index(t, a);
        lemma_keyed_index(s, a);
    }
    assert(keyed_map(t) =~= keyed_map(s).map_values(f));
}
} // verus!
