//! Sequences of records with distinct keys, seen as maps from key to record.
use vstd::prelude::*;

verus! {

/// Each record under its key.
pub open spec fn keyed_map<T, K>(s: Seq<T>, key: spec_fn(T) -> K) -> Map<K, T> {
    Map::new(
        |k: K| exists|i: int| 0 <= i < s.len() && key(s[i]) == k,
        |k: K| s[choose|i: int| 0 <= i < s.len() && key(s[i]) == k],
    )
}

/// No two records share a key.
pub open spec fn keys_distinct<T, K>(s: Seq<T>, key: spec_fn(T) -> K) -> bool {
    forall|i: int, j: int|
        0 <= i < s.len() && 0 <= j < s.len() && i != j ==> key(#[trigger] s[i]) != key(
            #[trigger] s[j],
        )
}

/// The record at position `i` is the one under its key.
pub proof fn lemma_keyed_index<T, K>(s: Seq<T>, key: spec_fn(T) -> K, i: int)
    requires
        keys_distinct(s, key),
        0 <= i < s.len(),
    ensures
        keyed_map(s, key).contains_key(key(s[i])),
        keyed_map(s, key)[key(s[i])] == s[i],
{
    let k = key(s[i]);
    assert(exists|j: int| 0 <= j < s.len() && key(s[j]) == k);
    let j = choose|j: int| 0 <= j < s.len() && key(s[j]) == k;
    assert(s[j] == s[i]);
}

/// Appending a record under a new key adds it to the map.
pub proof fn lemma_keyed_push<T, K>(s: Seq<T>, key: spec_fn(T) -> K, v: T)
    requires
        keys_distinct(s, key),
        !keyed_map(s, key).contains_key(key(v)),
    ensures
        keys_distinct(s.push(v), key),
        keyed_map(s.push(v), key) == keyed_map(s, key).insert(key(v), v),
{
    let t = s.push(v);
    assert forall|i: int, j: int|
        0 <= i < t.len() && 0 <= j < t.len() && i != j implies key(#[trigger] t[i]) != key(
            #[trigger] t[j],
        ) by {
        if i < s.len() && j < s.len() {
            assert(t[i] == s[i] && t[j] == s[j]);
        } else if i == s.len() {
            assert(t[j] == s[j]);
        } else {
            assert(t[i] == s[i]);
        }
    }
    assert forall|k: K| #[trigger]
        keyed_map(t, key).contains_key(k) == keyed_map(s, key).insert(key(v), v).contains_key(k) by {
        if keyed_map(t, key).contains_key(k) {
            let i = choose|i: int| 0 <= i < t.len() && key(t[i]) == k;
            if i < s.len() {
                assert(s[i] == t[i]);
            }
        }
        if keyed_map(s, key).contains_key(k) {
            let i = choose|i: int| 0 <= i < s.len() && key(s[i]) == k;
            assert(t[i] == s[i]);
        }
        if k == key(v) {
            assert(t[s.len() as int] == v);
        }
    }
    assert forall|k: K| #[trigger] keyed_map(t, key).contains_key(k) implies keyed_map(
        t,
        key,
    )[k] == keyed_map(s, key).insert(key(v), v)[k] by {
        let i = choose|i: int| 0 <= i < t.len() && key(t[i]) == k;
        lemma_keyed_index(t, key, i);
        if i < s.len() {
            assert(t[i] == s[i]);
            lemma_keyed_index(s, key, i);
        } else {
            assert(t[i] == v);
        }
    }
    assert(keyed_map(t, key) =~= keyed_map(s, key).insert(key(v), v));
}

/// Removing the record at position `i` removes its key from the map.
pub proof fn lemma_keyed_remove<T, K>(s: Seq<T>, key: spec_fn(T) -> K, i: int)
    requires
        keys_distinct(s, key),
        0 <= i < s.len(),
    ensures
        keys_distinct(s.remove(i), key),
        keyed_map(s.remove(i), key) == keyed_map(s, key).remove(key(s[i])),
{
    let t = s.remove(i);
    let gone = key(s[i]);
    assert forall|a: int| 0 <= a < t.len() implies #[trigger] t[a] == s[if a < i {
        a
    } else {
        a + 1
    }] by {}
    assert forall|a: int, b: int|
        0 <= a < t.len() && 0 <= b < t.len() && a != b implies key(#[trigger] t[a]) != key(
            #[trigger] t[b],
        ) by {
        let a2 = if a < i {
            a
        } else {
            a + 1
        };
        let b2 = if b < i {
            b
        } else {
            b + 1
        };
        assert(t[a] == s[a2] && t[b] == s[b2]);
    }
    assert forall|k: K| #[trigger]
        keyed_map(t, key).contains_key(k) == keyed_map(s, key).remove(gone).contains_key(k) by {
        if keyed_map(t, key).contains_key(k) {
            let a = choose|a: int| 0 <= a < t.len() && key(t[a]) == k;
            let a2 = if a < i {
                a
            } else {
                a + 1
            };
            assert(t[a] == s[a2]);
            assert(a2 != i);
        }
        if keyed_map(s, key).contains_key(k) && k != gone {
            let b = choose|b: int| 0 <= b < s.len() && key(s[b]) == k;
            assert(b != i);
            let b2 = if b < i {
                b
            } else {
                b - 1
            };
            assert(t[b2] == s[b]);
        }
    }
    assert forall|k: K| #[trigger] keyed_map(t, key).contains_key(k) implies keyed_map(
        t,
        key,
    )[k] == keyed_map(s, key)[k] by {
        let a = choose|a: int| 0 <= a < t.len() && key(t[a]) == k;
        let a2 = if a < i {
            a
        } else {
            a + 1
        };
        assert(t[a] == s[a2]);
        lemma_keyed_index(t, key, a);
        lemma_keyed_index(s, key, a2);
    }
    assert(keyed_map(t, key) =~= keyed_map(s, key).remove(gone));
}

/// A map of distinct-keyed records has as many keys as there are records.
pub proof fn lemma_keyed_len<T, K>(s: Seq<T>, key: spec_fn(T) -> K)
    requires
        keys_distinct(s, key),
    ensures
        keyed_map(s, key).dom().finite(),
        keyed_map(s, key).dom().len() == s.len(),
    decreases s.len(),
{
    if s.len() == 0 {
        assert(keyed_map(s, key).dom() =~= Set::empty());
    } else {
        let p = s.drop_last();
        assert(keys_distinct(p, key)) by {
            assert forall|i: int, j: int|
                0 <= i < p.len() && 0 <= j < p.len() && i != j implies key(#[trigger] p[i]) != key(
                    #[trigger] p[j],
                ) by {
                assert(p[i] == s[i] && p[j] == s[j]);
            }
        }
        lemma_keyed_len(p, key);
        assert(!keyed_map(p, key).contains_key(key(s.last()))) by {
            if keyed_map(p, key).contains_key(key(s.last())) {
                let i = choose|i: int| 0 <= i < p.len() && key(p[i]) == key(s.last());
                assert(p[i] == s[i]);
                assert(s.last() == s[s.len() - 1]);
            }
        }
        lemma_keyed_push(p, key, s.last());
        assert(p.push(s.last()) =~= s);
    }
}

/// Replacing the record at position `i` by one with the same key replaces
/// it in the map.
pub proof fn lemma_keyed_update<T, K>(s: Seq<T>, key: spec_fn(T) -> K, i: int, v: T)
    requires
        keys_distinct(s, key),
        0 <= i < s.len(),
        key(v) == key(s[i]),
    ensures
        keys_distinct(s.update(i, v), key),
        keyed_map(s.update(i, v), key) == keyed_map(s, key).insert(key(v), v),
{
    let t = s.update(i, v);
    assert forall|a: int, b: int|
        0 <= a < t.len() && 0 <= b < t.len() && a != b implies key(#[trigger] t[a]) != key(
            #[trigger] t[b],
        ) by {
        assert(key(t[a]) == key(s[a]));
        assert(key(t[b]) == key(s[b]));
    }
    assert forall|k: K| #[trigger]
        keyed_map(t, key).contains_key(k) == keyed_map(s, key).insert(key(v), v).contains_key(k) by {
        if keyed_map(t, key).contains_key(k) {
            let a = choose|a: int| 0 <= a < t.len() && key(t[a]) == k;
            assert(key(s[a]) == k);
        }
        if keyed_map(s, key).contains_key(k) {
            let a = choose|a: int| 0 <= a < s.len() && key(s[a]) == k;
            assert(key(t[a]) == k);
        }
        if k == key(v) {
            assert(key(t[i]) == k);
        }
    }
    assert forall|k: K| #[trigger] keyed_map(t, key).contains_key(k) implies keyed_map(t, key)[k]
        == keyed_map(s, key).insert(key(v), v)[k] by {
        let a = choose|a: int| 0 <= a < t.len() && key(t[a]) == k;
        lemma_keyed_index(t, key, a);
        if a != i {
            assert(t[a] == s[a]);
            lemma_keyed_index(s, key, a);
        }
    }
    assert(keyed_map(t, key) =~= keyed_map(s, key).insert(key(v), v));
}

} // verus!
