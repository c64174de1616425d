//! Sequences of key/value pairs with unique keys, read as finite maps.
use vstd::prelude::*;

verus! {

/// No key occurs twice in `s`.
pub open spec fn keys_unique<K, V>(s: Seq<(K, V)>) -> bool {
    forall|i: int, j: int|
        0 <= i < s.len() && 0 <= j < s.len() && #[trigger] s[i].0 == #[trigger] s[j].0 ==> i == j
}

/// Some entry of `s` has key `k`.
pub open spec fn has_key<K, V>(s: Seq<(K, V)>, k: K) -> bool {
    exists|i: int| 0 <= i < s.len() && #[trigger] s[i].0 == k
}

/// The map that `s` stands for: each key to the value of its entry.
pub open spec fn kv_map<K, V>(s: Seq<(K, V)>) -> Map<K, V> {
    Map::new(
        |k: K| has_key(s, k),
        |k: K| s[choose|i: int| 0 <= i < s.len() && #[trigger] s[i].0 == k].1,
    )
}

/// The keys of `s`, in order.
pub open spec fn keys_of<K, V>(s: Seq<(K, V)>) -> Seq<K> {
    s.map_values(|p: (K, V)| p.0)
}

pub proof fn lemma_kv_index<K, V>(s: Seq<(K, V)>, i: int)
    requires
        keys_unique(s),
        0 <= i < s.len(),
    ensures
        kv_map(s).contains_key(s[i].0),
        kv_map(s)[s[i].0] == s[i].1,
{
    let k = s[i].0;
    assert(has_key(s, k));
    let j = choose|j: int| 0 <= j < s.len() && #[trigger] s[j].0 == k;
    assert(s[j].0 == s[i].0);
}

/// A map is the one that a sequence with unique keys stands for when it agrees
/// with it on the keys and on each entry.
pub proof fn lemma_kv_equal<K, V>(t: Seq<(K, V)>, m: Map<K, V>)
    requires
        keys_unique(t),
        forall|k: K| m.contains_key(k) <==> has_key(t, k),
        forall|i: int| 0 <= i < t.len() ==> m[#[trigger] t[i].0] == t[i].1,
    ensures
        kv_map(t) == m,
{
    assert forall|k: K| #[trigger] kv_map(t).contains_key(k) implies kv_map(t)[k] == m[k] by {
        let j = choose|j: int| 0 <= j < t.len() && #[trigger] t[j].0 == k;
        lemma_kv_index(t, j);
    }
    assert(kv_map(t) =~= m);
}

pub proof fn lemma_kv_push<K, V>(s: Seq<(K, V)>, k: K, v: V)
    requires
        keys_unique(s),
        !kv_map(s).contains_key(k),
    ensures
        keys_unique(s.push((k, v))),
        kv_map(s.push((k, v))) == kv_map(s).insert(k, v),
{
    let t = s.push((k, v));
    let m = kv_map(s).insert(k, v);
    assert forall|i: int, j: int|
        0 <= i < t.len() && 0 <= j < t.len() && #[trigger] t[i].0 == #[trigger] t[j].0 implies i
        == j by {
        if i < s.len() && j < s.len() {
            assert(s[i].0 == s[j].0);
        } else if i < s.len() {
            assert(s[i].0 == k);
        } else if j < s.len() {
            assert(s[j].0 == k);
        }
    }
    assert forall|key: K| m.contains_key(key) <==> has_key(t, key) by {
        if has_key(t, key) && key != k {
            let j = choose|j: int| 0 <= j < t.len() && #[trigger] t[j].0 == key;
            assert(s[j].0 == key);
        }
        if has_key(s, key) {
            let j = choose|j: int| 0 <= j < s.len() && #[trigger] s[j].0 == key;
            assert(t[j].0 == key);
        }
        if key == k {
            assert(t[s.len() as int].0 == k);
        }
    }
    assert forall|i: int| 0 <= i < t.len() implies m[#[trigger] t[i].0] == t[i].1 by {
        if i < s.len() {
            lemma_kv_index(s, i);
            assert(t[i] == s[i]);
        }
    }
    lemma_kv_equal(t, m);
}

/// Replacing entry `i` by one whose key is its own or new.
pub proof fn lemma_kv_update<K, V>(s: Seq<(K, V)>, i: int, k: K, v: V)
    requires
        keys_unique(s),
        0 <= i < s.len(),
        k == s[i].0 || !kv_map(s).contains_key(k),
    ensures
        keys_unique(s.update(i, (k, v))),
        kv_map(s.update(i, (k, v))) == kv_map(s).remove(s[i].0).insert(k, v),
{
    let t = s.update(i, (k, v));
    let m = kv_map(s).remove(s[i].0).insert(k, v);
    assert forall|a: int, b: int|
        0 <= a < t.len() && 0 <= b < t.len() && #[trigger] t[a].0 == #[trigger] t[b].0 implies a
        == b by {
        if a != i && b != i {
            assert(s[a].0 == s[b].0);
        } else if a != i {
            assert(s[a].0 == k);
            assert(has_key(s, k));
        } else if b != i {
            assert(s[b].0 == k);
            assert(has_key(s, k));
        }
    }
    assert forall|key: K| m.contains_key(key) <==> has_key(t, key) by {
        if has_key(t, key) && key != k {
            let j = choose|j: int| 0 <= j < t.len() && #[trigger] t[j].0 == key;
            assert(s[j].0 == key);
            assert(j != i);
            assert(s[j].0 != s[i].0);
        }
        if has_key(s, key) && key != s[i].0 {
            let j = choose|j: int| 0 <= j < s.len() && #[trigger] s[j].0 == key;
            assert(t[j].0 == key);
        }
        if key == k {
            assert(t[i].0 == k);
        }
    }
    assert forall|j: int| 0 <= j < t.len() implies m[#[trigger] t[j].0] == t[j].1 by {
        if j != i {
            lemma_kv_index(s, j);
            assert(t[j] == s[j]);
            assert(s[j].0 != s[i].0);
        }
    }
    lemma_kv_equal(t, m);
}

pub proof fn lemma_kv_remove<K, V>(s: Seq<(K, V)>, i: int)
    requires
        keys_unique(s),
        0 <= i < s.len(),
    ensures
        keys_unique(s.remove(i)),
        kv_map(s.remove(i)) == kv_map(s).remove(s[i].0),
{
    let t = s.remove(i);
    let m = kv_map(s).remove(s[i].0);
    assert forall|a: int, b: int|
        0 <= a < t.len() && 0 <= b < t.len() && #[trigger] t[a].0 == #[trigger] t[b].0 implies a
        == b by {
        let a2 = if a < i { a } else { a + 1 };
        let b2 = if b < i { b } else { b + 1 };
        assert(t[a] == s[a2]);
        assert(t[b] == s[b2]);
        assert(s[a2].0 == s[b2].0);
    }
    assert forall|key: K| m.contains_key(key) <==> has_key(t, key) by {
        if has_key(t, key) {
            let j = choose|j: int| 0 <= j < t.len() && #[trigger] t[j].0 == key;
            let j2 = if j < i { j } else { j + 1 };
            assert(t[j] == s[j2]);
            assert(s[j2].0 != s[i].0);
            assert(has_key(s, key));
        }
        if has_key(s, key) && key != s[i].0 {
            let j = choose|j: int| 0 <= j < s.len() && #[trigger] s[j].0 == key;
            assert(j != i);
            let j2 = if j < i { j } else { j - 1 };
            assert(t[j2] == s[j]);
        }
    }
    assert forall|j: int| 0 <= j < t.len() implies m[#[trigger] t[j].0] == t[j].1 by {
        let j2 = if j < i { j } else { j + 1 };
        assert(t[j] == s[j2]);
        lemma_kv_index(s, j2);
        assert(s[j2].0 != s[i].0);
    }
    lemma_kv_equal(t, m);
}

/// The keys of a sequence with unique keys are the map's domain, each once.
pub proof fn lemma_kv_keys<K, V>(s: Seq<(K, V)>)
    requires
        keys_unique(s),
    ensures
        keys_of(s).no_duplicates(),
        keys_of(s).to_set() == kv_map(s).dom(),
{
    let ks = keys_of(s);
    assert forall|i: int, j: int| 0 <= i < ks.len() && 0 <= j < ks.len() && i != j implies ks[i]
        != ks[j] by {
        assert(ks[i] == s[i].0);
        assert(ks[j] == s[j].0);
    }
    assert forall|k: K| ks.to_set().contains(k) <==> kv_map(s).dom().contains(k) by {
        if ks.contains(k) {
            let j = choose|j: int| 0 <= j < ks.len() && ks[j] == k;
            assert(s[j].0 == k);
        }
        if has_key(s, k) {
            let j = choose|j: int| 0 <= j < s.len() && #[trigger] s[j].0 == k;
            assert(ks[j] == k);
        }
    }
    assert(ks.to_set() =~= kv_map(s).dom());
}

} // verus!
