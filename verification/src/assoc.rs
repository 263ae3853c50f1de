//! Association lists: sequences of key/value pairs whose keys are distinct,
//! read as finite maps.
use vstd::prelude::*;

verus! {

/// Whether some entry of `s` has key `k`.
pub open spec fn assoc_has<K, V>(s: Seq<(K, V)>, k: K) -> bool {
    exists|i: int| 0 <= i < s.len() && s[i].0 == k
}

/// An index of an entry of `s` with key `k` (meaningful when there is one).
pub open spec fn assoc_index<K, V>(s: Seq<(K, V)>, k: K) -> int {
    choose|i: int| 0 <= i < s.len() && s[i].0 == k
}

/// The map that an association list stands for.
pub open spec fn assoc_map<K, V>(s: Seq<(K, V)>) -> Map<K, V> {
    Map::new(|k: K| assoc_has(s, k), |k: K| s[assoc_index(s, k)].1)
}

/// No two entries share a key.
pub open spec fn keys_unique<K, V>(s: Seq<(K, V)>) -> bool {
    forall|i: int, j: int| 0 <= i < s.len() && 0 <= j < s.len() && i != j ==> s[i].0 != s[j].0
}

/// The entry at index `i` is the one the map reads for its key.
pub proof fn lemma_assoc_at<K, V>(s: Seq<(K, V)>, i: int)
    requires
        keys_unique(s),
        0 <= i < s.len(),
    ensures
        assoc_has(s, s[i].0),
        assoc_index(s, s[i].0) == i,
        assoc_map(s).contains_key(s[i].0),
        assoc_map(s)[s[i].0] == s[i].1,
{
    assert(assoc_has(s, s[i].0));
    let j = assoc_index(s, s[i].0);
    assert(0 <= j < s.len() && s[j].0 == s[i].0);
}

/// The empty list is the empty map.
pub proof fn lemma_assoc_empty<K, V>(s: Seq<(K, V)>)
    requires
        s.len() == 0,
    ensures
        keys_unique(s),
        assoc_map(s) == Map::<K, V>::empty(),
{
    assert(assoc_map(s) =~= Map::<K, V>::empty());
}

/// Overwriting the value of entry `i` overwrites its key in the map.
pub proof fn lemma_assoc_update<K, V>(s: Seq<(K, V)>, i: int, v: V)
    requires
        keys_unique(s),
        0 <= i < s.len(),
    ensures
        keys_unique(s.update(i, (s[i].0, v))),
        assoc_map(s.update(i, (s[i].0, v))) == assoc_map(s).insert(s[i].0, v),
{
    let t = s.update(i, (s[i].0, v));
    assert(keys_unique(t));
    let m = assoc_map(s).insert(s[i].0, v);
    assert forall|k: K| #[trigger] assoc_map(t).contains_key(k) == m.contains_key(k) by {
        if assoc_has(s, k) {
            let j = assoc_index(s, k);
            assert(t[j].0 == k);
        }
        if assoc_has(t, k) {
            let j = assoc_index(t, k);
            assert(s[j].0 == k);
        }
    }
    assert forall|k: K| #[trigger] assoc_map(t).contains_key(k) implies assoc_map(t)[k] == m[k] by {
        let j = assoc_index(t, k);
        lemma_assoc_at(t, j);
        if j == i {
        } else {
            lemma_assoc_at(s, j);
        }
    }
    assert(assoc_map(t) =~= m);
}

/// Appending an entry with a new key inserts it into the map.
pub proof fn lemma_assoc_push<K, V>(s: Seq<(K, V)>, k: K, v: V)
    requires
        keys_unique(s),
        !assoc_has(s, k),
    ensures
        keys_unique(s.push((k, v))),
        assoc_map(s.push((k, v))) == assoc_map(s).insert(k, v),
{
    let t = s.push((k, v));
    assert(keys_unique(t));
    let m = assoc_map(s).insert(k, v);
    assert forall|x: K| #[trigger] assoc_map(t).contains_key(x) == m.contains_key(x) by {
        if assoc_has(s, x) {
            let j = assoc_index(s, x);
            assert(t[j].0 == x);
        }
        if assoc_has(t, x) && x != k {
            let j = assoc_index(t, x);
            assert(s[j].0 == x);
        }
        if x == k {
            assert(t[s.len() as int].0 == x);
        }
    }
    assert forall|x: K| #[trigger] assoc_map(t).contains_key(x) implies assoc_map(t)[x] == m[x] by {
        let j = assoc_index(t, x);
        lemma_assoc_at(t, j);
        if j < s.len() {
            lemma_assoc_at(s, j);
        }
    }
    assert(assoc_map(t) =~= m);
}

/// Removing entry `i` removes its key from the map.
pub proof fn lemma_assoc_remove<K, V>(s: Seq<(K, V)>, i: int)
    requires
        keys_unique(s),
        0 <= i < s.len(),
    ensures
        keys_unique(s.remove(i)),
        assoc_map(s.remove(i)) == assoc_map(s).remove(s[i].0),
{
    let t = s.remove(i);
    assert forall|a: int, b: int| 0 <= a < t.len() && 0 <= b < t.len() && a != b implies t[a].0
        != t[b].0 by {
        let a2 = if a < i { a } else { a + 1 };
        let b2 = if b < i { b } else { b + 1 };
        assert(t[a] == s[a2] && t[b] == s[b2]);
    }
    let m = assoc_map(s).remove(s[i].0);
    assert forall|x: K| #[trigger] assoc_map(t).contains_key(x) == m.contains_key(x) by {
        if assoc_has(s, x) && x != s[i].0 {
            let j = assoc_index(s, x);
            let j2 = if j < i { j } else { j - 1 };
            assert(t[j2].0 == x);
        }
        if assoc_has(t, x) {
            let j = assoc_index(t, x);
            let j2 = if j < i { j } else { j + 1 };
            assert(s[j2].0 == x);
        }
    }
    assert forall|x: K| #[trigger] assoc_map(t).contains_key(x) implies assoc_map(t)[x] == m[x] by {
        let j = assoc_index(t, x);
        lemma_assoc_at(t, j);
        let j2 = if j < i { j } else { j + 1 };
        assert(s[j2] == t[j]);
        lemma_assoc_at(s, j2);
    }
    assert(assoc_map(t) =~= m);
}

/// A list with distinct keys has as many entries as its map has keys.
pub proof fn lemma_assoc_len<K, V>(s: Seq<(K, V)>)
    requires
        keys_unique(s),
    ensures
        assoc_map(s).dom().finite(),
        assoc_map(s).dom().len() == s.len(),
    decreases s.len(),
{
    if s.len() == 0 {
        lemma_assoc_empty(s);
    } else {
        let p = s.drop_last();
        assert(keys_unique(p));
        lemma_assoc_len(p);
        let k = s.last().0;
        assert(!assoc_has(p, k)) by {
            if assoc_has(p, k) {
                let j = assoc_index(p, k);
                assert(s[j].0 == k);
                assert(s[s.len() - 1].0 == k);
            }
        }
        lemma_assoc_push(p, k, s.last().1);
        assert(p.push((k, s.last().1)) =~= s);
    }
}

} // verus!
