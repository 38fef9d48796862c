use vstd::prelude::*;

verus! {

/// The keys of a list of key/value pairs, in order.
pub open spec fn keys_of<K, V>(s: Seq<(K, V)>) -> Seq<K> {
    s.map_values(|e: (K, V)| e.0)
}

/// No key occurs twice in the list.
pub open spec fn unique_keys<K, V>(s: Seq<(K, V)>) -> bool {
    forall|i: int, j: int|
        0 <= i < s.len() && 0 <= j < s.len() && i != j ==> (#[trigger] s[i]).0 != (#[trigger] s[j]).0
}

/// Some pair of the list has key `key`.
pub open spec fn has_key<K, V>(s: Seq<(K, V)>, key: K) -> bool {
    exists|i: int| 0 <= i < s.len() && (#[trigger] s[i]).0 == key
}

/// The position of `key` in the list, when it occurs.
pub open spec fn index_of_key<K, V>(s: Seq<(K, V)>, key: K) -> int {
    choose|i: int| 0 <= i < s.len() && (#[trigger] s[i]).0 == key
}

/// The map that a list of key/value pairs with unique keys stands for.
pub open spec fn map_of<K, V>(s: Seq<(K, V)>) -> Map<K, V> {
    Map::new(|key: K| has_key(s, key), |key: K| s[index_of_key(s, key)].1)
}

/// A pair of the list gives the map's value at its key.
pub proof fn lemma_map_of_index<K, V>(s: Seq<(K, V)>, i: int)
    requires
        unique_keys(s),
        0 <= i < s.len(),
    ensures
        map_of(s).contains_key(s[i].0),
        map_of(s)[s[i].0] == s[i].1,
        index_of_key(s, s[i].0) == i,
{
    assert(has_key(s, s[i].0));
    let j = index_of_key(s, s[i].0);
    assert(s[j].0 == s[i].0);
}

/// Replacing the value of the pair at `i` updates the map at that key only.
pub proof fn lemma_map_of_update<K, V>(s: Seq<(K, V)>, i: int, v: V)
    requires
        unique_keys(s),
        0 <= i < s.len(),
    ensures
        unique_keys(s.update(i, (s[i].0, v))),
        map_of(s.update(i, (s[i].0, v))) == map_of(s).insert(s[i].0, v),
{
    let t = s.update(i, (s[i].0, v));
    assert forall|a: int, b: int|
        0 <= a < t.len() && 0 <= b < t.len() && a != b implies (#[trigger] t[a]).0 != (
        #[trigger] t[b]).0 by {
        assert(t[a].0 == s[a].0);
        assert(t[b].0 == s[b].0);
    }
    lemma_map_of_index(s, i);
    assert forall|key: K| #[trigger] has_key(t, key) <==> has_key(s, key) by {
        if has_key(t, key) {
            let k = choose|k: int| 0 <= k < t.len() && (#[trigger] t[k]).0 == key;
            assert(s[k].0 == key);
        }
        if has_key(s, key) {
            let k = choose|k: int| 0 <= k < s.len() && (#[trigger] s[k]).0 == key;
            assert(t[k].0 == key);
        }
    }
    assert forall|key: K| has_key(t, key) implies #[trigger] map_of(t)[key] == map_of(s).insert(
        s[i].0,
        v,
    )[key] by {
        let k = choose|k: int| 0 <= k < t.len() && (#[trigger] t[k]).0 == key;
        lemma_map_of_index(t, k);
        lemma_map_of_index(s, k);
    }
    assert(map_of(t) =~= map_of(s).insert(s[i].0, v));
}

/// Appending a pair with a new key adds that key to the map.
pub proof fn lemma_map_of_push<K, V>(s: Seq<(K, V)>, e: (K, V))
    requires
        unique_keys(s),
        !has_key(s, e.0),
    ensures
        unique_keys(s.push(e)),
        map_of(s.push(e)) == map_of(s).insert(e.0, e.1),
{
    let t = s.push(e);
    assert forall|a: int, b: int|
        0 <= a < t.len() && 0 <= b < t.len() && a != b implies (#[trigger] t[a]).0 != (
        #[trigger] t[b]).0 by {
        if a < s.len() && b < s.len() {
            assert(t[a] == s[a]);
            assert(t[b] == s[b]);
        } else if a < s.len() {
            assert(t[a] == s[a]);
        } else {
            assert(t[b] == s[b]);
        }
    }
    assert forall|key: K| #[trigger] has_key(t, key) <==> (has_key(s, key) || key == e.0) by {
        if has_key(t, key) {
            let k = choose|k: int| 0 <= k < t.len() && (#[trigger] t[k]).0 == key;
            if k < s.len() {
                assert(s[k].0 == key);
            }
        }
        if has_key(s, key) {
            let k = choose|k: int| 0 <= k < s.len() && (#[trigger] s[k]).0 == key;
            assert(t[k].0 == key);
        }
        if key == e.0 {
            assert(t[s.len() as int].0 == key);
        }
    }
    assert forall|key: K| has_key(t, key) implies #[trigger] map_of(t)[key] == map_of(s).insert(
        e.0,
        e.1,
    )[key] by {
        let k = choose|k: int| 0 <= k < t.len() && (#[trigger] t[k]).0 == key;
        lemma_map_of_index(t, k);
        if k < s.len() {
            assert(t[k] == s[k]);
            lemma_map_of_index(s, k);
        }
    }
    assert(map_of(t) =~= map_of(s).insert(e.0, e.1));
}

/// Removing the pair at `i` removes its key from the map.
pub proof fn lemma_map_of_remove<K, V>(s: Seq<(K, V)>, i: int)
    requires
        unique_keys(s),
        0 <= i < s.len(),
    ensures
        unique_keys(s.remove(i)),
        map_of(s.remove(i)) == map_of(s).remove(s[i].0),
{
    let t = s.remove(i);
    assert forall|a: int, b: int|
        0 <= a < t.len() && 0 <= b < t.len() && a != b implies (#[trigger] t[a]).0 != (
        #[trigger] t[b]).0 by {
        let a2 = if a < i { a } else { a + 1 };
        let b2 = if b < i { b } else { b + 1 };
        assert(t[a] == s[a2]);
        assert(t[b] == s[b2]);
    }
    assert forall|key: K| #[trigger] has_key(t, key) <==> (has_key(s, key) && key != s[i].0) by {
        if has_key(t, key) {
            let k = choose|k: int| 0 <= k < t.len() && (#[trigger] t[k]).0 == key;
            let k2 = if k < i { k } else { k + 1 };
            assert(s[k2].0 == key);
            assert(k2 != i);
        }
        if has_key(s, key) && key != s[i].0 {
            let k = choose|k: int| 0 <= k < s.len() && (#[trigger] s[k]).0 == key;
            if k < i {
                assert(t[k].0 == key);
            } else {
                assert(k != i);
                assert(t[k - 1].0 == key);
            }
        }
    }
    assert forall|key: K| has_key(t, key) implies #[trigger] map_of(t)[key] == map_of(s).remove(
        s[i].0,
    )[key] by {
        let k = choose|k: int| 0 <= k < t.len() && (#[trigger] t[k]).0 == key;
        lemma_map_of_index(t, k);
        let k2 = if k < i { k } else { k + 1 };
        assert(t[k] == s[k2]);
        lemma_map_of_index(s, k2);
    }
    assert(map_of(t) =~= map_of(s).remove(s[i].0));
}

} // verus!
