use vstd::prelude::*;

verus! {

/// The map that a list of distinct keys and a list of values of the same
/// length stand for: each key is bound to the value at its position.
pub open spec fn assoc<K, V>(keys: Seq<K>, vals: Seq<V>) -> Map<K, V> {
    Map::new(|k: K| keys.contains(k), |k: K| vals[keys.index_of(k)])
}

/// The keys are distinct and each has a value.
pub open spec fn assoc_ok<K, V>(keys: Seq<K>, vals: Seq<V>) -> bool {
    keys.no_duplicates() && keys.len() == vals.len()
}

/// The key at position `i` is bound to the value at position `i`.
pub proof fn lemma_assoc_at<K, V>(keys: Seq<K>, vals: Seq<V>, i: int)
    requires
        assoc_ok(keys, vals),
        0 <= i < keys.len(),
    ensures
        assoc(keys, vals).dom().contains(keys[i]),
        assoc(keys, vals)[keys[i]] == vals[i],
{
    assert(keys.contains(keys[i]));
    let j = keys.index_of(keys[i]);
    assert(0 <= j < keys.len() && keys[j] == keys[i]);
}

/// A bound key stands at some position, with its value.
pub proof fn lemma_assoc_position<K, V>(keys: Seq<K>, vals: Seq<V>, k: K) -> (i: int)
    requires
        assoc_ok(keys, vals),
        assoc(keys, vals).dom().contains(k),
    ensures
        0 <= i < keys.len(),
        keys[i] == k,
        assoc(keys, vals)[k] == vals[i],
{
    let i = keys.index_of(k);
    assert(keys.contains(k));
    i
}

/// The map is finite, with as many bindings as there are keys.
pub proof fn lemma_assoc_len<K, V>(keys: Seq<K>, vals: Seq<V>)
    requires
        assoc_ok(keys, vals),
    ensures
        assoc(keys, vals).dom().finite(),
        assoc(keys, vals).dom().len() == keys.len(),
{
    assert(assoc(keys, vals).dom() =~= keys.to_set());
    keys.unique_seq_to_set();
}

/// Appending a fresh key with a value binds that key and leaves the rest.
pub proof fn lemma_assoc_push<K, V>(keys: Seq<K>, vals: Seq<V>, k: K, v: V)
    requires
        assoc_ok(keys, vals),
        !keys.contains(k),
    ensures
        assoc_ok(keys.push(k), vals.push(v)),
        assoc(keys.push(k), vals.push(v)) == assoc(keys, vals).insert(k, v),
{
    let keys2 = keys.push(k);
    let vals2 = vals.push(v);
    assert forall|i: int, j: int| 0 <= i < keys2.len() && 0 <= j < keys2.len() && i != j implies keys2[i]
        != keys2[j] by {
        if i < keys.len() {
            assert(keys.contains(keys[i]));
        }
        if j < keys.len() {
            assert(keys.contains(keys[j]));
        }
    }
    assert forall|q: K| assoc(keys2, vals2).dom().contains(q) <==> assoc(keys, vals).insert(
        k,
        v,
    ).dom().contains(q) by {
        if keys2.contains(q) {
            let i = choose|i: int| 0 <= i < keys2.len() && keys2[i] == q;
            if i < keys.len() {
                assert(keys[i] == q);
            }
        }
        if keys.contains(q) {
            let i = choose|i: int| 0 <= i < keys.len() && keys[i] == q;
            assert(keys2[i] == q);
        }
        if q == k {
            assert(keys2[keys.len() as int] == q);
        }
    }
    assert forall|q: K| assoc(keys2, vals2).dom().contains(q) implies #[trigger] assoc(
        keys2,
        vals2,
    )[q] == assoc(keys, vals).insert(k, v)[q] by {
        let i = lemma_assoc_position(keys2, vals2, q);
        if i < keys.len() {
            assert(keys[i] == q);
            lemma_assoc_at(keys, vals, i);
        }
    }
    assert(assoc(keys2, vals2) =~= assoc(keys, vals).insert(k, v));
}

/// Dropping position `i` unbinds the key that stood there and leaves the rest.
pub proof fn lemma_assoc_remove<K, V>(keys: Seq<K>, vals: Seq<V>, i: int)
    requires
        assoc_ok(keys, vals),
        0 <= i < keys.len(),
    ensures
        assoc_ok(keys.remove(i), vals.remove(i)),
        !keys.remove(i).contains(keys[i]),
        assoc(keys.remove(i), vals.remove(i)) == assoc(keys, vals).remove(keys[i]),
{
    let keys2 = keys.remove(i);
    let vals2 = vals.remove(i);
    assert forall|a: int, b: int| 0 <= a < keys2.len() && 0 <= b < keys2.len() && a != b implies keys2[a]
        != keys2[b] by {
        let a1 = if a < i { a } else { a + 1 };
        let b1 = if b < i { b } else { b + 1 };
        assert(keys2[a] == keys[a1] && keys2[b] == keys[b1]);
    }
    assert forall|a: int| 0 <= a < keys2.len() implies keys2[a] != keys[i] by {
        let a1 = if a < i { a } else { a + 1 };
        assert(keys2[a] == keys[a1]);
    }
    assert forall|q: K| assoc(keys2, vals2).dom().contains(q) <==> assoc(keys, vals).remove(
        keys[i],
    ).dom().contains(q) by {
        if keys2.contains(q) {
            let a = choose|a: int| 0 <= a < keys2.len() && keys2[a] == q;
            let a1 = if a < i { a } else { a + 1 };
            assert(keys[a1] == q);
        }
        if keys.contains(q) && q != keys[i] {
            let a = choose|a: int| 0 <= a < keys.len() && keys[a] == q;
            let a2 = if a < i { a } else { a - 1 };
            assert(keys2[a2] == q);
        }
    }
    assert forall|q: K| assoc(keys2, vals2).dom().contains(q) implies #[trigger] assoc(
        keys2,
        vals2,
    )[q] == assoc(keys, vals).remove(keys[i])[q] by {
        let a = lemma_assoc_position(keys2, vals2, q);
        let a1 = if a < i { a } else { a + 1 };
        assert(keys[a1] == q);
        lemma_assoc_at(keys, vals, a1);
    }
    assert(assoc(keys2, vals2) =~= assoc(keys, vals).remove(keys[i]));
}

/// Replacing the value at position `i` rebinds the key that stands there.
pub proof fn lemma_assoc_update<K, V>(keys: Seq<K>, vals: Seq<V>, i: int, v: V)
    requires
        assoc_ok(keys, vals),
        0 <= i < keys.len(),
    ensures
        assoc_ok(keys, vals.update(i, v)),
        assoc(keys, vals.update(i, v)) == assoc(keys, vals).insert(keys[i], v),
{
    let vals2 = vals.update(i, v);
    assert(keys.contains(keys[i]));
    assert forall|q: K| assoc(keys, vals2).dom().contains(q) implies #[trigger] assoc(keys, vals2)[q]
        == assoc(keys, vals).insert(keys[i], v)[q] by {
        let a = lemma_assoc_position(keys, vals2, q);
        lemma_assoc_at(keys, vals, a);
    }
    assert(assoc(keys, vals2) =~= assoc(keys, vals).insert(keys[i], v));
}

} // verus!
