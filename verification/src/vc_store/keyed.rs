//! Sequences of key/value pairs whose keys are distinct, read as finite maps.
//! The stores keep their rows in vectors; these lemmas relate the edits made
//! to a vector with the resulting edits of the map it stands for.

use vstd::prelude::*;

verus! {

/// No key occurs twice in `s`.
pub open spec fn keys_distinct<K, V>(s: Seq<(K, V)>) -> bool {
    forall|i: int, j: int|
        0 <= i < s.len() && 0 <= j < s.len() && i != j ==> #[trigger] s[i].0 != #[trigger] s[j].0
}

/// Some row of `s` has key `k`.
pub open spec fn has_key<K, V>(s: Seq<(K, V)>, k: K) -> bool {
    exists|i: int| 0 <= i < s.len() && #[trigger] s[i].0 == k
}

/// The map from each key of `s` to the value stored beside it.
pub open spec fn to_map<K, V>(s: Seq<(K, V)>) -> Map<K, V> {
    Map::new(
        |k: K| has_key(s, k),
        |k: K| s[choose|i: int| 0 <= i < s.len() && #[trigger] s[i].0 == k].1,
    )
}

/// The row at index `i` is what the map holds under its key.
pub proof fn lemma_to_map_at<K, V>(s: Seq<(K, V)>, i: int)
    requires
        keys_distinct(s),
        0 <= i < s.len(),
    ensures
        to_map(s).contains_key(s[i].0),
        to_map(s)[s[i].0] == s[i].1,
{
    let k = s[i].0;
    assert(has_key(s, k));
    let c = choose|j: int| 0 <= j < s.len() && #[trigger] s[j].0 == k;
    assert(c == i);
}

/// Overwriting a row in place with a row of the same key.
pub proof fn lemma_to_map_update<K, V>(s: Seq<(K, V)>, i: int, v: (K, V))
    requires
        keys_distinct(s),
        0 <= i < s.len(),
        v.0 == s[i].0,
    ensures
        keys_distinct(s.update(i, v)),
        to_map(s.update(i, v)) == to_map(s).insert(v.0, v.1),
{
    let t = s.update(i, v);
    assert(keys_distinct(t)) by {
        assert forall|a: int, b: int|
            0 <= a < t.len() && 0 <= b < t.len() && a != b implies #[trigger] t[a].0
            != #[trigger] t[b].0 by {
            assert(t[a].0 == s[a].0);
            assert(t[b].0 == s[b].0);
        }
    }
    assert forall|k: K| #[trigger] has_key(t, k) == (has_key(s, k) || k == v.0) by {
        if has_key(s, k) {
            let j = choose|j: int| 0 <= j < s.len() && #[trigger] s[j].0 == k;
            assert(t[j].0 == k);
        }
        if has_key(t, k) {
            let j = choose|j: int| 0 <= j < t.len() && #[trigger] t[j].0 == k;
            assert(s[j].0 == k);
        }
        if k == v.0 {
            assert(t[i].0 == k);
        }
    }
    assert forall|k: K| #[trigger] to_map(t).contains_key(k) implies to_map(t)[k] == to_map(
        s,
    ).insert(v.0, v.1)[k] by {
        let j = choose|j: int| 0 <= j < t.len() && #[trigger] t[j].0 == k;
        lemma_to_map_at(t, j);
        if j != i {
            lemma_to_map_at(s, j);
        }
    }
    assert(to_map(t) =~= to_map(s).insert(v.0, v.1));
}

/// Appending a row whose key is new.
pub proof fn lemma_to_map_push<K, V>(s: Seq<(K, V)>, v: (K, V))
    requires
        keys_distinct(s),
        !has_key(s, v.0),
    ensures
        keys_distinct(s.push(v)),
        to_map(s.push(v)) == to_map(s).insert(v.0, v.1),
{
    let t = s.push(v);
    assert(keys_distinct(t)) by {
        assert forall|a: int, b: int|
            0 <= a < t.len() && 0 <= b < t.len() && a != b implies #[trigger] t[a].0
            != #[trigger] t[b].0 by {
            if a == s.len() {
                assert(s[b].0 == t[b].0);
            } else if b == s.len() {
                assert(s[a].0 == t[a].0);
            } else {
                assert(s[a] == t[a] && s[b] == t[b]);
            }
        }
    }
    assert forall|k: K| #[trigger] has_key(t, k) == (has_key(s, k) || k == v.0) by {
        if has_key(s, k) {
            let j = choose|j: int| 0 <= j < s.len() && #[trigger] s[j].0 == k;
            assert(t[j].0 == k);
        }
        if has_key(t, k) {
            let j = choose|j: int| 0 <= j < t.len() && #[trigger] t[j].0 == k;
            if j < s.len() {
                assert(s[j].0 == k);
            }
        }
        if k == v.0 {
            assert(t[s.len() as int].0 == k);
        }
    }
    assert forall|k: K| #[trigger] to_map(t).contains_key(k) implies to_map(t)[k] == to_map(
        s,
    ).insert(v.0, v.1)[k] by {
        let j = choose|j: int| 0 <= j < t.len() && #[trigger] t[j].0 == k;
        lemma_to_map_at(t, j);
        if j < s.len() {
            assert(t[j] == s[j]);
            lemma_to_map_at(s, j);
        }
    }
    assert(to_map(t) =~= to_map(s).insert(v.0, v.1));
}

/// Dropping the row at index `i`.
pub proof fn lemma_to_map_remove<K, V>(s: Seq<(K, V)>, i: int)
    requires
        keys_distinct(s),
        0 <= i < s.len(),
    ensures
        keys_distinct(s.remove(i)),
        to_map(s.remove(i)) == to_map(s).remove(s[i].0),
{
    let t = s.remove(i);
    let k0 = s[i].0;
    assert forall|a: int| 0 <= a < t.len() implies #[trigger] t[a] == s[if a < i {
        a
    } else {
        a + 1
    }] by {}
    assert(keys_distinct(t)) by {
        assert forall|a: int, b: int|
            0 <= a < t.len() && 0 <= b < t.len() && a != b implies #[trigger] t[a].0
            != #[trigger] t[b].0 by {
            let a1 = if a < i {
                a
            } else {
                a + 1
            };
            let b1 = if b < i {
                b
            } else {
                b + 1
            };
            assert(t[a] == s[a1] && t[b] == s[b1]);
        }
    }
    assert forall|k: K| #[trigger] has_key(t, k) == (has_key(s, k) && k != k0) by {
        if has_key(s, k) && k != k0 {
            let j = choose|j: int| 0 <= j < s.len() && #[trigger] s[j].0 == k;
            let j1 = if j < i {
                j
            } else {
                j - 1
            };
            assert(t[j1] == s[j]);
        }
        if has_key(t, k) {
            let j = choose|j: int| 0 <= j < t.len() && #[trigger] t[j].0 == k;
            let j1 = if j < i {
                j
            } else {
                j + 1
            };
            assert(t[j] == s[j1]);
            assert(s[j1].0 == k);
        }
    }
    assert forall|k: K| #[trigger] to_map(t).contains_key(k) implies to_map(t)[k] == to_map(
        s,
    ).remove(k0)[k] by {
        let j = choose|j: int| 0 <= j < t.len() && #[trigger] t[j].0 == k;
        let j1 = if j < i {
            j
        } else {
            j + 1
        };
        assert(t[j] == s[j1]);
        lemma_to_map_at(t, j);
        lemma_to_map_at(s, j1);
    }
    assert(to_map(t) =~= to_map(s).remove(k0));
}

/// The first `i + 1` rows stand for the map of the first `i` rows with row
/// `i` added.
pub proof fn lemma_to_map_take_step<K, V>(s: Seq<(K, V)>, i: int)
    requires
        keys_distinct(s),
        0 <= i < s.len(),
    ensures
        keys_distinct(s.take(i)),
        !has_key(s.take(i), s[i].0),
        keys_distinct(s.take(i + 1)),
        to_map(s.take(i + 1)) == to_map(s.take(i)).insert(s[i].0, s[i].1),
{
    let t = s.take(i);
    assert(keys_distinct(t)) by {
        assert forall|a: int, b: int|
            0 <= a < t.len() && 0 <= b < t.len() && a != b implies #[trigger] t[a].0
            != #[trigger] t[b].0 by {
            assert(t[a] == s[a] && t[b] == s[b]);
        }
    }
    if has_key(t, s[i].0) {
        let j = choose|j: int| 0 <= j < t.len() && #[trigger] t[j].0 == s[i].0;
        assert(t[j] == s[j]);
    }
    assert(s.take(i + 1) =~= t.push(s[i]));
    lemma_to_map_push(t, s[i]);
}

/// A key that no row holds is absent from the map.
pub proof fn lemma_to_map_absent<K, V>(s: Seq<(K, V)>, k: K)
    requires
        !has_key(s, k),
    ensures
        !to_map(s).contains_key(k),
        to_map(s).remove(k) == to_map(s),
{
    assert(to_map(s).remove(k) =~= to_map(s));
}

/// Without rows the map is empty.
pub proof fn lemma_to_map_empty<K, V>()
    ensures
        keys_distinct(Seq::<(K, V)>::empty()),
        to_map(Seq::<(K, V)>::empty()) == Map::<K, V>::empty(),
{
    assert(to_map(Seq::<(K, V)>::empty()) =~= Map::<K, V>::empty());
}

} // verus!
