//! Small association lists: a `Vec` of `(key, value)` pairs whose keys are
//! distinct, seen as a `Map`.

use vstd::prelude::*;

verus! {

/// No key occurs twice.
pub open spec fn keys_distinct<K, V>(s: Seq<(K, V)>) -> bool {
    forall|i: int, j: int|
        0 <= i < s.len() && 0 <= j < s.len() && #[trigger] s[i].0 == #[trigger] s[j].0 ==> i == j
}

/// `k` is a key of some pair.
pub open spec fn has_key<K, V>(s: Seq<(K, V)>, k: K) -> bool {
    exists|i: int| 0 <= i < s.len() && #[trigger] s[i].0 == k
}

/// The map that the pairs stand for.
pub open spec fn pairs_map<K, V>(s: Seq<(K, V)>) -> Map<K, V> {
    Map::new(
        |k: K| has_key(s, k),
        |k: K| s[choose|i: int| 0 <= i < s.len() && #[trigger] s[i].0 == k].1,
    )
}

/// Some pair holds value `v`.
pub open spec fn has_value<K, V>(s: Seq<(K, V)>, v: V) -> bool {
    exists|i: int| 0 <= i < s.len() && #[trigger] s[i].1 == v
}

pub proof fn lemma_pairs_at<K, V>(s: Seq<(K, V)>, i: int)
    requires
        keys_distinct(s),
        0 <= i < s.len(),
    ensures
        pairs_map(s).contains_key(s[i].0),
        pairs_map(s)[s[i].0] == s[i].1,
{
    let k = s[i].0;
    assert(has_key(s, k));
    let j = choose|j: int| 0 <= j < s.len() && #[trigger] s[j].0 == k;
    assert(s[j].0 == s[i].0);
}

pub proof fn lemma_pairs_absent<K, V>(s: Seq<(K, V)>, k: K)
    requires
        forall|i: int| 0 <= i < s.len() ==> #[trigger] s[i].0 != k,
    ensures
        !pairs_map(s).contains_key(k),
{
}

/// Replacing the value of the pair at `i`.
pub proof fn lemma_pairs_update<K, V>(s: Seq<(K, V)>, i: int, v: V)
    requires
        keys_distinct(s),
        0 <= i < s.len(),
    ensures
        keys_distinct(s.update(i, (s[i].0, v))),
        pairs_map(s.update(i, (s[i].0, v))) =~= pairs_map(s).insert(s[i].0, v),
{
    let t = s.update(i, (s[i].0, v));
    assert forall|a: int, b: int|
        0 <= a < t.len() && 0 <= b < t.len() && #[trigger] t[a].0 == #[trigger] t[b].0 implies a == b by {
        assert(t[a].0 == s[a].0 && t[b].0 == s[b].0);
    }
    let m = pairs_map(t);
    let n = pairs_map(s).insert(s[i].0, v);
    assert forall|k: K| #[trigger] m.contains_key(k) <==> n.contains_key(k) by {
        if m.contains_key(k) {
            let j = choose|j: int| 0 <= j < t.len() && #[trigger] t[j].0 == k;
            if j != i {
                assert(s[j].0 == k);
                assert(has_key(s, k));
            }
        }
        if n.contains_key(k) {
            if k == s[i].0 {
                assert(t[i].0 == k);
                assert(has_key(t, k));
            } else {
                let j = choose|j: int| 0 <= j < s.len() && #[trigger] s[j].0 == k;
                assert(t[j].0 == k);
                assert(has_key(t, k));
            }
        }
    }
    assert forall|k: K| #[trigger] m.contains_key(k) implies m[k] == n[k] by {
        let j = choose|j: int| 0 <= j < t.len() && #[trigger] t[j].0 == k;
        lemma_pairs_at(t, j);
        if j == i {
        } else {
            assert(t[j] == s[j]);
            lemma_pairs_at(s, j);
        }
    }
}

/// Appending a pair with a new key.
pub proof fn lemma_pairs_push<K, V>(s: Seq<(K, V)>, k: K, v: V)
    requires
        keys_distinct(s),
        !pairs_map(s).contains_key(k),
    ensures
        keys_distinct(s.push((k, v))),
        pairs_map(s.push((k, v))) =~= pairs_map(s).insert(k, v),
{
    let t = s.push((k, v));
    assert forall|a: int, b: int|
        0 <= a < t.len() && 0 <= b < t.len() && #[trigger] t[a].0 == #[trigger] t[b].0 implies a == b by {
        if a < s.len() && b < s.len() {
            assert(t[a] == s[a] && t[b] == s[b]);
        } else if a < s.len() {
            assert(t[a] == s[a]);
            assert(has_key(s, k));
        } else if b < s.len() {
            assert(t[b] == s[b]);
            assert(has_key(s, k));
        }
    }
    let m = pairs_map(t);
    let n = pairs_map(s).insert(k, v);
    assert forall|x: K| #[trigger] m.contains_key(x) <==> n.contains_key(x) by {
        if m.contains_key(x) {
            let j = choose|j: int| 0 <= j < t.len() && #[trigger] t[j].0 == x;
            if j < s.len() {
                assert(s[j].0 == x);
                assert(has_key(s, x));
            }
        }
        if n.contains_key(x) {
            if x == k {
                assert(t[s.len() as int].0 == x);
                assert(has_key(t, x));
            } else {
                let j = choose|j: int| 0 <= j < s.len() && #[trigger] s[j].0 == x;
                assert(t[j].0 == x);
                assert(has_key(t, x));
            }
        }
    }
    assert forall|x: K| #[trigger] m.contains_key(x) implies m[x] == n[x] by {
        let j = choose|j: int| 0 <= j < t.len() && #[trigger] t[j].0 == x;
        lemma_pairs_at(t, j);
        if j < s.len() {
            assert(t[j] == s[j]);
            lemma_pairs_at(s, j);
        }
    }
}

/// Removing the pair at `i`.
pub proof fn lemma_pairs_remove<K, V>(s: Seq<(K, V)>, i: int)
    requires
        keys_distinct(s),
        0 <= i < s.len(),
    ensures
        keys_distinct(s.remove(i)),
        pairs_map(s.remove(i)) =~= pairs_map(s).remove(s[i].0),
        forall|v: V| #[trigger] has_value(s.remove(i), v) <==> exists|j: int|
            0 <= j < s.len() && j != i && #[trigger] s[j].1 == v,
{
    let t = s.remove(i);
    assert forall|a: int| 0 <= a < t.len() implies #[trigger] t[a] == (if a < i {
        s[a]
    } else {
        s[a + 1]
    }) by {}
    assert forall|a: int, b: int|
        0 <= a < t.len() && 0 <= b < t.len() && #[trigger] t[a].0 == #[trigger] t[b].0 implies a == b by {
        let a1 = if a < i { a } else { a + 1 };
        let b1 = if b < i { b } else { b + 1 };
        assert(t[a] == s[a1] && t[b] == s[b1]);
    }
    let m = pairs_map(t);
    let n = pairs_map(s).remove(s[i].0);
    assert forall|x: K| #[trigger] m.contains_key(x) <==> n.contains_key(x) by {
        if m.contains_key(x) {
            let j = choose|j: int| 0 <= j < t.len() && #[trigger] t[j].0 == x;
            let j1 = if j < i { j } else { j + 1 };
            assert(s[j1].0 == x);
            assert(has_key(s, x));
            assert(j1 != i);
        }
        if n.contains_key(x) {
            let j = choose|j: int| 0 <= j < s.len() && #[trigger] s[j].0 == x;
            assert(j != i);
            let j0 = if j < i { j } else { j - 1 };
            assert(t[j0].0 == x);
            assert(has_key(t, x));
        }
    }
    assert forall|x: K| #[trigger] m.contains_key(x) implies m[x] == n[x] by {
        let j = choose|j: int| 0 <= j < t.len() && #[trigger] t[j].0 == x;
        lemma_pairs_at(t, j);
        let j1 = if j < i { j } else { j + 1 };
        assert(t[j] == s[j1]);
        lemma_pairs_at(s, j1);
    }
    assert forall|v: V| #[trigger] has_value(t, v) <==> exists|j: int|
        0 <= j < s.len() && j != i && #[trigger] s[j].1 == v by {
        if has_value(t, v) {
            let a = choose|a: int| 0 <= a < t.len() && #[trigger] t[a].1 == v;
            let a1 = if a < i { a } else { a + 1 };
            assert(s[a1].1 == v);
        }
        if exists|j: int| 0 <= j < s.len() && j != i && #[trigger] s[j].1 == v {
            let j = choose|j: int| 0 <= j < s.len() && j != i && #[trigger] s[j].1 == v;
            let j0 = if j < i { j } else { j - 1 };
            assert(t[j0].1 == v);
        }
    }
}

/// `has_value` read through the map.
pub proof fn lemma_has_value_map<K, V>(s: Seq<(K, V)>, v: V)
    requires
        keys_distinct(s),
    ensures
        has_value(s, v) <==> exists|k: K| #[trigger] pairs_map(s).contains_key(k) && pairs_map(s)[k] == v,
{
    if has_value(s, v) {
        let i = choose|i: int| 0 <= i < s.len() && #[trigger] s[i].1 == v;
        lemma_pairs_at(s, i);
        assert(pairs_map(s).contains_key(s[i].0));
    }
    if exists|k: K| #[trigger] pairs_map(s).contains_key(k) && pairs_map(s)[k] == v {
        let k = choose|k: K| #[trigger] pairs_map(s).contains_key(k) && pairs_map(s)[k] == v;
        let i = choose|i: int| 0 <= i < s.len() && #[trigger] s[i].0 == k;
        lemma_pairs_at(s, i);
        assert(s[i].1 == v);
    }
}

} // verus!
