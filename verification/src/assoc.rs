//! Association lists: sequences of key-value pairs read as finite maps over the
//! views of their keys and values.

use vstd::prelude::*;

verus! {

/// Whether some pair of `s` has a key whose view is `k`.
pub open spec fn has_key<K: View, V>(s: Seq<(K, V)>, k: K::V) -> bool {
    exists|i: int| 0 <= i < s.len() && (#[trigger] s[i]).0@ == k
}

/// The position of a pair of `s` whose key has view `k`, where there is one.
pub open spec fn index_of<K: View, V>(s: Seq<(K, V)>, k: K::V) -> int {
    choose|i: int| 0 <= i < s.len() && (#[trigger] s[i]).0@ == k
}

/// No two pairs of `s` have keys with the same view.
pub open spec fn distinct_keys<K: View, V>(s: Seq<(K, V)>) -> bool {
    forall|i: int, j: int|
        0 <= i < j < s.len() ==> (#[trigger] s[i]).0@ != (#[trigger] s[j]).0@
}

/// The map that `s` stands for: each key's view bound to the view of the value
/// paired with it.
pub open spec fn to_map<K: View, V: View>(s: Seq<(K, V)>) -> Map<K::V, V::V> {
    Map::new(|k: K::V| has_key(s, k), |k: K::V| s[index_of(s, k)].1@)
}

/// In a list with distinct keys, the pair at position `i` is the binding of its key.
pub proof fn lemma_to_map_at<K: View, V: View>(s: Seq<(K, V)>, i: int)
    requires
        distinct_keys(s),
        0 <= i < s.len(),
    ensures
        to_map(s).contains_key(s[i].0@),
        to_map(s)[s[i].0@] == s[i].1@,
{
    let k = s[i].0@;
    assert(has_key(s, k));
    let j = index_of(s, k);
    assert(0 <= j < s.len() && s[j].0@ == k);
    assert(j == i);
}

/// A key outside the list is outside the map.
pub proof fn lemma_to_map_absent<K: View, V: View>(s: Seq<(K, V)>, k: K::V)
    requires
        forall|i: int| 0 <= i < s.len() ==> (#[trigger] s[i]).0@ != k,
    ensures
        !to_map(s).contains_key(k),
{
}

/// Appending a pair with a new key inserts its binding.
pub proof fn lemma_to_map_push<K: View, V: View>(s: Seq<(K, V)>, pair: (K, V))
    requires
        distinct_keys(s),
        !has_key(s, pair.0@),
    ensures
        distinct_keys(s.push(pair)),
        to_map(s.push(pair)) == to_map(s).insert(pair.0@, pair.1@),
{
    let t = s.push(pair);
    assert forall|i: int, j: int| 0 <= i < j < t.len() implies (#[trigger] t[i]).0@ != (
    #[trigger] t[j]).0@ by {
        if j == s.len() {
            assert(s[i].0@ != pair.0@);
        } else {
            assert(s[i].0@ != s[j].0@);
        }
    }
    assert forall|k: K::V| #[trigger] has_key(t, k) <==> (has_key(s, k) || k == pair.0@) by {
        if has_key(t, k) {
            let i = index_of(t, k);
            if i < s.len() {
                assert(s[i].0@ == k);
            }
        }
        if has_key(s, k) {
            let i = index_of(s, k);
            assert(t[i].0@ == k);
        }
        if k == pair.0@ {
            assert(t[s.len() as int].0@ == k);
        }
    }
    assert forall|k: K::V| #[trigger] has_key(t, k) implies to_map(t)[k] == to_map(s).insert(
        pair.0@,
        pair.1@,
    )[k] by {
        let i = index_of(t, k);
        lemma_to_map_at(t, i);
        if i < s.len() {
            lemma_to_map_at(s, i);
        }
    }
    assert(to_map(t) =~= to_map(s).insert(pair.0@, pair.1@));
}

/// Replacing the pair at position `i` by one with the same key rebinds that key.
pub proof fn lemma_to_map_update<K: View, V: View>(s: Seq<(K, V)>, i: int, pair: (K, V))
    requires
        distinct_keys(s),
        0 <= i < s.len(),
        pair.0@ == s[i].0@,
    ensures
        distinct_keys(s.update(i, pair)),
        to_map(s.update(i, pair)) == to_map(s).insert(pair.0@, pair.1@),
{
    let t = s.update(i, pair);
    assert forall|a: int, b: int| 0 <= a < b < t.len() implies (#[trigger] t[a]).0@ != (
    #[trigger] t[b]).0@ by {
        assert(s[a].0@ != s[b].0@);
    }
    assert forall|k: K::V| #[trigger] has_key(t, k) <==> has_key(s, k) by {
        if has_key(t, k) {
            let j = index_of(t, k);
            assert(s[j].0@ == k);
        }
        if has_key(s, k) {
            let j = index_of(s, k);
            assert(t[j].0@ == k);
        }
    }
    assert(has_key(s, pair.0@)) by {
        assert(s[i].0@ == pair.0@);
    }
    assert forall|k: K::V| #[trigger] has_key(t, k) implies to_map(t)[k] == to_map(s).insert(
        pair.0@,
        pair.1@,
    )[k] by {
        let j = index_of(t, k);
        lemma_to_map_at(t, j);
        if j != i {
            lemma_to_map_at(s, j);
        }
    }
    assert(to_map(t) =~= to_map(s).insert(pair.0@, pair.1@));
}

/// Taking out the pair at position `i` removes the binding of its key.
pub proof fn lemma_to_map_remove<K: View, V: View>(s: Seq<(K, V)>, i: int)
    requires
        distinct_keys(s),
        0 <= i < s.len(),
    ensures
        distinct_keys(s.remove(i)),
        to_map(s.remove(i)) == to_map(s).remove(s[i].0@),
{
    let t = s.remove(i);
    let gone = s[i].0@;
    assert forall|a: int, b: int| 0 <= a < b < t.len() implies (#[trigger] t[a]).0@ != (
    #[trigger] t[b]).0@ by {
        let a0 = if a < i { a } else { a + 1 };
        let b0 = if b < i { b } else { b + 1 };
        assert(s[a0].0@ != s[b0].0@);
    }
    assert forall|k: K::V| #[trigger] has_key(t, k) <==> (has_key(s, k) && k != gone) by {
        if has_key(t, k) {
            let j = index_of(t, k);
            let j0 = if j < i { j } else { j + 1 };
            assert(s[j0].0@ == k);
            if j0 < i {
                assert(s[j0].0@ != s[i].0@);
            } else {
                assert(s[i].0@ != s[j0].0@);
            }
        }
        if has_key(s, k) && k != gone {
            let j = index_of(s, k);
            let j1 = if j < i { j } else { j - 1 };
            assert(t[j1].0@ == k);
        }
    }
    assert forall|k: K::V| #[trigger] has_key(t, k) implies to_map(t)[k] == to_map(s)[k] by {
        let j = index_of(t, k);
        let j0 = if j < i { j } else { j + 1 };
        lemma_to_map_at(t, j);
        lemma_to_map_at(s, j0);
    }
    assert(to_map(t) =~= to_map(s).remove(gone));
}

/// A list with distinct keys and a list whose pairs have the same views, position
/// by position, stand for the same map.
pub proof fn lemma_to_map_same_views<K: View, V: View>(s: Seq<(K, V)>, t: Seq<(K, V)>)
    requires
        distinct_keys(s),
        s.len() == t.len(),
        forall|i: int| 0 <= i < s.len() ==> (#[trigger] s[i])@ == t[i]@,
    ensures
        distinct_keys(t),
        to_map(s) == to_map(t),
{
    assert forall|i: int| 0 <= i < s.len() implies (#[trigger] s[i]).0@ == t[i].0@ && s[i].1@
        == t[i].1@ by {
        assert(s[i]@ == t[i]@);
    }
    assert forall|i: int, j: int| 0 <= i < j < t.len() implies (#[trigger] t[i]).0@ != (
    #[trigger] t[j]).0@ by {
        assert(s[i].0@ != s[j].0@);
    }
    assert forall|k: K::V| has_key(s, k) == has_key(t, k) by {
        if has_key(s, k) {
            let i = index_of(s, k);
            assert(t[i].0@ == k);
        }
        if has_key(t, k) {
            let i = index_of(t, k);
            assert(s[i].0@ == k);
        }
    }
    assert forall|k: K::V| has_key(s, k) implies to_map(s)[k] == to_map(t)[k] by {
        let i = index_of(s, k);
        assert(t[i].0@ == k);
        lemma_to_map_at(s, i);
        lemma_to_map_at(t, i);
    }
    assert(to_map(s) =~= to_map(t));
}

} // verus!
