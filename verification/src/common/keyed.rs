//! Lists of entries with distinct keys, read as maps from keys to values.
//!
//! A list `s` of `(key, value)` pairs in which no two keys have the same view
//! stands for the map from each key's view to its value. The lemmas here say
//! what removing an entry and appending one do to that map.

use vstd::prelude::*;

verus! {

/// Whether some entry of `s` has a key whose view is `k`.
pub open spec fn has_key<K: View, W>(s: Seq<(K, W)>, k: K::V) -> bool {
    exists|i: int| 0 <= i < s.len() && (#[trigger] s[i]).0@ == k
}

/// The value of the entry of `s` whose key's view is `k`, when there is one.
pub open spec fn value_of<K: View, W>(s: Seq<(K, W)>, k: K::V) -> W {
    s[choose|i: int| 0 <= i < s.len() && (#[trigger] s[i]).0@ == k].1
}

/// The map from the view of the key of each entry of `s` to its value.
pub open spec fn keyed_map<K: View, W>(s: Seq<(K, W)>) -> Map<K::V, W> {
    Map::new(|k: K::V| has_key(s, k), |k: K::V| value_of(s, k))
}

/// No two entries of `s` have keys with the same view.
pub open spec fn distinct_keys<K: View, W>(s: Seq<(K, W)>) -> bool {
    forall|i: int, j: int|
        0 <= i < s.len() && 0 <= j < s.len() && i != j ==> (#[trigger] s[i]).0@ != (
        #[trigger] s[j]).0@
}

/// Each entry of a list with distinct keys is in its map.
pub proof fn lemma_entry_in_map<K: View, W>(s: Seq<(K, W)>, i: int)
    requires
        distinct_keys(s),
        0 <= i < s.len(),
    ensures
        keyed_map(s).contains_key(s[i].0@),
        keyed_map(s)[s[i].0@] == s[i].1,
{
    let k = s[i].0@;
    assert(has_key(s, k));
    let j = choose|j: int| 0 <= j < s.len() && (#[trigger] s[j]).0@ == k;
    assert(j == i);
}

/// Removing an entry removes its key from the map.
pub proof fn lemma_map_after_remove<K: View, W>(s: Seq<(K, W)>, i: int)
    requires
        distinct_keys(s),
        0 <= i < s.len(),
    ensures
        distinct_keys(s.remove(i)),
        keyed_map(s.remove(i)) == keyed_map(s).remove(s[i].0@),
{
    let r = s.remove(i);
    let key = s[i].0@;
    assert forall|a: int, b: int|
        0 <= a < r.len() && 0 <= b < r.len() && a != b implies (#[trigger] r[a]).0@ != (
        #[trigger] r[b]).0@ by {
        let a2 = if a < i { a } else { a + 1 };
        let b2 = if b < i { b } else { b + 1 };
        assert(r[a] == s[a2]);
        assert(r[b] == s[b2]);
    }
    assert forall|k: K::V| #[trigger] keyed_map(r).contains_key(k) <==> keyed_map(s).remove(
        key,
    ).contains_key(k) by {
        if has_key(r, k) {
            let a = choose|a: int| 0 <= a < r.len() && (#[trigger] r[a]).0@ == k;
            let a2 = if a < i { a } else { a + 1 };
            assert(r[a] == s[a2]);
            assert(s[a2].0@ == k);
            assert(has_key(s, k));
            assert(k != key);
        }
        if has_key(s, k) && k != key {
            let a = choose|a: int| 0 <= a < s.len() && (#[trigger] s[a]).0@ == k;
            assert(a != i);
            let a2 = if a < i { a } else { a - 1 };
            assert(r[a2] == s[a]);
            assert(has_key(r, k));
        }
    }
    assert forall|k: K::V| #[trigger] keyed_map(r).contains_key(k) implies keyed_map(r)[k]
        == keyed_map(s).remove(key)[k] by {
        let a = choose|a: int| 0 <= a < r.len() && (#[trigger] r[a]).0@ == k;
        let a2 = if a < i { a } else { a + 1 };
        assert(r[a] == s[a2]);
        lemma_entry_in_map(r, a);
        lemma_entry_in_map(s, a2);
    }
    assert(keyed_map(r) =~= keyed_map(s).remove(key));
}

/// Appending an entry with a new key adds that key to the map.
pub proof fn lemma_map_after_push<K: View, W>(s: Seq<(K, W)>, key: K, w: W)
    requires
        distinct_keys(s),
        !has_key(s, key@),
    ensures
        distinct_keys(s.push((key, w))),
        keyed_map(s.push((key, w))) == keyed_map(s).insert(key@, w),
{
    let p = s.push((key, w));
    assert forall|a: int, b: int|
        0 <= a < p.len() && 0 <= b < p.len() && a != b implies (#[trigger] p[a]).0@ != (
        #[trigger] p[b]).0@ by {
        if a < s.len() {
            assert(p[a] == s[a]);
        }
        if b < s.len() {
            assert(p[b] == s[b]);
        }
    }
    assert forall|k: K::V| #[trigger] keyed_map(p).contains_key(k) <==> keyed_map(s).insert(
        key@,
        w,
    ).contains_key(k) by {
        if has_key(p, k) && k != key@ {
            let a = choose|a: int| 0 <= a < p.len() && (#[trigger] p[a]).0@ == k;
            assert(a < s.len());
            assert(p[a] == s[a]);
            assert(has_key(s, k));
        }
        if has_key(s, k) {
            let a = choose|a: int| 0 <= a < s.len() && (#[trigger] s[a]).0@ == k;
            assert(p[a] == s[a]);
            assert(has_key(p, k));
        }
        if k == key@ {
            assert(p[s.len() as int] == (key, w));
            assert(has_key(p, k));
        }
    }
    assert forall|k: K::V| #[trigger] keyed_map(p).contains_key(k) implies keyed_map(p)[k]
        == keyed_map(s).insert(key@, w)[k] by {
        if k == key@ {
            lemma_entry_in_map(p, s.len() as int);
        } else {
            let a = choose|a: int| 0 <= a < p.len() && (#[trigger] p[a]).0@ == k;
            assert(a < s.len());
            assert(p[a] == s[a]);
            lemma_entry_in_map(p, a);
            lemma_entry_in_map(s, a);
        }
    }
    assert(keyed_map(p) =~= keyed_map(s).insert(key@, w));
}

/// Replacing the value of an entry: removing the entry and appending one with
/// the same key gives the map with that key's value replaced.
pub proof fn lemma_map_after_replace<K: View, W>(s: Seq<(K, W)>, i: int, key: K, w: W)
    requires
        distinct_keys(s),
        0 <= i < s.len(),
        s[i].0@ == key@,
    ensures
        distinct_keys(s.remove(i).push((key, w))),
        keyed_map(s.remove(i).push((key, w))) == keyed_map(s).insert(key@, w),
{
    lemma_map_after_remove(s, i);
    let r = s.remove(i);
    assert(!has_key(r, key@)) by {
        if has_key(r, key@) {
            assert(keyed_map(s).remove(key@).contains_key(key@));
        }
    }
    lemma_map_after_push(r, key, w);
    assert(keyed_map(s).remove(key@).insert(key@, w) =~= keyed_map(s).insert(key@, w));
}

} // verus!
