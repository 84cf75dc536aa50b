//! Association lists keyed by strings: the later of two entries with one key wins,
//! as successive insertions into a map would have it.

use vstd::prelude::*;

verus! {

/// The value that the last entry with key `k` holds, if any.
pub open spec fn assoc_get<V>(s: Seq<(Seq<char>, V)>, k: Seq<char>) -> Option<V>
    decreases s.len(),
{
    if s.len() == 0 {
        None
    } else if s.last().0 == k {
        Some(s.last().1)
    } else {
        assoc_get(s.drop_last(), k)
    }
}

/// The map that the entries of `s`, inserted one after another, build.
pub open spec fn assoc_map<V>(s: Seq<(Seq<char>, V)>) -> Map<Seq<char>, V> {
    Map::new(|k: Seq<char>| assoc_get(s, k) is Some, |k: Seq<char>| assoc_get(s, k)->0)
}

/// Whether no two entries of `s` share a key.
pub open spec fn keys_unique<V>(s: Seq<(Seq<char>, V)>) -> bool {
    forall|i: int, j: int| 0 <= i < j < s.len() ==> s[i].0 != s[j].0
}

/// `s` lists `m`: each key once, each entry with the map's value for its key,
/// and each key of the map among the entries.
pub open spec fn lists_map<V>(s: Seq<(Seq<char>, V)>, m: Map<Seq<char>, V>) -> bool {
    &&& keys_unique(s)
    &&& forall|i: int| 0 <= i < s.len() ==> m.contains_key(#[trigger] s[i].0) && m[s[i].0] == s[i].1
    &&& forall|k: Seq<char>| #[trigger] m.contains_key(k) ==> exists|i: int| 0 <= i < s.len() && s[i].0 == k
}

/// Entries with unique keys list their map: each entry is the map's value for
/// its key, and each key of the map has an entry.
pub proof fn lemma_unique_entries_list_the_map<V>(s: Seq<(Seq<char>, V)>)
    requires
        keys_unique(s),
    ensures
        forall|i: int| 0 <= i < s.len() ==> #[trigger] assoc_get(s, s[i].0) == Some(s[i].1),
        forall|k: Seq<char>| #[trigger] assoc_get(s, k) is Some ==> exists|i: int| 0 <= i < s.len() && s[i].0 == k,
        lists_map(s, assoc_map(s)),
    decreases s.len(),
{
    if s.len() > 0 {
        let t = s.drop_last();
        assert(keys_unique(t));
        lemma_unique_entries_list_the_map(t);
        assert forall|i: int| 0 <= i < s.len() implies #[trigger] assoc_get(s, s[i].0) == Some(s[i].1) by {
            if i < s.len() - 1 {
                assert(t[i] == s[i]);
                assert(s[i].0 != s[s.len() - 1].0);
                assert(assoc_get(t, t[i].0) == Some(t[i].1));
            }
        }
        assert forall|k: Seq<char>| #[trigger] assoc_get(s, k) is Some implies exists|i: int| 0 <= i < s.len() && s[i].0 == k by {
            if k != s.last().0 {
                assert(assoc_get(t, k) is Some);
                let i = choose|i: int| 0 <= i < t.len() && t[i].0 == k;
                assert(s[i] == t[i]);
            } else {
                assert(s[s.len() - 1].0 == k);
            }
        }
    }
}

/// Appending an entry inserts it into the map.
pub proof fn lemma_assoc_push<V>(s: Seq<(Seq<char>, V)>, k: Seq<char>, v: V)
    ensures
        assoc_map(s.push((k, v))) == assoc_map(s).insert(k, v),
{
    let t = s.push((k, v));
    assert(t.drop_last() =~= s);
    assert forall|k2: Seq<char>| #[trigger] assoc_get(t, k2) == (if k2 == k { Some(v) } else { assoc_get(s, k2) }) by {}
    assert(assoc_map(t) =~= assoc_map(s).insert(k, v));
}

/// Where no entry of `s` from index `i` on has key `k`, the lookup of `k` in `s`
/// is the one in the first `i` entries.
pub proof fn lemma_assoc_get_prefix<V>(s: Seq<(Seq<char>, V)>, k: Seq<char>, i: int)
    requires
        0 <= i <= s.len(),
        forall|j: int| i <= j < s.len() ==> s[j].0 != k,
    ensures
        assoc_get(s, k) == assoc_get(s.take(i), k),
    decreases s.len() - i,
{
    if i < s.len() {
        assert(s.drop_last() =~= s.take(s.len() - 1));
        lemma_assoc_get_prefix(s.drop_last(), k, i);
        assert(s.drop_last().take(i) =~= s.take(i));
    } else {
        assert(s.take(i) =~= s);
    }
}

/// Overwriting the last entry with key `k` inserts the new value for `k`.
pub proof fn lemma_assoc_update_last<V>(s: Seq<(Seq<char>, V)>, j: int, k: Seq<char>, v: V)
    requires
        0 <= j < s.len(),
        s[j].0 == k,
        forall|m: int| j < m < s.len() ==> s[m].0 != k,
    ensures
        assoc_map(s.update(j, (k, v))) == assoc_map(s).insert(k, v),
{
    lemma_assoc_update_last_get(s, j, k, v);
    assert(assoc_map(s.update(j, (k, v))) =~= assoc_map(s).insert(k, v));
}

proof fn lemma_assoc_update_last_get<V>(s: Seq<(Seq<char>, V)>, j: int, k: Seq<char>, v: V)
    requires
        0 <= j < s.len(),
        s[j].0 == k,
        forall|m: int| j < m < s.len() ==> s[m].0 != k,
    ensures
        forall|k2: Seq<char>| #[trigger] assoc_get(s.update(j, (k, v)), k2) == (if k2 == k { Some(v) } else { assoc_get(s, k2) }),
    decreases s.len(),
{
    let t = s.update(j, (k, v));
    if j == s.len() - 1 {
        assert(t.drop_last() =~= s.drop_last());
        assert forall|k2: Seq<char>| #[trigger] assoc_get(t, k2) == (if k2 == k { Some(v) } else { assoc_get(s, k2) }) by {
            assert(t.last().0 == k);
            assert(s.last().0 == k);
        }
    } else {
        lemma_assoc_update_last_get(s.drop_last(), j, k, v);
        assert(t.drop_last() =~= s.drop_last().update(j, (k, v)));
        assert(t.last() == s.last());
        assert(s.last().0 != k);
        assert forall|k2: Seq<char>| #[trigger] assoc_get(t, k2) == (if k2 == k { Some(v) } else { assoc_get(s, k2) }) by {
            if k2 != s.last().0 {
                assert(assoc_get(t, k2) == assoc_get(t.drop_last(), k2));
                assert(assoc_get(s, k2) == assoc_get(s.drop_last(), k2));
            }
        }
    }
}

} // verus!
