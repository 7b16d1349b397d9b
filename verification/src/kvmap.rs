//! Association vectors read as maps.
//!
//! The registry stores each of its indices as a vector of key/value pairs
//! with pairwise-distinct keys. These spec functions give such a vector a
//! `Map` meaning, and the lemmas translate push, update and removal of a
//! pair into `insert` and `remove` on that meaning.

use vstd::prelude::*;

verus! {

/// The map meaning of a pair vector: later pairs win, which does not
/// matter once keys are distinct.
pub open spec fn map_of<K, V>(s: Seq<(K, V)>) -> Map<K, V>
    decreases s.len(),
{
    if s.len() == 0 {
        Map::empty()
    } else {
        map_of(s.drop_last()).insert(s.last().0, s.last().1)
    }
}

/// Pairwise-distinct keys.
pub open spec fn unique_keys<K, V>(s: Seq<(K, V)>) -> bool {
    forall|i: int, j: int| 0 <= i < j < s.len() ==> s[i].0 != s[j].0
}

/// A key is in the map meaning exactly when some pair carries it.
pub proof fn lemma_map_of_contains<K, V>(s: Seq<(K, V)>, k: K)
    ensures
        map_of(s).contains_key(k) <==> exists|i: int| 0 <= i < s.len() && s[i].0 == k,
    decreases s.len(),
{
    if s.len() > 0 {
        lemma_map_of_contains(s.drop_last(), k);
        if s.last().0 == k {
            assert(s[s.len() - 1].0 == k);
        } else if map_of(s).contains_key(k) {
            let i = choose|i: int| 0 <= i < s.drop_last().len() && s.drop_last()[i].0 == k;
            assert(s[i].0 == k);
        } else {
            assert forall|i: int| 0 <= i < s.len() && s[i].0 == k implies false by {
                if i < s.len() - 1 {
                    assert(s.drop_last()[i].0 == k);
                }
            }
        }
    }
}

/// With distinct keys, the pair at any index is in the map meaning.
pub proof fn lemma_map_of_index<K, V>(s: Seq<(K, V)>, i: int)
    requires
        unique_keys(s),
        0 <= i < s.len(),
    ensures
        map_of(s).contains_key(s[i].0),
        map_of(s)[s[i].0] == s[i].1,
    decreases s.len(),
{
    if i == s.len() - 1 {
        lemma_map_of_contains(s, s[i].0);
    } else {
        assert(unique_keys(s.drop_last()));
        assert(s.drop_last()[i] == s[i]);
        lemma_map_of_index(s.drop_last(), i);
    }
}

/// Pushing a pair with a fresh key inserts it.
pub proof fn lemma_map_of_push<K, V>(s: Seq<(K, V)>, k: K, v: V)
    ensures
        map_of(s.push((k, v))) == map_of(s).insert(k, v),
{
    assert(s.push((k, v)).drop_last() =~= s);
    assert(s.push((k, v)).last() == (k, v));
}

/// Removing the pair at an index removes its key from the map meaning,
/// provided keys are distinct.
pub proof fn lemma_map_of_remove<K, V>(s: Seq<(K, V)>, i: int)
    requires
        unique_keys(s),
        0 <= i < s.len(),
    ensures
        unique_keys(s.remove(i)),
        map_of(s.remove(i)) == map_of(s).remove(s[i].0),
    decreases s.len(),
{
    let k = s[i].0;
    assert(unique_keys(s.remove(i))) by {
        assert forall|p: int, q: int| 0 <= p < q < s.remove(i).len() implies s.remove(i)[p].0
            != s.remove(i)[q].0 by {
            let p0 = if p < i { p } else { p + 1 };
            let q0 = if q < i { q } else { q + 1 };
            assert(s.remove(i)[p] == s[p0]);
            assert(s.remove(i)[q] == s[q0]);
        }
    }
    if i == s.len() - 1 {
        assert(s.remove(i) =~= s.drop_last());
        lemma_map_of_not_contains_after_drop(s, k);
    } else {
        assert(unique_keys(s.drop_last()));
        assert(s.drop_last()[i] == s[i]);
        lemma_map_of_remove(s.drop_last(), i);
        assert(s.remove(i).drop_last() =~= s.drop_last().remove(i));
        assert(s.remove(i).last() == s.last());
        assert(map_of(s.remove(i)) == map_of(s.drop_last().remove(i)).insert(
            s.last().0,
            s.last().1,
        ));
        assert(map_of(s).remove(k) =~= map_of(s.drop_last()).remove(k).insert(
            s.last().0,
            s.last().1,
        ));
    }
}

/// With distinct keys, dropping the last pair leaves a map without its key.
proof fn lemma_map_of_not_contains_after_drop<K, V>(s: Seq<(K, V)>, k: K)
    requires
        unique_keys(s),
        s.len() > 0,
        s.last().0 == k,
    ensures
        map_of(s.drop_last()) == map_of(s).remove(k),
        !map_of(s.drop_last()).contains_key(k),
{
    lemma_map_of_contains(s.drop_last(), k);
    if map_of(s.drop_last()).contains_key(k) {
        let i = choose|i: int| 0 <= i < s.drop_last().len() && s.drop_last()[i].0 == k;
        assert(s[i].0 == k);
        assert(s[s.len() - 1].0 == k);
    }
    assert(map_of(s.drop_last()) =~= map_of(s).remove(k));
}

} // verus!
