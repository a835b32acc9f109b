//! Association lists with unique keys, and the maps they denote.
//!
//! The entity store keeps its tables as vectors of key/value pairs in which
//! no two entries share a key; contracts speak of the `Map` such a list
//! denotes. The lemmas here relate the list operations the store performs to
//! `Map::insert` and key membership.

use vstd::prelude::*;

verus! {

/// The map denoted by an association list. Later entries shadow earlier
/// ones; the lists used here never hold two entries with one key.
pub open spec fn assoc_map<K: View, V>(s: Seq<(K, V)>) -> Map<<K as View>::V, V>
    decreases s.len(),
{
    if s.len() == 0 {
        Map::empty()
    } else {
        assoc_map(s.drop_last()).insert(s.last().0@, s.last().1)
    }
}

/// No two entries of the list share a key.
pub open spec fn unique_keys<K: View, V>(s: Seq<(K, V)>) -> bool {
    forall|i: int, j: int| 0 <= i < j < s.len() ==> s[i].0@ != s[j].0@
}

/// A key is in the denoted map exactly when some entry carries it.
pub proof fn lemma_assoc_map_dom<K: View, V>(s: Seq<(K, V)>, k: <K as View>::V)
    ensures
        assoc_map(s).contains_key(k) <==> exists|i: int| 0 <= i < s.len() && s[i].0@ == k,
    decreases s.len(),
{
    if s.len() > 0 {
        lemma_assoc_map_dom(s.drop_last(), k);
        if s.last().0@ == k {
            assert(s[s.len() - 1].0@ == k);
        } else {
            if exists|i: int| 0 <= i < s.drop_last().len() && s.drop_last()[i].0@ == k {
                let i = choose|i: int| 0 <= i < s.drop_last().len() && s.drop_last()[i].0@ == k;
                assert(s[i].0@ == k);
            }
            if exists|i: int| 0 <= i < s.len() && s[i].0@ == k {
                let i = choose|i: int| 0 <= i < s.len() && s[i].0@ == k;
                assert(i != s.len() - 1);
                assert(s.drop_last()[i].0@ == k);
            }
        }
    }
}

/// Dropping the last entry keeps the keys unique.
proof fn lemma_unique_keys_drop_last<K: View, V>(s: Seq<(K, V)>)
    requires
        unique_keys(s),
        s.len() > 0,
    ensures
        unique_keys(s.drop_last()),
{
    assert forall|i: int, j: int|
        0 <= i < j < s.drop_last().len() implies s.drop_last()[i].0@ != s.drop_last()[j].0@ by {
        assert(s.drop_last()[i] == s[i]);
        assert(s.drop_last()[j] == s[j]);
    }
}

/// With unique keys, the entry at index `i` is what the denoted map holds at
/// that entry's key.
pub proof fn lemma_assoc_map_index<K: View, V>(s: Seq<(K, V)>, i: int)
    requires
        unique_keys(s),
        0 <= i < s.len(),
    ensures
        assoc_map(s).contains_key(s[i].0@),
        assoc_map(s)[s[i].0@] == s[i].1,
    decreases s.len(),
{
    if i < s.len() - 1 {
        lemma_unique_keys_drop_last(s);
        lemma_assoc_map_index(s.drop_last(), i);
        assert(s.drop_last()[i] == s[i]);
        assert(s[i].0@ != s.last().0@);
    }
}

/// Overwriting the entry at index `i` with a pair that carries the same key
/// denotes `insert` on the map, and keeps the keys unique.
pub proof fn lemma_assoc_map_update<K: View, V>(s: Seq<(K, V)>, i: int, p: (K, V))
    requires
        unique_keys(s),
        0 <= i < s.len(),
        p.0@ == s[i].0@,
    ensures
        assoc_map(s.update(i, p)) == assoc_map(s).insert(p.0@, p.1),
        unique_keys(s.update(i, p)),
    decreases s.len(),
{
    let t = s.update(i, p);
    assert forall|a: int, b: int| 0 <= a < b < t.len() implies t[a].0@ != t[b].0@ by {
        assert(s[a].0@ != s[b].0@);
    }
    if i == s.len() - 1 {
        assert(t.drop_last() =~= s.drop_last());
        assert(t.last() == p);
        assert(assoc_map(s.drop_last()).insert(p.0@, p.1) =~= assoc_map(s.drop_last()).insert(
            s.last().0@,
            s.last().1,
        ).insert(p.0@, p.1));
    } else {
        lemma_unique_keys_drop_last(s);
        assert(t.drop_last() =~= s.drop_last().update(i, p));
        assert(t.last() == s.last());
        lemma_assoc_map_update(s.drop_last(), i, p);
        assert(s[i].0@ != s.last().0@);
        assert(assoc_map(s.drop_last()).insert(p.0@, p.1).insert(s.last().0@, s.last().1)
            =~= assoc_map(s.drop_last()).insert(s.last().0@, s.last().1).insert(p.0@, p.1));
    }
}

/// Appending an entry with a fresh key denotes `insert` on the map, and
/// keeps the keys unique.
pub proof fn lemma_assoc_map_push<K: View, V>(s: Seq<(K, V)>, p: (K, V))
    requires
        unique_keys(s),
        forall|i: int| 0 <= i < s.len() ==> s[i].0@ != p.0@,
    ensures
        assoc_map(s.push(p)) == assoc_map(s).insert(p.0@, p.1),
        unique_keys(s.push(p)),
{
    let t = s.push(p);
    assert(t.drop_last() =~= s);
    assert(t.last() == p);
    assert forall|a: int, b: int| 0 <= a < b < t.len() implies t[a].0@ != t[b].0@ by {
        if b < t.len() - 1 {
            assert(s[a].0@ != s[b].0@);
        } else {
            assert(s[a].0@ != p.0@);
        }
    }
}

} // verus!
