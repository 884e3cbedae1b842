use vstd::prelude::*;

verus! {

/// No key appears twice in a list of entries.
pub open spec fn keys_distinct<K, V>(s: Seq<(K, V)>) -> bool {
    forall|i: int, j: int| 0 <= i < j < s.len() ==> s[i].0 != s[j].0
}

/// The map that a list of entries stands for; a later entry wins.
pub open spec fn assoc_map<K, V>(s: Seq<(K, V)>) -> Map<K, V>
    decreases s.len(),
{
    if s.len() == 0 {
        Map::empty()
    } else {
        assoc_map(s.drop_last()).insert(s.last().0, s.last().1)
    }
}

/// The keys of the map are the keys of the entries.
pub proof fn lemma_assoc_contains<K, V>(s: Seq<(K, V)>, k: K)
    ensures
        assoc_map(s).contains_key(k) <==> exists|i: int| 0 <= i < s.len() && #[trigger] s[i].0 == k,
    decreases s.len(),
{
    if s.len() > 0 {
        let rest = s.drop_last();
        lemma_assoc_contains(rest, k);
        if exists|i: int| 0 <= i < rest.len() && #[trigger] rest[i].0 == k {
            let i = choose|i: int| 0 <= i < rest.len() && #[trigger] rest[i].0 == k;
            assert(s[i].0 == k);
        }
        if exists|i: int| 0 <= i < s.len() && #[trigger] s[i].0 == k {
            let i = choose|i: int| 0 <= i < s.len() && #[trigger] s[i].0 == k;
            if i < s.len() - 1 {
                assert(rest[i].0 == k);
            }
        }
    }
}

/// With distinct keys, the map sends each entry's key to its value.
pub proof fn lemma_assoc_value<K, V>(s: Seq<(K, V)>, i: int)
    requires
        keys_distinct(s),
        0 <= i < s.len(),
    ensures
        assoc_map(s).contains_key(s[i].0),
        assoc_map(s)[s[i].0] == s[i].1,
    decreases s.len(),
{
    if i < s.len() - 1 {
        let rest = s.drop_last();
        assert(keys_distinct(rest));
        lemma_assoc_value(rest, i);
        assert(s.last().0 != s[i].0);
    }
}

/// Appending an entry inserts it.
pub proof fn lemma_assoc_push<K, V>(s: Seq<(K, V)>, e: (K, V))
    ensures
        assoc_map(s.push(e)) == assoc_map(s).insert(e.0, e.1),
{
    assert(s.push(e).drop_last() =~= s);
}

/// With distinct keys, removing an entry removes its key.
pub proof fn lemma_assoc_remove<K, V>(s: Seq<(K, V)>, i: int)
    requires
        keys_distinct(s),
        0 <= i < s.len(),
    ensures
        assoc_map(s.remove(i)) == assoc_map(s).remove(s[i].0),
    decreases s.len(),
{
    let rest = s.drop_last();
    assert(keys_distinct(rest));
    if i == s.len() - 1 {
        assert(s.remove(i) =~= rest);
        lemma_assoc_contains(rest, s[i].0);
        assert(!assoc_map(rest).contains_key(s[i].0));
        assert(assoc_map(s).remove(s[i].0) =~= assoc_map(rest));
    } else {
        lemma_assoc_remove(rest, i);
        assert(s.remove(i) =~= rest.remove(i).push(s.last()));
        lemma_assoc_push(rest.remove(i), s.last());
        assert(s.last().0 != s[i].0);
        assert(assoc_map(s.remove(i)) =~= assoc_map(s).remove(s[i].0));
    }
}

/// Replacing the value of an entry updates its key.
pub proof fn lemma_assoc_update<K, V>(s: Seq<(K, V)>, i: int, v: V)
    requires
        keys_distinct(s),
        0 <= i < s.len(),
    ensures
        assoc_map(s.update(i, (s[i].0, v))) == assoc_map(s).insert(s[i].0, v),
    decreases s.len(),
{
    let rest = s.drop_last();
    assert(keys_distinct(rest));
    let t = s.update(i, (s[i].0, v));
    if i == s.len() - 1 {
        assert(t.drop_last() =~= rest);
        assert(assoc_map(t) =~= assoc_map(s).insert(s[i].0, v));
    } else {
        lemma_assoc_update(rest, i, v);
        assert(t.drop_last() =~= rest.update(i, (s[i].0, v)));
        assert(s.last().0 != s[i].0);
        assert(assoc_map(t) =~= assoc_map(s).insert(s[i].0, v));
    }
}

} // verus!
