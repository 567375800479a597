//! Maps filled key by key: what a sequence of inserts into an empty map leaves.
use vstd::prelude::*;

verus! {

/// The map that inserting each `(key, value)` of `adds` in turn, into an empty
/// map, leaves.
pub open spec fn filled_in_turn<K, V>(adds: Seq<(K, V)>) -> Map<K, V>
    decreases adds.len(),
{
    if adds.len() == 0 {
        Map::empty()
    } else {
        filled_in_turn(adds.drop_last()).insert(adds.last().0, adds.last().1)
    }
}

/// A key is present exactly when some insert used it.
pub proof fn lemma_filled_contains<K, V>(adds: Seq<(K, V)>, f: K)
    ensures
        filled_in_turn(adds).contains_key(f) <==> exists|i: int| 0 <= i < adds.len() && adds[i].0 == f,
    decreases adds.len(),
{
    if adds.len() > 0 {
        let prev = adds.drop_last();
        lemma_filled_contains(prev, f);
        let n = adds.len() - 1;
        if adds[n].0 == f {
            assert(filled_in_turn(adds).contains_key(f));
        } else {
            if filled_in_turn(prev).contains_key(f) {
                let i = choose|i: int| 0 <= i < prev.len() && prev[i].0 == f;
                assert(adds[i].0 == f);
            }
            if exists|i: int| 0 <= i < adds.len() && adds[i].0 == f {
                let i = choose|i: int| 0 <= i < adds.len() && adds[i].0 == f;
                assert(prev[i].0 == f);
            }
        }
    }
}

/// A key holds the value of the last insert that used it.
pub proof fn lemma_filled_last<K, V>(adds: Seq<(K, V)>, f: K, i: int)
    requires
        0 <= i < adds.len(),
        adds[i].0 == f,
        forall|m: int| i < m < adds.len() ==> #[trigger] adds[m].0 != f,
    ensures
        filled_in_turn(adds).contains_key(f),
        filled_in_turn(adds)[f] == adds[i].1,
    decreases adds.len(),
{
    let n = adds.len() - 1;
    if i < n {
        let prev = adds.drop_last();
        assert(adds[n].0 != f);
        assert forall|m: int| i < m < prev.len() implies #[trigger] prev[m].0 != f by {
            assert(prev[m] == adds[m]);
        }
        assert(prev[i] == adds[i]);
        lemma_filled_last(prev, f, i);
    }
}

/// Maps that start empty and each take the next insert of `adds` are, after
/// the first `k` inserts, the map those inserts fill.
pub proof fn lemma_steps_fill<K, V>(maps: Seq<Map<K, V>>, adds: Seq<(K, V)>, k: int)
    requires
        0 <= k <= adds.len(),
        maps.len() == adds.len() + 1,
        maps[0] == Map::<K, V>::empty(),
        forall|j: int| 0 <= j < adds.len() ==> maps[j + 1] == maps[j].insert(adds[j].0, adds[j].1),
    ensures
        maps[k] == filled_in_turn(adds.take(k)),
    decreases k,
{
    if k > 0 {
        lemma_steps_fill(maps, adds, k - 1);
        assert(adds.take(k).drop_last() =~= adds.take(k - 1));
    } else {
        assert(adds.take(0) =~= Seq::<(K, V)>::empty());
    }
}

} // verus!
