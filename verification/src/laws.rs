//! Laws of the table: proofs that the operations' contracts compose the way
//! callers of a key-value store expect, stated over the table's map model.

use vstd::prelude::*;

use crate::table::insert_all;

verus! {

/// After `Set(k, v)`, `Get(k)` returns `v`: the updated table carries `v`
/// at `k`.
pub proof fn lemma_set_then_get(m: Map<Seq<char>, Seq<char>>, k: Seq<char>, v: Seq<char>)
    ensures
        m.insert(k, v).contains_key(k),
        m.insert(k, v)[k] == v,
{
}

/// `SetMany` makes every submitted pair visible: after it, a submitted key
/// carries the value of the last pair that was submitted under it.
pub proof fn lemma_set_many_visible(
    m: Map<Seq<char>, Seq<char>>,
    pairs: Seq<(Seq<char>, Seq<char>)>,
    i: int,
)
    requires
        0 <= i < pairs.len(),
        forall|j: int| i < j < pairs.len() ==> pairs[j].0 != pairs[i].0,
    ensures
        insert_all(m, pairs).contains_key(pairs[i].0),
        insert_all(m, pairs)[pairs[i].0] == pairs[i].1,
    decreases pairs.len(),
{
    if i < pairs.len() - 1 {
        assert forall|j: int|
            i < j < pairs.drop_last().len() implies pairs.drop_last()[j].0
            != pairs.drop_last()[i].0 by {
            assert(pairs.drop_last()[j] == pairs[j]);
            assert(pairs.drop_last()[i] == pairs[i]);
        }
        lemma_set_many_visible(m, pairs.drop_last(), i);
        assert(pairs.last().0 != pairs[i].0);
    }
}

/// `SetMany` touches no other key: a key that none of the submitted pairs
/// carries keeps its presence and its value.
pub proof fn lemma_set_many_untouched(
    m: Map<Seq<char>, Seq<char>>,
    pairs: Seq<(Seq<char>, Seq<char>)>,
    k: Seq<char>,
)
    requires
        forall|j: int| 0 <= j < pairs.len() ==> pairs[j].0 != k,
    ensures
        insert_all(m, pairs).contains_key(k) == m.contains_key(k),
        m.contains_key(k) ==> insert_all(m, pairs)[k] == m[k],
    decreases pairs.len(),
{
    if pairs.len() > 0 {
        assert forall|j: int| 0 <= j < pairs.drop_last().len() implies pairs.drop_last()[j].0
            != k by {
            assert(pairs.drop_last()[j] == pairs[j]);
        }
        lemma_set_many_untouched(m, pairs.drop_last(), k);
        assert(pairs.last().0 != k);
    }
}

/// `Remove(k)` followed by `Get(k)` signals absence, and a second
/// `Remove(k)` finds nothing left to remove.
pub proof fn lemma_remove_then_absent(m: Map<Seq<char>, Seq<char>>, k: Seq<char>)
    ensures
        !m.remove(k).contains_key(k),
        m.remove(k).remove(k) == m.remove(k),
{
    assert(m.remove(k).remove(k) =~= m.remove(k));
}

/// `Set`s on distinct keys commute: either order of the two insertions
/// produces the same table, with both values visible.
pub proof fn lemma_distinct_sets_commute(
    m: Map<Seq<char>, Seq<char>>,
    k1: Seq<char>,
    v1: Seq<char>,
    k2: Seq<char>,
    v2: Seq<char>,
)
    requires
        k1 != k2,
    ensures
        m.insert(k1, v1).insert(k2, v2) == m.insert(k2, v2).insert(k1, v1),
        m.insert(k1, v1).insert(k2, v2)[k1] == v1,
        m.insert(k1, v1).insert(k2, v2)[k2] == v2,
{
    assert(m.insert(k1, v1).insert(k2, v2) =~= m.insert(k2, v2).insert(k1, v1));
}

/// `Set`s on pairwise distinct keys lose no update: once all of them have
/// been applied, in whatever order the lock serialized them into `pairs`,
/// every pair is visible.
pub proof fn lemma_distinct_sets_all_visible(
    m: Map<Seq<char>, Seq<char>>,
    pairs: Seq<(Seq<char>, Seq<char>)>,
)
    requires
        forall|i: int, j: int|
            0 <= i < pairs.len() && 0 <= j < pairs.len() && i != j ==> pairs[i].0 != pairs[j].0,
    ensures
        forall|i: int|
            #![trigger pairs[i]]
            0 <= i < pairs.len() ==> insert_all(m, pairs).contains_key(pairs[i].0) && insert_all(
                m,
                pairs,
            )[pairs[i].0] == pairs[i].1,
{
    assert forall|i: int|
        #![trigger pairs[i]]
        0 <= i < pairs.len() implies insert_all(m, pairs).contains_key(pairs[i].0) && insert_all(
        m,
        pairs,
    )[pairs[i].0] == pairs[i].1 by {
        lemma_set_many_visible(m, pairs, i);
    }
}

} // verus!
