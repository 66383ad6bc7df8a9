//! Tables held as lists of (key, value) pairs in which no key stands twice.

use vstd::prelude::*;

verus! {

/// The map that a list of pairs stands for. Where a key occurs twice the
/// later pair counts.
pub open spec fn table<K, V>(pairs: Seq<(K, V)>) -> Map<K, V>
    decreases pairs.len(),
{
    if pairs.len() == 0 {
        Map::empty()
    } else {
        table(pairs.drop_last()).insert(pairs.last().0, pairs.last().1)
    }
}

/// No key stands twice in `pairs`.
pub open spec fn distinct_keys<K, V>(pairs: Seq<(K, V)>) -> bool {
    forall|i: int, j: int| 0 <= i < j < pairs.len() ==> pairs[i].0 != pairs[j].0
}

/// A key that no pair carries is not in the table.
pub proof fn lemma_table_absent<K, V>(pairs: Seq<(K, V)>, key: K)
    requires
        forall|i: int| 0 <= i < pairs.len() ==> pairs[i].0 != key,
    ensures
        !table(pairs).contains_key(key),
    decreases pairs.len(),
{
    if pairs.len() > 0 {
        lemma_table_absent(pairs.drop_last(), key);
    }
}

/// Where no key stands twice, each pair's key is in the table with that
/// pair's value.
pub proof fn lemma_table_present<K, V>(pairs: Seq<(K, V)>, at: int)
    requires
        distinct_keys(pairs),
        0 <= at < pairs.len(),
    ensures
        table(pairs).contains_key(pairs[at].0),
        table(pairs)[pairs[at].0] == pairs[at].1,
    decreases pairs.len(),
{
    if at < pairs.len() - 1 {
        lemma_table_present(pairs.drop_last(), at);
    }
}

/// Where no key stands twice, a new value in a pair is that value under
/// the pair's key in the table.
pub proof fn lemma_table_update<K, V>(pairs: Seq<(K, V)>, at: int, value: V)
    requires
        distinct_keys(pairs),
        0 <= at < pairs.len(),
    ensures
        distinct_keys(pairs.update(at, (pairs[at].0, value))),
        table(pairs.update(at, (pairs[at].0, value))) == table(pairs).insert(pairs[at].0, value),
    decreases pairs.len(),
{
    let updated = pairs.update(at, (pairs[at].0, value));
    if at == pairs.len() - 1 {
        assert(updated.drop_last() == pairs.drop_last());
        assert(table(updated) == table(pairs).insert(pairs[at].0, value));
    } else {
        lemma_table_update(pairs.drop_last(), at, value);
        assert(updated.drop_last() == pairs.drop_last().update(at, (pairs[at].0, value)));
        assert(pairs.last().0 != pairs[at].0);
        assert(table(updated) == table(pairs).insert(pairs[at].0, value));
    }
}

/// A pair with a key that is new, put at the end, is that key with its
/// value put into the table.
pub proof fn lemma_table_push<K, V>(pairs: Seq<(K, V)>, key: K, value: V)
    requires
        distinct_keys(pairs),
        forall|i: int| 0 <= i < pairs.len() ==> pairs[i].0 != key,
    ensures
        distinct_keys(pairs.push((key, value))),
        table(pairs.push((key, value))) == table(pairs).insert(key, value),
{
    assert(pairs.push((key, value)).drop_last() == pairs);
}

/// Where no key stands twice, a list without one of its pairs is the table
/// without that pair's key.
pub proof fn lemma_table_remove<K, V>(pairs: Seq<(K, V)>, at: int)
    requires
        distinct_keys(pairs),
        0 <= at < pairs.len(),
    ensures
        distinct_keys(pairs.remove(at)),
        table(pairs.remove(at)) == table(pairs).remove(pairs[at].0),
    decreases pairs.len(),
{
    let removed = pairs.remove(at);
    if at == pairs.len() - 1 {
        assert(removed == pairs.drop_last());
        lemma_table_absent(pairs.drop_last(), pairs[at].0);
        assert(table(removed) =~= table(pairs).remove(pairs[at].0));
    } else {
        lemma_table_remove(pairs.drop_last(), at);
        assert(removed.drop_last() == pairs.drop_last().remove(at));
        assert(removed.last() == pairs.last());
        assert(pairs.last().0 != pairs[at].0);
        assert(table(removed) =~= table(pairs).remove(pairs[at].0));
    }
}

/// A table of distinct keys has as many entries as its list has pairs.
pub proof fn lemma_table_domain<K, V>(pairs: Seq<(K, V)>)
    requires
        distinct_keys(pairs),
    ensures
        table(pairs).dom().finite(),
        table(pairs).dom().len() == pairs.len(),
    decreases pairs.len(),
{
    if pairs.len() == 0 {
        assert(table(pairs).dom() =~= Set::empty());
    } else {
        lemma_table_domain(pairs.drop_last());
        lemma_table_absent(pairs.drop_last(), pairs.last().0);
        assert(table(pairs).dom() =~= table(pairs.drop_last()).dom().insert(pairs.last().0));
    }
}

} // verus!
