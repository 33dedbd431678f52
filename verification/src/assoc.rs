//! Association sequences: the mathematical model shared by the payload
//! objects, the attribute maps and the node map. Lookup finds the latest
//! entry with the key, so appending an entry overwrites an earlier one.

use vstd::prelude::*;

verus! {

/// Lookup in an association sequence: the latest entry with the key wins.
pub open spec fn assoc_lookup<K, V>(es: Seq<(K, V)>, key: K) -> Option<V>
    decreases es.len(),
{
    if es.len() == 0 {
        None
    } else if es.last().0 == key {
        Some(es.last().1)
    } else {
        assoc_lookup(es.drop_last(), key)
    }
}

/// Entries at or after position `i` whose key differs from `key` do not
/// affect the lookup.
pub proof fn lemma_assoc_lookup_skip<K, V>(es: Seq<(K, V)>, key: K, i: int)
    requires
        0 <= i <= es.len(),
        forall|j: int| i <= j < es.len() ==> es[j].0 != key,
    ensures
        assoc_lookup(es, key) == assoc_lookup(es.subrange(0, i), key),
    decreases es.len() - i,
{
    if i < es.len() {
        assert(es.last().0 != key);
        lemma_assoc_lookup_skip(es.drop_last(), key, i);
        assert(es.drop_last().subrange(0, i) =~= es.subrange(0, i));
    } else {
        assert(es.subrange(0, i) =~= es);
    }
}

} // verus!
