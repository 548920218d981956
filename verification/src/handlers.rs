//! The table of click handlers: an insertion-ordered map from a stable numeric key to the
//! token by which the application finds the handler again.

use indexmap::IndexMap;
use vstd::prelude::*;

verus! {

/// `indexmap::IndexMap`: a hash map that keeps its pairs in the order in which their keys
/// were first inserted. Nothing inside it is visible to proofs.
#[verifier::external_type_specification]
#[verifier::external_body]
#[verifier::reject_recursive_types(K)]
#[verifier::reject_recursive_types(V)]
#[verifier::reject_recursive_types(S)]
pub struct ExIndexMap<K, V, S>(IndexMap<K, V, S>);

/// The key-value pairs that an `IndexMap` holds, in the map's own order.
pub uninterp spec fn entries(map: IndexMap<usize, u64>) -> Seq<(usize, u64)>;

/// The key occurs among the pairs.
pub open spec fn has_key(pairs: Seq<(usize, u64)>, key: usize) -> bool {
    exists|p: int| 0 <= p < pairs.len() && (#[trigger] pairs[p]).0 == key
}

/// The keys rise strictly along the order, so that no key occurs twice and the last pair
/// holds the greatest key.
pub open spec fn rising(pairs: Seq<(usize, u64)>) -> bool {
    forall|i: int, j: int| 0 <= i < j < pairs.len() ==> (#[trigger] pairs[i]).0 < (#[trigger] pairs[j]).0
}

/// The key that the next handler receives: one more than the last key, 0 in an empty table.
pub open spec fn next_key(pairs: Seq<(usize, u64)>) -> int {
    if pairs.len() == 0 {
        0
    } else {
        pairs.last().0 + 1
    }
}

/// The pairs without the one that holds `key`; unchanged where no pair holds it.
pub open spec fn without_key(pairs: Seq<(usize, u64)>, key: usize) -> Seq<(usize, u64)> {
    pairs.filter(|pair: (usize, u64)| pair.0 != key)
}

/// The tokens of the pairs, in order.
pub open spec fn tokens(pairs: Seq<(usize, u64)>) -> Seq<u64> {
    pairs.map_values(|pair: (usize, u64)| pair.1)
}

/// `IndexMap::new`: the map it makes holds no pair.
#[verifier::external_body]
pub(crate) fn map_new() -> (map: IndexMap<usize, u64>)
    ensures
        entries(map) == Seq::<(usize, u64)>::empty(),
{
    IndexMap::new()
}

/// `IndexMap::len`: the number of pairs in the map.
#[verifier::external_body]
pub(crate) fn map_len(map: &IndexMap<usize, u64>) -> (n: usize)
    ensures
        n == entries(*map).len(),
{
    map.len()
}

/// `IndexMap::get_index`: the pair at a position of the map's order, and nothing past the
/// end.
#[verifier::external_body]
pub(crate) fn map_get_index(map: &IndexMap<usize, u64>, index: usize) -> (pair: Option<
    (usize, u64),
>)
    ensures
        index < entries(*map).len() ==> pair == Some(entries(*map)[index as int]),
        index >= entries(*map).len() ==> pair is None,
{
    map.get_index(index).map(|(key, value)| (*key, *value))
}

/// `IndexMap::insert`: a key that the map holds keeps its place and gets the new value,
/// and the old value is returned; a new key goes to the end and nothing is returned.
#[verifier::external_body]
pub(crate) fn map_insert(map: &mut IndexMap<usize, u64>, key: usize, value: u64) -> (previous:
    Option<u64>)
    ensures
        match previous {
            Some(old_value) => exists|p: int|
                0 <= p < entries(*old(map)).len() && #[trigger] entries(*old(map))[p] == (
                    key,
                    old_value,
                ) && entries(*final(map)) == entries(*old(map)).update(p, (key, value)),
            None => !has_key(entries(*old(map)), key) && entries(*final(map)) == entries(
                *old(map),
            ).push((key, value)),
        },
{
    map.insert(key, value)
}

/// `IndexMap::shift_remove`: the pair with the key leaves, those behind it keep their
/// order, and its value is returned; without such a pair the map stays as it is.
#[verifier::external_body]
pub(crate) fn map_shift_remove(map: &mut IndexMap<usize, u64>, key: usize) -> (removed: Option<
    u64,
>)
    ensures
        match removed {
            Some(old_value) => exists|p: int|
                0 <= p < entries(*old(map)).len() && #[trigger] entries(*old(map))[p] == (
                    key,
                    old_value,
                ) && entries(*final(map)) == entries(*old(map)).remove(p),
            None => !has_key(entries(*old(map)), key) && entries(*final(map)) == entries(
                *old(map),
            ),
        },
{
    map.shift_remove(&key)
}

/// In a rising table, taking out the pair at `p` is taking out the pair with its key.
pub proof fn lemma_remove_is_without(pairs: Seq<(usize, u64)>, p: int)
    requires
        rising(pairs),
        0 <= p < pairs.len(),
    ensures
        pairs.remove(p) == without_key(pairs, pairs[p].0),
        rising(pairs.remove(p)),
    decreases pairs.len(),
{
    let key = pairs[p].0;
    let keep = |pair: (usize, u64)| pair.0 != key;
    reveal(Seq::filter);
    let shorter = pairs.drop_last();
    if p == pairs.len() - 1 {
        lemma_rising_lacks_greater(shorter, key);
        assert(pairs.remove(p) =~= shorter);
    } else {
        lemma_remove_is_without(shorter, p);
        assert(shorter.remove(p).push(pairs.last()) =~= pairs.remove(p));
    }
}

/// A rising table whose keys all lie under `key` is unchanged by taking `key` out.
pub proof fn lemma_rising_lacks_greater(pairs: Seq<(usize, u64)>, key: usize)
    requires
        forall|i: int| 0 <= i < pairs.len() ==> (#[trigger] pairs[i]).0 != key,
    ensures
        without_key(pairs, key) == pairs,
        !has_key(pairs, key),
    decreases pairs.len(),
{
    reveal(Seq::filter);
    if pairs.len() > 0 {
        lemma_rising_lacks_greater(pairs.drop_last(), key);
        assert(pairs.drop_last().push(pairs.last()) =~= pairs);
    }
}

/// Adds a handler at the end of the table under a key that no live handler has, and
/// returns the key.
pub fn add_to_indexmap(indexmap: &mut IndexMap<usize, u64>, value: u64) -> (key: usize)
    requires
        rising(entries(*old(indexmap))),
        next_key(entries(*old(indexmap))) <= usize::MAX,
    ensures
        key == next_key(entries(*old(indexmap))),
        !has_key(entries(*old(indexmap)), key),
        entries(*final(indexmap)) == entries(*old(indexmap)).push((key, value)),
        rising(entries(*final(indexmap))),
{
    let n = map_len(indexmap);
    let key: usize = if n == 0 {
        0
    } else {
        match map_get_index(indexmap, n - 1) {
            Some(last) => last.0 + 1,
            None => 0,
        }
    };
    let ghost before = entries(*indexmap);
    assert(!has_key(before, key)) by {
        if has_key(before, key) {
            let p = choose|p: int| 0 <= p < before.len() && (#[trigger] before[p]).0 == key;
            assert(before[p].0 <= before[n - 1].0);
        }
    }
    let previous = map_insert(indexmap, key, value);
    key
}

/// Whether the table can take one more handler: its last key is not the greatest number.
pub fn has_room(indexmap: &IndexMap<usize, u64>) -> (room: bool)
    ensures
        room == (next_key(entries(*indexmap)) <= usize::MAX),
{
    let n = map_len(indexmap);
    if n == 0 {
        true
    } else {
        match map_get_index(indexmap, n - 1) {
            Some(last) => last.0 < usize::MAX,
            None => true,
        }
    }
}

/// Takes the handler with the key out of the table and keeps the others in their order.
/// An unknown key changes nothing.
pub fn remove_from_indexmap(indexmap: &mut IndexMap<usize, u64>, key: usize)
    requires
        rising(entries(*old(indexmap))),
    ensures
        entries(*final(indexmap)) == without_key(entries(*old(indexmap)), key),
        rising(entries(*final(indexmap))),
        !has_key(entries(*final(indexmap)), key),
{
    let ghost before = entries(*indexmap);
    let removed = map_shift_remove(indexmap, key);
    proof {
        match removed {
            Some(old_value) => {
                let p = choose|p: int|
                    0 <= p < before.len() && #[trigger] before[p] == (key, old_value) && entries(
                        *indexmap,
                    ) == before.remove(p);
                lemma_remove_is_without(before, p);
                let after = before.remove(p);
                assert(!has_key(after, key)) by {
                    if has_key(after, key) {
                        let q = choose|q: int| 0 <= q < after.len() && (#[trigger] after[q]).0 == key;
                        if q < p {
                            assert(after[q] == before[q]);
                        } else {
                            assert(after[q] == before[q + 1]);
                        }
                    }
                }
            },
            None => {
                lemma_rising_lacks_greater(before, key);
            },
        }
    }
}

/// Whether the keys rise strictly along the table.
pub fn is_rising(indexmap: &IndexMap<usize, u64>) -> (ok: bool)
    ensures
        ok == rising(entries(*indexmap)),
{
    let n = map_len(indexmap);
    let mut i: usize = 1;
    while i < n
        invariant
            n == entries(*indexmap).len(),
            1 <= i,
            forall|a: int, b: int|
                0 <= a < b < i && b < n ==> (#[trigger] entries(*indexmap)[a]).0 < (
                #[trigger] entries(*indexmap)[b]).0,
        decreases n - i,
    {
        let earlier = map_get_index(indexmap, i - 1);
        let later = map_get_index(indexmap, i);
        match (earlier, later) {
            (Some(low), Some(high)) => {
                if low.0 >= high.0 {
                    return false;
                }
            },
            _ => {},
        }
        assert forall|a: int, b: int| 0 <= a < b < i + 1 && b < n implies (
        #[trigger] entries(*indexmap)[a]).0 < (#[trigger] entries(*indexmap)[b]).0 by {
            if b == i && a < i - 1 {
                assert(entries(*indexmap)[a].0 < entries(*indexmap)[i - 1].0);
            }
        }
        i += 1;
    }
    true
}

/// The tokens of all handlers, in the order in which they were added.
pub fn handler_tokens(indexmap: &IndexMap<usize, u64>) -> (fired: Vec<u64>)
    ensures
        fired@ == tokens(entries(*indexmap)),
{
    let n = map_len(indexmap);
    let mut fired: Vec<u64> = Vec::new();
    let mut i: usize = 0;
    while i < n
        invariant
            n == entries(*indexmap).len(),
            i <= n,
            fired@ == tokens(entries(*indexmap)).take(i as int),
        decreases n - i,
    {
        match map_get_index(indexmap, i) {
            Some(pair) => {
                fired.push(pair.1);
            },
            None => {},
        }
        i += 1;
        assert(fired@ =~= tokens(entries(*indexmap)).take(i as int));
    }
    assert(fired@ =~= tokens(entries(*indexmap)));
    fired
}

} // verus!
