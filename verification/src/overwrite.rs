//! Maps that are filled in one pass over a sequence, where each element may
//! write one key and a later element overwrites an earlier one.

use vstd::prelude::*;

verus! {

/// The element at place `i` of `keys` writes the key `k`.
pub open spec fn writes<K>(keys: Seq<Option<K>>, k: K, i: int) -> bool {
    0 <= i < keys.len() && keys[i] == Some(k)
}

/// The element at place `i` is the last one of `keys` that writes `k`.
pub open spec fn is_last_write<K>(keys: Seq<Option<K>>, k: K, i: int) -> bool {
    &&& writes(keys, k, i)
    &&& forall|j: int| i < j < keys.len() ==> keys[j] != Some(k)
}

/// The place of the last element of `keys` that writes `k`.
pub open spec fn last_write<K>(keys: Seq<Option<K>>, k: K) -> int {
    choose|i: int| is_last_write(keys, k, i)
}

/// The map that a pass over `keys` leaves: every key that some element
/// writes, with the place of the last element that writes it.
pub open spec fn last_writer<K>(keys: Seq<Option<K>>) -> Map<K, int> {
    Map::new(|k: K| exists|i: int| writes(keys, k, i), |k: K| last_write(keys, k))
}

proof fn lemma_last_below<K>(keys: Seq<Option<K>>, k: K, n: int) -> (i: int)
    requires
        0 <= n <= keys.len(),
        exists|j: int| 0 <= j < n && writes(keys, k, j),
    ensures
        0 <= i < n,
        writes(keys, k, i),
        forall|j: int| i < j < n ==> keys[j] != Some(k),
    decreases n,
{
    if keys[n - 1] == Some(k) {
        n - 1
    } else {
        let j = choose|j: int| 0 <= j < n && writes(keys, k, j);
        assert(0 <= j < n - 1 && writes(keys, k, j));
        lemma_last_below(keys, k, n - 1)
    }
}

/// A key that is written has a last write, and its place is what the map
/// holds under the key.
pub proof fn lemma_last_write<K>(keys: Seq<Option<K>>, k: K)
    requires
        exists|i: int| writes(keys, k, i),
    ensures
        is_last_write(keys, k, last_write(keys, k)),
        last_writer(keys).dom().contains(k),
        last_writer(keys)[k] == last_write(keys, k),
{
    let j = choose|j: int| writes(keys, k, j);
    assert(0 <= j < keys.len() && writes(keys, k, j));
    let i = lemma_last_below(keys, k, keys.len() as int);
    assert(is_last_write(keys, k, i));
}

/// The last write of a key is determined.
pub proof fn lemma_last_write_is<K>(keys: Seq<Option<K>>, k: K, i: int)
    requires
        is_last_write(keys, k, i),
    ensures
        last_write(keys, k) == i,
        last_writer(keys).dom().contains(k),
        last_writer(keys)[k] == i,
{
    assert(writes(keys, k, i));
    let l = last_write(keys, k);
    assert(is_last_write(keys, k, l));
    if l < i {
        assert(keys[i] != Some(k));
    } else if i < l {
        assert(keys[l] != Some(k));
    }
}

/// An element that writes no key leaves the map as it is.
pub proof fn lemma_pass_none<K>(keys: Seq<Option<K>>)
    ensures
        last_writer(keys.push(None)) == last_writer(keys),
{
    let longer = keys.push(None);
    assert forall|k: K| last_writer(longer).dom().contains(k) <==> last_writer(
        keys,
    ).dom().contains(k) by {
        if last_writer(longer).dom().contains(k) {
            let i = choose|i: int| writes(longer, k, i);
            assert(writes(keys, k, i));
        }
        if last_writer(keys).dom().contains(k) {
            let i = choose|i: int| writes(keys, k, i);
            assert(writes(longer, k, i));
        }
    }
    assert forall|k: K| last_writer(keys).dom().contains(k) implies last_writer(longer)[k]
        == last_writer(keys)[k] by {
        lemma_last_write(keys, k);
        let i = last_write(keys, k);
        assert(is_last_write(longer, k, i)) by {
            assert(longer[i] == keys[i]);
            assert forall|j: int| i < j < longer.len() implies longer[j] != Some(k) by {
                if j < keys.len() {
                    assert(longer[j] == keys[j]);
                }
            }
        }
        lemma_last_write_is(longer, k, i);
    }
    assert(last_writer(longer) =~= last_writer(keys));
}

/// An element that writes `k` files its own place under `k` and leaves the
/// other keys as they are.
pub proof fn lemma_pass_some<K>(keys: Seq<Option<K>>, k: K)
    ensures
        last_writer(keys.push(Some(k))) == last_writer(keys).insert(k, keys.len() as int),
{
    let longer = keys.push(Some(k));
    let n = keys.len() as int;
    assert(is_last_write(longer, k, n));
    lemma_last_write_is(longer, k, n);
    assert forall|o: K| o != k implies (last_writer(longer).dom().contains(o) <==> last_writer(
        keys,
    ).dom().contains(o)) by {
        if last_writer(longer).dom().contains(o) {
            let i = choose|i: int| writes(longer, o, i);
            assert(writes(keys, o, i));
        }
        if last_writer(keys).dom().contains(o) {
            let i = choose|i: int| writes(keys, o, i);
            assert(writes(longer, o, i));
        }
    }
    assert forall|o: K| o != k && last_writer(keys).dom().contains(o) implies last_writer(
        longer,
    )[o] == last_writer(keys)[o] by {
        lemma_last_write(keys, o);
        let i = last_write(keys, o);
        assert(is_last_write(longer, o, i)) by {
            assert(longer[i] == keys[i]);
            assert forall|j: int| i < j < longer.len() implies longer[j] != Some(o) by {
                if j < keys.len() {
                    assert(longer[j] == keys[j]);
                }
            }
        }
        lemma_last_write_is(longer, o, i);
    }
    assert(last_writer(longer) =~= last_writer(keys).insert(k, n));
}

} // verus!
