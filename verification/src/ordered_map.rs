use std::collections::btree_map::{Iter, IterMut};
use std::collections::BTreeMap;
use vstd::laws_cmp::obeys_cmp;
use vstd::prelude::*;
use vstd::std_specs::cmp::OrdSpec;
use vstd::std_specs::iter::IteratorSpec;

verus! {

/// The iterator that `BTreeMap::iter_mut` returns. Nothing is known of what is inside.
#[verifier::external_type_specification]
#[verifier::external_body]
#[verifier::reject_recursive_types(K)]
#[verifier::reject_recursive_types(V)]
pub struct ExIterMut<'a, K: 'a, V: 'a>(IterMut<'a, K, V>);

/// `BTreeMap::get_mut` of the standard library. The contract claims what its
/// documentation says: the result is a mutable reference to the value stored under
/// `key`, or `None` where the map has no such key; no other entry changes, and the
/// entry under `key` ends with whatever the caller leaves behind the reference.
#[verifier::external_body]
pub(crate) fn map_get_mut<'a, K: Ord, V>(map: &'a mut BTreeMap<K, V>, key: &K) -> (value: Option<
    &'a mut V,
>)
    ensures
        obeys_cmp::<K>() ==> match value {
            Some(v) => old(map)@.contains_key(*key) && *v == old(map)@[*key] && final(map)@
                == old(map)@.insert(*key, *final(v)),
            None => !old(map)@.contains_key(*key) && final(map)@ == old(map)@,
        },
{
    map.get_mut(key)
}

/// The key and the value that an item of a mutable map iterator refers to when it is
/// handed out.
pub open spec fn pair_of_mut<K, V>(item: (&K, &mut V)) -> (K, V) {
    (*item.0, *item.1)
}

/// `BTreeMap::iter_mut` of the standard library. The contract claims what its
/// documentation says: the iterator ends after handing out every entry of the map
/// once, least key first, each key as a shared reference and each value as a mutable
/// one; the map keeps its keys, and each value ends as the caller leaves it behind
/// its reference.
#[verifier::external_body]
pub(crate) fn map_iter_mut<'a, K: Ord, V>(map: &'a mut BTreeMap<K, V>) -> (iter: IterMut<'a, K, V>)
    ensures
        final(map)@.dom() == old(map)@.dom(),
        iter.obeys_prophetic_iter_laws(),
        obeys_cmp::<K>() ==> in_order(
            old(map)@,
            iter.remaining().map_values(|item: (&K, &mut V)| pair_of_mut(item)),
        ),
        obeys_cmp::<K>() ==> forall|i: int|
            0 <= i < iter.remaining().len() ==> final(map)@[*(#[trigger] iter.remaining()[i]).0]
                == *final(iter.remaining()[i].1),
{
    map.iter_mut()
}

/// What a map asks of its keys: that their order is a total order, and that a clone
/// of a key is that key.
pub open spec fn lawful_key<K: Ord + Clone>() -> bool {
    &&& obeys_cmp::<K>()
    &&& forall|a: K, b: K| call_ensures(K::clone, (&a,), b) ==> a == b
}

/// The key and the value that a map iterator's item refers to.
pub open spec fn pair_of<K, V>(item: (&K, &V)) -> (K, V) {
    (*item.0, *item.1)
}

/// Whether `pairs` lists every entry of `map` once, each key before the greater ones
/// in the order of `K`.
pub open spec fn in_order<K: Ord, V>(map: Map<K, V>, pairs: Seq<(K, V)>) -> bool {
    &&& pairs.len() == map.len()
    &&& forall|i: int|
        0 <= i < pairs.len() ==> map.contains_key(#[trigger] pairs[i].0) && map[pairs[i].0]
            == pairs[i].1
    &&& forall|i: int, j: int|
        #![trigger pairs[i], pairs[j]]
        0 <= i < j < pairs.len() ==> pairs[i].0.cmp_spec(&pairs[j].0) is Less
    &&& forall|key: K| #[trigger] map.contains_key(key) ==> pairs.contains((key, map[key]))
}

/// Whether `pairs` lists every entry of `map` once, in ascending order of key.
pub open spec fn in_key_order<V>(map: Map<u32, V>, pairs: Seq<(u32, V)>) -> bool {
    &&& pairs.len() == map.len()
    &&& forall|i: int|
        0 <= i < pairs.len() ==> map.contains_key(#[trigger] pairs[i].0) && map[pairs[i].0]
            == pairs[i].1
    &&& forall|i: int, j: int|
        0 <= i < j < pairs.len() ==> #[trigger] pairs[i].0 < #[trigger] pairs[j].0
    &&& forall|key: u32| #[trigger] map.contains_key(key) ==> pairs.contains((key, map[key]))
}

/// The entries of an ordered map, least key first.
pub fn sorted<'a, K: Ord, V>(map: &'a BTreeMap<K, V>) -> (iter: Iter<'a, K, V>)
    requires
        obeys_cmp::<K>(),
    ensures
        in_order(map@, iter.remaining().map_values(|item: (&K, &V)| pair_of(item))),
        iter.initial_value_relation(&iter),
        iter.decrease() is Some,
{
    broadcast use vstd::std_specs::btree::group_btree_axioms;

    let iter = map.iter();
    proof {
        let items = iter.remaining();
        let pairs = items.map_values(|item: (&K, &V)| pair_of(item));
        let keys = items.map_values(|kv: (&K, &V)| *kv.0);
        assert(vstd::std_specs::btree::increasing_seq(keys));
        assert forall|i: int, j: int|
            #![trigger pairs[i], pairs[j]]
            0 <= i < j < pairs.len() implies pairs[i].0.cmp_spec(&pairs[j].0) is Less by {
            assert(keys[i].cmp_spec(&keys[j]) is Less);
        }
        assert(pairs.len() == map@.len());
        assert forall|i: int| 0 <= i < pairs.len() implies map@.contains_key(
            #[trigger] pairs[i].0,
        ) && map@[pairs[i].0] == pairs[i].1 by {
            assert(map@.contains_key(*items[i].0));
        }
        assert forall|key: K| #[trigger] map@.contains_key(key) implies pairs.contains(
            (key, map@[key]),
        ) by {
            assert(items.contains((&key, &map@[key])));
            let i = choose|i: int| 0 <= i < items.len() && items[i] == (&key, &map@[key]);
            assert(pairs[i] == (key, map@[key]));
        }
    }
    iter
}

/// The entries of a map keyed by integers, smallest key first.
pub fn ascending<'a, V>(map: &'a BTreeMap<u32, V>) -> (iter: Iter<'a, u32, V>)
    ensures
        in_key_order(map@, iter.remaining().map_values(|item: (&u32, &V)| pair_of(item))),
        iter.initial_value_relation(&iter),
        iter.decrease() is Some,
{
    broadcast use vstd::laws_cmp::group_laws_cmp;

    let iter = sorted(map);
    proof {
        let pairs = iter.remaining().map_values(|item: (&u32, &V)| pair_of(item));
        assert forall|i: int, j: int| 0 <= i < j < pairs.len() implies #[trigger] pairs[i].0
            < #[trigger] pairs[j].0 by {
            assert(pairs[i].0.cmp_spec(&pairs[j].0) is Less);
        }
    }
    iter
}

/// The entries of a map keyed by integers, smallest key first, each value open to
/// change. The map keeps its keys, and each value ends as the caller leaves it.
pub fn ascending_mut<'a, V>(map: &'a mut BTreeMap<u32, V>) -> (iter: IterMut<'a, u32, V>)
    ensures
        final(map)@.dom() == old(map)@.dom(),
        iter.obeys_prophetic_iter_laws(),
        in_key_order(
            old(map)@,
            iter.remaining().map_values(|item: (&u32, &mut V)| pair_of_mut(item)),
        ),
        forall|i: int|
            0 <= i < iter.remaining().len() ==> final(map)@[*(#[trigger] iter.remaining()[i]).0]
                == *final(iter.remaining()[i].1),
{
    broadcast use vstd::laws_cmp::group_laws_cmp;

    let iter = map_iter_mut(map);
    proof {
        let pairs = iter.remaining().map_values(|item: (&u32, &mut V)| pair_of_mut(item));
        assert forall|i: int, j: int| 0 <= i < j < pairs.len() implies #[trigger] pairs[i].0
            < #[trigger] pairs[j].0 by {
            assert(pairs[i].0.cmp_spec(&pairs[j].0) is Less);
        }
    }
    iter
}

} // verus!
