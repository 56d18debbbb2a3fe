//! The insertion-ordered map of overlay items, keyed by name, that holds the
//! shared state; the map itself comes from the `indexmap` crate.

use crate::model::ServerPlayer;
use indexmap::IndexMap;
use vstd::prelude::*;

verus! {

#[verifier::external_type_specification]
#[verifier::external_body]
#[verifier::reject_recursive_types(K)]
#[verifier::reject_recursive_types(V)]
#[verifier::reject_recursive_types(S)]
pub struct ExIndexMap<K, V, S>(IndexMap<K, V, S>);

/// The key-value pairs of an item map, in the map's order.
pub uninterp spec fn map_entries(m: IndexMap<String, ServerPlayer>) -> Seq<(String, ServerPlayer)>;

/// No two pairs have keys with the same text.
pub open spec fn keys_unique(e: Seq<(String, ServerPlayer)>) -> bool {
    forall|i: int, j: int|
        0 <= i < e.len() && 0 <= j < e.len() && i != j ==> #[trigger] e[i].0@ != #[trigger] e[j].0@
}

/// Relies on `IndexMap::new`: the new map is empty.
#[verifier::external_body]
pub(crate) fn map_new() -> (r: IndexMap<String, ServerPlayer>)
    ensures
        map_entries(r) == Seq::<(String, ServerPlayer)>::empty(),
{
    IndexMap::new()
}

/// Relies on `IndexMap::len`: the number of pairs.
#[verifier::external_body]
pub(crate) fn map_len(m: &IndexMap<String, ServerPlayer>) -> (r: usize)
    ensures
        r == map_entries(*m).len(),
{
    m.len()
}

/// Relies on `IndexMap::get_index_of`: the position of the pair whose key equals `k`.
#[verifier::external_body]
pub(crate) fn map_index_of(m: &IndexMap<String, ServerPlayer>, k: &str) -> (r: Option<usize>)
    requires
        keys_unique(map_entries(*m)),
    ensures
        match r {
            Some(i) => i < map_entries(*m).len() && map_entries(*m)[i as int].0@ == k@,
            None => forall|i: int|
                0 <= i < map_entries(*m).len() ==> #[trigger] map_entries(*m)[i].0@ != k@,
        },
{
    m.get_index_of(k)
}

/// Relies on `Index<usize>` of `IndexMap`: the value of the pair at position `i`.
#[verifier::external_body]
pub(crate) fn map_value_at(m: &IndexMap<String, ServerPlayer>, i: usize) -> (r: &ServerPlayer)
    requires
        i < map_entries(*m).len(),
    ensures
        *r == map_entries(*m)[i as int].1,
{
    &m[i]
}

/// Relies on `IndexMut<usize>` of `IndexMap`: the value at position `i` is replaced,
/// its key and every other pair stay.
#[verifier::external_body]
pub(crate) fn map_set_value_at(m: &mut IndexMap<String, ServerPlayer>, i: usize, v: ServerPlayer)
    requires
        i < map_entries(*old(m)).len(),
    ensures
        map_entries(*final(m)) == map_entries(*old(m)).update(
            i as int,
            (map_entries(*old(m))[i as int].0, v),
        ),
{
    m[i] = v;
}

/// Relies on `IndexMap::insert`: a new key is appended last; an existing key keeps
/// its place and gets the new value, and the old value is returned.
#[verifier::external_body]
pub(crate) fn map_insert(m: &mut IndexMap<String, ServerPlayer>, k: String, v: ServerPlayer) -> (r:
    Option<ServerPlayer>)
    requires
        keys_unique(map_entries(*old(m))),
    ensures
        (forall|i: int|
            0 <= i < map_entries(*old(m)).len() ==> #[trigger] map_entries(*old(m))[i].0@ != k@)
            ==> r.is_none() && map_entries(*final(m)) == map_entries(*old(m)).push((k, v)),
        forall|i: int|
            0 <= i < map_entries(*old(m)).len() && #[trigger] map_entries(*old(m))[i].0@ == k@
                ==> r == Some(map_entries(*old(m))[i].1) && map_entries(*final(m))
                == map_entries(*old(m)).update(i, (map_entries(*old(m))[i].0, v)),
{
    m.insert(k, v)
}

/// Relies on `IndexMap::shift_remove`: the pair whose key equals `k` is removed and
/// the pairs after it move one place forward, keeping their order.
#[verifier::external_body]
pub(crate) fn map_shift_remove(m: &mut IndexMap<String, ServerPlayer>, k: &str) -> (r: Option<
    ServerPlayer,
>)
    requires
        keys_unique(map_entries(*old(m))),
    ensures
        (forall|i: int|
            0 <= i < map_entries(*old(m)).len() ==> #[trigger] map_entries(*old(m))[i].0@ != k@)
            ==> r.is_none() && map_entries(*final(m)) == map_entries(*old(m)),
        forall|i: int|
            0 <= i < map_entries(*old(m)).len() && #[trigger] map_entries(*old(m))[i].0@ == k@
                ==> r == Some(map_entries(*old(m))[i].1) && map_entries(*final(m))
                == map_entries(*old(m)).remove(i),
{
    m.shift_remove(k)
}

/// Relies on `IndexMap::swap_indices`: the pairs at positions `a` and `b` trade places.
#[verifier::external_body]
pub(crate) fn map_swap_indices(m: &mut IndexMap<String, ServerPlayer>, a: usize, b: usize)
    requires
        a < map_entries(*old(m)).len(),
        b < map_entries(*old(m)).len(),
    ensures
        map_entries(*final(m)) == map_entries(*old(m)).update(
            a as int,
            map_entries(*old(m))[b as int],
        ).update(b as int, map_entries(*old(m))[a as int]),
{
    m.swap_indices(a, b)
}

} // verus!
