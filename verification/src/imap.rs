//! Trusted wrappers around `indexmap::IndexMap`.
//!
//! The engine keeps its runtime indexes in `IndexMap`, which preserves
//! insertion order.  Verus cannot look inside the collection, so its contents are named
//! by uninterpreted functions (one per instantiation), and each method the
//! engine calls gets a wrapper whose contract states, over that name, what
//! the indexmap source shows.  All keys are integers or tuples of integers,
//! whose `Eq` and `Hash` are std's own, so map lookup agrees with
//! mathematical key equality.

use vstd::prelude::*;

verus! {

#[verifier::external_type_specification]
#[verifier::external_body]
#[verifier::reject_recursive_types(K)]
#[verifier::reject_recursive_types(V)]
#[verifier::reject_recursive_types(S)]
pub struct ExIndexMap<K, V, S>(indexmap::IndexMap<K, V, S>);

/// Publisher index: `(endpoint, track id)` to `(peer, name, channel id)`.
pub type TracksIndexMap = indexmap::IndexMap<(u64, u64), (Vec<u8>, Vec<u8>, u64)>;

/// Publisher index: channel id to its publishing sources, in insertion
/// order.
pub type SourcesIndexMap = indexmap::IndexMap<u64, Vec<(u64, u64)>>;

/// Engine index: room hash to the room's slot in the arena.
pub type RoomsIndexMap = indexmap::IndexMap<u64, usize>;

/// What a `TracksIndexMap` holds, as a mathematical map.
pub uninterp spec fn tracks_map_of(m: TracksIndexMap) -> Map<(u64, u64), (Seq<u8>, Seq<u8>, u64)>;

/// What a `SourcesIndexMap` holds, as a mathematical map.
pub uninterp spec fn sources_map_of(m: SourcesIndexMap) -> Map<u64, Seq<(u64, u64)>>;

/// What a `RoomsIndexMap` holds, as a mathematical map.
pub uninterp spec fn rooms_map_of(m: RoomsIndexMap) -> Map<u64, usize>;

/// The empty contents of a `TracksIndexMap`.
pub open spec fn tracks_empty_map() -> Map<(u64, u64), (Seq<u8>, Seq<u8>, u64)> {
    Map::empty()
}

/// The empty contents of a `SourcesIndexMap`.
pub open spec fn sources_empty_map() -> Map<u64, Seq<(u64, u64)>> {
    Map::empty()
}

/// The empty contents of a `RoomsIndexMap`.
pub open spec fn rooms_empty_map() -> Map<u64, usize> {
    Map::empty()
}

/// Relies on `IndexMap::new`; nothing is assumed of the fresh map, use
/// [`tracks_map_clear`] to establish emptiness.
#[verifier::external_body]
pub fn tracks_map_new() -> TracksIndexMap {
    indexmap::IndexMap::new()
}

/// Relies on `IndexMap::clear`: afterwards the map holds no entry.
#[verifier::external_body]
pub fn tracks_map_clear(m: &mut TracksIndexMap)
    ensures
        tracks_map_of(*final(m)) == tracks_empty_map(),
{
    m.clear();
}

/// Relies on `IndexMap::get`: returns the value stored for the key, if any.
/// The value is handed out as a clone.
#[verifier::external_body]
pub fn tracks_map_get(m: &TracksIndexMap, k: (u64, u64)) -> (r: Option<(Vec<u8>, Vec<u8>, u64)>)
    ensures
        match r {
            Some(v) => tracks_map_of(*m).contains_key(k) && tracks_map_of(*m)[k] == (v.0@, v.1@, v.2),
            None => !tracks_map_of(*m).contains_key(k),
        },
{
    m.get(&k).cloned()
}

/// Relies on `IndexMap::insert`: the key now maps to the value; every other
/// key is untouched.
#[verifier::external_body]
pub fn tracks_map_insert(m: &mut TracksIndexMap, k: (u64, u64), v: (Vec<u8>, Vec<u8>, u64))
    ensures
        tracks_map_of(*final(m)) == tracks_map_of(*old(m)).insert(k, (v.0@, v.1@, v.2)),
{
    m.insert(k, v);
}

/// Relies on `IndexMap::swap_remove`: removes the key's entry and returns
/// its value; `None` when the key is absent.  Only the iteration order of
/// the rest is perturbed, which the contents map does not carry.
#[verifier::external_body]
pub fn tracks_map_swap_remove(m: &mut TracksIndexMap, k: (u64, u64)) -> (r: Option<
    (Vec<u8>, Vec<u8>, u64),
>)
    ensures
        match r {
            Some(v) => tracks_map_of(*old(m)).contains_key(k) && tracks_map_of(*old(m))[k] == (
                v.0@,
                v.1@,
                v.2,
            ) && tracks_map_of(*final(m)) == tracks_map_of(*old(m)).remove(k),
            None => !tracks_map_of(*old(m)).contains_key(k) && tracks_map_of(*final(m))
                == tracks_map_of(*old(m)),
        },
{
    m.swap_remove(&k)
}

/// Relies on `IndexMap::is_empty`: true exactly when the map holds no
/// entry.
#[verifier::external_body]
pub fn tracks_map_is_empty(m: &TracksIndexMap) -> (r: bool)
    ensures
        r == (tracks_map_of(*m) == tracks_empty_map()),
{
    m.is_empty()
}

/// Relies on `IndexMap::new`; nothing is assumed of the fresh map, use
/// [`sources_map_clear`] to establish emptiness.
#[verifier::external_body]
pub fn sources_map_new() -> SourcesIndexMap {
    indexmap::IndexMap::new()
}

/// Relies on `IndexMap::clear`: afterwards the map holds no entry.
#[verifier::external_body]
pub fn sources_map_clear(m: &mut SourcesIndexMap)
    ensures
        sources_map_of(*final(m)) == sources_empty_map(),
{
    m.clear();
}

/// Relies on `IndexMap::get`: returns the value stored for the key, if any.
/// The value is handed out as a clone.
#[verifier::external_body]
pub fn sources_map_get(m: &SourcesIndexMap, k: u64) -> (r: Option<Vec<(u64, u64)>>)
    ensures
        match r {
            Some(v) => sources_map_of(*m).contains_key(k) && sources_map_of(*m)[k] == v@,
            None => !sources_map_of(*m).contains_key(k),
        },
{
    m.get(&k).cloned()
}

/// Relies on `IndexMap::insert`: the key now maps to the value; every other
/// key is untouched.
#[verifier::external_body]
pub fn sources_map_insert(m: &mut SourcesIndexMap, k: u64, v: Vec<(u64, u64)>)
    ensures
        sources_map_of(*final(m)) == sources_map_of(*old(m)).insert(k, v@),
{
    m.insert(k, v);
}

/// Relies on `IndexMap::swap_remove`: removes the key's entry and returns
/// its value; `None` when the key is absent.
#[verifier::external_body]
pub fn sources_map_swap_remove(m: &mut SourcesIndexMap, k: u64) -> (r: Option<Vec<(u64, u64)>>)
    ensures
        match r {
            Some(v) => sources_map_of(*old(m)).contains_key(k) && sources_map_of(*old(m))[k] == v@
                && sources_map_of(*final(m)) == sources_map_of(*old(m)).remove(k),
            None => !sources_map_of(*old(m)).contains_key(k) && sources_map_of(*final(m))
                == sources_map_of(*old(m)),
        },
{
    m.swap_remove(&k)
}

/// Relies on `IndexMap::is_empty`: true exactly when the map holds no
/// entry.
#[verifier::external_body]
pub fn sources_map_is_empty(m: &SourcesIndexMap) -> (r: bool)
    ensures
        r == (sources_map_of(*m) == sources_empty_map()),
{
    m.is_empty()
}

/// Relies on `IndexMap::new`; nothing is assumed of the fresh map, use
/// [`rooms_map_clear`] to establish emptiness.
#[verifier::external_body]
pub fn rooms_map_new() -> RoomsIndexMap {
    indexmap::IndexMap::new()
}

/// Relies on `IndexMap::clear`: afterwards the map holds no entry.
#[verifier::external_body]
pub fn rooms_map_clear(m: &mut RoomsIndexMap)
    ensures
        rooms_map_of(*final(m)) == rooms_empty_map(),
{
    m.clear();
}

/// Relies on `IndexMap::get`: returns the value stored for the key, if any.
#[verifier::external_body]
pub fn rooms_map_get(m: &RoomsIndexMap, k: u64) -> (r: Option<usize>)
    ensures
        match r {
            Some(v) => rooms_map_of(*m).contains_key(k) && rooms_map_of(*m)[k] == v,
            None => !rooms_map_of(*m).contains_key(k),
        },
{
    m.get(&k).copied()
}

/// Relies on `IndexMap::insert`: the key now maps to the value; every other
/// key is untouched.
#[verifier::external_body]
pub fn rooms_map_insert(m: &mut RoomsIndexMap, k: u64, v: usize)
    ensures
        rooms_map_of(*final(m)) == rooms_map_of(*old(m)).insert(k, v),
{
    m.insert(k, v);
}

/// Relies on `IndexMap::swap_remove`: removes the key's entry and returns
/// its value; `None` when the key is absent.
#[verifier::external_body]
pub fn rooms_map_swap_remove(m: &mut RoomsIndexMap, k: u64) -> (r: Option<usize>)
    ensures
        match r {
            Some(v) => rooms_map_of(*old(m)).contains_key(k) && rooms_map_of(*old(m))[k] == v
                && rooms_map_of(*final(m)) == rooms_map_of(*old(m)).remove(k),
            None => !rooms_map_of(*old(m)).contains_key(k) && rooms_map_of(*final(m)) == rooms_map_of(*old(m)),
        },
{
    m.swap_remove(&k)
}

/// Relies on `IndexMap::len`: the number of entries, which is the size of
/// the contents map's domain.
#[verifier::external_body]
pub fn rooms_map_len(m: &RoomsIndexMap) -> (r: usize)
    ensures
        r as int == rooms_map_of(*m).dom().len(),
{
    m.len()
}

} // verus!
