//! The two hash maps of the in-memory index. Both are `rustc_hash` maps
//! keyed by text; the verifier knows them by the entries they hold.

use rustc_hash::FxHashMap;
use vstd::prelude::*;

verus! {

/// The hasher builder of `rustc_hash`; it carries no state.
#[verifier::external_type_specification]
#[verifier::external_body]
pub struct ExFxBuildHasher(rustc_hash::FxBuildHasher);

/// What an identity map holds: under each key's characters, the arena
/// position stored there.
pub uninterp spec fn id_entries(m: FxHashMap<String, usize>) -> Map<Seq<char>, usize>;

/// What a type map holds: under each key's characters, the list of arena
/// positions stored there.
pub uninterp spec fn type_entries(m: FxHashMap<String, Vec<usize>>) -> Map<Seq<char>, Seq<usize>>;

/// The identity map without entries.
pub open spec fn no_id_entries() -> Map<Seq<char>, usize> {
    Map::empty()
}

/// The type map without entries.
pub open spec fn no_type_entries() -> Map<Seq<char>, Seq<usize>> {
    Map::empty()
}

/// `FxHashMap::default`: a new map holds no entry.
#[verifier::external_body]
pub(crate) fn id_map_new() -> (m: FxHashMap<String, usize>)
    ensures
        id_entries(m) == no_id_entries(),
{
    FxHashMap::default()
}

/// `HashMap::insert`: the map then holds `value` under `key`, every other
/// key keeps its entry, and the value that `key` held before comes back.
#[verifier::external_body]
pub(crate) fn id_map_insert(m: &mut FxHashMap<String, usize>, key: String, value: usize) -> (before: Option<usize>)
    ensures
        id_entries(*final(m)) == id_entries(*old(m)).insert(key@, value),
        before == (if id_entries(*old(m)).contains_key(key@) {
            Some(id_entries(*old(m))[key@])
        } else {
            None
        }),
{
    m.insert(key, value)
}

/// `HashMap::get`: the value held under `key`, where the map has the key.
#[verifier::external_body]
pub(crate) fn id_map_get(m: &FxHashMap<String, usize>, key: &str) -> (found: Option<usize>)
    ensures
        found == (if id_entries(*m).contains_key(key@) {
            Some(id_entries(*m)[key@])
        } else {
            None
        }),
{
    m.get(key).copied()
}

/// `HashMap::clear`: the map then holds no entry.
#[verifier::external_body]
pub(crate) fn id_map_clear(m: &mut FxHashMap<String, usize>)
    ensures
        id_entries(*final(m)) == no_id_entries(),
{
    m.clear()
}

/// `<HashMap as Clone>::clone`: the copy holds the entries of the map.
#[verifier::external_body]
pub(crate) fn id_map_clone(m: &FxHashMap<String, usize>) -> (copy: FxHashMap<String, usize>)
    ensures
        id_entries(copy) == id_entries(*m),
{
    m.clone()
}

/// `FxHashMap::default`: a new map holds no entry.
#[verifier::external_body]
pub(crate) fn type_map_new() -> (m: FxHashMap<String, Vec<usize>>)
    ensures
        type_entries(m) == no_type_entries(),
{
    FxHashMap::default()
}

/// `HashMap::insert`: the map then holds `list` under `key`, and every
/// other key keeps its entry.
#[verifier::external_body]
pub(crate) fn type_map_insert(m: &mut FxHashMap<String, Vec<usize>>, key: String, list: Vec<usize>)
    ensures
        type_entries(*final(m)) == type_entries(*old(m)).insert(key@, list@),
{
    m.insert(key, list);
}

/// `HashMap::remove`: the map no longer has `key`, every other key keeps
/// its entry, and the list that `key` held comes back.
#[verifier::external_body]
pub(crate) fn type_map_remove(m: &mut FxHashMap<String, Vec<usize>>, key: &str) -> (taken: Option<Vec<usize>>)
    ensures
        type_entries(*final(m)) == type_entries(*old(m)).remove(key@),
        type_entries(*old(m)).contains_key(key@) ==> taken.is_some() && taken.unwrap()@
            == type_entries(*old(m))[key@],
        !type_entries(*old(m)).contains_key(key@) ==> taken.is_none(),
{
    m.remove(key)
}

/// `HashMap::get`: the list held under `key`, where the map has the key.
#[verifier::external_body]
pub(crate) fn type_map_get<'a>(m: &'a FxHashMap<String, Vec<usize>>, key: &str) -> (found: Option<&'a Vec<usize>>)
    ensures
        type_entries(*m).contains_key(key@) ==> found.is_some() && found.unwrap()@
            == type_entries(*m)[key@],
        !type_entries(*m).contains_key(key@) ==> found.is_none(),
{
    m.get(key)
}

/// `HashMap::clear`: the map then holds no entry.
#[verifier::external_body]
pub(crate) fn type_map_clear(m: &mut FxHashMap<String, Vec<usize>>)
    ensures
        type_entries(*final(m)) == no_type_entries(),
{
    m.clear()
}

/// `<HashMap as Clone>::clone`: the copy holds the entries of the map.
#[verifier::external_body]
pub(crate) fn type_map_clone(m: &FxHashMap<String, Vec<usize>>) -> (copy: FxHashMap<String, Vec<usize>>)
    ensures
        type_entries(copy) == type_entries(*m),
{
    m.clone()
}

} // verus!
