//! The hash tables of the library.
//!
//! All of them are `SmallMap`s of the `small-map` crate. Verus does not look
//! inside one: what a table holds is named by an uninterpreted function, and
//! each operation that the library uses is a thin call whose contract states,
//! over that name, what the crate's documentation and source say of it.

use vstd::prelude::*;
use small_map::SmallMap;
use std::collections::hash_map::RandomState;

verus! {

#[verifier::external_type_specification]
#[verifier::external_body]
#[verifier::reject_recursive_types(K)]
#[verifier::reject_recursive_types(V)]
#[verifier::reject_recursive_types(SH)]
#[verifier::reject_recursive_types(SI)]
pub struct ExSmallMap<const N: usize, K, V, SH, SI, const LINEAR_THRESHOLD: usize>(
    SmallMap<N, K, V, SH, SI, LINEAR_THRESHOLD>,
);

/// From the text of a string to its symbol.
pub type StringIndex = SmallMap<16, String, usize, RandomState, RandomState>;

/// From a symbol to a number: a slot, a handle or a flag.
pub type SymbolMap = SmallMap<16, usize, usize, RandomState, RandomState>;

/// From the span of a token to a number.
pub type SpanMap = SmallMap<16, (usize, usize), usize, RandomState, RandomState>;

/// What a string index holds: the value stored under each key.
pub uninterp spec fn string_index_contents(
    m: SmallMap<16, String, usize, RandomState, RandomState>,
) -> Map<Seq<char>, usize>;

/// What a symbol map holds: the value stored under each key.
pub uninterp spec fn symbol_map_contents(
    m: SmallMap<16, usize, usize, RandomState, RandomState>,
) -> Map<usize, usize>;

/// What a span map holds: the value stored under each key.
pub uninterp spec fn span_map_contents(
    m: SmallMap<16, (usize, usize), usize, RandomState, RandomState>,
) -> Map<(usize, usize), usize>;

/// `SmallMap::new`: a map that holds nothing.
#[verifier::external_body]
pub(crate) fn string_index_new() -> (table: StringIndex)
    ensures
        string_index_contents(table) == (Map::<Seq<char>, usize>::empty()),
{
    SmallMap::new()
}

/// `SmallMap::get`: the value stored under a key equal to `key`, if there is
/// one. Keys are strings and are equal when their texts are.
#[verifier::external_body]
pub(crate) fn string_index_get(m: &StringIndex, key: &str) -> (r: Option<usize>)
    ensures
        r == string_index_contents(*m).get(key@),
{
    m.get(key).copied()
}

/// `SmallMap::insert`: afterwards the map holds `value` under `key`, in place
/// of what it held there before, and every other key is as it was.
#[verifier::external_body]
pub(crate) fn string_index_insert(m: &mut StringIndex, key: String, value: usize)
    ensures
        string_index_contents(*final(m)) == string_index_contents(*old(m)).insert(key@, value),
{
    m.insert(key, value);
}

/// `SmallMap::new`: a map that holds nothing.
#[verifier::external_body]
pub(crate) fn symbol_map_new() -> (table: SymbolMap)
    ensures
        symbol_map_contents(table) == (Map::<usize, usize>::empty()),
{
    SmallMap::new()
}

/// `SmallMap::get`: the value stored under `key`, if there is one.
#[verifier::external_body]
pub(crate) fn symbol_map_get(m: &SymbolMap, key: usize) -> (r: Option<usize>)
    ensures
        r == symbol_map_contents(*m).get(key),
{
    m.get(&key).copied()
}

/// `SmallMap::insert`: afterwards the map holds `value` under `key`, in place
/// of what it held there before, and every other key is as it was.
#[verifier::external_body]
pub(crate) fn symbol_map_insert(m: &mut SymbolMap, key: usize, value: usize)
    ensures
        symbol_map_contents(*final(m)) == symbol_map_contents(*old(m)).insert(key, value),
{
    m.insert(key, value);
}

/// `SmallMap::new`: a map that holds nothing.
#[verifier::external_body]
pub(crate) fn span_map_new() -> (table: SpanMap)
    ensures
        span_map_contents(table) == (Map::<(usize, usize), usize>::empty()),
{
    SmallMap::new()
}

/// `SmallMap::get`: the value stored under `key`, if there is one.
#[verifier::external_body]
pub(crate) fn span_map_get(m: &SpanMap, key: (usize, usize)) -> (r: Option<usize>)
    ensures
        r == span_map_contents(*m).get(key),
{
    m.get(&key).copied()
}

/// `SmallMap::insert`: afterwards the map holds `value` under `key`, in place
/// of what it held there before, and every other key is as it was.
#[verifier::external_body]
pub(crate) fn span_map_insert(m: &mut SpanMap, key: (usize, usize), value: usize)
    ensures
        span_map_contents(*final(m)) == span_map_contents(*old(m)).insert(key, value),
{
    m.insert(key, value);
}

} // verus!
