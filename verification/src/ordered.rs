//! The insertion-ordered maps that hold the symbol records and the sections.

use vstd::prelude::*;
use indexmap::IndexMap;
use std::collections::hash_map::RandomState;
use crate::section::SectionBuilder;
use crate::symbol::SymbolBuilder;

verus! {

/// `indexmap::IndexMap`: a map that keeps its entries in the order of their insertion.
#[verifier::external_type_specification]
#[verifier::external_body]
#[verifier::reject_recursive_types(K)]
#[verifier::reject_recursive_types(V)]
#[verifier::reject_recursive_types(S)]
pub struct ExIndexMap<K, V, S>(IndexMap<K, V, S>);

/// The entries of a map of symbol records, in the order of their insertion.
pub uninterp spec fn symbol_entries(map: IndexMap<usize, SymbolBuilder, RandomState>) -> Seq<
    (usize, SymbolBuilder),
>;

/// `IndexMap::new`: a map without entries.
#[verifier::external_body]
pub(crate) fn symbols_new() -> (map: IndexMap<usize, SymbolBuilder, RandomState>)
    ensures
        symbol_entries(map) == Seq::<(usize, SymbolBuilder)>::empty(),
{
    IndexMap::new()
}

/// `IndexMap::len`: the number of entries.
#[verifier::external_body]
pub(crate) fn symbols_len(map: &IndexMap<usize, SymbolBuilder, RandomState>) -> (len: usize)
    ensures
        len == symbol_entries(*map).len(),
{
    map.len()
}

/// `IndexMap::insert`: a key that the map does not hold is appended with
/// its value, and nothing is returned. The value of a key that the map
/// holds is replaced in its place, and the old value is returned.
#[verifier::external_body]
pub(crate) fn symbols_insert(
    map: &mut IndexMap<usize, SymbolBuilder, RandomState>,
    key: usize,
    value: SymbolBuilder,
) -> (replaced: Option<SymbolBuilder>)
    ensures
        (forall|i: int|
            0 <= i < symbol_entries(*old(map)).len() ==> (#[trigger] symbol_entries(
                *old(map),
            )[i]).0 != key) ==> replaced is None && symbol_entries(*final(map))
            == symbol_entries(*old(map)).push((key, value)),
        forall|i: int|
            0 <= i < symbol_entries(*old(map)).len() && (#[trigger] symbol_entries(
                *old(map),
            )[i]).0 == key ==> replaced == Some(symbol_entries(*old(map))[i].1) && symbol_entries(
                *final(map),
            ) == symbol_entries(*old(map)).update(i, (key, value)),
{
    map.insert(key, value)
}

/// `IndexMap::get`: the value stored for `key`, if the map holds the key.
#[verifier::external_body]
pub(crate) fn symbols_get(map: &IndexMap<usize, SymbolBuilder, RandomState>, key: usize) -> (value:
    Option<SymbolBuilder>)
    ensures
        match value {
            Some(v) => exists|i: int|
                0 <= i < symbol_entries(*map).len() && #[trigger] symbol_entries(*map)[i] == (
                    key,
                    v,
                ),
            None => forall|i: int|
                0 <= i < symbol_entries(*map).len() ==> (#[trigger] symbol_entries(*map)[i]).0
                    != key,
        },
{
    map.get(&key).copied()
}

/// `IndexMap::get_index_of`: the position of `key` in the order of
/// insertion, if the map holds the key.
#[verifier::external_body]
pub(crate) fn symbols_get_index_of(
    map: &IndexMap<usize, SymbolBuilder, RandomState>,
    key: usize,
) -> (index: Option<usize>)
    ensures
        match index {
            Some(i) => i < symbol_entries(*map).len() && symbol_entries(*map)[i as int].0 == key,
            None => forall|i: int|
                0 <= i < symbol_entries(*map).len() ==> (#[trigger] symbol_entries(*map)[i]).0
                    != key,
        },
{
    map.get_index_of(&key)
}

/// `IndexMap::get_index`: the entry at a position in the order of insertion.
#[verifier::external_body]
pub(crate) fn symbols_get_index(
    map: &IndexMap<usize, SymbolBuilder, RandomState>,
    index: usize,
) -> (entry: Option<(usize, SymbolBuilder)>)
    ensures
        match entry {
            Some(e) => index < symbol_entries(*map).len() && e == symbol_entries(*map)[index as int],
            None => index >= symbol_entries(*map).len(),
        },
{
    map.get_index(index).map(|(key, value)| (*key, *value))
}


/// The entries of a map of sections, in the order of their insertion.
pub uninterp spec fn section_entries(map: IndexMap<String, SectionBuilder, RandomState>) -> Seq<
    (String, SectionBuilder),
>;

/// The sections of a map, in the order of their insertion.
pub open spec fn section_list(map: IndexMap<String, SectionBuilder, RandomState>) -> Seq<
    SectionBuilder,
> {
    Seq::new(section_entries(map).len(), |i: int| section_entries(map)[i].1)
}

/// The keys of a map of sections, in the order of their insertion.
pub open spec fn section_keys(map: IndexMap<String, SectionBuilder, RandomState>) -> Seq<
    Seq<char>,
> {
    Seq::new(section_entries(map).len(), |i: int| section_entries(map)[i].0@)
}

/// `IndexMap::new`: a map without entries.
#[verifier::external_body]
pub(crate) fn sections_new() -> (map: IndexMap<String, SectionBuilder, RandomState>)
    ensures
        section_entries(map) == Seq::<(String, SectionBuilder)>::empty(),
{
    IndexMap::new()
}

/// `IndexMap::len`: the number of entries.
#[verifier::external_body]
pub(crate) fn sections_len(map: &IndexMap<String, SectionBuilder, RandomState>) -> (len: usize)
    ensures
        len == section_entries(*map).len(),
{
    map.len()
}

/// `IndexMap::insert`: a key that the map does not hold is appended with
/// its value, and nothing is returned. The value of a key that the map
/// holds is replaced in its place, under the key that was there, and the
/// old value is returned.
#[verifier::external_body]
pub(crate) fn sections_insert(
    map: &mut IndexMap<String, SectionBuilder, RandomState>,
    key: String,
    value: SectionBuilder,
) -> (replaced: Option<SectionBuilder>)
    ensures
        (forall|i: int|
            0 <= i < section_entries(*old(map)).len() ==> (#[trigger] section_entries(
                *old(map),
            )[i]).0@ != key@) ==> replaced is None && section_entries(*final(map))
            == section_entries(*old(map)).push((key, value)),
        forall|i: int|
            0 <= i < section_entries(*old(map)).len() && (#[trigger] section_entries(
                *old(map),
            )[i]).0@ == key@ ==> replaced == Some(section_entries(*old(map))[i].1)
                && section_entries(*final(map)) == section_entries(*old(map)).update(
                i,
                (section_entries(*old(map))[i].0, value),
            ),
{
    map.insert(key, value)
}

/// `IndexMap::get_index`: the value at a position in the order of insertion.
#[verifier::external_body]
pub(crate) fn sections_get_index(
    map: &IndexMap<String, SectionBuilder, RandomState>,
    index: usize,
) -> (section: Option<&SectionBuilder>)
    ensures
        match section {
            Some(s) => index < section_entries(*map).len() && *s == section_entries(
                *map,
            )[index as int].1,
            None => index >= section_entries(*map).len(),
        },
{
    map.get_index(index).map(|(_, value)| value)
}

/// `IndexMap::get_index_of`: the position of `key` in the order of
/// insertion, if the map holds the key.
#[verifier::external_body]
pub(crate) fn sections_get_index_of(
    map: &IndexMap<String, SectionBuilder, RandomState>,
    key: &str,
) -> (index: Option<usize>)
    ensures
        match index {
            Some(i) => i < section_entries(*map).len() && section_entries(*map)[i as int].0@
                == key@,
            None => forall|i: int|
                0 <= i < section_entries(*map).len() ==> (#[trigger] section_entries(
                    *map,
                )[i]).0@ != key@,
        },
{
    map.get_index_of(key)
}

/// `IndexMap::get_index_mut`: the value at a position in the order of
/// insertion, to be changed in place. The key and all other entries stay.
#[verifier::external_body]
pub(crate) fn sections_index_mut(
    map: &mut IndexMap<String, SectionBuilder, RandomState>,
    index: usize,
) -> (section: &mut SectionBuilder)
    requires
        index < section_entries(*old(map)).len(),
    ensures
        *section == section_entries(*old(map))[index as int].1,
        section_entries(*final(map)) == section_entries(*old(map)).update(
            index as int,
            (section_entries(*old(map))[index as int].0, *final(section)),
        ),
{
    map.get_index_mut(index).unwrap().1
}

} // verus!
