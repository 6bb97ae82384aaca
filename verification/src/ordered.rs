//! The insertion-ordered maps of the `indexmap` crate, as far as this library
//! uses them: one from a word type to its groups of definition texts, one
//! from a language to its translations.
//!
//! Verus does not look inside an `IndexMap`. What a map holds is given a name
//! here, and each operation says what it does to the entries under that name,
//! as the crate documents it.

use vstd::prelude::*;
use indexmap::IndexMap;

verus! {

#[verifier::external_type_specification]
#[verifier::external_body]
#[verifier::reject_recursive_types(K)]
#[verifier::reject_recursive_types(V)]
#[verifier::reject_recursive_types(S)]
pub struct ExIndexMap<K, V, S>(IndexMap<K, V, S>);

/// The entries of a map of definition groups, in the map's order: the key,
/// and the groups under it, each group a list of texts.
pub uninterp spec fn grouped_entries(m: IndexMap<String, Vec<Vec<String>>>) -> Seq<
    (Seq<char>, Seq<Seq<Seq<char>>>),
>;

/// The entries of a map of translations, in the map's order: the language,
/// and the translations into it.
pub uninterp spec fn translation_entries(m: IndexMap<String, Vec<String>>) -> Seq<
    (Seq<char>, Seq<Seq<char>>),
>;

/// Whether some entry has the key `key`.
pub open spec fn has_key<V>(entries: Seq<(Seq<char>, V)>, key: Seq<char>) -> bool {
    exists|i: int| 0 <= i < entries.len() && (#[trigger] entries[i]).0 == key
}

/// Whether no two entries have the same key.
pub open spec fn distinct_keys<V>(entries: Seq<(Seq<char>, V)>) -> bool {
    forall|i: int, j: int|
        0 <= i < j < entries.len() ==> (#[trigger] entries[i]).0 != (#[trigger] entries[j]).0
}

/// `IndexMap::new`: a map without entries.
#[verifier::external_body]
pub(crate) fn new_groups() -> (m: IndexMap<String, Vec<Vec<String>>>)
    ensures
        grouped_entries(m) == Seq::<(Seq<char>, Seq<Seq<Seq<char>>>)>::empty(),
{
    IndexMap::new()
}

/// `IndexMap::contains_key`: whether the map has an entry for `key`.
#[verifier::external_body]
pub(crate) fn has_group_key(m: &IndexMap<String, Vec<Vec<String>>>, key: &str) -> (b: bool)
    ensures
        b == has_key(grouped_entries(*m), key@),
{
    m.contains_key(key)
}

/// `IndexMap::insert`: a new key goes last in the order and nothing is
/// returned; a key that the map has keeps its place, gets the new value, and
/// its old value is returned.
#[verifier::external_body]
pub(crate) fn insert_groups(
    m: &mut IndexMap<String, Vec<Vec<String>>>,
    key: String,
    value: Vec<Vec<String>>,
) -> (r: Option<Vec<Vec<String>>>)
    ensures
        !has_key(grouped_entries(*old(m)), key@) ==> r is None && grouped_entries(*final(m))
            == grouped_entries(*old(m)).push((key@, value.deep_view())),
        has_key(grouped_entries(*old(m)), key@) ==> exists|i: int|
            0 <= i < grouped_entries(*old(m)).len() && (#[trigger] grouped_entries(
                *old(m),
            )[i]).0 == key@ && r.deep_view() == Some(grouped_entries(*old(m))[i].1)
                && grouped_entries(*final(m)) == grouped_entries(*old(m)).update(
                i,
                (key@, value.deep_view()),
            ),
{
    m.insert(key, value)
}

/// Indexing an `IndexMap` by key, mutably: the groups under `key`, which the
/// map must have. What the caller leaves in them is what the map then holds
/// under that key; the other entries and the order stay.
#[verifier::external_body]
pub(crate) fn groups_mut<'a>(m: &'a mut IndexMap<String, Vec<Vec<String>>>, key: &str) -> (r:
    &'a mut Vec<Vec<String>>)
    requires
        has_key(grouped_entries(*old(m)), key@),
    ensures
        exists|i: int|
            0 <= i < grouped_entries(*old(m)).len() && (#[trigger] grouped_entries(
                *old(m),
            )[i]).0 == key@ && r.deep_view() == grouped_entries(*old(m))[i].1 && grouped_entries(
                *final(m),
            ) == grouped_entries(*old(m)).update(i, (key@, final(r).deep_view())),
{
    &mut m[key]
}

/// `IndexMap::len`: the number of entries.
#[verifier::external_body]
pub(crate) fn group_count(m: &IndexMap<String, Vec<Vec<String>>>) -> (n: usize)
    ensures
        n == grouped_entries(*m).len(),
{
    m.len()
}

/// `IndexMap::get_index`: the entry at position `index` of the order, if
/// there is one.
#[verifier::external_body]
pub(crate) fn group_at(m: &IndexMap<String, Vec<Vec<String>>>, index: usize) -> (r: Option<
    (&String, &Vec<Vec<String>>),
>)
    ensures
        r is Some <==> index < grouped_entries(*m).len(),
        r matches Some(e) ==> e.0@ == grouped_entries(*m)[index as int].0 && e.1.deep_view()
            == grouped_entries(*m)[index as int].1,
{
    m.get_index(index)
}

/// `IndexMap::len`: the number of entries.
#[verifier::external_body]
pub(crate) fn translation_count(m: &IndexMap<String, Vec<String>>) -> (n: usize)
    ensures
        n == translation_entries(*m).len(),
{
    m.len()
}

/// `IndexMap::get_index`: the entry at position `index` of the order, if
/// there is one.
#[verifier::external_body]
pub(crate) fn translation_at(m: &IndexMap<String, Vec<String>>, index: usize) -> (r: Option<
    (&String, &Vec<String>),
>)
    ensures
        r is Some <==> index < translation_entries(*m).len(),
        r matches Some(e) ==> e.0@ == translation_entries(*m)[index as int].0 && e.1.deep_view()
            == translation_entries(*m)[index as int].1,
{
    m.get_index(index)
}

} // verus!
