//! The ordered attribute map of a markup element.
//!
//! The map is an `indexmap::IndexMap`. Verus does not read its code: what
//! this module states of it is taken on trust from the map's documentation.

use vstd::prelude::*;
use indexmap::IndexMap;

verus! {

/// One attribute as mathematics: its name, and its value where it has one.
pub type AttributeView = (Seq<char>, Option<Seq<char>>);

/// `indexmap::IndexMap`, opaque to the verifier.
#[verifier::external_type_specification]
#[verifier::external_body]
#[verifier::reject_recursive_types(K)]
#[verifier::reject_recursive_types(V)]
#[verifier::reject_recursive_types(S)]
pub struct ExIndexMap<K, V, S>(IndexMap<K, V, S>);

/// The entries of an attribute map in the order in which the map walks
/// them, each as its key and its value.
pub uninterp spec fn attribute_entries(m: IndexMap<&str, Option<&str>>) -> Seq<AttributeView>;

/// The characters of a value that may be absent.
pub open spec fn option_text(v: Option<&str>) -> Option<Seq<char>> {
    match v {
        Some(t) => Some(t@),
        None => None,
    }
}

/// The entries after one insertion. Where an entry has the key, the first
/// such entry keeps its place and its key and takes the new value; else the
/// new entry goes to the end.
pub open spec fn upsert(entries: Seq<AttributeView>, key: Seq<char>, value: Option<Seq<char>>) -> Seq<
    AttributeView,
>
    decreases entries.len(),
{
    if entries.len() == 0 {
        seq![(key, value)]
    } else if entries[0].0 == key {
        entries.update(0, (key, value))
    } else {
        seq![entries[0]] + upsert(entries.drop_first(), key, value)
    }
}

/// `IndexMap::new`: a map without entries.
#[verifier::external_body]
pub(crate) fn attributes_new<'a>() -> (m: IndexMap<&'a str, Option<&'a str>>)
    ensures
        attribute_entries(m) == Seq::<AttributeView>::empty(),
{
    IndexMap::new()
}

/// `IndexMap::insert`: where the map holds an equal key, that entry stays
/// in its place with the new value; else the pair becomes the last entry.
/// The value that was replaced is dropped.
#[verifier::external_body]
pub(crate) fn attributes_insert<'a>(
    m: &mut IndexMap<&'a str, Option<&'a str>>,
    key: &'a str,
    value: Option<&'a str>,
)
    ensures
        attribute_entries(*final(m)) == upsert(attribute_entries(*old(m)), key@, option_text(value)),
{
    m.insert(key, value);
}

/// `IndexMap::len`: the number of entries.
#[verifier::external_body]
pub(crate) fn attributes_len(m: &IndexMap<&str, Option<&str>>) -> (n: usize)
    ensures
        n == attribute_entries(*m).len(),
{
    m.len()
}

/// `IndexMap::get_index`: the entry at the position `i` of the map's order,
/// or nothing where the map has no more than `i` entries.
#[verifier::external_body]
pub(crate) fn attributes_get<'a, 'b>(m: &'b IndexMap<&'a str, Option<&'a str>>, i: usize) -> (r:
    Option<(&'a str, Option<&'a str>)>)
    ensures
        r is Some <==> i < attribute_entries(*m).len(),
        r matches Some(entry) ==> (entry.0@, option_text(entry.1)) == attribute_entries(*m)[i as int],
{
    m.get_index(i).map(|(k, v)| (*k, *v))
}

} // verus!
