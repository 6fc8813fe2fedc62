//! The `rustc_hash` collections that the runner keeps, and what their methods do.
use vstd::prelude::*;
use rustc_hash::{FxHashMap, FxHashSet, FxHasher};
use std::hash::BuildHasherDefault;
use crate::text::opt_view;

verus! {

/// The hasher state of `rustc_hash`; opaque here.
#[verifier::external_type_specification]
#[verifier::external_body]
pub struct ExFxHasher(FxHasher);

/// The std builder of default-constructed hashers; opaque here.
#[verifier::external_type_specification]
#[verifier::external_body]
#[verifier::reject_recursive_types(H)]
pub struct ExBuildHasherDefault<H>(BuildHasherDefault<H>);

/// A table from strings to strings: environment variables by name, target hashes by target.
pub type StringTable = FxHashMap<String, String>;

/// The entries of a string table, by the characters of key and value.
pub uninterp spec fn string_table(m: StringTable) -> Map<Seq<char>, Seq<char>>;

/// Creates an empty string table with `FxHashMap::default`.
/// Claims that the table holds no entry.
#[verifier::external_body]
pub(crate) fn string_table_new() -> (m: StringTable)
    ensures
        string_table(m).dom() == Set::<Seq<char>>::empty(),
{
    FxHashMap::default()
}

/// Calls `HashMap::insert` on a string table.
/// Claims what std documents: afterwards the key maps to the value, and no other entry changed.
#[verifier::external_body]
pub(crate) fn string_table_insert(m: &mut StringTable, key: String, value: String)
    ensures
        string_table(*final(m)) == string_table(*old(m)).insert(key@, value@),
{
    m.insert(key, value);
}

/// The identifiers held by a set of project identifiers.
pub uninterp spec fn id_set(s: FxHashSet<String>) -> Set<Seq<char>>;

/// Creates an empty set with `FxHashSet::default`.
/// Claims that the set holds nothing.
#[verifier::external_body]
pub(crate) fn id_set_new() -> (s: FxHashSet<String>)
    ensures
        id_set(s) == Set::<Seq<char>>::empty(),
{
    FxHashSet::default()
}

/// Calls `HashSet::insert`.
/// Claims what std documents: afterwards the set holds the value besides what it held.
#[verifier::external_body]
pub(crate) fn id_set_insert(s: &mut FxHashSet<String>, value: String)
    ensures
        id_set(*final(s)) == id_set(*old(s)).insert(value@),
{
    s.insert(value);
}

/// Calls `HashSet::contains`.
/// Claims what std documents: the answer is whether the set holds the value.
#[verifier::external_body]
pub(crate) fn id_set_contains(s: &FxHashSet<String>, value: &str) -> (r: bool)
    ensures
        r == id_set(*s).contains(value@),
{
    s.contains(value)
}

/// A table from archive hashes to the address each archive can be downloaded from.
pub type UrlTable = FxHashMap<String, Option<String>>;

/// The entries of an archive table, by the characters of hash and address.
pub uninterp spec fn url_table(m: UrlTable) -> Map<Seq<char>, Option<Seq<char>>>;

/// Creates an empty archive table with `FxHashMap::default`.
/// Claims that the table holds no entry.
#[verifier::external_body]
pub(crate) fn url_table_new() -> (m: UrlTable)
    ensures
        url_table(m).dom() == Set::<Seq<char>>::empty(),
{
    FxHashMap::default()
}

/// Calls `HashMap::insert` on an archive table.
/// Claims what std documents: afterwards the hash maps to the address, and no other entry changed.
#[verifier::external_body]
pub(crate) fn url_table_insert(m: &mut UrlTable, hash: String, url: Option<String>)
    ensures
        url_table(*final(m)) == url_table(*old(m)).insert(hash@, opt_view(url)),
{
    m.insert(hash, url);
}

/// Calls `HashMap::contains_key` on an archive table.
/// Claims what std documents: the answer is whether the table has an entry for the hash.
#[verifier::external_body]
pub(crate) fn url_table_contains(m: &UrlTable, hash: &str) -> (r: bool)
    ensures
        r == url_table(*m).contains_key(hash@),
{
    m.contains_key(hash)
}

/// Calls `HashMap::get` on an archive table.
/// Claims what std documents: the entry for the hash, when there is one.
#[verifier::external_body]
pub(crate) fn url_table_get<'a>(m: &'a UrlTable, hash: &str) -> (r: Option<&'a Option<String>>)
    ensures
        r is Some == url_table(*m).contains_key(hash@),
        r matches Some(u) ==> opt_view(*u) == url_table(*m)[hash@],
{
    m.get(hash)
}

}
