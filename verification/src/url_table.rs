//! The coordinator's record of URLs, kept in a `dashmap::DashMap`.
//!
//! The table is a private field of the coordinator's state and is reached
//! only through that state, so no other reference can change it between the
//! calls below; its contents are therefore a function of the table value.
use vstd::prelude::*;
use dashmap::DashMap;
use crate::entities_system::app_global_state::UrlData;

verus! {

#[verifier::external_type_specification]
#[verifier::external_body]
#[verifier::reject_recursive_types(K)]
#[verifier::reject_recursive_types(V)]
#[verifier::reject_recursive_types(S)]
pub struct ExDashMap<K, V, S>(DashMap<K, V, S>);

/// The table type: URL to what is recorded of it.
pub type UrlTable = DashMap<String, UrlData>;

/// What a URL table holds: for each URL (by its characters), whether it was visited.
pub uninterp spec fn url_table(m: UrlTable) -> Map<Seq<char>, bool>;

/// `DashMap::new`: a new map is empty.
#[verifier::external_body]
pub(crate) fn table_new() -> (table: UrlTable)
    ensures
        url_table(table).dom().is_empty(),
{
    DashMap::new()
}

/// `DashMap::insert`: afterwards the key maps to the new value; the previous
/// value, if the key was present, is handed back.
#[verifier::external_body]
pub(crate) fn table_insert(m: &mut UrlTable, key: String, value: UrlData) -> (prev: Option<UrlData>)
    ensures
        url_table(*final(m)) == url_table(*old(m)).insert(key@, value.visited),
        prev is Some <==> url_table(*old(m)).contains_key(key@),
        prev is Some ==> prev->0.visited == url_table(*old(m))[key@],
{
    m.insert(key, value)
}

/// `DashMap::get`: the value stored under the key, copied out of the guard.
#[verifier::external_body]
pub(crate) fn table_get(m: &UrlTable, key: &String) -> (r: Option<UrlData>)
    ensures
        r is Some <==> url_table(*m).contains_key(key@),
        r is Some ==> r->0.visited == url_table(*m)[key@],
{
    m.get(key).map(|entry| UrlData { visited: entry.value().visited })
}

/// `DashMap::iter`: every entry once, as the URL and its visited flag, in the
/// map's own (unspecified) order.
#[verifier::external_body]
pub(crate) fn table_entries(m: &UrlTable) -> (entries: Vec<(String, bool)>)
    ensures
        entries.len() == url_table(*m).len(),
        forall|i: int| #![trigger entries@[i]] 0 <= i < entries.len() ==> url_table(*m).contains_key(entries@[i].0@)
            && url_table(*m)[entries@[i].0@] == entries@[i].1,
        forall|k: Seq<char>| #[trigger] url_table(*m).contains_key(k) ==> exists|i: int|
            0 <= i < entries.len() && #[trigger] entries@[i].0@ == k,
        forall|i: int, j: int| 0 <= i < j < entries.len() ==> entries@[i].0@ != entries@[j].0@,
{
    m.iter().map(|entry| (entry.key().clone(), entry.value().visited)).collect()
}

} // verus!
