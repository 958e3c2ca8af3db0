//! Tables from names to numbers, kept in a concurrent map of the crate
//! `dashmap`. The machine holds them behind exclusive references, so a
//! table is what was last written to it.

use vstd::prelude::*;

verus! {

/// `dashmap::DashMap`: its contents are known through [`entries`] alone.
#[verifier::external_type_specification]
#[verifier::external_body]
#[verifier::reject_recursive_types(K)]
#[verifier::reject_recursive_types(V)]
#[verifier::reject_recursive_types(S)]
pub struct ExDashMap<K, V, S>(dashmap::DashMap<K, V, S>);

/// What a table holds: the number that goes with each name.
pub uninterp spec fn entries(table: dashmap::DashMap<String, usize>) -> Map<Seq<char>, usize>;

/// `DashMap::new`: a map with no entries.
#[verifier::external_body]
pub(crate) fn new_table() -> (table: dashmap::DashMap<String, usize>)
    ensures
        entries(table) =~= Map::empty(),
{
    dashmap::DashMap::new()
}

/// `DashMap::insert`: the map then holds `value` for `key` and is otherwise
/// as before; what it held for `key` before is returned.
#[verifier::external_body]
pub(crate) fn table_insert(
    table: &mut dashmap::DashMap<String, usize>,
    key: String,
    value: usize,
) -> (previous: Option<usize>)
    ensures
        entries(*final(table)) == entries(*old(table)).insert(key@, value),
        previous == (if entries(*old(table)).contains_key(key@) {
            Some(entries(*old(table))[key@])
        } else {
            None
        }),
{
    table.insert(key, value)
}

/// `DashMap::get`: what the map holds for `key`, if anything.
#[verifier::external_body]
pub(crate) fn table_get(table: &dashmap::DashMap<String, usize>, key: &str) -> (found: Option<
    usize,
>)
    ensures
        found == (if entries(*table).contains_key(key@) {
            Some(entries(*table)[key@])
        } else {
            None
        }),
{
    table.get(key).map(|entry| *entry)
}

} // verus!
