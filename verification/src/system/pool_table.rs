use vstd::prelude::*;
use dashmap::DashMap;

verus! {

#[verifier::external_type_specification]
#[verifier::external_body]
#[verifier::reject_recursive_types(K)]
#[verifier::reject_recursive_types(V)]
#[verifier::reject_recursive_types(S)]
pub struct ExDashMap<K, V, S>(DashMap<K, V, S>);

/// The entries of a concurrent map from pool names to numbers.
pub uninterp spec fn pool_table(m: DashMap<String, usize>) -> Map<Seq<char>, usize>;

/// `DashMap::new`: claims that the new map is empty.
#[verifier::external_body]
pub(crate) fn pool_table_new() -> (r: DashMap<String, usize>)
    ensures
        pool_table(r).dom() == Set::<Seq<char>>::empty(),
{
    DashMap::new()
}

/// `DashMap::get`: claims that the value stored under `key` is returned, and
/// `None` where there is none.
#[verifier::external_body]
pub(crate) fn pool_table_get(m: &DashMap<String, usize>, key: &str) -> (r: Option<usize>)
    ensures
        match r {
            Some(v) => pool_table(*m).contains_key(key@) && pool_table(*m)[key@] == v,
            None => !pool_table(*m).contains_key(key@),
        },
{
    match m.get(key) {
        Some(entry) => Some(*entry.value()),
        None => None,
    }
}

/// `DashMap::insert`: claims that `key` maps to `value` afterwards and that
/// the other entries stay.
#[verifier::external_body]
pub(crate) fn pool_table_insert(m: &mut DashMap<String, usize>, key: String, value: usize)
    ensures
        pool_table(*final(m)) == pool_table(*old(m)).insert(key@, value),
{
    m.insert(key, value);
}

} // verus!
