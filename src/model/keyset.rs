//! The string keys of an ordered map, held in an `indexmap::IndexSet`: it finds
//! a key's position by hashing and keeps keys in insertion order.
use indexmap::IndexSet;
use vstd::prelude::*;

verus! {

#[verifier::external_type_specification]
#[verifier::external_body]
#[verifier::reject_recursive_types(T)]
#[verifier::reject_recursive_types(S)]
pub struct ExIndexSet<T, S>(IndexSet<T, S>);

/// The keys that an index set holds, in their order in the set.
pub uninterp spec fn index_set_keys(s: IndexSet<String>) -> Seq<Seq<char>>;

/// Relies on `IndexSet::new`: a new set holds no key.
#[verifier::external_body]
pub(crate) fn empty_keys() -> (r: IndexSet<String>)
    ensures
        index_set_keys(r) == Seq::<Seq<char>>::empty(),
{
    IndexSet::new()
}

/// Relies on `IndexSet::len`: the number of keys in the set.
#[verifier::external_body]
pub(crate) fn key_count(s: &IndexSet<String>) -> (r: usize)
    ensures
        r == index_set_keys(*s).len(),
{
    s.len()
}

/// Relies on `IndexSet::get_index_of`: the position of a key equal to `k`,
/// or `None` when the set holds no such key.
#[verifier::external_body]
pub(crate) fn key_position(s: &IndexSet<String>, k: &str) -> (r: Option<usize>)
    ensures
        match r {
            Some(i) => i < index_set_keys(*s).len() && index_set_keys(*s)[i as int] == k@,
            None => !index_set_keys(*s).contains(k@),
        },
{
    s.get_index_of(k)
}

/// Relies on `IndexSet::insert_full`: a key that is already there keeps its
/// position and the set is unchanged (`false`); a new key goes last (`true`).
#[verifier::external_body]
pub(crate) fn add_key(s: &mut IndexSet<String>, k: String) -> (r: (usize, bool))
    ensures
        index_set_keys(*old(s)).contains(k@) ==> {
            &&& index_set_keys(*final(s)) == index_set_keys(*old(s))
            &&& !r.1
            &&& r.0 < index_set_keys(*old(s)).len()
            &&& index_set_keys(*old(s))[r.0 as int] == k@
        },
        !index_set_keys(*old(s)).contains(k@) ==> {
            &&& index_set_keys(*final(s)) == index_set_keys(*old(s)).push(k@)
            &&& r.1
            &&& r.0 == index_set_keys(*old(s)).len()
        },
{
    s.insert_full(k)
}

/// Relies on `IndexSet::get_index`: the key at a position, `None` past the end.
#[verifier::external_body]
pub(crate) fn key_at(s: &IndexSet<String>, i: usize) -> (r: Option<&String>)
    ensures
        match r {
            Some(k) => i < index_set_keys(*s).len() && k@ == index_set_keys(*s)[i as int],
            None => i >= index_set_keys(*s).len(),
        },
{
    s.get_index(i)
}

/// Relies on `IndexSet`'s `Clone`: the copy holds the same keys in the same order.
#[verifier::external_body]
pub(crate) fn copy_keys(s: &IndexSet<String>) -> (r: IndexSet<String>)
    ensures
        index_set_keys(r) == index_set_keys(*s),
{
    s.clone()
}

} // verus!
