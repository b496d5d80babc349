//! Insertion-ordered sets of unit identities, held by `indexmap::IndexSet`.
use vstd::prelude::*;

use indexmap::IndexSet;

verus! {

#[verifier::external_type_specification]
#[verifier::external_body]
#[verifier::reject_recursive_types(T)]
#[verifier::reject_recursive_types(S)]
pub struct ExIndexSet<T, S>(IndexSet<T, S>);

/// The identities a set holds, in the order in which they were inserted.
pub uninterp spec fn id_set_items(s: IndexSet<u128>) -> Seq<u128>;

/// `IndexSet::new`: a set that holds nothing.
#[verifier::external_body]
pub(crate) fn id_set_new() -> (r: IndexSet<u128>)
    ensures
        id_set_items(r) == Seq::<u128>::empty(),
{
    IndexSet::new()
}

/// `IndexSet::insert`. The crate's source appends a value that the set does
/// not hold yet and returns `true`; for a value it holds it changes nothing,
/// keeping the order, and returns `false`.
#[verifier::external_body]
pub(crate) fn id_set_insert(s: &mut IndexSet<u128>, value: u128) -> (r: bool)
    ensures
        r == !id_set_items(*old(s)).contains(value),
        id_set_items(*final(s)) == if r {
            id_set_items(*old(s)).push(value)
        } else {
            id_set_items(*old(s))
        },
{
    s.insert(value)
}

/// `IndexSet::is_empty`: whether the set holds nothing.
#[verifier::external_body]
pub(crate) fn id_set_is_empty(s: &IndexSet<u128>) -> (r: bool)
    ensures
        r == (id_set_items(*s).len() == 0),
{
    s.is_empty()
}

/// Indexing an `IndexSet` by position: the value at that place in insertion
/// order. The crate's source panics on a position past the end, which the
/// `requires` leaves out.
#[verifier::external_body]
pub(crate) fn id_set_at(s: &IndexSet<u128>, index: usize) -> (r: u128)
    requires
        index < id_set_items(*s).len(),
    ensures
        r == id_set_items(*s)[index as int],
{
    s[index]
}

/// The first item of `IndexSet::intersection`: the crate's source walks
/// `s` in insertion order and yields the first value that `other` holds.
#[verifier::external_body]
pub(crate) fn id_set_first_common(s: &IndexSet<u128>, other: &IndexSet<u128>) -> (r: Option<u128>)
    ensures
        match r {
            None => forall|k: int|
                0 <= k < id_set_items(*s).len() ==> !id_set_items(*other).contains(
                    #[trigger] id_set_items(*s)[k],
                ),
            Some(v) => exists|k: int|
                0 <= k < id_set_items(*s).len() && #[trigger] id_set_items(*s)[k] == v
                    && id_set_items(*other).contains(v) && forall|m: int|
                    0 <= m < k ==> !id_set_items(*other).contains(#[trigger] id_set_items(*s)[m]),
        },
{
    s.intersection(other).next().copied()
}

} // verus!
