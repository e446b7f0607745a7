//! The order of the numbers that ordered collections are keyed by.

use vstd::prelude::*;

verus! {

/// Whether numbers of 32 bits are ordered as the ordered collections of
/// the standard library need their keys to be.
pub open spec fn numbers_are_ordered() -> bool {
    vstd::laws_cmp::obeys_cmp::<u32>()
}

/// Numbers of 32 bits are ordered as the ordered collections of the
/// standard library need their keys to be.
pub proof fn lemma_numbers_are_ordered()
    ensures
        numbers_are_ordered(),
{
    broadcast use vstd::laws_cmp::group_laws_cmp;

}

} // verus!
