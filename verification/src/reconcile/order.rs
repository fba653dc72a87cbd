//! What the order of the keys of an ordered map means for numbers.

use vstd::prelude::*;
use vstd::std_specs::btree::{axiom_increasing_seq_meaning, increasing_seq};
use vstd::std_specs::cmp::OrdSpec;

verus! {

/// Whether each number of `keys` is smaller than those behind it.
pub open spec fn rising(keys: Seq<usize>) -> bool {
    forall|i: int, j: int| 0 <= i < j < keys.len() ==> keys[i] < keys[j]
}

/// The keys of an ordered map come by rising number.
pub proof fn lemma_increasing_is_rising(keys: Seq<usize>)
    requires
        increasing_seq(keys),
    ensures
        rising(keys),
{
    broadcast use vstd::laws_cmp::group_laws_cmp;

    axiom_increasing_seq_meaning::<usize>(keys);
    assert forall|i: int, j: int| 0 <= i < j < keys.len() implies keys[i] < keys[j] by {
        assert(keys[i].cmp_spec(&keys[j]) is Less);
    }
}

} // verus!
