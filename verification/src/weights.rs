//! Equality of hyperedge weights.

use vstd::prelude::*;
use vstd::std_specs::cmp::PartialEqSpec;

verus! {

/// `==` on weights decides equality of the values.
pub open spec fn weights_comparable<HE: PartialEq>() -> bool {
    &&& HE::obeys_eq_spec()
    &&& forall|a: HE, b: HE| #[trigger] a.eq_spec(&b) <==> (a == b)
}

/// Compares two weights.
pub fn same_weight<HE: PartialEq>(a: &HE, b: &HE) -> (r: bool)
    requires
        weights_comparable::<HE>(),
    ensures
        r == (*a == *b),
{
    a == b
}

} // verus!
