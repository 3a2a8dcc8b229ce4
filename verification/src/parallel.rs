//! Data-parallel passes over the positions of one hyperedge, run on rayon's
//! thread pool. Each gives the result of the sequential left-to-right pass.

use crate::indices::VertexIndex;
use rayon::iter::{IndexedParallelIterator, IntoParallelIterator, ParallelIterator};
use rayon::slice::ParallelSliceMut;
use vstd::prelude::*;

verus! {

/// Ascending order.
pub open spec fn ascending(s: Seq<usize>) -> bool {
    forall|i: int, j: int| 0 <= i <= j < s.len() ==> s[i] <= s[j]
}

/// The predicate "is not the position `removed`".
pub open spec fn other_than(removed: usize) -> spec_fn(usize) -> bool {
    |x: usize| x != removed
}

/// A position after the entry at `from` moved to `to`.
pub open spec fn redirected(position: usize, from: usize, to: usize) -> usize {
    if position == from {
        to
    } else {
        position
    }
}

/// Every position of `s` after the entry at `from` moved to `to`.
pub open spec fn redirected_all(s: Seq<usize>, from: usize, to: usize) -> Seq<usize> {
    Seq::new(s.len(), |j: int| redirected(s[j], from, to))
}

pub fn differs(position: usize, removed: usize) -> (r: bool)
    ensures
        r == other_than(removed)(position),
{
    position != removed
}

pub fn redirect(position: usize, from: usize, to: usize) -> (r: usize)
    ensures
        r == redirected(position, from, to),
{
    if position == from {
        to
    } else {
        position
    }
}

/// Calls rayon's `ParallelSliceMut::par_sort_unstable`: afterwards the vector
/// is in ascending order and holds the same positions, each as often as before.
#[verifier::external_body]
pub(crate) fn sort_positions(positions: &mut Vec<usize>)
    ensures
        ascending(final(positions)@),
        final(positions)@.to_multiset() == old(positions)@.to_multiset(),
{
    positions.par_sort_unstable();
}

/// Runs rayon's parallel `filter` over the vector and collects the result:
/// the positions other than `removed`, in the order they stood in.
#[verifier::external_body]
pub(crate) fn without_position(positions: Vec<usize>, removed: usize) -> (r: Vec<usize>)
    ensures
        r@ == positions@.filter(other_than(removed)),
{
    positions.into_par_iter().filter(|x| differs(*x, removed)).collect()
}

/// Runs rayon's parallel `map` over the vector and collects the result: each
/// position in place, with `from` replaced by `to`.
#[verifier::external_body]
pub(crate) fn redirect_positions(positions: &Vec<usize>, from: usize, to: usize) -> (r: Vec<usize>)
    ensures
        r@ == redirected_all(positions@, from, to),
{
    positions.into_par_iter().map(|x| redirect(*x, from, to)).collect()
}

/// Runs rayon's parallel `rev` over the vector and collects the result: the
/// same indexes in reverse order.
#[verifier::external_body]
pub(crate) fn reversed(vertices: Vec<VertexIndex>) -> (r: Vec<VertexIndex>)
    ensures
        r@ == vertices@.reverse(),
{
    vertices.into_par_iter().rev().collect()
}

} // verus!
