//! The error type of every fallible operation.

use crate::indices::{HyperedgeIndex, VertexIndex};
use vstd::prelude::*;

verus! {

/// Everything that can go wrong in a hypergraph operation.
///
/// An error carries only the offending index; a failed operation leaves the
/// hypergraph exactly as it was.
#[derive(Clone, Copy, Debug, PartialEq, Eq, Structural)]
pub enum HypergraphError {
    /// The vertex index does not resolve to a live vertex.
    VertexIndexNotFound(VertexIndex),
    /// The hyperedge index does not resolve to a live hyperedge.
    HyperedgeIndexNotFound(HyperedgeIndex),
    /// The operation would leave two live hyperedges with the same ordered
    /// vertices and the same weight.
    DuplicateHyperedge,
    /// An internal vertex position has no external index: the mapping is
    /// corrupted. Never returned by a well-formed hypergraph.
    InternalVertexIndexNotFound(usize),
    /// An internal hyperedge position has no external index: the mapping is
    /// corrupted. Never returned by a well-formed hypergraph.
    InternalHyperedgeIndexNotFound(usize),
}

} // verus!
