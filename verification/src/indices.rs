//! Stable external indexes of vertices and hyperedges.

use vstd::prelude::*;

verus! {

/// Stable, caller-visible identifier of a vertex.
#[derive(Clone, Copy, Debug, PartialEq, Eq, Hash, Structural)]
pub struct VertexIndex(pub usize);

/// Stable, caller-visible identifier of a hyperedge.
#[derive(Clone, Copy, Debug, PartialEq, Eq, Hash, Structural)]
pub struct HyperedgeIndex(pub usize);

} // verus!
