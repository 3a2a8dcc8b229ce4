//! The hypergraph, its invariant and its mathematical model: a map from vertex
//! index to payload and a map from hyperedge index to ordered vertices and
//! weight.

use crate::indices::{HyperedgeIndex, VertexIndex};
use crate::mapping::IndexMapping;
use crate::weights::weights_comparable;
use vstd::prelude::*;

verus! {

/// Content of a hyperedge as it is stored: the internal positions of its
/// vertices, in order, and its weight.
pub struct HyperedgeKey<HE> {
    pub vertices: Vec<usize>,
    pub weight: HE,
}

impl<HE> HyperedgeKey<HE> {
    /// The content as a plain value.
    pub open spec fn content(&self) -> (Seq<usize>, HE) {
        (self.vertices@, self.weight)
    }
}

/// External indexes of a sequence of internal positions under the mapping
/// `left` from position to external index.
pub open spec fn external_of(left: Seq<usize>, positions: Seq<usize>) -> Seq<VertexIndex> {
    Seq::new(positions.len(), |j: int| VertexIndex(left[positions[j] as int]))
}

/// A hypergraph with vertex payloads `V` and hyperedge weights `HE`.
pub struct Hypergraph<V, HE> {
    /// Vertex payloads, dense.
    pub vertices: Vec<V>,
    pub vertices_mapping: IndexMapping,
    /// Hyperedge contents, dense and pairwise distinct.
    pub hyperedges: Vec<HyperedgeKey<HE>>,
    pub hyperedges_mapping: IndexMapping,
}

impl<V, HE: Copy + PartialEq> Hypergraph<V, HE> {
    /// Every position inside a stored hyperedge refers to a stored vertex.
    pub open spec fn positions_in_range(&self) -> bool {
        forall|i: int, j: int|
            0 <= i < self.hyperedges@.len() && 0 <= j < self.hyperedges@[i].vertices@.len()
                ==> #[trigger] self.hyperedges@[i].vertices@[j] < self.vertices@.len()
    }

    /// No two stored hyperedges have the same ordered vertices and weight.
    pub open spec fn contents_distinct(&self) -> bool {
        forall|i: int, j: int|
            0 <= i < j < self.hyperedges@.len() ==> #[trigger] self.hyperedges@[i].content()
                != #[trigger] self.hyperedges@[j].content()
    }

    /// The invariant of the store.
    pub open spec fn wf(&self) -> bool {
        &&& weights_comparable::<HE>()
        &&& self.vertices_mapping.wf()
        &&& self.hyperedges_mapping.wf()
        &&& self.vertices@.len() == self.vertices_mapping.left@.len()
        &&& self.hyperedges@.len() == self.hyperedges_mapping.left@.len()
        &&& self.positions_in_range()
        &&& self.contents_distinct()
    }

    /// Is `v` a live vertex?
    pub open spec fn has_vertex(&self, v: VertexIndex) -> bool {
        self.vertex_map().contains_key(v)
    }

    /// Is `h` a live hyperedge?
    pub open spec fn has_hyperedge(&self, h: HyperedgeIndex) -> bool {
        self.hyperedge_map().contains_key(h)
    }

    /// The index that the next new vertex gets. Indexes are handed out in
    /// ascending order and never again.
    pub open spec fn next_vertex(&self) -> VertexIndex {
        VertexIndex(self.vertices_mapping.next)
    }

    /// The index that the next new hyperedge gets.
    pub open spec fn next_hyperedge(&self) -> HyperedgeIndex {
        HyperedgeIndex(self.hyperedges_mapping.next)
    }

    /// Internal position of a live vertex.
    pub open spec fn vertex_position(&self, v: VertexIndex) -> int {
        self.vertices_mapping.right@[v.0] as int
    }

    /// Internal position of a live hyperedge.
    pub open spec fn hyperedge_position(&self, h: HyperedgeIndex) -> int {
        self.hyperedges_mapping.right@[h.0] as int
    }

    /// The vertices by external index.
    pub open spec fn vertex_map(&self) -> Map<VertexIndex, V> {
        Map::new(
            |v: VertexIndex| self.vertices_mapping.right@.contains_key(v.0),
            |v: VertexIndex| self.vertices@[self.vertices_mapping.right@[v.0] as int],
        )
    }

    /// External indexes of a sequence of internal vertex positions.
    pub open spec fn external(&self, positions: Seq<usize>) -> Seq<VertexIndex> {
        external_of(self.vertices_mapping.left@, positions)
    }

    /// Internal positions of a sequence of live external indexes.
    pub open spec fn internal(&self, vertices: Seq<VertexIndex>) -> Seq<usize> {
        Seq::new(vertices.len(), |j: int| self.vertices_mapping.right@[vertices[j].0])
    }

    /// Are all of these live vertices?
    pub open spec fn all_live(&self, vertices: Seq<VertexIndex>) -> bool {
        forall|j: int| 0 <= j < vertices.len() ==> self.has_vertex(#[trigger] vertices[j])
    }

    /// The hyperedges by external index: ordered vertices and weight.
    pub open spec fn hyperedge_map(&self) -> Map<HyperedgeIndex, (Seq<VertexIndex>, HE)> {
        Map::new(
            |h: HyperedgeIndex| self.hyperedges_mapping.right@.contains_key(h.0),
            |h: HyperedgeIndex|
                {
                    let key = self.hyperedges@[self.hyperedges_mapping.right@[h.0] as int];
                    (self.external(key.vertices@), key.weight)
                },
        )
    }

    /// Is there a live hyperedge other than `except` with this content?
    pub open spec fn content_taken(
        &self,
        content: (Seq<VertexIndex>, HE),
        except: Option<HyperedgeIndex>,
    ) -> bool {
        exists|h: HyperedgeIndex|
            #![auto]
            self.hyperedge_map().contains_key(h) && Some(h) != except && self.hyperedge_map()[h]
                == content
    }

    /// An empty hypergraph.
    pub fn new() -> (g: Self)
        requires
            weights_comparable::<HE>(),
        ensures
            g.wf(),
            g.next_vertex() == VertexIndex(0),
            g.next_hyperedge() == HyperedgeIndex(0),
            g.vertex_map() == Map::<VertexIndex, V>::empty(),
            g.hyperedge_map() == Map::<HyperedgeIndex, (Seq<VertexIndex>, HE)>::empty(),
    {
        let g = Hypergraph {
            vertices: Vec::new(),
            vertices_mapping: IndexMapping::new(),
            hyperedges: Vec::new(),
            hyperedges_mapping: IndexMapping::new(),
        };
        assert(g.vertex_map() =~= Map::<VertexIndex, V>::empty());
        assert(g.hyperedge_map() =~= Map::<HyperedgeIndex, (Seq<VertexIndex>, HE)>::empty());
        g
    }

    /// On live positions, `external` and `internal` undo each other.
    pub proof fn lemma_external_internal(&self, positions: Seq<usize>)
        requires
            self.vertices_mapping.wf(),
            forall|j: int| 0 <= j < positions.len() ==> positions[j] < self.vertices@.len(),
            self.vertices@.len() == self.vertices_mapping.left@.len(),
        ensures
            self.all_live(self.external(positions)),
            self.internal(self.external(positions)) == positions,
    {
        let e = self.external(positions);
        assert forall|j: int| 0 <= j < e.len() implies self.has_vertex(#[trigger] e[j]) by {
            assert(self.vertices_mapping.right@.contains_key(
                self.vertices_mapping.left@[positions[j] as int],
            ));
        }
        assert forall|j: int| 0 <= j < positions.len() implies self.internal(e)[j]
            == positions[j] by {
            assert(self.vertices_mapping.right@.contains_key(
                self.vertices_mapping.left@[positions[j] as int],
            ));
        }
        assert(self.internal(e) =~= positions);
    }

    /// On live external indexes, `internal` and `external` undo each other.
    pub proof fn lemma_internal_external(&self, vertices: Seq<VertexIndex>)
        requires
            self.vertices_mapping.wf(),
            self.all_live(vertices),
        ensures
            forall|j: int|
                0 <= j < vertices.len() ==> #[trigger] self.internal(vertices)[j]
                    < self.vertices_mapping.left@.len(),
            self.external(self.internal(vertices)) == vertices,
    {
        let s = self.internal(vertices);
        assert forall|j: int| 0 <= j < vertices.len() implies #[trigger] s[j]
            < self.vertices_mapping.left@.len() && self.external(s)[j] == vertices[j] by {
            assert(self.has_vertex(vertices[j]));
            assert(self.vertices_mapping.right@.contains_key(vertices[j].0));
        }
        assert(self.external(s) =~= vertices);
    }
}

} // verus!
