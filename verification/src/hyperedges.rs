//! Operations on hyperedges: adding, reading, replacing the vertices,
//! reversing and removing.

use crate::errors::HypergraphError;
use crate::graph::{HyperedgeKey, Hypergraph};
use crate::indices::{HyperedgeIndex, VertexIndex};
use crate::mapping::compacted;
use crate::parallel::reversed;
use crate::weights::{same_weight, weights_comparable};
use vstd::prelude::*;

verus! {

/// Are the two vectors the same sequence of positions?
pub fn same_positions(a: &Vec<usize>, b: &Vec<usize>) -> (r: bool)
    ensures
        r == (a@ == b@),
{
    if a.len() != b.len() {
        return false;
    }
    let mut i: usize = 0;
    while i < a.len()
        invariant
            a@.len() == b@.len(),
            i <= a@.len(),
            forall|j: int| 0 <= j < i ==> a@[j] == b@[j],
        decreases a@.len() - i,
    {
        if a[i] != b[i] {
            return false;
        }
        i += 1;
    }
    assert(a@ =~= b@);
    true
}

/// A fresh vector with the same positions.
pub fn copy_positions(a: &Vec<usize>) -> (r: Vec<usize>)
    ensures
        r@ == a@,
{
    let mut r: Vec<usize> = Vec::new();
    let mut i: usize = 0;
    while i < a.len()
        invariant
            i <= a@.len(),
            r@ == a@.take(i as int),
        decreases a@.len() - i,
    {
        r.push(a[i]);
        assert(r@ =~= a@.take(i + 1));
        i += 1;
    }
    assert(a@.take(i as int) =~= a@);
    r
}

/// Position of the first key with this content, if there is one.
pub fn position_of_content<HE: Copy + PartialEq>(
    keys: &Vec<HyperedgeKey<HE>>,
    positions: &Vec<usize>,
    weight: &HE,
) -> (r: Option<usize>)
    requires
        weights_comparable::<HE>(),
    ensures
        match r {
            Some(i) => i < keys@.len() && keys@[i as int].content() == (positions@, *weight),
            None => forall|i: int|
                0 <= i < keys@.len() ==> (#[trigger] keys@[i]).content() != (positions@, *weight),
        },
{
    let mut i: usize = 0;
    while i < keys.len()
        invariant
            weights_comparable::<HE>(),
            i <= keys@.len(),
            forall|k: int|
                0 <= k < i ==> (#[trigger] keys@[k]).content() != (positions@, *weight),
        decreases keys@.len() - i,
    {
        let key = &keys[i];
        if same_weight(&key.weight, weight) && same_positions(&key.vertices, positions) {
            return Some(i);
        }
        i += 1;
    }
    None
}

impl<V, HE: Copy + PartialEq> Hypergraph<V, HE> {
    /// Position in `vertices` of the first vertex that is not live, or the
    /// length where all are.
    pub open spec fn first_unknown(&self, vertices: Seq<VertexIndex>) -> int
        decreases vertices.len(),
    {
        if vertices.len() == 0 {
            0
        } else if !self.has_vertex(vertices[0]) {
            0
        } else {
            1 + self.first_unknown(vertices.subrange(1, vertices.len() as int))
        }
    }

    /// `first_unknown` is the least position of a vertex that is not live.
    pub proof fn lemma_first_unknown(&self, vertices: Seq<VertexIndex>)
        ensures
            0 <= self.first_unknown(vertices) <= vertices.len(),
            forall|j: int|
                0 <= j < self.first_unknown(vertices) ==> self.has_vertex(#[trigger] vertices[j]),
            self.first_unknown(vertices) < vertices.len() ==> !self.has_vertex(
                vertices[self.first_unknown(vertices)],
            ),
            self.all_live(vertices) <==> self.first_unknown(vertices) == vertices.len(),
        decreases vertices.len(),
    {
        if vertices.len() > 0 && self.has_vertex(vertices[0]) {
            let rest = vertices.subrange(1, vertices.len() as int);
            self.lemma_first_unknown(rest);
            assert forall|j: int| 0 <= j < self.first_unknown(vertices) implies self.has_vertex(
                #[trigger] vertices[j],
            ) by {
                if j > 0 {
                    assert(vertices[j] == rest[j - 1]);
                }
            }
            if self.first_unknown(vertices) < vertices.len() {
                assert(rest[self.first_unknown(rest)] == vertices[self.first_unknown(vertices)]);
            }
        }
    }

    /// Resolves external vertex indexes to internal positions. Fails on the
    /// first index that is not live.
    pub fn get_internal_vertices(&self, vertices: &Vec<VertexIndex>) -> (r: Result<
        Vec<usize>,
        HypergraphError,
    >)
        requires
            self.wf(),
        ensures
            match r {
                Ok(positions) => self.all_live(vertices@) && positions@ == self.internal(
                    vertices@,
                ),
                Err(e) => !self.all_live(vertices@) && e == HypergraphError::VertexIndexNotFound(
                    vertices@[self.first_unknown(vertices@)],
                ),
            },
    {
        let mut positions: Vec<usize> = Vec::new();
        let mut i: usize = 0;
        proof {
            self.lemma_first_unknown(vertices@);
        }
        while i < vertices.len()
            invariant
                i <= vertices@.len(),
                positions@.len() == i,
                forall|j: int| 0 <= j < i ==> self.has_vertex(#[trigger] vertices@[j]),
                forall|j: int|
                    0 <= j < i ==> #[trigger] positions@[j]
                        == self.vertices_mapping.right@[vertices@[j].0],
                0 <= self.first_unknown(vertices@) <= vertices@.len(),
                forall|j: int|
                    0 <= j < self.first_unknown(vertices@) ==> self.has_vertex(
                        #[trigger] vertices@[j],
                    ),
                self.first_unknown(vertices@) < vertices@.len() ==> !self.has_vertex(
                    vertices@[self.first_unknown(vertices@)],
                ),
                self.all_live(vertices@) <==> self.first_unknown(vertices@) == vertices@.len(),
            decreases vertices@.len() - i,
        {
            let v: VertexIndex = vertices[i];
            match self.vertices_mapping.resolve(v.0) {
                Some(p) => {
                    positions.push(p);
                },
                None => {
                    proof {
                        let f = self.first_unknown(vertices@);
                        assert(!self.has_vertex(vertices@[i as int]));
                        if f < i {
                            assert(self.has_vertex(vertices@[f]));
                        }
                        if f > i {
                            assert(self.has_vertex(vertices@[i as int]));
                        }
                    }
                    return Err(HypergraphError::VertexIndexNotFound(v));
                },
            }
            i += 1;
        }
        assert(positions@ =~= self.internal(vertices@));
        Ok(positions)
    }

    /// External indexes of internal vertex positions.
    pub(crate) fn get_vertices(&self, positions: &Vec<usize>) -> (r: Vec<VertexIndex>)
        requires
            self.wf(),
            forall|j: int| 0 <= j < positions@.len() ==> positions@[j] < self.vertices@.len(),
        ensures
            r@ == self.external(positions@),
    {
        let mut r: Vec<VertexIndex> = Vec::new();
        let mut i: usize = 0;
        while i < positions.len()
            invariant
                i <= positions@.len(),
                r@.len() == i,
                self.vertices@.len() == self.vertices_mapping.left@.len(),
                forall|j: int| 0 <= j < positions@.len() ==> positions@[j] < self.vertices@.len(),
                forall|j: int|
                    0 <= j < i ==> #[trigger] r@[j] == VertexIndex(
                        self.vertices_mapping.left@[positions@[j] as int],
                    ),
            decreases positions@.len() - i,
        {
            let p: usize = positions[i];
            r.push(VertexIndex(self.vertices_mapping.left[p]));
            i += 1;
        }
        assert(r@ =~= self.external(positions@));
        r
    }

    /// Position of the stored hyperedge with this content, if there is one.
    pub(crate) fn find_content(&self, positions: &Vec<usize>, weight: &HE) -> (r: Option<usize>)
        requires
            self.wf(),
        ensures
            match r {
                Some(i) => i < self.hyperedges@.len() && self.hyperedges@[i as int].content() == (
                    positions@,
                    *weight,
                ),
                None => forall|i: int|
                    0 <= i < self.hyperedges@.len() ==> (#[trigger] self.hyperedges@[i]).content()
                        != (positions@, *weight),
            },
    {
        position_of_content(&self.hyperedges, positions, weight)
    }

    /// A content is taken exactly when a stored key holds it in internal form.
    pub proof fn lemma_content_taken(
        &self,
        vertices: Seq<VertexIndex>,
        weight: HE,
        except: Option<HyperedgeIndex>,
    )
        requires
            self.wf(),
            self.all_live(vertices),
        ensures
            self.content_taken((vertices, weight), except) <==> exists|i: int|
                0 <= i < self.hyperedges@.len() && (#[trigger] self.hyperedges@[i]).content() == (
                    self.internal(vertices),
                    weight,
                ) && Some(HyperedgeIndex(self.hyperedges_mapping.left@[i])) != except,
    {
        self.lemma_internal_external(vertices);
        if self.content_taken((vertices, weight), except) {
            let h = choose|h: HyperedgeIndex|
                #![auto]
                self.hyperedge_map().contains_key(h) && Some(h) != except
                    && self.hyperedge_map()[h] == (vertices, weight);
            let i = self.hyperedges_mapping.right@[h.0] as int;
            assert(self.hyperedges_mapping.right@.contains_key(h.0));
            let key = self.hyperedges@[i];
            assert forall|j: int| 0 <= j < key.vertices@.len() implies key.vertices@[j]
                < self.vertices@.len() by {
                assert(self.hyperedges@[i].vertices@[j] < self.vertices@.len());
            }
            self.lemma_external_internal(key.vertices@);
            assert(self.hyperedges@[i].content() == (self.internal(vertices), weight));
        }
        if exists|i: int|
            0 <= i < self.hyperedges@.len() && (#[trigger] self.hyperedges@[i]).content() == (
                self.internal(vertices),
                weight,
            ) && Some(HyperedgeIndex(self.hyperedges_mapping.left@[i])) != except {
            let i = choose|i: int|
                0 <= i < self.hyperedges@.len() && (#[trigger] self.hyperedges@[i]).content() == (
                    self.internal(vertices),
                    weight,
                ) && Some(HyperedgeIndex(self.hyperedges_mapping.left@[i])) != except;
            let h = HyperedgeIndex(self.hyperedges_mapping.left@[i]);
            assert(self.hyperedges_mapping.right@.contains_key(self.hyperedges_mapping.left@[i]));
            assert(self.hyperedge_map().contains_key(h));
            assert(self.hyperedge_map()[h] == (vertices, weight));
        }
    }

    /// Adds a hyperedge over live vertices. Content that a live hyperedge
    /// already holds is rejected.
    pub fn add_hyperedge(&mut self, vertices: Vec<VertexIndex>, weight: HE) -> (r: Result<
        HyperedgeIndex,
        HypergraphError,
    >)
        requires
            old(self).wf(),
            old(self).next_hyperedge().0 < usize::MAX,
        ensures
            final(self).wf(),
            final(self).vertex_map() == old(self).vertex_map(),
            final(self).next_vertex() == old(self).next_vertex(),
            match r {
                Ok(h) => {
                    &&& old(self).all_live(vertices@)
                    &&& !old(self).content_taken((vertices@, weight), None)
                    &&& !old(self).has_hyperedge(h)
                    &&& h == old(self).next_hyperedge()
                    &&& final(self).next_hyperedge().0 == h.0 + 1
                    &&& final(self).hyperedge_position(h) == old(self).hyperedges@.len()
                    &&& final(self).hyperedges@.len() == old(self).hyperedges@.len() + 1
                    &&& final(self).hyperedge_map() == old(self).hyperedge_map().insert(
                        h,
                        (vertices@, weight),
                    )
                },
                Err(HypergraphError::VertexIndexNotFound(v)) => {
                    &&& !old(self).all_live(vertices@)
                    &&& v == vertices@[old(self).first_unknown(vertices@)]
                    &&& *final(self) == *old(self)
                },
                Err(HypergraphError::DuplicateHyperedge) => {
                    &&& old(self).all_live(vertices@)
                    &&& old(self).content_taken((vertices@, weight), None)
                    &&& *final(self) == *old(self)
                },
                Err(_) => false,
            },
    {
        let positions = match self.get_internal_vertices(&vertices) {
            Ok(positions) => positions,
            Err(e) => {
                return Err(e);
            },
        };
        proof {
            self.lemma_content_taken(vertices@, weight, None);
            self.lemma_internal_external(vertices@);
        }
        match self.find_content(&positions, &weight) {
            Some(_) => {
                return Err(HypergraphError::DuplicateHyperedge);
            },
            None => {},
        }
        let position: usize = self.hyperedges.len();
        self.hyperedges.push(HyperedgeKey { vertices: positions, weight });
        let h = HyperedgeIndex(self.hyperedges_mapping.append());
        proof {
            assert(self.vertex_map() =~= old(self).vertex_map());
            assert forall|k: HyperedgeIndex| #[trigger]
                self.hyperedge_map().contains_key(k) implies self.hyperedge_map()[k] == old(
                self,
            ).hyperedge_map().insert(h, (vertices@, weight))[k] by {
                if k != h {
                    let i = old(self).hyperedges_mapping.right@[k.0] as int;
                    assert(self.hyperedges@[i] == old(self).hyperedges@[i]);
                    assert(self.external(self.hyperedges@[i].vertices@) =~= old(self).external(
                        old(self).hyperedges@[i].vertices@,
                    ));
                } else {
                    assert(self.hyperedges@[position as int].vertices@ == positions@);
                    assert(self.external(positions@) =~= old(self).external(positions@));
                }
            }
            assert(self.hyperedge_map() =~= old(self).hyperedge_map().insert(
                h,
                (vertices@, weight),
            ));
            assert(self.positions_in_range()) by {
                assert forall|i: int, j: int|
                    0 <= i < self.hyperedges@.len() && 0 <= j
                        < self.hyperedges@[i].vertices@.len() implies #[trigger] self.hyperedges@[i].vertices@[j]
                    < self.vertices@.len() by {
                    if i < position {
                        assert(self.hyperedges@[i] == old(self).hyperedges@[i]);
                        assert(old(self).hyperedges@[i].vertices@[j] < self.vertices@.len());
                    } else {
                        assert(positions@[j] == old(self).internal(vertices@)[j]);
                    }
                }
            }
            assert(self.contents_distinct()) by {
                assert forall|i: int, j: int| 0 <= i < j < self.hyperedges@.len() implies (
                #[trigger] self.hyperedges@[i]).content() != (
                #[trigger] self.hyperedges@[j]).content() by {
                    assert(self.hyperedges@[i] == old(self).hyperedges@[i]);
                    if j < position {
                        assert(self.hyperedges@[j] == old(self).hyperedges@[j]);
                    }
                }
            }
        }
        Ok(h)
    }

    /// The vertices of a hyperedge, in order.
    pub fn get_hyperedge_vertices(&self, h: HyperedgeIndex) -> (r: Result<
        Vec<VertexIndex>,
        HypergraphError,
    >)
        requires
            self.wf(),
        ensures
            match r {
                Ok(vertices) => self.has_hyperedge(h) && vertices@ == self.hyperedge_map()[h].0,
                Err(e) => !self.has_hyperedge(h) && e == HypergraphError::HyperedgeIndexNotFound(
                    h,
                ),
            },
    {
        match self.hyperedges_mapping.resolve(h.0) {
            Some(position) => {
                let key = &self.hyperedges[position];
                assert forall|j: int| 0 <= j < key.vertices@.len() implies key.vertices@[j]
                    < self.vertices@.len() by {
                    assert(self.hyperedges@[position as int].vertices@[j] < self.vertices@.len());
                }
                Ok(self.get_vertices(&key.vertices))
            },
            None => Err(HypergraphError::HyperedgeIndexNotFound(h)),
        }
    }

    /// The weight of a hyperedge.
    pub fn get_hyperedge_weight(&self, h: HyperedgeIndex) -> (r: Result<HE, HypergraphError>)
        requires
            self.wf(),
        ensures
            match r {
                Ok(weight) => self.has_hyperedge(h) && weight == self.hyperedge_map()[h].1,
                Err(e) => !self.has_hyperedge(h) && e == HypergraphError::HyperedgeIndexNotFound(
                    h,
                ),
            },
    {
        match self.hyperedges_mapping.resolve(h.0) {
            Some(position) => Ok(self.hyperedges[position].weight),
            None => Err(HypergraphError::HyperedgeIndexNotFound(h)),
        }
    }

    /// Replaces the vertices of a hyperedge; its weight and index stay. The
    /// new content is stored as a new entry that then takes the place of the
    /// old one. Content that another live hyperedge holds is rejected.
    pub fn update_hyperedge_vertices(&mut self, h: HyperedgeIndex, vertices: Vec<VertexIndex>) -> (r:
        Result<(), HypergraphError>)
        requires
            old(self).wf(),
        ensures
            final(self).wf(),
            final(self).vertex_map() == old(self).vertex_map(),
            final(self).next_vertex() == old(self).next_vertex(),
            final(self).next_hyperedge() == old(self).next_hyperedge(),
            match r {
                Ok(()) => {
                    &&& old(self).has_hyperedge(h)
                    &&& old(self).all_live(vertices@)
                    &&& !old(self).content_taken(
                        (vertices@, old(self).hyperedge_map()[h].1),
                        Some(h),
                    )
                    &&& final(self).hyperedge_map() == old(self).hyperedge_map().insert(
                        h,
                        (vertices@, old(self).hyperedge_map()[h].1),
                    )
                    &&& final(self).hyperedges_mapping.left@ == old(self).hyperedges_mapping.left@
                    &&& final(self).hyperedges_mapping.right@ == old(
                        self,
                    ).hyperedges_mapping.right@
                },
                Err(HypergraphError::HyperedgeIndexNotFound(x)) => {
                    &&& x == h
                    &&& !old(self).has_hyperedge(h)
                    &&& *final(self) == *old(self)
                },
                Err(HypergraphError::VertexIndexNotFound(v)) => {
                    &&& old(self).has_hyperedge(h)
                    &&& !old(self).all_live(vertices@)
                    &&& v == vertices@[old(self).first_unknown(vertices@)]
                    &&& *final(self) == *old(self)
                },
                Err(HypergraphError::DuplicateHyperedge) => {
                    &&& old(self).has_hyperedge(h)
                    &&& old(self).all_live(vertices@)
                    &&& old(self).content_taken(
                        (vertices@, old(self).hyperedge_map()[h].1),
                        Some(h),
                    )
                    &&& *final(self) == *old(self)
                },
                Err(_) => false,
            },
    {
        let position = match self.hyperedges_mapping.resolve(h.0) {
            Some(position) => position,
            None => {
                return Err(HypergraphError::HyperedgeIndexNotFound(h));
            },
        };
        let positions = match self.get_internal_vertices(&vertices) {
            Ok(positions) => positions,
            Err(e) => {
                return Err(e);
            },
        };
        let weight: HE = self.hyperedges[position].weight;
        proof {
            self.lemma_content_taken(vertices@, weight, Some(h));
            self.lemma_internal_external(vertices@);
            assert(self.hyperedges_mapping.left@[position as int] == h.0);
        }
        match self.find_content(&positions, &weight) {
            Some(i) => {
                if i != position {
                    proof {
                        let other = self.hyperedges_mapping.left@[i as int];
                        assert(self.hyperedges_mapping.right@[other] == i);
                        assert(self.hyperedges@[i as int].content() == (
                            self.internal(vertices@),
                            weight,
                        ));
                    }
                    return Err(HypergraphError::DuplicateHyperedge);
                }
                proof {
                    assert forall|k: int|
                        0 <= k < self.hyperedges@.len() && (#[trigger] self.hyperedges@[k]).content()
                            == (self.internal(vertices@), weight) implies Some(
                        HyperedgeIndex(self.hyperedges_mapping.left@[k]),
                    ) == Some(h) by {
                        if k < position {
                            assert(self.hyperedges@[k].content()
                                != self.hyperedges@[position as int].content());
                        }
                        if k > position {
                            assert(self.hyperedges@[position as int].content()
                                != self.hyperedges@[k].content());
                        }
                    }
                    assert(self.hyperedge_map() =~= self.hyperedge_map().insert(
                        h,
                        (vertices@, weight),
                    ));
                }
                return Ok(());
            },
            None => {},
        }
        self.hyperedges.push(HyperedgeKey { vertices: positions, weight });
        self.hyperedges.swap_remove(position);
        proof {
            let key = self.hyperedges@[position as int];
            assert(key.vertices@ == positions@ && key.weight == weight);
            assert(self.hyperedges@.len() == old(self).hyperedges@.len());
            assert forall|i: int| 0 <= i < self.hyperedges@.len() && i != position implies (
            #[trigger] self.hyperedges@[i]) == old(self).hyperedges@[i] by {}
            assert(self.vertex_map() =~= old(self).vertex_map());
            assert forall|k: HyperedgeIndex| #[trigger]
                self.hyperedge_map().contains_key(k) implies self.hyperedge_map()[k] == old(
                self,
            ).hyperedge_map().insert(h, (vertices@, weight))[k] by {
                let i = self.hyperedges_mapping.right@[k.0] as int;
                if k != h {
                    assert(self.hyperedges_mapping.left@[i] == k.0);
                    assert(i != position);
                    assert(self.hyperedges@[i] == old(self).hyperedges@[i]);
                } else {
                    assert(i == position);
                }
            }
            assert(self.hyperedge_map() =~= old(self).hyperedge_map().insert(
                h,
                (vertices@, weight),
            ));
            assert(self.positions_in_range()) by {
                assert forall|i: int, j: int|
                    0 <= i < self.hyperedges@.len() && 0 <= j
                        < self.hyperedges@[i].vertices@.len() implies #[trigger] self.hyperedges@[i].vertices@[j]
                    < self.vertices@.len() by {
                    if i != position {
                        assert(self.hyperedges@[i] == old(self).hyperedges@[i]);
                        assert(old(self).hyperedges@[i].vertices@[j] < self.vertices@.len());
                    } else {
                        assert(positions@[j] == old(self).internal(vertices@)[j]);
                    }
                }
            }
            assert(self.contents_distinct()) by {
                assert forall|i: int, j: int| 0 <= i < j < self.hyperedges@.len() implies (
                #[trigger] self.hyperedges@[i]).content() != (
                #[trigger] self.hyperedges@[j]).content() by {
                    if i != position {
                        assert(self.hyperedges@[i] == old(self).hyperedges@[i]);
                    }
                    if j != position {
                        assert(self.hyperedges@[j] == old(self).hyperedges@[j]);
                    }
                }
            }
        }
        Ok(())
    }

    /// Reverses the order of a hyperedge's vertices; its weight and index
    /// stay.
    pub fn reverse_hyperedge(&mut self, h: HyperedgeIndex) -> (r: Result<(), HypergraphError>)
        requires
            old(self).wf(),
        ensures
            final(self).wf(),
            final(self).vertex_map() == old(self).vertex_map(),
            final(self).next_vertex() == old(self).next_vertex(),
            final(self).next_hyperedge() == old(self).next_hyperedge(),
            match r {
                Ok(()) => {
                    &&& old(self).has_hyperedge(h)
                    &&& !old(self).content_taken(
                        (old(self).hyperedge_map()[h].0.reverse(), old(self).hyperedge_map()[h].1),
                        Some(h),
                    )
                    &&& final(self).hyperedge_map() == old(self).hyperedge_map().insert(
                        h,
                        (old(self).hyperedge_map()[h].0.reverse(), old(self).hyperedge_map()[h].1),
                    )
                    &&& final(self).hyperedges_mapping.left@ == old(self).hyperedges_mapping.left@
                    &&& final(self).hyperedges_mapping.right@ == old(
                        self,
                    ).hyperedges_mapping.right@
                },
                Err(HypergraphError::HyperedgeIndexNotFound(x)) => {
                    &&& x == h
                    &&& !old(self).has_hyperedge(h)
                    &&& *final(self) == *old(self)
                },
                Err(HypergraphError::DuplicateHyperedge) => {
                    &&& old(self).has_hyperedge(h)
                    &&& old(self).content_taken(
                        (old(self).hyperedge_map()[h].0.reverse(), old(self).hyperedge_map()[h].1),
                        Some(h),
                    )
                    &&& *final(self) == *old(self)
                },
                Err(_) => false,
            },
    {
        let vertices = match self.get_hyperedge_vertices(h) {
            Ok(vertices) => vertices,
            Err(e) => {
                return Err(e);
            },
        };
        let backwards = reversed(vertices);
        proof {
            self.lemma_hyperedge_vertices_live(h);
            assert forall|j: int| 0 <= j < backwards@.len() implies self.has_vertex(
                #[trigger] backwards@[j],
            ) by {
                assert(backwards@[j] == vertices@[vertices@.len() - 1 - j]);
            }
        }
        self.update_hyperedge_vertices(h, backwards)
    }

    /// Every vertex of a live hyperedge is live.
    pub proof fn lemma_hyperedge_vertices_live(&self, h: HyperedgeIndex)
        requires
            self.wf(),
            self.has_hyperedge(h),
        ensures
            self.all_live(self.hyperedge_map()[h].0),
    {
        let i = self.hyperedges_mapping.right@[h.0] as int;
        let key = self.hyperedges@[i];
        assert forall|j: int| 0 <= j < key.vertices@.len() implies key.vertices@[j]
            < self.vertices@.len() by {
            assert(self.hyperedges@[i].vertices@[j] < self.vertices@.len());
        }
        self.lemma_external_internal(key.vertices@);
    }

    /// Removes a hyperedge by swap-compacting removal: the last stored
    /// hyperedge takes its place. Vertices are not touched.
    pub fn remove_hyperedge(&mut self, h: HyperedgeIndex) -> (r: Result<(), HypergraphError>)
        requires
            old(self).wf(),
        ensures
            final(self).wf(),
            final(self).vertex_map() == old(self).vertex_map(),
            final(self).next_vertex() == old(self).next_vertex(),
            final(self).next_hyperedge() == old(self).next_hyperedge(),
            match r {
                Ok(()) => {
                    &&& old(self).has_hyperedge(h)
                    &&& final(self).hyperedge_map() == old(self).hyperedge_map().remove(h)
                    &&& final(self).hyperedges@ == compacted(
                        old(self).hyperedges@,
                        old(self).hyperedge_position(h),
                    )
                    &&& final(self).hyperedges_mapping.left@ == compacted(
                        old(self).hyperedges_mapping.left@,
                        old(self).hyperedge_position(h),
                    )
                    &&& final(self).hyperedges_mapping.right@ == old(
                        self,
                    ).hyperedges_mapping.right_after_removal(old(self).hyperedge_position(h))
                },
                Err(e) => {
                    &&& !old(self).has_hyperedge(h)
                    &&& e == HypergraphError::HyperedgeIndexNotFound(h)
                    &&& *final(self) == *old(self)
                },
            },
    {
        let position = match self.hyperedges_mapping.resolve(h.0) {
            Some(position) => position,
            None => {
                return Err(HypergraphError::HyperedgeIndexNotFound(h));
            },
        };
        let ghost last = self.hyperedges@.len() - 1;
        self.hyperedges.swap_remove(position);
        self.hyperedges_mapping.swap_remove(position);
        proof {
            assert(old(self).hyperedges_mapping.left@[position as int] == h.0);
            assert forall|i: int| 0 <= i < self.hyperedges@.len() implies (
            #[trigger] self.hyperedges@[i]) == old(self).hyperedges@[if i == position {
                last
            } else {
                i
            }] by {}
            assert(self.vertex_map() =~= old(self).vertex_map());
            assert forall|k: HyperedgeIndex| #[trigger]
                self.hyperedge_map().contains_key(k) implies self.hyperedge_map()[k] == old(
                self,
            ).hyperedge_map()[k] by {
                let i = self.hyperedges_mapping.right@[k.0] as int;
                let o = old(self).hyperedges_mapping.right@[k.0] as int;
                assert(old(self).hyperedges_mapping.left@[o] == k.0);
                assert(self.hyperedges@[i] == old(self).hyperedges@[o]);
            }
            assert(self.hyperedge_map() =~= old(self).hyperedge_map().remove(h));
            assert(self.positions_in_range()) by {
                assert forall|i: int, j: int|
                    0 <= i < self.hyperedges@.len() && 0 <= j
                        < self.hyperedges@[i].vertices@.len() implies #[trigger] self.hyperedges@[i].vertices@[j]
                    < self.vertices@.len() by {
                    let o = if i == position {
                        last
                    } else {
                        i
                    };
                    assert(self.hyperedges@[i] == old(self).hyperedges@[o]);
                    assert(old(self).hyperedges@[o].vertices@[j] < self.vertices@.len());
                }
            }
            assert(self.contents_distinct()) by {
                assert forall|i: int, j: int| 0 <= i < j < self.hyperedges@.len() implies (
                #[trigger] self.hyperedges@[i]).content() != (
                #[trigger] self.hyperedges@[j]).content() by {
                    let oi = if i == position {
                        last
                    } else {
                        i
                    };
                    let oj = if j == position {
                        last
                    } else {
                        j
                    };
                    assert(self.hyperedges@[i] == old(self).hyperedges@[oi]);
                    assert(self.hyperedges@[j] == old(self).hyperedges@[oj]);
                    if oi < oj {
                        assert(old(self).hyperedges@[oi].content() != old(
                            self,
                        ).hyperedges@[oj].content());
                    } else {
                        assert(old(self).hyperedges@[oj].content() != old(
                            self,
                        ).hyperedges@[oi].content());
                    }
                }
            }
        }
        Ok(())
    }
}

} // verus!
