//! Operations on vertices: adding, reading, updating, and the removal that
//! cascades into the hyperedges.

use crate::errors::HypergraphError;
use crate::graph::{external_of, HyperedgeKey, Hypergraph};
use crate::hyperedges::{copy_positions, position_of_content};
use crate::indices::{HyperedgeIndex, VertexIndex};
use crate::mapping::{compacted, IndexMapping};
use crate::parallel::{
    ascending, other_than, redirect_positions, redirected_all, sort_positions, without_position,
};
use vstd::prelude::*;

verus! {

/// The predicate "is not the vertex `v`".
pub open spec fn is_not(v: VertexIndex) -> spec_fn(VertexIndex) -> bool {
    |x: VertexIndex| x != v
}

/// A self-loop solely on `v`: at least one vertex, and every one is `v`.
pub open spec fn only_of(vertices: Seq<VertexIndex>, v: VertexIndex) -> bool {
    vertices.len() > 0 && forall|j: int| 0 <= j < vertices.len() ==> vertices[j] == v
}

/// The same on internal positions.
pub open spec fn only_position(positions: Seq<usize>, p: usize) -> bool {
    positions.len() > 0 && forall|j: int| 0 <= j < positions.len() ==> positions[j] == p
}

/// What is left of the hyperedges once the vertex `v` is gone: a self-loop
/// solely on `v` disappears, every other hyperedge loses each occurrence of
/// `v` and keeps its order, weight and index.
pub open spec fn hyperedges_without<HE>(
    m: Map<HyperedgeIndex, (Seq<VertexIndex>, HE)>,
    v: VertexIndex,
) -> Map<HyperedgeIndex, (Seq<VertexIndex>, HE)> {
    Map::new(
        |h: HyperedgeIndex| m.contains_key(h) && !only_of(m[h].0, v),
        |h: HyperedgeIndex| (m[h].0.filter(is_not(v)), m[h].1),
    )
}

/// Would two hyperedges end up with the same content once `v` is gone?
pub open spec fn removal_collides<HE>(
    m: Map<HyperedgeIndex, (Seq<VertexIndex>, HE)>,
    v: VertexIndex,
) -> bool {
    exists|a: HyperedgeIndex, b: HyperedgeIndex|
        #![trigger m.contains_key(a), m.contains_key(b)]
        a != b && m.contains_key(a) && m.contains_key(b) && !only_of(m[a].0, v) && !only_of(
            m[b].0,
            v,
        ) && m[a].0.filter(is_not(v)) == m[b].0.filter(is_not(v)) && m[a].1 == m[b].1
}

/// The positions of a hyperedge after the vertex at `p` left and the vertex
/// at `last` took its place.
pub open spec fn positions_without(positions: Seq<usize>, p: usize, last: usize) -> Seq<usize> {
    redirected_all(positions.filter(other_than(p)), last, p)
}

/// A filter that every element passes changes nothing.
pub proof fn lemma_filter_all<A>(s: Seq<A>, pred: spec_fn(A) -> bool)
    requires
        forall|j: int| 0 <= j < s.len() ==> pred(#[trigger] s[j]),
    ensures
        s.filter(pred) == s,
    decreases s.len(),
{
    reveal(Seq::filter);
    if s.len() > 0 {
        lemma_filter_all(s.drop_last(), pred);
        assert(s.drop_last().push(s.last()) =~= s);
    }
}

/// Removing the occurrences of a position and redirecting the last position,
/// read through the compacted mapping, is removing the occurrences of the
/// vertex from the external indexes.
pub proof fn lemma_external_without(
    left: Seq<usize>,
    positions: Seq<usize>,
    p: usize,
    last: usize,
)
    requires
        0 <= p < left.len(),
        last == left.len() - 1,
        forall|a: int, b: int|
            0 <= a < left.len() && 0 <= b < left.len() && left[a] == left[b] ==> a == b,
        forall|j: int| 0 <= j < positions.len() ==> positions[j] < left.len(),
    ensures
        external_of(
            left.update(p as int, left.last()).drop_last(),
            positions_without(positions, p, last),
        ) == external_of(left, positions).filter(is_not(VertexIndex(left[p as int]))),
        forall|j: int|
            0 <= j < positions_without(positions, p, last).len() ==> #[trigger] positions_without(
                positions,
                p,
                last,
            )[j] < last,
    decreases positions.len(),
{
    reveal(Seq::filter);
    let compact = left.update(p as int, left.last()).drop_last();
    let v = VertexIndex(left[p as int]);
    if positions.len() == 0 {
        assert(external_of(compact, positions_without(positions, p, last)) =~= external_of(
            left,
            positions,
        ).filter(is_not(v)));
    } else {
        let front = positions.drop_last();
        let x = positions.last();
        lemma_external_without(left, front, p, last);
        assert(external_of(left, positions).drop_last() =~= external_of(left, front));
        assert(external_of(left, positions).last() == VertexIndex(left[x as int]));
        if x != p {
            assert(left[x as int] != left[p as int]);
            assert(positions.filter(other_than(p)) == front.filter(other_than(p)).push(x));
            assert(positions_without(positions, p, last) =~= positions_without(
                front,
                p,
                last,
            ).push(crate::parallel::redirected(x, last, p)));
            let y = crate::parallel::redirected(x, last, p);
            assert(y < last);
            assert(compact[y as int] == left[x as int]);
            assert(positions_without(positions, p, last).last() == y);
            assert(external_of(compact, positions_without(positions, p, last)) =~= external_of(
                compact,
                positions_without(front, p, last),
            ).push(VertexIndex(left[x as int])));
        } else {
            assert(positions.filter(other_than(p)) == front.filter(other_than(p)));
        }
    }
}

/// A hyperedge is a self-loop on a position exactly when its external
/// indexes are a self-loop on that position's vertex.
pub proof fn lemma_only(left: Seq<usize>, positions: Seq<usize>, p: usize)
    requires
        0 <= p < left.len(),
        forall|a: int, b: int|
            0 <= a < left.len() && 0 <= b < left.len() && left[a] == left[b] ==> a == b,
        forall|j: int| 0 <= j < positions.len() ==> positions[j] < left.len(),
    ensures
        only_position(positions, p) <==> only_of(
            external_of(left, positions),
            VertexIndex(left[p as int]),
        ),
{
    let e = external_of(left, positions);
    if only_of(e, VertexIndex(left[p as int])) {
        assert forall|j: int| 0 <= j < positions.len() implies positions[j] == p by {
            assert(e[j] == VertexIndex(left[p as int]));
        }
    }
}

/// A position occurs in a hyperedge exactly when its vertex occurs among the
/// external indexes.
pub proof fn lemma_occurs(left: Seq<usize>, positions: Seq<usize>, p: usize)
    requires
        0 <= p < left.len(),
        forall|a: int, b: int|
            0 <= a < left.len() && 0 <= b < left.len() && left[a] == left[b] ==> a == b,
        forall|j: int| 0 <= j < positions.len() ==> positions[j] < left.len(),
    ensures
        positions.contains(p) <==> external_of(left, positions).contains(
            VertexIndex(left[p as int]),
        ),
{
    let e = external_of(left, positions);
    let v = VertexIndex(left[p as int]);
    if positions.contains(p) {
        let j = choose|j: int| 0 <= j < positions.len() && positions[j] == p;
        assert(e[j] == v);
    }
    if e.contains(v) {
        let j = choose|j: int| 0 <= j < e.len() && e[j] == v;
        assert(left[positions[j] as int] == left[p as int]);
        assert(positions[j] == p);
    }
}

/// Does the position occur in the vector?
pub fn contains_position(positions: &Vec<usize>, p: usize) -> (r: bool)
    ensures
        r == positions@.contains(p),
{
    let mut i: usize = 0;
    while i < positions.len()
        invariant
            i <= positions@.len(),
            forall|j: int| 0 <= j < i ==> positions@[j] != p,
        decreases positions@.len() - i,
    {
        if positions[i] == p {
            return true;
        }
        i += 1;
    }
    false
}

/// Keeps the first of every run of equal neighbours.
fn dedup_positions(positions: &Vec<usize>) -> (r: Vec<usize>)
    ensures
        forall|k: int| #![trigger r@[k]] 0 < k < r@.len() ==> r@[k - 1] != r@[k],
        forall|x: usize| #[trigger] r@.contains(x) <==> positions@.contains(x),
        ascending(positions@) ==> ascending(r@),
{
    let mut r: Vec<usize> = Vec::new();
    let mut i: usize = 0;
    while i < positions.len()
        invariant
            i <= positions@.len(),
            r@.len() <= i,
            i > 0 ==> r@.len() > 0 && r@.last() == positions@[i - 1],
            forall|k: int| #![trigger r@[k]] 0 < k < r@.len() ==> r@[k - 1] != r@[k],
            forall|j: int| 0 <= j < i ==> r@.contains(#[trigger] positions@[j]),
            forall|k: int| 0 <= k < r@.len() ==> positions@.contains(#[trigger] r@[k]),
            ascending(positions@) ==> ascending(r@),
        decreases positions@.len() - i,
    {
        let x: usize = positions[i];
        let ghost earlier = r@;
        if r.len() == 0 || r[r.len() - 1] != x {
            r.push(x);
        }
        proof {
            assert(r@.last() == x);
            assert forall|j: int| 0 <= j < i + 1 implies r@.contains(#[trigger] positions@[j]) by {
                if j < i {
                    let k = choose|k: int| 0 <= k < earlier.len() && earlier[k] == positions@[j];
                    assert(r@[k] == positions@[j]);
                } else {
                    assert(r@[r@.len() - 1] == positions@[j]);
                }
            }
            assert forall|k: int| 0 <= k < r@.len() implies positions@.contains(
                #[trigger] r@[k],
            ) by {
                if k < earlier.len() {
                    assert(r@[k] == earlier[k]);
                }
            }
            if ascending(positions@) {
                assert forall|a: int, b: int| 0 <= a <= b < r@.len() implies r@[a] <= r@[b] by {
                    if b < earlier.len() {
                        assert(earlier[a] <= earlier[b]);
                    } else if a < earlier.len() {
                        assert(earlier[a] <= earlier.last());
                        assert(positions@[i - 1] <= positions@[i as int]);
                    }
                }
            }
        }
        i += 1;
    }
    r
}

/// The distinct positions of a hyperedge, in ascending order.
pub fn distinct_positions(positions: &Vec<usize>) -> (r: Vec<usize>)
    ensures
        forall|a: int, b: int| 0 <= a < b < r@.len() ==> r@[a] < r@[b],
        forall|x: usize| #[trigger] r@.contains(x) <==> positions@.contains(x),
{
    let mut sorted = copy_positions(positions);
    sort_positions(&mut sorted);
    let r = dedup_positions(&sorted);
    proof {
        positions@.to_multiset_ensures();
        sorted@.to_multiset_ensures();
        assert forall|x: usize| #[trigger] r@.contains(x) <==> positions@.contains(x) by {
            assert(sorted@.contains(x) <==> sorted@.to_multiset().count(x) > 0);
            assert(positions@.contains(x) <==> positions@.to_multiset().count(x) > 0);
        }
        assert forall|a: int, b: int| 0 <= a < b < r@.len() implies r@[a] < r@[b] by {
            assert(r@[a] <= r@[b - 1]);
            assert(r@[b - 1] != r@[b]);
            assert(r@[b - 1] <= r@[b]);
        }
    }
    r
}

/// Has a hyperedge with these distinct positions exactly one vertex?
pub fn is_self_loop(unique: &Vec<usize>) -> (r: bool)
    ensures
        r == (unique@.len() == 1),
{
    unique.len() == 1
}

/// The positions of a hyperedge once the vertex at `p` is removed and the
/// vertex at `last` has taken its place, or `None` where the hyperedge is a
/// self-loop solely on `p` and disappears with it.
pub fn positions_after_removal(positions: &Vec<usize>, p: usize, last: usize) -> (r: Option<
    Vec<usize>,
>)
    ensures
        match r {
            None => only_position(positions@, p),
            Some(s) => !only_position(positions@, p) && s@ == positions_without(
                positions@,
                p,
                last,
            ),
        },
{
    if contains_position(positions, p) {
        let unique = distinct_positions(positions);
        proof {
            assert(unique@.contains(p));
            if unique@.len() == 1 {
                assert forall|j: int| 0 <= j < positions@.len() implies positions@[j] == p by {
                    let x = positions@[j];
                    assert(positions@.contains(x));
                    assert(unique@.contains(x));
                    assert(unique@[0] == x);
                    assert(unique@[0] == p);
                }
            }
            if only_position(positions@, p) {
                assert forall|j: int| 0 <= j < unique@.len() implies unique@[j] == p by {
                    let x = unique@[j];
                    assert(unique@.contains(x));
                    assert(positions@.contains(x));
                }
                if unique@.len() > 1 {
                    assert(unique@[0] < unique@[1]);
                }
            }
        }
        if is_self_loop(&unique) {
            return None;
        }
        let kept = without_position(copy_positions(positions), p);
        Some(redirect_positions(&kept, last, p))
    } else {
        proof {
            assert forall|j: int| 0 <= j < positions@.len() implies other_than(p)(
                #[trigger] positions@[j],
            ) by {
                assert(positions@.contains(positions@[j]));
            }
            lemma_filter_all(positions@, other_than(p));
            if positions@.len() > 0 {
                assert(positions@.contains(positions@[0]));
            }
        }
        Some(redirect_positions(positions, last, p))
    }
}

impl<V, HE: Copy + PartialEq> Hypergraph<V, HE> {
    /// Adds a vertex at the end of the dense array, under a fresh index.
    pub fn add_vertex(&mut self, value: V) -> (id: VertexIndex)
        requires
            old(self).wf(),
            old(self).next_vertex().0 < usize::MAX,
        ensures
            final(self).wf(),
            id == old(self).next_vertex(),
            !old(self).has_vertex(id),
            final(self).next_vertex().0 == id.0 + 1,
            final(self).next_hyperedge() == old(self).next_hyperedge(),
            final(self).vertex_position(id) == old(self).vertices@.len(),
            final(self).vertices@ == old(self).vertices@.push(value),
            final(self).vertex_map() == old(self).vertex_map().insert(id, value),
            final(self).hyperedge_map() == old(self).hyperedge_map(),
    {
        let end: usize = self.vertices.len();
        let ghost position = end as int;
        self.vertices.push(value);
        let id = VertexIndex(self.vertices_mapping.append());
        proof {
            assert(self.vertices_mapping.right@[id.0] == end);
            assert forall|k: VertexIndex| #[trigger]
                self.vertex_map().contains_key(k) implies self.vertex_map()[k] == old(
                self,
            ).vertex_map().insert(id, value)[k] by {
                if k != id {
                    let i = old(self).vertices_mapping.right@[k.0] as int;
                    assert(self.vertices@[i] == old(self).vertices@[i]);
                }
            }
            assert(self.vertex_map() =~= old(self).vertex_map().insert(id, value));
            assert forall|k: HyperedgeIndex| #[trigger]
                self.hyperedge_map().contains_key(k) implies self.hyperedge_map()[k] == old(
                self,
            ).hyperedge_map()[k] by {
                let i = self.hyperedges_mapping.right@[k.0] as int;
                let key = self.hyperedges@[i];
                assert forall|j: int| 0 <= j < key.vertices@.len() implies key.vertices@[j]
                    < position by {
                    assert(old(self).hyperedges@[i].vertices@[j] < position);
                }
                assert(self.external(key.vertices@) =~= old(self).external(key.vertices@));
            }
            assert(self.hyperedge_map() =~= old(self).hyperedge_map());
            assert(self.positions_in_range()) by {
                assert forall|i: int, j: int|
                    0 <= i < self.hyperedges@.len() && 0 <= j
                        < self.hyperedges@[i].vertices@.len() implies #[trigger] self.hyperedges@[i].vertices@[j]
                    < self.vertices@.len() by {
                    assert(old(self).hyperedges@[i].vertices@[j] < position);
                }
            }
        }
        id
    }

    /// The payload of a vertex.
    pub fn get_vertex(&self, v: VertexIndex) -> (r: Result<&V, HypergraphError>)
        requires
            self.wf(),
        ensures
            match r {
                Ok(value) => self.has_vertex(v) && *value == self.vertex_map()[v],
                Err(e) => !self.has_vertex(v) && e == HypergraphError::VertexIndexNotFound(v),
            },
    {
        match self.vertices_mapping.resolve(v.0) {
            Some(position) => Ok(&self.vertices[position]),
            None => Err(HypergraphError::VertexIndexNotFound(v)),
        }
    }

    /// Replaces the payload of a vertex in place.
    pub fn update_vertex(&mut self, v: VertexIndex, value: V) -> (r: Result<(), HypergraphError>)
        requires
            old(self).wf(),
        ensures
            final(self).wf(),
            final(self).hyperedge_map() == old(self).hyperedge_map(),
            final(self).next_vertex() == old(self).next_vertex(),
            final(self).next_hyperedge() == old(self).next_hyperedge(),
            match r {
                Ok(()) => {
                    &&& old(self).has_vertex(v)
                    &&& final(self).vertex_map() == old(self).vertex_map().insert(v, value)
                    &&& final(self).vertex_position(v) == old(self).vertex_position(v)
                    &&& final(self).vertices@ == old(self).vertices@.update(
                        old(self).vertex_position(v),
                        value,
                    )
                },
                Err(e) => !old(self).has_vertex(v) && e == HypergraphError::VertexIndexNotFound(v)
                    && *final(self) == *old(self),
            },
    {
        let position = match self.vertices_mapping.resolve(v.0) {
            Some(position) => position,
            None => {
                return Err(HypergraphError::VertexIndexNotFound(v));
            },
        };
        self.vertices.set(position, value);
        proof {
            assert(old(self).vertices_mapping.left@[position as int] == v.0);
            assert forall|k: VertexIndex| #[trigger]
                self.vertex_map().contains_key(k) implies self.vertex_map()[k] == old(
                self,
            ).vertex_map().insert(v, value)[k] by {
                let i = self.vertices_mapping.right@[k.0] as int;
                assert(self.vertices_mapping.left@[i] == k.0);
            }
            assert(self.vertex_map() =~= old(self).vertex_map().insert(v, value));
            assert(self.hyperedge_map() =~= old(self).hyperedge_map());
            assert(self.positions_in_range()) by {
                assert forall|i: int, j: int|
                    0 <= i < self.hyperedges@.len() && 0 <= j
                        < self.hyperedges@[i].vertices@.len() implies #[trigger] self.hyperedges@[i].vertices@[j]
                    < self.vertices@.len() by {
                    assert(old(self).hyperedges@[i].vertices@[j] < old(self).vertices@.len());
                }
            }
        }
        Ok(())
    }

    /// The live hyperedges in which the vertex occurs, in the order in which
    /// they are stored.
    pub fn get_vertex_hyperedges(&self, v: VertexIndex) -> (r: Result<
        Vec<HyperedgeIndex>,
        HypergraphError,
    >)
        requires
            self.wf(),
        ensures
            match r {
                Ok(found) => {
                    &&& self.has_vertex(v)
                    &&& forall|h: HyperedgeIndex|
                        found@.contains(h) <==> #[trigger] self.has_hyperedge(h)
                            && self.hyperedge_map()[h].0.contains(v)
                    &&& forall|a: int, b: int|
                        0 <= a < b < found@.len() ==> self.hyperedge_position(found@[a])
                            < self.hyperedge_position(found@[b])
                },
                Err(e) => !self.has_vertex(v) && e == HypergraphError::VertexIndexNotFound(v),
            },
    {
        let p = match self.vertices_mapping.resolve(v.0) {
            Some(p) => p,
            None => {
                return Err(HypergraphError::VertexIndexNotFound(v));
            },
        };
        let ghost ids = self.hyperedges_mapping.left@;
        let mut found: Vec<HyperedgeIndex> = Vec::new();
        let mut i: usize = 0;
        while i < self.hyperedges.len()
            invariant
                self.wf(),
                ids == self.hyperedges_mapping.left@,
                i <= self.hyperedges@.len(),
                forall|k: int|
                    0 <= k < found@.len() ==> {
                        &&& self.has_hyperedge(#[trigger] found@[k])
                        &&& self.hyperedge_position(found@[k]) < i
                        &&& self.hyperedges@[self.hyperedge_position(
                            found@[k],
                        )].vertices@.contains(p)
                    },
                forall|a: int, b: int|
                    0 <= a < b < found@.len() ==> self.hyperedge_position(found@[a])
                        < self.hyperedge_position(found@[b]),
                forall|t: int|
                    0 <= t < i && self.hyperedges@[t].vertices@.contains(p) ==> found@.contains(
                        HyperedgeIndex(#[trigger] ids[t]),
                    ),
            decreases self.hyperedges@.len() - i,
        {
            let ghost earlier = found@;
            if contains_position(&self.hyperedges[i].vertices, p) {
                found.push(HyperedgeIndex(self.hyperedges_mapping.left[i]));
                proof {
                    assert(self.hyperedges_mapping.right@.contains_key(ids[i as int]));
                    assert(found@[earlier.len() as int] == HyperedgeIndex(ids[i as int]));
                    assert forall|t: int|
                        0 <= t < i + 1 && self.hyperedges@[t].vertices@.contains(
                            p,
                        ) implies found@.contains(HyperedgeIndex(#[trigger] ids[t])) by {
                        if t < i {
                            let k = choose|k: int|
                                0 <= k < earlier.len() && earlier[k] == HyperedgeIndex(ids[t]);
                            assert(found@[k] == earlier[k]);
                        }
                    }
                    assert forall|k: int| 0 <= k < found@.len() implies {
                        &&& self.has_hyperedge(#[trigger] found@[k])
                        &&& self.hyperedge_position(found@[k]) < i + 1
                        &&& self.hyperedges@[self.hyperedge_position(
                            found@[k],
                        )].vertices@.contains(p)
                    } by {
                        if k < earlier.len() {
                            assert(found@[k] == earlier[k]);
                        }
                    }
                }
            }
            i += 1;
        }
        proof {
            self.vertices_mapping.lemma_injective();
            assert(self.vertices_mapping.left@[p as int] == v.0);
            assert forall|h: HyperedgeIndex|
                found@.contains(h) <==> #[trigger] self.has_hyperedge(h)
                    && self.hyperedge_map()[h].0.contains(v) by {
                if found@.contains(h) {
                    let k = choose|k: int| 0 <= k < found@.len() && found@[k] == h;
                    assert(self.has_hyperedge(found@[k]));
                }
                if self.has_hyperedge(h) {
                    let t = self.hyperedge_position(h);
                    assert(self.hyperedges_mapping.right@.contains_key(h.0));
                    assert(ids[t] == h.0);
                    let key = self.hyperedges@[t];
                    assert forall|j: int| 0 <= j < key.vertices@.len() implies key.vertices@[j]
                        < self.vertices_mapping.left@.len() by {
                        assert(self.hyperedges@[t].vertices@[j] < self.vertices@.len());
                    }
                    lemma_occurs(self.vertices_mapping.left@, key.vertices@, p);
                }
            }
        }
        Ok(found)
    }

    /// What the store says of the hyperedge at internal position `t`, before
    /// and after the vertex at position `p` is removed.
    pub proof fn lemma_stored(&self, t: int, p: usize, last: usize)
        requires
            self.wf(),
            0 <= t < self.hyperedges@.len(),
            p < self.vertices@.len(),
            last == self.vertices@.len() - 1,
        ensures
            ({
                let h = HyperedgeIndex(self.hyperedges_mapping.left@[t]);
                let v = VertexIndex(self.vertices_mapping.left@[p as int]);
                let key = self.hyperedges@[t];
                let left = self.vertices_mapping.left@;
                &&& self.has_hyperedge(h)
                &&& self.hyperedges_mapping.right@[h.0] == t
                &&& self.hyperedge_map()[h] == (external_of(left, key.vertices@), key.weight)
                &&& only_of(self.hyperedge_map()[h].0, v) <==> only_position(key.vertices@, p)
                &&& self.hyperedge_map()[h].0.filter(is_not(v)) == external_of(
                    left.update(p as int, left.last()).drop_last(),
                    positions_without(key.vertices@, p, last),
                )
                &&& forall|j: int|
                    0 <= j < positions_without(key.vertices@, p, last).len()
                        ==> #[trigger] positions_without(key.vertices@, p, last)[j] < last
            }),
    {
        let key = self.hyperedges@[t];
        let left = self.vertices_mapping.left@;
        assert(self.hyperedges_mapping.right@.contains_key(self.hyperedges_mapping.left@[t]));
        assert forall|j: int| 0 <= j < key.vertices@.len() implies key.vertices@[j]
            < left.len() by {
            assert(self.hyperedges@[t].vertices@[j] < self.vertices@.len());
        }
        self.vertices_mapping.lemma_injective();
        lemma_only(left, key.vertices@, p);
        lemma_external_without(left, key.vertices@, p, last);
    }

    /// Two sequences of live positions with the same external indexes are
    /// the same.
    pub proof fn lemma_external_injective(&self, a: Seq<usize>, b: Seq<usize>)
        requires
            self.vertices_mapping.wf(),
            forall|j: int| 0 <= j < a.len() ==> a[j] < self.vertices_mapping.left@.len(),
            forall|j: int| 0 <= j < b.len() ==> b[j] < self.vertices_mapping.left@.len(),
            self.external(a) == self.external(b),
        ensures
            a == b,
    {
        self.vertices_mapping.lemma_injective();
        assert(a.len() == self.external(a).len());
        assert(b.len() == self.external(b).len());
        assert forall|j: int| 0 <= j < a.len() implies a[j] == b[j] by {
            assert(self.external(a)[j] == VertexIndex(self.vertices_mapping.left@[a[j] as int]));
            assert(self.external(b)[j] == VertexIndex(self.vertices_mapping.left@[b[j] as int]));
        }
        assert(a =~= b);
    }

    /// Removes a vertex and every occurrence of it in the hyperedges.
    ///
    /// A hyperedge that is a self-loop solely on the vertex disappears with
    /// it; every other hyperedge keeps its index, weight and the order of its
    /// remaining vertices. The vertex store is compacted by moving its last
    /// entry into the freed position, and every hyperedge that referred to the
    /// moved vertex is redirected. The hyperedges that stay keep their order
    /// in the store. Where two hyperedges would end up with the same content,
    /// nothing is changed and `DuplicateHyperedge` is returned.
    pub fn remove_vertex(&mut self, v: VertexIndex) -> (r: Result<(), HypergraphError>)
        requires
            old(self).wf(),
        ensures
            final(self).wf(),
            final(self).next_vertex() == old(self).next_vertex(),
            final(self).next_hyperedge() == old(self).next_hyperedge(),
            match r {
                Ok(()) => {
                    &&& old(self).has_vertex(v)
                    &&& !removal_collides(old(self).hyperedge_map(), v)
                    &&& final(self).vertex_map() == old(self).vertex_map().remove(v)
                    &&& final(self).hyperedge_map() == hyperedges_without(
                        old(self).hyperedge_map(),
                        v,
                    )
                    &&& final(self).vertices@ == compacted(
                        old(self).vertices@,
                        old(self).vertex_position(v),
                    )
                    &&& final(self).vertices_mapping.left@ == compacted(
                        old(self).vertices_mapping.left@,
                        old(self).vertex_position(v),
                    )
                    &&& final(self).vertices_mapping.right@ == old(
                        self,
                    ).vertices_mapping.right_after_removal(old(self).vertex_position(v))
                    &&& forall|a: HyperedgeIndex, b: HyperedgeIndex|
                        #![trigger final(self).hyperedge_position(a), final(self).hyperedge_position(b)]
                        final(self).has_hyperedge(a) && final(self).has_hyperedge(b) && old(
                            self,
                        ).hyperedge_position(a) < old(self).hyperedge_position(b)
                            ==> final(self).hyperedge_position(a) < final(self).hyperedge_position(b)
                },
                Err(HypergraphError::VertexIndexNotFound(x)) => {
                    &&& x == v
                    &&& !old(self).has_vertex(v)
                    &&& *final(self) == *old(self)
                },
                Err(HypergraphError::DuplicateHyperedge) => {
                    &&& old(self).has_vertex(v)
                    &&& removal_collides(old(self).hyperedge_map(), v)
                    &&& *final(self) == *old(self)
                },
                Err(_) => false,
            },
    {
        let p = match self.vertices_mapping.resolve(v.0) {
            Some(p) => p,
            None => {
                return Err(HypergraphError::VertexIndexNotFound(v));
            },
        };
        let last: usize = self.vertices.len() - 1;
        let ghost left = self.vertices_mapping.left@;
        let ghost compact = left.update(p as int, left.last()).drop_last();
        let ghost ids = self.hyperedges_mapping.left@;
        let ghost before = self.hyperedge_map();
        assert(left[p as int] == v.0);
        proof {
            self.hyperedges_mapping.lemma_injective();
        }

        // The stored hyperedges as they will be once the vertex is gone.
        let mut keys: Vec<HyperedgeKey<HE>> = Vec::new();
        let mut mapping = IndexMapping::starting_at(self.hyperedges_mapping.next);
        let ghost mut src: Seq<int> = Seq::empty();
        let ghost mut dst: Seq<int> = Seq::empty();
        let mut i: usize = 0;
        while i < self.hyperedges.len()
            invariant
                *self == *old(self),
                self.wf(),
                p < self.vertices@.len(),
                last == self.vertices@.len() - 1,
                left == self.vertices_mapping.left@,
                ids == self.hyperedges_mapping.left@,
                before == self.hyperedge_map(),
                left[p as int] == v.0,
                compact == left.update(p as int, left.last()).drop_last(),
                forall|a: int, b: int|
                    0 <= a < ids.len() && 0 <= b < ids.len() && ids[a] == ids[b] ==> a == b,
                i <= self.hyperedges@.len(),
                mapping.wf(),
                mapping.next == self.hyperedges_mapping.next,
                keys@.len() == src.len(),
                mapping.left@.len() == src.len(),
                dst.len() == i,
                forall|a: int, b: int| 0 <= a < b < src.len() ==> src[a] < src[b],
                forall|j: int|
                    0 <= j < src.len() ==> {
                        &&& 0 <= #[trigger] src[j] < i
                        &&& dst[src[j]] == j
                        &&& !only_position(self.hyperedges@[src[j]].vertices@, p)
                        &&& keys@[j].vertices@ == positions_without(
                            self.hyperedges@[src[j]].vertices@,
                            p,
                            last,
                        )
                        &&& keys@[j].weight == self.hyperedges@[src[j]].weight
                        &&& mapping.left@[j] == ids[src[j]]
                    },
                forall|t: int|
                    0 <= t < i ==> {
                        &&& (#[trigger] dst[t] == -1) <==> only_position(
                            self.hyperedges@[t].vertices@,
                            p,
                        )
                        &&& dst[t] != -1 ==> 0 <= dst[t] < src.len() && src[dst[t]] == t
                    },
                forall|a: int, b: int|
                    0 <= a < b < keys@.len() ==> (#[trigger] keys@[a]).content() != (
                    #[trigger] keys@[b]).content(),
                forall|j: int, t: int|
                    0 <= j < keys@.len() && 0 <= t < keys@[j].vertices@.len()
                        ==> #[trigger] keys@[j].vertices@[t] < last,
            decreases self.hyperedges@.len() - i,
        {
            let key = &self.hyperedges[i];
            let external: usize = self.hyperedges_mapping.left[i];
            let weight: HE = key.weight;
            proof {
                self.lemma_stored(i as int, p, last);
            }
            match positions_after_removal(&key.vertices, p, last) {
                None => {
                    proof {
                        dst = dst.push(-1);
                    }
                },
                Some(positions) => {
                    match position_of_content(&keys, &positions, &weight) {
                        Some(found) => {
                            proof {
                                let t = src[found as int];
                                self.lemma_stored(t, p, last);
                                let a = HyperedgeIndex(ids[t]);
                                let b = HyperedgeIndex(external);
                                assert(keys@[found as int].content() == (positions@, weight));
                                assert(keys@[found as int].vertices@ == positions@);
                                assert(before.contains_key(a) && before.contains_key(b));
                                assert(a != b);
                                assert(before[a].0.filter(is_not(v)) == before[b].0.filter(
                                    is_not(v),
                                ));
                                assert(before[a].1 == before[b].1);
                                assert(removal_collides(before, v));
                            }
                            return Err(HypergraphError::DuplicateHyperedge);
                        },
                        None => {},
                    }
                    proof {
                        if mapping.right@.contains_key(external) {
                            let j = mapping.right@[external] as int;
                            assert(mapping.left@[j] == external);
                            assert(ids[src[j]] == ids[i as int]);
                        }
                        assert(external < mapping.next);
                    }
                    let ghost earlier = keys@;
                    keys.push(HyperedgeKey { vertices: positions, weight });
                    mapping.bind(external);
                    proof {
                        dst = dst.push(src.len() as int);
                        src = src.push(i as int);
                        assert forall|a: int, b: int| 0 <= a < b < keys@.len() implies (
                        #[trigger] keys@[a]).content() != (#[trigger] keys@[b]).content() by {
                            assert(keys@[a] == earlier[a]);
                            if b < earlier.len() {
                                assert(keys@[b] == earlier[b]);
                            }
                        }
                        assert forall|j: int, t: int|
                            0 <= j < keys@.len() && 0 <= t
                                < keys@[j].vertices@.len() implies #[trigger] keys@[j].vertices@[t]
                            < last by {
                            if j < earlier.len() {
                                assert(keys@[j] == earlier[j]);
                                assert(earlier[j].vertices@[t] < last);
                            } else {
                                assert(positions_without(key.vertices@, p, last)[t] < last);
                            }
                        }
                    }
                },
            }
            i += 1;
        }

        self.hyperedges = keys;
        self.hyperedges_mapping = mapping;
        self.vertices.swap_remove(p);
        self.vertices_mapping.swap_remove(p);

        proof {
            assert(self.vertices_mapping.left@ == compact);
            let after = self.hyperedge_map();
            let target = hyperedges_without(before, v);
            assert(self.positions_in_range());
            assert(self.contents_distinct());
            assert(self.wf());

            assert forall|k: VertexIndex| #[trigger]
                self.vertex_map().contains_key(k) implies self.vertex_map()[k] == old(
                self,
            ).vertex_map()[k] by {
                let n = self.vertices_mapping.right@[k.0] as int;
                let o = old(self).vertices_mapping.right@[k.0] as int;
                assert(old(self).vertices_mapping.left@[o] == k.0);
            }
            assert(self.vertex_map() =~= old(self).vertex_map().remove(v));

            assert forall|h: HyperedgeIndex| #[trigger]
                after.dom().contains(h) == target.dom().contains(h) && (after.dom().contains(h)
                    ==> after[h] == target[h]) by {
                if after.contains_key(h) {
                    let j = self.hyperedges_mapping.right@[h.0] as int;
                    assert(self.hyperedges_mapping.left@[j] == h.0);
                    let t = src[j];
                    old(self).lemma_stored(t, p, last);
                    assert(target.contains_key(h));
                    assert(after[h] == target[h]);
                }
                if target.contains_key(h) {
                    let t = old(self).hyperedges_mapping.right@[h.0] as int;
                    assert(ids[t] == h.0);
                    old(self).lemma_stored(t, p, last);
                    let j = dst[t];
                    assert(src[j] == t);
                    assert(self.hyperedges_mapping.left@[j] == h.0);
                    assert(after.contains_key(h));
                }
            }
            assert(after.dom() =~= target.dom());
            assert(after =~= target);

            assert forall|a: HyperedgeIndex, b: HyperedgeIndex|
                #![trigger before.contains_key(a), before.contains_key(b)]
                !(a != b && before.contains_key(a) && before.contains_key(b) && !only_of(
                    before[a].0,
                    v,
                ) && !only_of(before[b].0, v) && before[a].0.filter(is_not(v))
                    == before[b].0.filter(is_not(v)) && before[a].1 == before[b].1) by {
                if a != b && before.contains_key(a) && before.contains_key(b) && !only_of(
                    before[a].0,
                    v,
                ) && !only_of(before[b].0, v) && before[a].0.filter(is_not(v))
                    == before[b].0.filter(is_not(v)) && before[a].1 == before[b].1 {
                    let ta = old(self).hyperedges_mapping.right@[a.0] as int;
                    let tb = old(self).hyperedges_mapping.right@[b.0] as int;
                    assert(ids[ta] == a.0 && ids[tb] == b.0);
                    old(self).lemma_stored(ta, p, last);
                    old(self).lemma_stored(tb, p, last);
                    let ja = dst[ta];
                    let jb = dst[tb];
                    assert(src[ja] == ta && src[jb] == tb);
                    assert(ja != jb);
                    let ka = self.hyperedges@[ja];
                    let kb = self.hyperedges@[jb];
                    assert forall|x: int| 0 <= x < ka.vertices@.len() implies ka.vertices@[x]
                        < self.vertices_mapping.left@.len() by {
                        assert(self.hyperedges@[ja].vertices@[x] < last);
                    }
                    assert forall|x: int| 0 <= x < kb.vertices@.len() implies kb.vertices@[x]
                        < self.vertices_mapping.left@.len() by {
                        assert(self.hyperedges@[jb].vertices@[x] < last);
                    }
                    self.lemma_external_injective(ka.vertices@, kb.vertices@);
                    assert(ka.content() == kb.content());
                    if ja < jb {
                        assert(self.hyperedges@[ja].content() != self.hyperedges@[jb].content());
                    } else {
                        assert(self.hyperedges@[jb].content() != self.hyperedges@[ja].content());
                    }
                }
            }
            assert(!removal_collides(before, v));

            assert forall|a: HyperedgeIndex, b: HyperedgeIndex|
                #![trigger self.hyperedge_position(a), self.hyperedge_position(b)]
                self.has_hyperedge(a) && self.has_hyperedge(b) && old(self).hyperedge_position(a)
                    < old(self).hyperedge_position(b) implies self.hyperedge_position(a)
                < self.hyperedge_position(b) by {
                let ja = self.hyperedge_position(a);
                let jb = self.hyperedge_position(b);
                assert(self.hyperedges_mapping.right@.contains_key(a.0));
                assert(self.hyperedges_mapping.right@.contains_key(b.0));
                assert(self.hyperedges_mapping.left@[ja] == a.0);
                assert(self.hyperedges_mapping.left@[jb] == b.0);
                assert(ids[src[ja]] == a.0 && ids[src[jb]] == b.0);
                assert(old(self).hyperedges_mapping.right@[ids[src[ja]]] == src[ja]);
                assert(old(self).hyperedges_mapping.right@[ids[src[jb]]] == src[jb]);
                if ja > jb {
                    assert(src[jb] < src[ja]);
                }
            }
        }
        Ok(())
    }
}

} // verus!
