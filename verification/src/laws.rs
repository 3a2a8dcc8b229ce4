//! Laws that hold of every well-formed hypergraph and of sequences of
//! operations on it.

use crate::graph::Hypergraph;
use crate::indices::{HyperedgeIndex, VertexIndex};
use crate::mapping::{compacted, IndexMapping};
use crate::vertices::{hyperedges_without, is_not};
use vstd::prelude::*;

verus! {

/// In a well-formed mapping every live external index maps to a position
/// that maps back to it, and every position maps to an external index that
/// maps back to the position.
pub proof fn mapping_bijection(m: &IndexMapping)
    requires
        m.wf(),
    ensures
        forall|e: usize| #[trigger]
            m.right@.contains_key(e) ==> 0 <= m.right@[e] < m.left@.len()
                && m.left@[m.right@[e] as int] == e,
        forall|p: int|
            0 <= p < m.left@.len() ==> m.right@.contains_key(#[trigger] m.left@[p])
                && m.right@[m.left@[p]] == p,
        forall|a: int, b: int|
            0 <= a < m.left@.len() && 0 <= b < m.left@.len() && m.left@[a] == m.left@[b] ==> a
                == b,
{
    m.lemma_injective();
}

/// In a well-formed hypergraph both stores keep their two maps as mutual
/// inverses: the position of a live vertex or hyperedge holds its own
/// external index.
pub proof fn bijection<V, HE: Copy + PartialEq>(g: &Hypergraph<V, HE>)
    requires
        g.wf(),
    ensures
        forall|v: VertexIndex|
            g.has_vertex(v) ==> 0 <= #[trigger] g.vertex_position(v) < g.vertices@.len()
                && g.vertices_mapping.left@[g.vertex_position(v)] == v.0,
        forall|h: HyperedgeIndex|
            g.has_hyperedge(h) ==> 0 <= #[trigger] g.hyperedge_position(h) < g.hyperedges@.len()
                && g.hyperedges_mapping.left@[g.hyperedge_position(h)] == h.0,
{
    mapping_bijection(&g.vertices_mapping);
    mapping_bijection(&g.hyperedges_mapping);
    assert forall|v: VertexIndex| g.has_vertex(v) implies 0 <= #[trigger] g.vertex_position(v)
        < g.vertices@.len() && g.vertices_mapping.left@[g.vertex_position(v)] == v.0 by {
        assert(g.vertices_mapping.right@.contains_key(v.0));
    }
    assert forall|h: HyperedgeIndex| g.has_hyperedge(h) implies 0 <= #[trigger] g.hyperedge_position(
        h,
    ) < g.hyperedges@.len() && g.hyperedges_mapping.left@[g.hyperedge_position(h)] == h.0 by {
        assert(g.hyperedges_mapping.right@.contains_key(h.0));
    }
}

/// A vertex that was just added under `id` with payload `x` is live and
/// reads back as `x`.
pub proof fn round_trip<V, HE: Copy + PartialEq>(
    before: &Hypergraph<V, HE>,
    after: &Hypergraph<V, HE>,
    id: VertexIndex,
    x: V,
)
    requires
        after.vertex_map() == before.vertex_map().insert(id, x),
    ensures
        after.has_vertex(id),
        after.vertex_map()[id] == x,
{
    assert(after.vertex_map().contains_key(id));
}

/// No two live hyperedges of a well-formed hypergraph have the same ordered
/// vertices and the same weight.
pub proof fn contents_unique<V, HE: Copy + PartialEq>(
    g: &Hypergraph<V, HE>,
    a: HyperedgeIndex,
    b: HyperedgeIndex,
)
    requires
        g.wf(),
        g.has_hyperedge(a),
        g.has_hyperedge(b),
        a != b,
    ensures
        g.hyperedge_map()[a] != g.hyperedge_map()[b],
{
    bijection(g);
    let i = g.hyperedge_position(a);
    let j = g.hyperedge_position(b);
    assert(i != j);
    let ka = g.hyperedges@[i];
    let kb = g.hyperedges@[j];
    if g.hyperedge_map()[a] == g.hyperedge_map()[b] {
        assert forall|x: int| 0 <= x < ka.vertices@.len() implies ka.vertices@[x]
            < g.vertices_mapping.left@.len() by {
            assert(g.hyperedges@[i].vertices@[x] < g.vertices@.len());
        }
        assert forall|x: int| 0 <= x < kb.vertices@.len() implies kb.vertices@[x]
            < g.vertices_mapping.left@.len() by {
            assert(g.hyperedges@[j].vertices@[x] < g.vertices@.len());
        }
        g.lemma_external_injective(ka.vertices@, kb.vertices@);
        assert(ka.content() == kb.content());
        if i < j {
            assert(g.hyperedges@[i].content() != g.hyperedges@[j].content());
        } else {
            assert(g.hyperedges@[j].content() != g.hyperedges@[i].content());
        }
    }
}

/// Content that a live hyperedge holds cannot be added again: it is taken,
/// which is when `add_hyperedge` answers `DuplicateHyperedge`.
pub proof fn live_content_is_taken<V, HE: Copy + PartialEq>(
    g: &Hypergraph<V, HE>,
    h: HyperedgeIndex,
)
    requires
        g.wf(),
        g.has_hyperedge(h),
    ensures
        g.content_taken(g.hyperedge_map()[h], None),
        !g.content_taken(g.hyperedge_map()[h], Some(h)),
{
    assert(g.hyperedge_map().contains_key(h));
    if g.content_taken(g.hyperedge_map()[h], Some(h)) {
        let other = choose|other: HyperedgeIndex|
            #![auto]
            g.hyperedge_map().contains_key(other) && Some(other) != Some(h)
                && g.hyperedge_map()[other] == g.hyperedge_map()[h];
        contents_unique(g, other, h);
    }
}

/// Reversing a hyperedge twice gives back its vertices in the order they
/// had, under the same index and with the same weight, and the second
/// reversal cannot be refused as a duplicate.
pub proof fn reverse_involution<V, HE: Copy + PartialEq>(
    start: &Hypergraph<V, HE>,
    once: &Hypergraph<V, HE>,
    twice: &Hypergraph<V, HE>,
    h: HyperedgeIndex,
)
    requires
        start.wf(),
        once.wf(),
        start.has_hyperedge(h),
        once.hyperedge_map() == start.hyperedge_map().insert(
            h,
            (start.hyperedge_map()[h].0.reverse(), start.hyperedge_map()[h].1),
        ),
        twice.hyperedge_map() == once.hyperedge_map().insert(
            h,
            (once.hyperedge_map()[h].0.reverse(), once.hyperedge_map()[h].1),
        ),
    ensures
        once.has_hyperedge(h),
        !once.content_taken(
            (once.hyperedge_map()[h].0.reverse(), once.hyperedge_map()[h].1),
            Some(h),
        ),
        twice.hyperedge_map() == start.hyperedge_map(),
{
    let first = start.hyperedge_map()[h];
    assert(start.hyperedge_map().contains_key(h));
    assert(once.hyperedge_map().contains_key(h));
    assert(once.hyperedge_map()[h].0.reverse() =~= first.0);
    assert(twice.hyperedge_map() =~= start.hyperedge_map());
    if once.content_taken(first, Some(h)) {
        let other = choose|other: HyperedgeIndex|
            #![auto]
            once.hyperedge_map().contains_key(other) && Some(other) != Some(h)
                && once.hyperedge_map()[other] == first;
        assert(start.hyperedge_map().contains_key(other));
        contents_unique(start, other, h);
    }
}

/// Removing a vertex `v` that does not stand last moves the last vertex
/// into its position. The moved vertex stays live with its payload, now at
/// the position `v` had, and wherever a hyperedge names the moved vertex it
/// stores that new position.
pub proof fn swap_remap<V, HE: Copy + PartialEq>(
    before: &Hypergraph<V, HE>,
    after: &Hypergraph<V, HE>,
    v: VertexIndex,
    moved: VertexIndex,
)
    requires
        before.wf(),
        after.wf(),
        before.has_vertex(v),
        before.has_vertex(moved),
        before.vertex_position(moved) == before.vertices@.len() - 1,
        moved != v,
        after.vertex_map() == before.vertex_map().remove(v),
        after.hyperedge_map() == hyperedges_without(before.hyperedge_map(), v),
        after.vertices@ == compacted(before.vertices@, before.vertex_position(v)),
        after.vertices_mapping.left@ == compacted(
            before.vertices_mapping.left@,
            before.vertex_position(v),
        ),
        after.vertices_mapping.right@ == before.vertices_mapping.right_after_removal(
            before.vertex_position(v),
        ),
    ensures
        after.has_vertex(moved),
        !after.has_vertex(v),
        after.vertex_position(moved) == before.vertex_position(v),
        after.vertex_map()[moved] == before.vertex_map()[moved],
        forall|h: HyperedgeIndex| #[trigger]
            after.has_hyperedge(h) ==> before.has_hyperedge(h) && after.hyperedge_map()[h].0
                == before.hyperedge_map()[h].0.filter(is_not(v)) && after.hyperedge_map()[h].1
                == before.hyperedge_map()[h].1,
        forall|h: HyperedgeIndex, j: int|
            after.has_hyperedge(h) && 0 <= j < after.hyperedge_map()[h].0.len()
                && #[trigger] after.hyperedge_map()[h].0[j] == moved
                ==> after.hyperedges@[after.hyperedge_position(h)].vertices@[j]
                == before.vertex_position(v),
{
    bijection(before);
    bijection(after);
    let p = before.vertex_position(v);
    let last = before.vertices@.len() - 1;
    assert(before.vertices_mapping.left@[last] == moved.0);
    assert(p != last);
    assert(after.vertex_map().contains_key(moved));
    assert(!after.vertex_map().contains_key(v));
    assert(before.vertex_map().contains_key(moved));
    assert forall|h: HyperedgeIndex| #[trigger] after.has_hyperedge(h) implies before.has_hyperedge(
        h,
    ) && after.hyperedge_map()[h].0 == before.hyperedge_map()[h].0.filter(is_not(v))
        && after.hyperedge_map()[h].1 == before.hyperedge_map()[h].1 by {
        assert(after.hyperedge_map().contains_key(h));
        assert(hyperedges_without(before.hyperedge_map(), v).contains_key(h));
    }
    assert forall|h: HyperedgeIndex, j: int|
        after.has_hyperedge(h) && 0 <= j < after.hyperedge_map()[h].0.len()
            && #[trigger] after.hyperedge_map()[h].0[j] == moved implies after.hyperedges@[after.hyperedge_position(
        h,
    )].vertices@[j] == p by {
        let key = after.hyperedges@[after.hyperedge_position(h)];
        let x = key.vertices@[j];
        assert(x < after.vertices@.len());
        assert(after.hyperedge_map()[h].0[j] == VertexIndex(
            after.vertices_mapping.left@[x as int],
        ));
        assert(after.vertices_mapping.left@[x as int] == after.vertices_mapping.left@[p]);
    }
}

} // verus!
