//! The bidirectional mapping between external indexes and internal positions,
//! shared by the vertex store and the hyperedge store.

use std::collections::HashMap;
use vstd::prelude::*;

verus! {

broadcast use vstd::std_specs::hash::group_hash_axioms;

/// A dense array after swap-compacting removal of position `p`: the last
/// entry takes the freed position and the array shrinks by one.
pub open spec fn compacted<T>(s: Seq<T>, p: int) -> Seq<T> {
    s.update(p, s.last()).drop_last()
}

/// Bidirectional mapping between stable external indexes and the internal
/// positions of a dense array.
///
/// `left` goes from internal position to external index, `right` from
/// external index to internal position.
pub struct IndexMapping {
    pub left: Vec<usize>,
    pub right: HashMap<usize, usize>,
    /// The next external index to hand out.
    pub next: usize,
}

impl IndexMapping {
    /// `left` and `right` are mutual inverses, and every external index in
    /// use was handed out before `next`.
    pub open spec fn wf(&self) -> bool {
        &&& forall|p: int|
            0 <= p < self.left@.len() ==> self.right@.contains_key(#[trigger] self.left@[p])
                && self.right@[self.left@[p]] == p
        &&& forall|e: usize| #[trigger]
            self.right@.contains_key(e) ==> self.right@[e] < self.left@.len()
                && self.left@[self.right@[e] as int] == e
        &&& forall|p: int| 0 <= p < self.left@.len() ==> #[trigger] self.left@[p] < self.next
    }

    /// The mapping after the entry at position `p` left the dense array and
    /// the last entry took its place.
    pub open spec fn right_after_removal(&self, p: int) -> Map<usize, usize> {
        let last = self.left@.len() - 1;
        if p == last {
            self.right@.remove(self.left@[p])
        } else {
            self.right@.remove(self.left@[p]).insert(self.left@[last], p as usize)
        }
    }

    pub fn new() -> (m: IndexMapping)
        ensures
            m.wf(),
            m.left@ == Seq::<usize>::empty(),
            m.right@ == Map::<usize, usize>::empty(),
            m.next == 0,
    {
        IndexMapping::starting_at(0)
    }

    /// Number of live entries.
    pub fn len(&self) -> (n: usize)
        ensures
            n == self.left@.len(),
    {
        self.left.len()
    }

    /// Internal position of an external index, if it is live.
    pub fn resolve(&self, external: usize) -> (r: Option<usize>)
        ensures
            match r {
                Some(p) => self.right@.contains_key(external) && self.right@[external] == p,
                None => !self.right@.contains_key(external),
            },
    {
        match self.right.get(&external) {
            Some(p) => Some(*p),
            None => None,
        }
    }

    /// An empty mapping that hands out external indexes from `next` on.
    pub fn starting_at(next: usize) -> (m: IndexMapping)
        ensures
            m.wf(),
            m.left@ == Seq::<usize>::empty(),
            m.right@ == Map::<usize, usize>::empty(),
            m.next == next,
    {
        IndexMapping { left: Vec::new(), right: HashMap::new(), next }
    }

    /// No external index stands at two positions.
    pub proof fn lemma_injective(&self)
        requires
            self.wf(),
        ensures
            forall|a: int, b: int|
                0 <= a < self.left@.len() && 0 <= b < self.left@.len() && self.left@[a]
                    == self.left@[b] ==> a == b,
    {
        assert forall|a: int, b: int|
            0 <= a < self.left@.len() && 0 <= b < self.left@.len() && self.left@[a]
                == self.left@[b] implies a == b by {
            assert(self.right@[self.left@[a]] == a);
            assert(self.right@[self.left@[b]] == b);
        }
    }

    /// Binds an external index that was handed out earlier and is not live
    /// to a new last position.
    pub fn bind(&mut self, external: usize)
        requires
            old(self).wf(),
            external < old(self).next,
            !old(self).right@.contains_key(external),
        ensures
            final(self).wf(),
            final(self).next == old(self).next,
            final(self).left@ == old(self).left@.push(external),
            final(self).right@ == old(self).right@.insert(external, old(self).left@.len() as usize),
    {
        let position: usize = self.left.len();
        self.left.push(external);
        self.right.insert(external, position);
        assert(self.wf()) by {
            assert forall|p: int| 0 <= p < self.left@.len() implies self.right@.contains_key(
                #[trigger] self.left@[p],
            ) && self.right@[self.left@[p]] == p by {
                if p < position {
                    assert(old(self).left@[p] == self.left@[p]);
                }
            }
            assert forall|p: int| 0 <= p < self.left@.len() implies #[trigger] self.left@[p]
                < self.next by {
                if p < position {
                    assert(old(self).left@[p] == self.left@[p]);
                }
            }
        }
    }

    /// Hands out a fresh external index for a new last position.
    pub fn append(&mut self) -> (external: usize)
        requires
            old(self).wf(),
            old(self).next < usize::MAX,
        ensures
            final(self).wf(),
            external == old(self).next,
            !old(self).right@.contains_key(external),
            final(self).next == old(self).next + 1,
            final(self).left@ == old(self).left@.push(external),
            final(self).right@ == old(self).right@.insert(external, old(self).left@.len() as usize),
    {
        let external: usize = self.next;
        assert(!self.right@.contains_key(external)) by {
            if self.right@.contains_key(external) {
                assert(self.left@[self.right@[external] as int] < self.next);
            }
        }
        self.next = external + 1;
        self.bind(external);
        external
    }

    /// Swap-compacting removal of position `p`: the last entry moves to `p`.
    pub fn swap_remove(&mut self, p: usize)
        requires
            old(self).wf(),
            p < old(self).left@.len(),
        ensures
            final(self).wf(),
            final(self).next == old(self).next,
            final(self).left@ == compacted(old(self).left@, p as int),
            final(self).right@ == old(self).right_after_removal(p as int),
    {
        let last: usize = self.left.len() - 1;
        let removed: usize = self.left.swap_remove(p);
        self.right.remove(&removed);
        if p != last {
            let moved: usize = self.left[p];
            self.right.insert(moved, p);
            assert(moved == old(self).left@[last as int]);
        }
        assert(self.right@ == old(self).right_after_removal(p as int));
        assert(self.wf()) by {
            assert forall|q: int| 0 <= q < self.left@.len() implies self.right@.contains_key(
                #[trigger] self.left@[q],
            ) && self.right@[self.left@[q]] == q by {
                if q != p {
                    assert(self.left@[q] == old(self).left@[q]);
                    assert(old(self).right@[old(self).left@[q]] == q);
                } else {
                    assert(self.left@[q] == old(self).left@[last as int]);
                }
            }
            assert forall|e: usize| #[trigger] self.right@.contains_key(e) implies self.right@[e]
                < self.left@.len() && self.left@[self.right@[e] as int] == e by {
                assert(old(self).right@.contains_key(e));
                assert(old(self).left@[old(self).right@[e] as int] == e);
            }
            assert forall|q: int| 0 <= q < self.left@.len() implies #[trigger] self.left@[q]
                < self.next by {
                if q != p {
                    assert(self.left@[q] == old(self).left@[q]);
                } else {
                    assert(self.left@[q] == old(self).left@[last as int]);
                }
            }
        }
    }
}

} // verus!
