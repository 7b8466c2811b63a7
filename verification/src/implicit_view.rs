//! The relay-parents that are allowed under the active leaves.
//!
//! Each active leaf brings the relay-parents that may still be built on
//! under it: the leaf itself and the ancestors within the backing window. A
//! relay-parent is allowed while some active leaf brings it.

use crate::primitives;
use crate::lists::contains_id;
use crate::vec_map::VecMap;
use vstd::prelude::*;

verus! {

/// The relay-parents that an active leaf brings: the leaf, then its allowed
/// ancestry.
pub open spec fn allowed_under(leaf: primitives::Hash, ancestry: Seq<primitives::Hash>) -> Seq<
    primitives::Hash,
> {
    seq![leaf] + ancestry
}

/// The active leaves, each with the relay-parents allowed under it.
pub struct ImplicitView {
    leaves: VecMap<primitives::Hash, Vec<primitives::Hash>>,
}

impl ImplicitView {
    /// The relay-parents allowed under each active leaf.
    pub closed spec fn view(&self) -> Map<primitives::Hash, Seq<primitives::Hash>> {
        Map::new(
            |leaf: primitives::Hash| self.leaves@.dom().contains(leaf),
            |leaf: primitives::Hash| self.leaves@[leaf]@,
        )
    }

    /// The view's invariant.
    pub closed spec fn wf(&self) -> bool {
        self.leaves.wf()
    }

    /// Whether a relay-parent is allowed under some active leaf.
    pub open spec fn allows(&self, relay_parent: primitives::Hash) -> bool {
        exists|leaf: primitives::Hash| #[trigger]
            self@.dom().contains(leaf) && self@[leaf].contains(relay_parent)
    }

    /// A view without active leaves.
    pub fn new() -> (r: Self)
        ensures
            r.wf(),
            r@ == Map::<primitives::Hash, Seq<primitives::Hash>>::empty(),
    {
        let r = ImplicitView { leaves: VecMap::new() };
        assert(r@ =~= Map::<primitives::Hash, Seq<primitives::Hash>>::empty());
        r
    }

    /// Whether a leaf is active.
    pub fn is_active(&self, leaf: &primitives::Hash) -> (r: bool)
        requires
            self.wf(),
        ensures
            r == self@.dom().contains(*leaf),
    {
        self.leaves.contains_key(leaf)
    }

    /// Activates a leaf whose allowed ancestry is `allowed_ancestry`. A leaf
    /// that is active already stays as it is.
    pub fn activate_leaf(&mut self, leaf: primitives::Hash, allowed_ancestry: Vec<primitives::Hash>)
        requires
            old(self).wf(),
        ensures
            final(self).wf(),
            final(self)@ == (if old(self)@.dom().contains(leaf) {
                old(self)@
            } else {
                old(self)@.insert(leaf, allowed_under(leaf, allowed_ancestry@))
            }),
    {
        if self.leaves.contains_key(&leaf) {
            return ;
        }
        let mut allowed: Vec<primitives::Hash> = Vec::new();
        allowed.push(leaf);
        let mut i: usize = 0;
        while i < allowed_ancestry.len()
            invariant
                i <= allowed_ancestry.len(),
                allowed@ == allowed_under(leaf, allowed_ancestry@.take(i as int)),
            decreases allowed_ancestry.len() - i,
        {
            allowed.push(allowed_ancestry[i]);
            proof {
                allowed_ancestry@.lemma_take_succ_push(i as int);
                assert(allowed@ =~= allowed_under(leaf, allowed_ancestry@.take(i + 1)));
            }
            i += 1;
        }
        assert(allowed_ancestry@.take(allowed_ancestry@.len() as int) =~= allowed_ancestry@);
        self.leaves.insert(leaf, allowed);
        assert(self@ =~= old(self)@.insert(leaf, allowed_under(leaf, allowed_ancestry@)));
    }

    /// Deactivates a leaf.
    pub fn deactivate_leaf(&mut self, leaf: primitives::Hash)
        requires
            old(self).wf(),
        ensures
            final(self).wf(),
            final(self)@ == old(self)@.remove(leaf),
    {
        self.leaves.remove(&leaf);
        assert(self@ =~= old(self)@.remove(leaf));
    }

    /// The relay-parents allowed under a leaf, where the leaf is active.
    pub fn known_allowed_relay_parents_under(&self, leaf: &primitives::Hash) -> (r: Option<
        &Vec<primitives::Hash>,
    >)
        requires
            self.wf(),
        ensures
            match r {
                Some(allowed) => self@.dom().contains(*leaf) && allowed@ == self@[*leaf],
                None => !self@.dom().contains(*leaf),
            },
    {
        self.leaves.get(leaf)
    }

    /// Whether one of the first `n` leaves brings the relay-parent.
    closed spec fn among_first(&self, n: int, relay_parent: primitives::Hash) -> bool {
        exists|p: int| 0 <= p < n && (#[trigger] self.leaves.spec_value_at(p))@.contains(relay_parent)
    }

    /// Every allowed relay-parent, once.
    pub fn all_allowed_relay_parents(&self) -> (r: Vec<primitives::Hash>)
        requires
            self.wf(),
        ensures
            r@.no_duplicates(),
            forall|relay_parent: primitives::Hash|
                r@.contains(relay_parent) <==> self.allows(relay_parent),
    {
        let mut all: Vec<primitives::Hash> = Vec::new();
        let mut i: usize = 0;
        while i < self.leaves.len()
            invariant
                self.wf(),
                i <= self.leaves.spec_len(),
                all@.no_duplicates(),
                forall|x: primitives::Hash| #[trigger]
                    all@.contains(x) <==> self.among_first(i as int, x),
            decreases self.leaves.spec_len() - i,
        {
            let allowed = self.leaves.value_at(i);
            let mut j: usize = 0;
            while j < allowed.len()
                invariant
                    self.wf(),
                    i < self.leaves.spec_len(),
                    *allowed == self.leaves.spec_value_at(i as int),
                    j <= allowed.len(),
                    all@.no_duplicates(),
                    forall|x: primitives::Hash| #[trigger]
                        all@.contains(x) <==> self.among_first(i as int, x) || allowed@.take(
                            j as int,
                        ).contains(x),
                decreases allowed.len() - j,
            {
                let x = allowed[j];
                let ghost before = all@;
                if !contains_id(&all, &x) {
                    all.push(x);
                }
                j += 1;
                proof {
                    let done = allowed@.take(j - 1);
                    let next = allowed@.take(j as int);
                    allowed@.lemma_take_succ_push(j - 1);
                    assert forall|y: primitives::Hash| #[trigger]
                        all@.contains(y) <==> self.among_first(i as int, y) || next.contains(y) by {
                        assert(next[j - 1] == x);
                        if done.contains(y) {
                            let k = choose|k: int| 0 <= k < done.len() && done[k] == y;
                            assert(next[k] == y);
                        }
                        if next.contains(y) {
                            let k = choose|k: int| 0 <= k < next.len() && next[k] == y;
                            if k < j - 1 {
                                assert(done[k] == y);
                            }
                        }
                        if before.contains(y) {
                            let k = choose|k: int| 0 <= k < before.len() && before[k] == y;
                            assert(all@[k] == y);
                        }
                        if all@.contains(y) {
                            let k = choose|k: int| 0 <= k < all@.len() && all@[k] == y;
                            if k < before.len() {
                                assert(before[k] == y);
                            }
                        }
                        if !before.contains(x) {
                            assert(all@[before.len() as int] == x);
                        }
                    }
                }
            }
            proof {
                assert(allowed@.take(allowed@.len() as int) =~= allowed@);
                assert forall|x: primitives::Hash| #[trigger]
                    all@.contains(x) <==> self.among_first(i + 1, x) by {
                    if allowed@.contains(x) {
                        assert(self.leaves.spec_value_at(i as int)@.contains(x));
                    }
                }
            }
            i += 1;
        }
        proof {
            self.leaves.lemma_positions();
            assert forall|x: primitives::Hash| all@.contains(x) <==> self.allows(x) by {
                if all@.contains(x) {
                    let p = choose|p: int|
                        0 <= p < i && (#[trigger] self.leaves.spec_value_at(p))@.contains(x);
                    let leaf = self.leaves.spec_key_at(p);
                    assert(self.leaves@.dom().contains(leaf));
                    assert(self@.dom().contains(leaf) && self@[leaf].contains(x));
                }
                if self.allows(x) {
                    let leaf = choose|leaf: primitives::Hash| #[trigger]
                        self@.dom().contains(leaf) && self@[leaf].contains(x);
                    assert(self.leaves@.dom().contains(leaf));
                    let p = choose|p: int|
                        0 <= p < self.leaves.spec_len() && self.leaves.spec_key_at(p) == leaf;
                    assert(self.leaves@[self.leaves.spec_key_at(p)] == self.leaves.spec_value_at(p));
                    assert(self.leaves.spec_value_at(p)@.contains(x));
                }
            }
        }
        all
    }
}

} // verus!
