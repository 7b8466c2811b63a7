//! The peers that are connected, what they have in view, and which
//! authorities they speak for.
//!
//! An authority identity is bound to one live peer at a time: the first peer
//! to claim it keeps it until it disconnects.

use crate::implicit_view::ImplicitView;
use crate::primitives;
use crate::primitives::{AuthorityDiscoveryId, PeerId};
use crate::lists::{contains_id, extend_new, lemma_extend_new_members};
use crate::vec_map::VecMap;
use vstd::prelude::*;

verus! {

/// The relay-parents that a peer with the heads `heads` in view is taken to
/// know: for each head that is an active leaf here, what is allowed under
/// it. Each relay-parent occurs once.
pub open spec fn derived_implicit_view(
    local: Map<primitives::Hash, Seq<primitives::Hash>>,
    heads: Seq<primitives::Hash>,
) -> Seq<primitives::Hash>
    decreases heads.len(),
{
    if heads.len() == 0 {
        Seq::empty()
    } else {
        let before = derived_implicit_view(local, heads.drop_last());
        if local.dom().contains(heads.last()) {
            extend_new(before, local[heads.last()])
        } else {
            before
        }
    }
}

/// A peer is taken to know a relay-parent exactly where one of its heads is
/// an active leaf here under which the relay-parent is allowed.
pub proof fn lemma_derived_implicit_view_members(
    local: Map<primitives::Hash, Seq<primitives::Hash>>,
    heads: Seq<primitives::Hash>,
    relay_parent: primitives::Hash,
)
    ensures
        derived_implicit_view(local, heads).contains(relay_parent) <==> exists|i: int|
            0 <= i < heads.len() && local.dom().contains(#[trigger] heads[i])
                && local[heads[i]].contains(relay_parent),
        derived_implicit_view(local, heads).no_duplicates(),
    decreases heads.len(),
{
    if heads.len() > 0 {
        let init = heads.drop_last();
        let last = heads.last();
        lemma_derived_implicit_view_members(local, init, relay_parent);
        let before = derived_implicit_view(local, init);
        if local.dom().contains(last) {
            lemma_extend_new_members(before, local[last], relay_parent);
        }
        if derived_implicit_view(local, heads).contains(relay_parent) {
            if before.contains(relay_parent) {
                let i = choose|i: int|
                    0 <= i < init.len() && local.dom().contains(#[trigger] init[i])
                        && local[init[i]].contains(relay_parent);
                assert(heads[i] == init[i]);
            } else {
                assert(heads[heads.len() - 1] == last);
            }
        }
        if exists|i: int|
            0 <= i < heads.len() && local.dom().contains(#[trigger] heads[i])
                && local[heads[i]].contains(relay_parent) {
            let i = choose|i: int|
                0 <= i < heads.len() && local.dom().contains(#[trigger] heads[i])
                    && local[heads[i]].contains(relay_parent);
            if i < init.len() {
                assert(init[i] == heads[i]);
            }
        }
    }
}

/// The bindings of authorities to peers after `peer` claims `ids` in turn,
/// and the claims that it is left with: an identity that is bound already
/// stays with its bearer and is dropped from the claims.
pub open spec fn claim_authorities(
    authorities: Map<AuthorityDiscoveryId, PeerId>,
    peer: PeerId,
    ids: Seq<AuthorityDiscoveryId>,
) -> (Map<AuthorityDiscoveryId, PeerId>, Seq<AuthorityDiscoveryId>)
    decreases ids.len(),
{
    if ids.len() == 0 {
        (authorities, Seq::empty())
    } else {
        let (bound, kept) = claim_authorities(authorities, peer, ids.drop_last());
        if bound.dom().contains(ids.last()) {
            (bound, kept)
        } else {
            (bound.insert(ids.last(), peer), kept.push(ids.last()))
        }
    }
}

/// A claim changes no binding that was there, and keeps exactly the
/// identities that were free.
pub proof fn lemma_claim_first_wins(
    authorities: Map<AuthorityDiscoveryId, PeerId>,
    peer: PeerId,
    ids: Seq<AuthorityDiscoveryId>,
    id: AuthorityDiscoveryId,
)
    ensures
        authorities.dom().contains(id) ==> claim_authorities(authorities, peer, ids).0.dom().contains(
            id,
        ) && claim_authorities(authorities, peer, ids).0[id] == authorities[id]
            && !claim_authorities(authorities, peer, ids).1.contains(id),
        !authorities.dom().contains(id) ==> (claim_authorities(authorities, peer, ids).1.contains(id)
            <==> ids.contains(id)),
        claim_authorities(authorities, peer, ids).1.contains(id) ==> claim_authorities(
            authorities,
            peer,
            ids,
        ).0.dom().contains(id) && claim_authorities(authorities, peer, ids).0[id] == peer,
        claim_authorities(authorities, peer, ids).0.dom().contains(id) <==> authorities.dom().contains(
            id,
        ) || claim_authorities(authorities, peer, ids).1.contains(id),
    decreases ids.len(),
{
    if ids.len() > 0 {
        let init = ids.drop_last();
        let last = ids.last();
        lemma_claim_first_wins(authorities, peer, init, id);
        lemma_claim_first_wins(authorities, peer, init, last);
        let (bound, kept) = claim_authorities(authorities, peer, init);
        assert(ids[ids.len() - 1] == last);
        if init.contains(id) {
            let i = choose|i: int| 0 <= i < init.len() && init[i] == id;
            assert(ids[i] == id);
        }
        if ids.contains(id) {
            let i = choose|i: int| 0 <= i < ids.len() && ids[i] == id;
            if i < init.len() {
                assert(init[i] == id);
            }
        }
        if !bound.dom().contains(last) {
            assert(kept.push(last)[kept.len() as int] == last);
            if kept.contains(id) {
                let i = choose|i: int| 0 <= i < kept.len() && kept[i] == id;
                assert(kept.push(last)[i] == id);
            }
            if kept.push(last).contains(id) {
                let i = choose|i: int| 0 <= i < kept.push(last).len() && kept.push(last)[i] == id;
                if i < kept.len() {
                    assert(kept[i] == id);
                }
            }
        }
    }
}

/// The bindings of authorities to peers after the identities `ids` are
/// released.
pub open spec fn release_authorities(
    authorities: Map<AuthorityDiscoveryId, PeerId>,
    ids: Seq<AuthorityDiscoveryId>,
) -> Map<AuthorityDiscoveryId, PeerId> {
    authorities.remove_keys(ids.to_set())
}

/// What is known of a connected peer.
#[derive(Clone, PartialEq, Eq, Debug)]
pub struct PeerState {
    /// The heads that the peer has announced.
    pub view: Vec<primitives::Hash>,
    /// The relay-parents that the peer is taken to know.
    pub implicit_view: Vec<primitives::Hash>,
    /// The authority identities that the peer bears.
    pub discovery_ids: Option<Vec<AuthorityDiscoveryId>>,
}

/// The model of a [`PeerState`].
pub struct PeerStateView {
    /// The heads that the peer has announced.
    pub view: Seq<primitives::Hash>,
    /// The relay-parents that the peer is taken to know.
    pub implicit_view: Seq<primitives::Hash>,
    /// The authority identities that the peer bears.
    pub discovery_ids: Option<Seq<AuthorityDiscoveryId>>,
}

impl PeerStateView {
    /// Whether the peer is taken to know a relay-parent.
    pub open spec fn knows_relay_parent(self, relay_parent: primitives::Hash) -> bool {
        self.implicit_view.contains(relay_parent)
    }

    /// Whether the peer bears an authority identity.
    pub open spec fn is_authority(self, authority_id: AuthorityDiscoveryId) -> bool {
        self.discovery_ids matches Some(ids) && ids.contains(authority_id)
    }

    /// A peer that has just connected, bearing `discovery_ids`.
    pub open spec fn connected(discovery_ids: Option<Seq<AuthorityDiscoveryId>>) -> PeerStateView {
        PeerStateView { view: Seq::empty(), implicit_view: Seq::empty(), discovery_ids }
    }
}

impl PeerState {
    /// The model of the peer's state.
    pub open spec fn view(&self) -> PeerStateView {
        PeerStateView {
            view: self.view@,
            implicit_view: self.implicit_view@,
            discovery_ids: match self.discovery_ids {
                Some(ids) => Some(ids@),
                None => None,
            },
        }
    }

    /// Whether the peer is taken to know a relay-parent: whether the
    /// relay-parent is allowed under one of the heads in the peer's view
    /// that is an active leaf here.
    pub fn knows_relay_parent(&self, relay_parent: &primitives::Hash) -> (r: bool)
        ensures
            r == self@.knows_relay_parent(*relay_parent),
    {
        contains_id(&self.implicit_view, relay_parent)
    }

    /// Whether the peer bears an authority identity.
    pub fn is_authority(&self, authority_id: &AuthorityDiscoveryId) -> (r: bool)
        ensures
            r == self@.is_authority(*authority_id),
    {
        match &self.discovery_ids {
            Some(ids) => contains_id(ids, authority_id),
            None => false,
        }
    }
}

/// The connected peers and the authorities that they bear.
pub struct PeerTable {
    peers: VecMap<PeerId, PeerState>,
    authorities: VecMap<AuthorityDiscoveryId, PeerId>,
}

impl PeerTable {
    /// The connected peers.
    pub closed spec fn peers(&self) -> Map<PeerId, PeerStateView> {
        Map::new(|p: PeerId| self.peers@.dom().contains(p), |p: PeerId| self.peers@[p]@)
    }

    /// The peer that bears each authority identity.
    pub closed spec fn authorities(&self) -> Map<AuthorityDiscoveryId, PeerId> {
        self.authorities@
    }

    /// Every authority identity that a peer bears is bound to that peer.
    pub open spec fn bearers_bound(&self) -> bool {
        forall|p: PeerId, id: AuthorityDiscoveryId|
            self.peers().dom().contains(p) && #[trigger] self.peers()[p].is_authority(id)
                ==> self.authorities().dom().contains(id) && self.authorities()[id] == p
    }

    /// The table's invariant: an authority identity that a peer bears is
    /// bound to that peer, and so to no other.
    pub closed spec fn wf(&self) -> bool {
        &&& self.peers.wf()
        &&& self.authorities.wf()
        &&& self.bearers_bound()
    }

    /// No two connected peers bear the same authority identity.
    pub proof fn lemma_one_bearer(&self, p: PeerId, q: PeerId, id: AuthorityDiscoveryId)
        requires
            self.wf(),
            self.peers().dom().contains(p),
            self.peers().dom().contains(q),
            self.peers()[p].is_authority(id),
            self.peers()[q].is_authority(id),
        ensures
            p == q,
            self.authorities().dom().contains(id),
            self.authorities()[id] == p,
    {
    }

    /// Whether `peer` is connected and taken to know `relay_parent`.
    pub open spec fn peer_knows(&self, peer: PeerId, relay_parent: primitives::Hash) -> bool {
        self.peers().dom().contains(peer) && self.peers()[peer].knows_relay_parent(relay_parent)
    }

    /// No peers.
    pub fn new() -> (r: Self)
        ensures
            r.wf(),
            r.peers() == Map::<PeerId, PeerStateView>::empty(),
            r.authorities() == Map::<AuthorityDiscoveryId, PeerId>::empty(),
    {
        let r = PeerTable { peers: VecMap::new(), authorities: VecMap::new() };
        assert(r.peers() =~= Map::<PeerId, PeerStateView>::empty());
        r
    }

    /// A peer has connected and claims `authority_ids`. It gets the
    /// identities that no other peer bears.
    pub fn connect(&mut self, peer: PeerId, authority_ids: Option<Vec<AuthorityDiscoveryId>>)
        requires
            old(self).wf(),
        ensures
            final(self).wf(),
            final(self).authorities() == (match authority_ids {
                Some(ids) => claim_authorities(old(self).authorities(), peer, ids@).0,
                None => old(self).authorities(),
            }),
            final(self).peers() == old(self).peers().insert(
                peer,
                PeerStateView::connected(
                    match authority_ids {
                        Some(ids) => Some(claim_authorities(old(self).authorities(), peer, ids@).1),
                        None => None,
                    },
                ),
            ),
    {
        let discovery_ids = match authority_ids {
            Some(ids) => {
                let mut kept: Vec<AuthorityDiscoveryId> = Vec::new();
                let mut i: usize = 0;
                while i < ids.len()
                    invariant
                        i <= ids.len(),
                        self.authorities.wf(),
                        self.peers == old(self).peers,
                        (self.authorities@, kept@) == claim_authorities(
                            old(self).authorities(),
                            peer,
                            ids@.take(i as int),
                        ),
                    decreases ids.len() - i,
                {
                    let id = ids[i];
                    proof {
                        assert(ids@.take(i + 1).drop_last() =~= ids@.take(i as int));
                    }
                    if !self.authorities.contains_key(&id) {
                        self.authorities.insert(id, peer);
                        kept.push(id);
                    }
                    i += 1;
                }
                assert(ids@.take(ids@.len() as int) =~= ids@);
                Some(kept)
            },
            None => None,
        };
        let state = PeerState { view: Vec::new(), implicit_view: Vec::new(), discovery_ids };
        self.peers.insert(peer, state);
        proof {
            assert(self.peers() =~= old(self).peers().insert(peer, state@));
            assert forall|p: PeerId, id: AuthorityDiscoveryId|
                self.peers().dom().contains(p) && #[trigger] self.peers()[p].is_authority(
                    id,
                ) implies self.authorities().dom().contains(id) && self.authorities()[id] == p by {
                match authority_ids {
                    Some(ids) => {
                        lemma_claim_first_wins(old(self).authorities(), peer, ids@, id);
                        if p != peer {
                            assert(old(self).peers()[p].is_authority(id));
                        }
                    },
                    None => {
                        if p != peer {
                            assert(old(self).peers()[p].is_authority(id));
                        }
                    },
                }
            }
        }
    }

    /// A peer has disconnected. It is forgotten and the identities that it
    /// bore are free again.
    pub fn disconnect(&mut self, peer: PeerId)
        requires
            old(self).wf(),
        ensures
            final(self).wf(),
            final(self).peers() == old(self).peers().remove(peer),
            final(self).authorities() == (if old(self).peers().dom().contains(peer) && old(
                self,
            ).peers()[peer].discovery_ids is Some {
                release_authorities(
                    old(self).authorities(),
                    old(self).peers()[peer].discovery_ids.unwrap(),
                )
            } else {
                old(self).authorities()
            }),
    {
        let removed = self.peers.remove(&peer);
        assert(self.peers() =~= old(self).peers().remove(peer));
        match removed {
            Some(state) => {
                match state.discovery_ids {
                    Some(ids) => {
                        let mut i: usize = 0;
                        assert(self.authorities@ =~= release_authorities(
                            old(self).authorities(),
                            ids@.take(0),
                        ));
                        while i < ids.len()
                            invariant
                                i <= ids.len(),
                                self.authorities.wf(),
                                self.peers.wf(),
                                self.peers() == old(self).peers().remove(peer),
                                self.authorities@ == release_authorities(
                                    old(self).authorities(),
                                    ids@.take(i as int),
                                ),
                            decreases ids.len() - i,
                        {
                            self.authorities.remove(&ids[i]);
                            proof {
                                ids@.lemma_take_succ_push(i as int);
                                assert(ids@.take(i + 1).to_set() =~= ids@.take(i as int).to_set().insert(
                                    ids@[i as int],
                                )) by {
                                    let next = ids@.take(i + 1);
                                    let done = ids@.take(i as int);
                                    assert forall|x: AuthorityDiscoveryId|
                                        next.to_set().contains(x) <==> done.to_set().insert(
                                            ids@[i as int],
                                        ).contains(x) by {
                                        assert(next[i as int] == ids@[i as int]);
                                        if done.contains(x) {
                                            let k = choose|k: int| 0 <= k < done.len() && done[k] == x;
                                            assert(next[k] == x);
                                        }
                                        if next.contains(x) {
                                            let k = choose|k: int| 0 <= k < next.len() && next[k] == x;
                                            if k < i {
                                                assert(done[k] == x);
                                            }
                                        }
                                    }
                                }
                                assert(self.authorities@ =~= release_authorities(
                                    old(self).authorities(),
                                    ids@.take(i + 1),
                                ));
                            }
                            i += 1;
                        }
                        assert(ids@.take(ids@.len() as int) =~= ids@);
                    },
                    None => {},
                }
            },
            None => {},
        }
            proof {
            assert forall|p: PeerId, id: AuthorityDiscoveryId|
                self.peers().dom().contains(p) && #[trigger] self.peers()[p].is_authority(
                    id,
                ) implies self.authorities().dom().contains(id) && self.authorities()[id] == p by {
                assert(old(self).peers()[p].is_authority(id));
                if old(self).peers().dom().contains(peer) && old(
                    self,
                ).peers()[peer].discovery_ids is Some {
                    let gone = old(self).peers()[peer].discovery_ids.unwrap();
                    if gone.contains(id) {
                        assert(old(self).peers()[peer].is_authority(id));
                    }
                }
            }
        }
    }

    /// A peer has announced the heads `view`. Its view is replaced, and what
    /// it is taken to know is worked out anew from the leaves that are
    /// active here. Of a peer that is not connected nothing is recorded.
    pub fn update_view(&mut self, peer: PeerId, view: Vec<primitives::Hash>, local: &ImplicitView)
        requires
            old(self).wf(),
            local.wf(),
        ensures
            final(self).wf(),
            final(self).authorities() == old(self).authorities(),
            final(self).peers() == (if old(self).peers().dom().contains(peer) {
                old(self).peers().insert(
                    peer,
                    PeerStateView {
                        view: view@,
                        implicit_view: derived_implicit_view(local@, view@),
                        discovery_ids: old(self).peers()[peer].discovery_ids,
                    },
                )
            } else {
                old(self).peers()
            }),
    {
        let state = match self.peers.remove(&peer) {
            Some(state) => state,
            None => {
                assert(self.peers() =~= old(self).peers());
                return ;
            },
        };
        let mut implicit: Vec<primitives::Hash> = Vec::new();
        let mut i: usize = 0;
        while i < view.len()
            invariant
                i <= view.len(),
                local.wf(),
                implicit@ == derived_implicit_view(local@, view@.take(i as int)),
            decreases view.len() - i,
        {
            proof {
                assert(view@.take(i + 1).drop_last() =~= view@.take(i as int));
            }
            match local.known_allowed_relay_parents_under(&view[i]) {
                Some(allowed) => {
                    let ghost before = implicit@;
                    let mut j: usize = 0;
                    while j < allowed.len()
                        invariant
                            j <= allowed.len(),
                            implicit@ == extend_new(before, allowed@.take(j as int)),
                        decreases allowed.len() - j,
                    {
                        proof {
                            assert(allowed@.take(j + 1).drop_last() =~= allowed@.take(j as int));
                        }
                        if !contains_id(&implicit, &allowed[j]) {
                            implicit.push(allowed[j]);
                        }
                        j += 1;
                    }
                    assert(allowed@.take(allowed@.len() as int) =~= allowed@);
                },
                None => {},
            }
            i += 1;
        }
        assert(view@.take(view@.len() as int) =~= view@);
        let updated = PeerState { view, implicit_view: implicit, discovery_ids: state.discovery_ids };
        self.peers.insert(peer, updated);
        proof {
            assert(self.peers() =~= old(self).peers().insert(peer, updated@));
            assert forall|p: PeerId, id: AuthorityDiscoveryId|
                self.peers().dom().contains(p) && #[trigger] self.peers()[p].is_authority(
                    id,
                ) implies self.authorities().dom().contains(id) && self.authorities()[id] == p by {
                assert(old(self).peers()[p].is_authority(id));
            }
        }
    }

    /// What is known of a peer.
    pub fn get(&self, peer: &PeerId) -> (r: Option<&PeerState>)
        requires
            self.wf(),
        ensures
            match r {
                Some(state) => self.peers().dom().contains(*peer) && state@ == self.peers()[*peer],
                None => !self.peers().dom().contains(*peer),
            },
    {
        self.peers.get(peer)
    }

    /// The peer that bears an authority identity.
    pub fn peer_of_authority(&self, authority_id: &AuthorityDiscoveryId) -> (r: Option<PeerId>)
        requires
            self.wf(),
        ensures
            r == (if self.authorities().dom().contains(*authority_id) {
                Some(self.authorities()[*authority_id])
            } else {
                None
            }),
    {
        match self.authorities.get(authority_id) {
            Some(p) => Some(*p),
            None => None,
        }
    }

    /// Whether a peer is connected and taken to know a relay-parent.
    pub fn knows_relay_parent(&self, peer: &PeerId, relay_parent: &primitives::Hash) -> (r: bool)
        requires
            self.wf(),
        ensures
            r == self.peer_knows(*peer, *relay_parent),
    {
        match self.peers.get(peer) {
            Some(state) => state.knows_relay_parent(relay_parent),
            None => false,
        }
    }
}

} // verus!
