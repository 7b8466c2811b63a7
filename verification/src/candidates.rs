//! What is known of candidates: advertised by peers, or confirmed.
//!
//! A candidate that peers have only advertised is unconfirmed. Once its
//! receipt is at hand it is confirmed, and the advertisements that named the
//! wrong group are reckoned up. A candidate is never in both states.

use crate::lists::{
    contains_id, copy_ids, lemma_filter_empty, lemma_filter_filter_len, lemma_filter_members,
    lemma_filter_no_duplicates,
};
use crate::primitives;
use crate::primitives::{CandidateHash, GroupIndex, Identifier, ParaId, PeerId};
use crate::vec_map::VecMap;
use vstd::prelude::*;

verus! {

/// A peer's word that a candidate exists at a relay-parent and belongs to a
/// group.
#[derive(Clone, Copy, PartialEq, Eq, Debug)]
pub struct Advertisement {
    /// The candidate that was advertised.
    pub candidate: CandidateHash,
    /// The peer that advertised it.
    pub peer: PeerId,
    /// The relay-parent that the peer named.
    pub relay_parent: primitives::Hash,
    /// The group that the peer named.
    pub group: GroupIndex,
    /// The parachain and depth that the peer named, if it named any.
    pub claim: Option<(ParaId, u32)>,
}

impl Identifier for Advertisement {
    fn same(&self, other: &Advertisement) -> (r: bool) {
        let same_claim = match (self.claim, other.claim) {
            (Some(a), Some(b)) => a.0.same(&b.0) && a.1 == b.1,
            (None, None) => true,
            _ => false,
        };
        same_claim && self.candidate.same(&other.candidate) && self.peer.same(&other.peer)
            && self.relay_parent.same(&other.relay_parent) && self.group.same(&other.group)
    }
}

/// An advertisement was refused: it contradicts what is confirmed, or the
/// peer has used up its budget.
#[derive(Clone, Copy, PartialEq, Eq, Debug)]
pub struct BadAdvertisement;

/// The committed receipt of a candidate: what the logic reads of it, and the
/// rest in encoded form.
#[derive(Clone, PartialEq, Eq, Debug)]
pub struct CommittedCandidateReceipt {
    /// The parachain that the candidate belongs to.
    pub para_id: ParaId,
    /// The relay-parent that the candidate builds on.
    pub relay_parent: primitives::Hash,
    /// The encoded receipt.
    pub encoded: Vec<u8>,
}

/// The validation data that goes with a candidate, in encoded form.
#[derive(Clone, PartialEq, Eq, Debug)]
pub struct PersistedValidationData {
    /// The encoded data.
    pub encoded: Vec<u8>,
}

/// A candidate whose receipt and validation data are at hand.
#[derive(Clone, PartialEq, Eq, Debug)]
pub struct ConfirmedCandidate {
    /// The committed receipt.
    pub receipt: CommittedCandidateReceipt,
    /// The persisted validation data.
    pub persisted_validation_data: PersistedValidationData,
    /// The group that the candidate canonically belongs to.
    pub assigned_group: GroupIndex,
}

impl ConfirmedCandidate {
    /// The relay-parent of the candidate.
    pub fn relay_parent(&self) -> (r: primitives::Hash)
        ensures
            r == self.receipt.relay_parent,
    {
        self.receipt.relay_parent
    }

    /// The parachain of the candidate.
    pub fn para_id(&self) -> (r: ParaId)
        ensures
            r == self.receipt.para_id,
    {
        self.receipt.para_id
    }

    /// The group that the candidate canonically belongs to.
    pub fn group_index(&self) -> (r: GroupIndex)
        ensures
            r == self.assigned_group,
    {
        self.assigned_group
    }
}

/// The outcome of a confirmation for the peers that had advertised the
/// candidate: one entry for each advertisement, in the order in which the
/// advertisements came.
#[derive(Clone, PartialEq, Eq, Debug)]
pub struct PostConfirmationReckoning {
    /// The peers whose advertisement named the canonical group.
    pub correct: Vec<PeerId>,
    /// The peers whose advertisement named another group.
    pub incorrect: Vec<PeerId>,
}

/// Selects the advertisements of a peer.
pub open spec fn by_peer(peer: PeerId) -> spec_fn(Advertisement) -> bool {
    |a: Advertisement| a.peer == peer
}

/// Selects the advertisements of other candidates than `candidate`.
pub open spec fn of_others(candidate: CandidateHash) -> spec_fn(Advertisement) -> bool {
    |a: Advertisement| a.candidate != candidate
}

/// Selects the advertisements of a candidate that name `group`.
pub open spec fn agreeing(candidate: CandidateHash, group: GroupIndex) -> spec_fn(
    Advertisement,
) -> bool {
    |a: Advertisement| a.candidate == candidate && a.group == group
}

/// Selects the advertisements of a candidate that name another group than
/// `group`.
pub open spec fn contradicting(candidate: CandidateHash, group: GroupIndex) -> spec_fn(
    Advertisement,
) -> bool {
    |a: Advertisement| a.candidate == candidate && a.group != group
}

/// Selects the advertisements at one of the relay-parents `keep`.
pub open spec fn at_one_of(keep: Set<primitives::Hash>) -> spec_fn(Advertisement) -> bool {
    |a: Advertisement| keep.contains(a.relay_parent)
}

/// The peer of an advertisement.
pub open spec fn advertiser() -> spec_fn(Advertisement) -> PeerId {
    |a: Advertisement| a.peer
}

/// What the registry of candidates holds.
pub struct CandidatesView {
    /// The advertisements of unconfirmed candidates, in the order in which
    /// they came.
    pub advertisements: Seq<Advertisement>,
    /// The confirmed candidates.
    pub confirmed: Map<CandidateHash, ConfirmedCandidate>,
    /// How many advertisements one peer may have standing.
    pub advertisement_limit: nat,
}

impl CandidatesView {
    /// No advertisement occurs twice, none is of a confirmed candidate, and
    /// no peer has more standing than its budget.
    pub open spec fn wf(self) -> bool {
        &&& self.advertisements.no_duplicates()
        &&& forall|i: int|
            0 <= i < self.advertisements.len() ==> !self.confirmed.dom().contains(
                #[trigger] self.advertisements[i].candidate,
            )
        &&& forall|peer: PeerId| #[trigger]
            self.advertised_by(peer) <= self.advertisement_limit
    }

    /// The number of advertisements that a peer has standing.
    pub open spec fn advertised_by(self, peer: PeerId) -> nat {
        self.advertisements.filter(by_peer(peer)).len()
    }

    /// Whether some peer has advertised the candidate and it is not confirmed.
    pub open spec fn is_unconfirmed(self, candidate: CandidateHash) -> bool {
        exists|i: int|
            0 <= i < self.advertisements.len() && (#[trigger] self.advertisements[i]).candidate
                == candidate
    }

    /// What [`Candidates::insert_unconfirmed`] answers.
    pub open spec fn insert_unconfirmed_outcome(self, ad: Advertisement) -> Result<
        (),
        BadAdvertisement,
    > {
        if self.confirmed.dom().contains(ad.candidate) {
            if self.confirmed[ad.candidate].assigned_group == ad.group {
                Ok(())
            } else {
                Err(BadAdvertisement)
            }
        } else if self.advertisements.contains(ad) {
            Ok(())
        } else if self.advertised_by(ad.peer) >= self.advertisement_limit {
            Err(BadAdvertisement)
        } else {
            Ok(())
        }
    }

    /// The registry after [`Candidates::insert_unconfirmed`]: longer by the
    /// advertisement where that is new, of an unconfirmed candidate and
    /// within the peer's budget, and the same otherwise.
    pub open spec fn insert_unconfirmed(self, ad: Advertisement) -> CandidatesView {
        if !self.confirmed.dom().contains(ad.candidate) && !self.advertisements.contains(ad)
            && self.advertised_by(ad.peer) < self.advertisement_limit {
            CandidatesView { advertisements: self.advertisements.push(ad), ..self }
        } else {
            self
        }
    }

    /// The peers whose advertisements of the candidate named `group`.
    pub open spec fn correct_advertisers(self, candidate: CandidateHash, group: GroupIndex) -> Seq<
        PeerId,
    > {
        self.advertisements.filter(agreeing(candidate, group)).map_values(advertiser())
    }

    /// The peers whose advertisements of the candidate named another group
    /// than `group`.
    pub open spec fn incorrect_advertisers(self, candidate: CandidateHash, group: GroupIndex) -> Seq<
        PeerId,
    > {
        self.advertisements.filter(contradicting(candidate, group)).map_values(advertiser())
    }

    /// The registry after the candidate is confirmed as `confirmed`: where
    /// it was confirmed before, nothing changes.
    pub open spec fn confirm(self, candidate: CandidateHash, confirmed: ConfirmedCandidate) -> CandidatesView {
        if self.confirmed.dom().contains(candidate) {
            self
        } else {
            CandidatesView {
                advertisements: self.advertisements.filter(of_others(candidate)),
                confirmed: self.confirmed.insert(candidate, confirmed),
                ..self
            }
        }
    }

    /// The registry after everything is dropped that is not at one of the
    /// relay-parents `keep`.
    pub open spec fn retain(self, keep: Set<primitives::Hash>) -> CandidatesView {
        CandidatesView {
            advertisements: self.advertisements.filter(at_one_of(keep)),
            confirmed: Map::new(
                |h: CandidateHash|
                    self.confirmed.dom().contains(h) && keep.contains(
                        self.confirmed[h].receipt.relay_parent,
                    ),
                |h: CandidateHash| self.confirmed[h],
            ),
            ..self
        }
    }
}

/// A candidate is never both advertised as unconfirmed and confirmed.
pub proof fn lemma_one_state(c: CandidatesView, candidate: CandidateHash)
    requires
        c.wf(),
    ensures
        !(c.is_unconfirmed(candidate) && c.confirmed.dom().contains(candidate)),
{
}

/// What is confirmed stays confirmed, and as it was confirmed, when
/// advertisements come in and when candidates are confirmed.
pub proof fn lemma_confirmed_stays(
    c: CandidatesView,
    candidate: CandidateHash,
    ad: Advertisement,
    other: CandidateHash,
    confirmed: ConfirmedCandidate,
)
    requires
        c.confirmed.dom().contains(candidate),
    ensures
        c.insert_unconfirmed(ad).confirmed.dom().contains(candidate),
        c.insert_unconfirmed(ad).confirmed[candidate] == c.confirmed[candidate],
        c.confirm(other, confirmed).confirmed.dom().contains(candidate),
        c.confirm(other, confirmed).confirmed[candidate] == c.confirmed[candidate],
{
}

/// A peer never has more advertisements standing than its budget.
pub proof fn lemma_budget_respected(c: CandidatesView, peer: PeerId)
    requires
        c.wf(),
    ensures
        c.advertised_by(peer) <= c.advertisement_limit,
{
}

/// When a candidate is confirmed, every advertisement of it either named the
/// canonical group or has its peer among the incorrect advertisers.
pub proof fn lemma_reckoning_names_every_mismatch(
    c: CandidatesView,
    candidate: CandidateHash,
    canonical_group: GroupIndex,
    i: int,
)
    requires
        0 <= i < c.advertisements.len(),
        c.advertisements[i].candidate == candidate,
    ensures
        c.advertisements[i].group == canonical_group || c.incorrect_advertisers(
            candidate,
            canonical_group,
        ).contains(c.advertisements[i].peer),
{
    let ad = c.advertisements[i];
    if ad.group != canonical_group {
        let wrong = c.advertisements.filter(contradicting(candidate, canonical_group));
        c.advertisements.lemma_filter_contains(contradicting(candidate, canonical_group), i);
        let j = choose|j: int| 0 <= j < wrong.len() && wrong[j] == ad;
        assert(wrong.map_values(advertiser())[j] == ad.peer);
    }
}

/// Taking an advertisement keeps the registry well-formed.
pub proof fn lemma_insert_unconfirmed_preserves_wf(c: CandidatesView, ad: Advertisement)
    requires
        c.wf(),
    ensures
        c.insert_unconfirmed(ad).wf(),
{
    let next = c.insert_unconfirmed(ad);
    if next != c {
        assert forall|peer: PeerId| #[trigger] next.advertised_by(peer)
            <= next.advertisement_limit by {
            c.advertisements.lemma_filter_push(ad, by_peer(peer));
            assert(c.advertised_by(peer) <= c.advertisement_limit);
        }
        assert forall|i: int| 0 <= i < next.advertisements.len() implies !next.confirmed.dom().contains(
            #[trigger] next.advertisements[i].candidate,
        ) by {
            if i < c.advertisements.len() {
                assert(next.advertisements[i] == c.advertisements[i]);
            }
        }
    }
}

/// Confirming a candidate keeps the registry well-formed.
pub proof fn lemma_confirm_preserves_wf(
    c: CandidatesView,
    candidate: CandidateHash,
    confirmed: ConfirmedCandidate,
)
    requires
        c.wf(),
    ensures
        c.confirm(candidate, confirmed).wf(),
{
    let next = c.confirm(candidate, confirmed);
    if !c.confirmed.dom().contains(candidate) {
        lemma_filter_no_duplicates(c.advertisements, of_others(candidate));
        assert forall|i: int| 0 <= i < next.advertisements.len() implies !next.confirmed.dom().contains(
            #[trigger] next.advertisements[i].candidate,
        ) by {
            let ad = next.advertisements[i];
            assert(next.advertisements.contains(ad));
            lemma_filter_members(c.advertisements, of_others(candidate), ad);
            let j = choose|j: int| 0 <= j < c.advertisements.len() && c.advertisements[j] == ad;
            assert(!c.confirmed.dom().contains(c.advertisements[j].candidate));
        }
        assert forall|peer: PeerId| #[trigger] next.advertised_by(peer)
            <= next.advertisement_limit by {
            lemma_filter_filter_len(c.advertisements, of_others(candidate), by_peer(peer));
            assert(c.advertised_by(peer) <= c.advertisement_limit);
        }
    }
}

/// Dropping what is at other relay-parents keeps the registry well-formed.
pub proof fn lemma_retain_preserves_wf(c: CandidatesView, keep: Set<primitives::Hash>)
    requires
        c.wf(),
    ensures
        c.retain(keep).wf(),
{
    let next = c.retain(keep);
    lemma_filter_no_duplicates(c.advertisements, at_one_of(keep));
    assert forall|i: int| 0 <= i < next.advertisements.len() implies !next.confirmed.dom().contains(
        #[trigger] next.advertisements[i].candidate,
    ) by {
        let ad = next.advertisements[i];
        assert(next.advertisements.contains(ad));
        lemma_filter_members(c.advertisements, at_one_of(keep), ad);
        let j = choose|j: int| 0 <= j < c.advertisements.len() && c.advertisements[j] == ad;
        assert(!c.confirmed.dom().contains(c.advertisements[j].candidate));
    }
    assert forall|peer: PeerId| #[trigger] next.advertised_by(peer) <= next.advertisement_limit by {
        lemma_filter_filter_len(c.advertisements, at_one_of(keep), by_peer(peer));
        assert(c.advertised_by(peer) <= c.advertisement_limit);
    }
}

/// The registry of candidates.
pub struct Candidates {
    advertisements: Vec<Advertisement>,
    confirmed: VecMap<CandidateHash, ConfirmedCandidate>,
    advertisement_limit: usize,
}

impl Candidates {
    /// What the registry holds.
    pub closed spec fn view(&self) -> CandidatesView {
        CandidatesView {
            advertisements: self.advertisements@,
            confirmed: self.confirmed@,
            advertisement_limit: self.advertisement_limit as nat,
        }
    }

    /// The registry's invariant.
    pub closed spec fn wf(&self) -> bool {
        &&& self@.wf()
        &&& self.confirmed.wf()
    }

    /// Well-formedness of the registry includes that of what it holds.
    pub proof fn lemma_wf_view(&self)
        requires
            self.wf(),
        ensures
            self@.wf(),
    {
    }

    /// An empty registry in which one peer may have `advertisement_limit`
    /// advertisements standing.
    pub fn new(advertisement_limit: usize) -> (r: Self)
        ensures
            r.wf(),
            r@.advertisements == Seq::<Advertisement>::empty(),
            r@.confirmed == Map::<CandidateHash, ConfirmedCandidate>::empty(),
            r@.advertisement_limit == advertisement_limit,
    {
        let r = Candidates {
            advertisements: Vec::new(),
            confirmed: VecMap::new(),
            advertisement_limit,
        };
        proof {
            assert forall|peer: PeerId| #[trigger] r@.advertised_by(peer)
                <= r@.advertisement_limit by {
                lemma_filter_empty(by_peer(peer));
            }
        }
        r
    }

    /// The advertisements of unconfirmed candidates, in the order in which
    /// they came.
    pub fn advertisements(&self) -> (r: Vec<Advertisement>)
        ensures
            r@ == self@.advertisements,
    {
        copy_ids(&self.advertisements)
    }

    /// How many advertisements a peer has standing, up to the limit: the
    /// answer is whether the peer has used up its budget.
    fn budget_used_up(&self, peer: PeerId) -> (r: bool)
        ensures
            r == (self@.advertised_by(peer) >= self@.advertisement_limit),
    {
        let mut count: usize = 0;
        let mut i: usize = 0;
        proof {
            lemma_filter_empty(by_peer(peer));
            assert(self.advertisements@.take(0) =~= Seq::<Advertisement>::empty());
        }
        while i < self.advertisements.len()
            invariant
                i <= self.advertisements.len(),
                count == self.advertisements@.take(i as int).filter(by_peer(peer)).len(),
                count <= i,
            decreases self.advertisements.len() - i,
        {
            proof {
                self.advertisements@.lemma_take_succ_push(i as int);
                self.advertisements@.take(i as int).lemma_filter_push(
                    self.advertisements@[i as int],
                    by_peer(peer),
                );
            }
            if self.advertisements[i].peer.same(&peer) {
                count += 1;
            }
            i += 1;
        }
        assert(self.advertisements@.take(self.advertisements@.len() as int)
            =~= self.advertisements@);
        count >= self.advertisement_limit
    }

    /// Records that `peer` advertised a candidate at `claimed_relay_parent`
    /// as one of `claimed_group`. The advertisement is refused where the
    /// candidate is confirmed with another group, and where it is new and
    /// the peer has no budget left.
    pub fn insert_unconfirmed(
        &mut self,
        peer: PeerId,
        candidate_hash: CandidateHash,
        claimed_relay_parent: primitives::Hash,
        claimed_group: GroupIndex,
        claim: Option<(ParaId, u32)>,
    ) -> (r: Result<(), BadAdvertisement>)
        requires
            old(self).wf(),
        ensures
            final(self).wf(),
            r == old(self)@.insert_unconfirmed_outcome(
                Advertisement {
                    candidate: candidate_hash,
                    peer,
                    relay_parent: claimed_relay_parent,
                    group: claimed_group,
                    claim,
                },
            ),
            final(self)@ == old(self)@.insert_unconfirmed(
                Advertisement {
                    candidate: candidate_hash,
                    peer,
                    relay_parent: claimed_relay_parent,
                    group: claimed_group,
                    claim,
                },
            ),
    {
        let ad = Advertisement {
            candidate: candidate_hash,
            peer,
            relay_parent: claimed_relay_parent,
            group: claimed_group,
            claim,
        };
        match self.confirmed.get(&candidate_hash) {
            Some(c) => {
                if c.assigned_group.same(&claimed_group) {
                    return Ok(());
                } else {
                    return Err(BadAdvertisement);
                }
            },
            None => {},
        }
        if contains_id(&self.advertisements, &ad) {
            return Ok(());
        }
        if self.budget_used_up(peer) {
            return Err(BadAdvertisement);
        }
        self.advertisements.push(ad);
        proof {
            lemma_insert_unconfirmed_preserves_wf(old(self)@, ad);
        }
        Ok(())
    }

    /// Confirms a candidate with its receipt, its validation data and the
    /// group it canonically belongs to. Where the candidate was confirmed
    /// before, nothing changes and the answer is `None`. Otherwise its
    /// advertisements leave the registry and are reckoned up.
    pub fn confirm_candidate(
        &mut self,
        candidate_hash: CandidateHash,
        candidate_receipt: CommittedCandidateReceipt,
        persisted_validation_data: PersistedValidationData,
        assigned_group: GroupIndex,
    ) -> (r: Option<PostConfirmationReckoning>)
        requires
            old(self).wf(),
        ensures
            final(self).wf(),
            r.is_none() == old(self)@.confirmed.dom().contains(candidate_hash),
            final(self)@ == old(self)@.confirm(
                candidate_hash,
                ConfirmedCandidate {
                    receipt: candidate_receipt,
                    persisted_validation_data,
                    assigned_group,
                },
            ),
            r matches Some(reckoning) ==> reckoning.correct@ == old(self)@.correct_advertisers(
                candidate_hash,
                assigned_group,
            ) && reckoning.incorrect@ == old(self)@.incorrect_advertisers(
                candidate_hash,
                assigned_group,
            ),
    {
        if self.confirmed.contains_key(&candidate_hash) {
            return None;
        }
        let mut rest: Vec<Advertisement> = Vec::new();
        let mut correct: Vec<PeerId> = Vec::new();
        let mut incorrect: Vec<PeerId> = Vec::new();
        let ghost all = self.advertisements@;
        let ghost others = of_others(candidate_hash);
        let ghost right = agreeing(candidate_hash, assigned_group);
        let ghost wrong = contradicting(candidate_hash, assigned_group);
        proof {
            lemma_filter_empty(others);
            lemma_filter_empty(right);
            lemma_filter_empty(wrong);
            assert(all.take(0) =~= Seq::<Advertisement>::empty());
            assert(all.take(0).filter(right).map_values(advertiser()) =~= Seq::<PeerId>::empty());
            assert(all.take(0).filter(wrong).map_values(advertiser()) =~= Seq::<PeerId>::empty());
        }
        let mut i: usize = 0;
        while i < self.advertisements.len()
            invariant
                i <= self.advertisements.len(),
                all == self.advertisements@,
                others == of_others(candidate_hash),
                right == agreeing(candidate_hash, assigned_group),
                wrong == contradicting(candidate_hash, assigned_group),
                rest@ == all.take(i as int).filter(others),
                correct@ == all.take(i as int).filter(right).map_values(advertiser()),
                incorrect@ == all.take(i as int).filter(wrong).map_values(advertiser()),
            decreases self.advertisements.len() - i,
        {
            let ad = self.advertisements[i];
            proof {
                let done = all.take(i as int);
                all.lemma_take_succ_push(i as int);
                done.lemma_filter_push(ad, others);
                done.lemma_filter_push(ad, right);
                done.lemma_filter_push(ad, wrong);
                done.filter(right).lemma_push_map_commute(advertiser(), ad);
                done.filter(wrong).lemma_push_map_commute(advertiser(), ad);
            }
            if ad.candidate.same(&candidate_hash) {
                if ad.group.same(&assigned_group) {
                    correct.push(ad.peer);
                } else {
                    incorrect.push(ad.peer);
                }
            } else {
                rest.push(ad);
            }
            i += 1;
        }
        assert(all.take(all.len() as int) =~= all);
        self.advertisements = rest;
        let confirmed = ConfirmedCandidate {
            receipt: candidate_receipt,
            persisted_validation_data,
            assigned_group,
        };
        self.confirmed.insert(candidate_hash, confirmed);
        proof {
            lemma_confirm_preserves_wf(old(self)@, candidate_hash, confirmed);
        }
        Some(PostConfirmationReckoning { correct, incorrect })
    }

    /// The confirmed form of a candidate.
    pub fn get_confirmed(&self, candidate_hash: &CandidateHash) -> (r: Option<&ConfirmedCandidate>)
        requires
            self.wf(),
        ensures
            match r {
                Some(c) => self@.confirmed.dom().contains(*candidate_hash) && *c
                    == self@.confirmed[*candidate_hash],
                None => !self@.confirmed.dom().contains(*candidate_hash),
            },
    {
        self.confirmed.get(candidate_hash)
    }

    /// Whether a candidate is confirmed.
    pub fn is_confirmed(&self, candidate_hash: &CandidateHash) -> (r: bool)
        requires
            self.wf(),
        ensures
            r == self@.confirmed.dom().contains(*candidate_hash),
    {
        self.confirmed.contains_key(candidate_hash)
    }

    /// Whether a candidate has been advertised and is not confirmed.
    pub fn is_unconfirmed(&self, candidate_hash: &CandidateHash) -> (r: bool)
        ensures
            r == self@.is_unconfirmed(*candidate_hash),
    {
        let mut i: usize = 0;
        while i < self.advertisements.len()
            invariant
                i <= self.advertisements.len(),
                forall|j: int| 0 <= j < i ==> self.advertisements@[j].candidate != *candidate_hash,
            decreases self.advertisements.len() - i,
        {
            if self.advertisements[i].candidate.same(candidate_hash) {
                return true;
            }
            i += 1;
        }
        false
    }

    /// Drops every advertisement and every confirmed candidate that is not
    /// at one of the relay-parents `keep`.
    pub fn retain_relay_parents(&mut self, keep: &Vec<primitives::Hash>)
        requires
            old(self).wf(),
        ensures
            final(self).wf(),
            final(self)@ == old(self)@.retain(keep@.to_set()),
    {
        let mut rest: Vec<Advertisement> = Vec::new();
        let ghost all = self.advertisements@;
        let ghost kept = at_one_of(keep@.to_set());
        proof {
            lemma_filter_empty(kept);
            assert(all.take(0) =~= Seq::<Advertisement>::empty());
        }
        let mut i: usize = 0;
        while i < self.advertisements.len()
            invariant
                i <= self.advertisements.len(),
                all == self.advertisements@,
                kept == at_one_of(keep@.to_set()),
                rest@ == all.take(i as int).filter(kept),
            decreases self.advertisements.len() - i,
        {
            let ad = self.advertisements[i];
            proof {
                all.lemma_take_succ_push(i as int);
                all.take(i as int).lemma_filter_push(ad, kept);
            }
            if contains_id(keep, &ad.relay_parent) {
                rest.push(ad);
            }
            i += 1;
        }
        assert(all.take(all.len() as int) =~= all);
        self.advertisements = rest;

        let hashes = self.confirmed.keys();
        let mut live: Vec<CandidateHash> = Vec::new();
        let mut j: usize = 0;
        while j < hashes.len()
            invariant
                j <= hashes.len(),
                self.confirmed.wf(),
                self.confirmed@ == old(self).confirmed@,
                hashes@.to_set() == self.confirmed@.dom(),
                forall|h: CandidateHash| #[trigger]
                    live@.contains(h) <==> hashes@.take(j as int).contains(h) && keep@.contains(
                        self.confirmed@[h].receipt.relay_parent,
                    ),
            decreases hashes.len() - j,
        {
            let h = hashes[j];
            let ghost before = live@;
            assert(hashes@.to_set().contains(h)) by {
                assert(hashes@[j as int] == h);
            }
            let at_kept = match self.confirmed.get(&h) {
                Some(c) => contains_id(keep, &c.receipt.relay_parent),
                None => false,
            };
            if at_kept {
                live.push(h);
            }
            proof {
                let done = hashes@.take(j as int);
                let next = hashes@.take(j + 1);
                hashes@.lemma_take_succ_push(j as int);
                assert forall|x: CandidateHash| #[trigger]
                    live@.contains(x) <==> next.contains(x) && keep@.contains(
                        self.confirmed@[x].receipt.relay_parent,
                    ) by {
                    assert(before.contains(x) <==> done.contains(x) && keep@.contains(
                        self.confirmed@[x].receipt.relay_parent,
                    ));
                    if at_kept {
                        assert(live@ == before.push(h));
                        assert(live@[before.len() as int] == h);
                        if before.contains(x) {
                            let k = choose|k: int| 0 <= k < before.len() && before[k] == x;
                            assert(live@[k] == x);
                        }
                        if live@.contains(x) {
                            let k = choose|k: int| 0 <= k < live@.len() && live@[k] == x;
                            if k < before.len() {
                                assert(before[k] == x);
                            }
                        }
                    }
                    assert(next[j as int] == h);
                    if done.contains(x) {
                        let k = choose|k: int| 0 <= k < done.len() && done[k] == x;
                        assert(next[k] == x);
                    }
                    if next.contains(x) {
                        let k = choose|k: int| 0 <= k < next.len() && next[k] == x;
                        if k < j {
                            assert(done[k] == x);
                        }
                    }
                }
            }
            j += 1;
        }
        assert(hashes@.take(hashes@.len() as int) =~= hashes@);
        self.confirmed.retain_in(&live);
        proof {
            assert(self@.confirmed =~= old(self)@.retain(keep@.to_set()).confirmed) by {
                assert forall|h: CandidateHash|
                    old(self)@.retain(keep@.to_set()).confirmed.dom().contains(h) implies live@.contains(
                    h,
                ) by {
                    assert(hashes@.to_set().contains(h));
                }
            }
            lemma_retain_preserves_wf(old(self)@, keep@.to_set());
        }
    }
}

} // verus!
