//! The state of statement distribution as a whole, and what each event does
//! to it.
//!
//! Every handler is a function from the state and an event to the next
//! state and what is to be sent: nothing here waits for the network or for
//! the chain.

use crate::candidates::{
    Advertisement, Candidates, CandidatesView, ConfirmedCandidate, PostConfirmationReckoning,
};
use crate::implicit_view::ImplicitView;
use crate::messages::{
    outbound_messages, outbound_views, NetworkBridgeEvent, OutboundStatement,
    OutboundStatementView, SignedFullStatementWithPVD, StatementDistributionMessage,
    StatementWithPVD, VStagingMessage, VSTAGING_VERSION,
};
use crate::peers::{PeerStateView, PeerTable};
use crate::primitives;
use crate::primitives::{
    AuthorityDiscoveryId, CandidateHash, GroupIndex, Identifier, ParaId, PeerId, SessionIndex,
    SignedStatement, UncheckedSignedStatement, ValidatorIndex,
};
use crate::relay_parent::{
    find_local_validator_state, Circulation, CoreState, ImportOutcome, IncomingScreening,
    PerRelayParentState,
};
use crate::reputation::{Rep, COST_INVALID_SIGNATURE, COST_UNEXPECTED_STATEMENT_MISSING_KNOWLEDGE};
use crate::requests::{
    with_cluster_source, CandidateIdentifier, RequestEntryView, RequestFilter, RequestManager,
};
use crate::session::{PerSessionState, SessionInfo};
use crate::signature::{signature_accepted, verify_statement_signature};
use crate::statement_store::StatementStoreError;
use crate::vec_map::VecMap;
use vstd::prelude::*;

verus! {

/// Something could not be done, and nobody is to blame for it.
#[derive(Clone, Copy, PartialEq, Eq, Debug)]
pub enum JfyiError {
    /// A leaf could not be activated.
    ActivateLeafFailure,
    /// The runtime did not answer.
    RuntimeApiUnavailable,
    /// The session index of a relay-parent could not be had.
    FetchSessionIndex,
    /// The session info could not be had.
    FetchSessionInfo,
    /// The availability cores could not be had.
    FetchAvailabilityCores,
    /// A statement of our own cannot be shared.
    InvalidShare,
}

/// A statement from a peer that was taken.
#[derive(Clone, Copy, PartialEq, Eq, Debug)]
pub struct AcceptedStatement {
    /// The statement, checked.
    pub statement: SignedStatement,
    /// The member of our cluster as whom the peer sent it.
    pub sender: ValidatorIndex,
    /// The group of the statement's author.
    pub group: GroupIndex,
    /// Whether the statement was not known before: a fresh statement is for
    /// the backing subsystem and is to be circulated further.
    pub fresh: bool,
    /// Whether the registry of candidates refused the advertisement that
    /// the statement amounts to.
    pub bad_advertisement: bool,
    /// Whether the candidate was noted for fetching, with the peer as a
    /// source.
    pub requested: bool,
    /// Whether the statement is fresh and the candidate now has as many
    /// statements from the group as backing takes.
    pub backed: bool,
}

/// What became of a statement from a peer.
#[derive(Clone, Copy, PartialEq, Eq, Debug)]
pub enum IncomingStatementOutcome {
    /// The statement was dropped and nothing is to be said of it.
    Ignored,
    /// The statement was dropped and the peer is to be reported.
    Reported(Rep),
    /// The statement was taken.
    Accepted(AcceptedStatement),
}

/// What a statement of our own led to.
#[derive(Clone, PartialEq, Eq, Debug)]
pub struct ShareOutcome {
    /// The reckoning with the advertisers of the candidate, where the
    /// statement confirmed it.
    pub reckoning: Option<PostConfirmationReckoning>,
    /// The messages that are to go out, in their order.
    pub messages: Vec<OutboundStatement>,
}

/// What an event from the network led to.
#[derive(Clone, Copy, PartialEq, Eq, Debug)]
pub enum NetworkUpdateOutcome {
    /// The event was taken in, or passed over.
    Done,
    /// The event was a statement from a peer, with this outcome.
    Statement(IncomingStatementOutcome),
    /// The event was a message for the grid.
    ForGrid,
}

/// The state of statement distribution.
pub struct State {
    implicit_view: ImplicitView,
    candidates: Candidates,
    per_relay_parent: VecMap<primitives::Hash, PerRelayParentState>,
    per_session: VecMap<SessionIndex, PerSessionState>,
    peers: PeerTable,
    request_manager: RequestManager,
}

impl State {
    /// The relay-parents allowed under each active leaf.
    pub closed spec fn leaves(&self) -> Map<primitives::Hash, Seq<primitives::Hash>> {
        self.implicit_view@
    }

    /// What is kept for each relay-parent.
    pub closed spec fn relay_parents(&self) -> Map<primitives::Hash, PerRelayParentState> {
        self.per_relay_parent@
    }

    /// What is kept of each session.
    pub closed spec fn sessions(&self) -> Map<SessionIndex, PerSessionState> {
        self.per_session@
    }

    /// The connected peers.
    pub closed spec fn peer_table(&self) -> PeerTable {
        self.peers
    }

    /// The registry of candidates.
    pub closed spec fn known_candidates(&self) -> CandidatesView {
        self.candidates@
    }

    /// The candidates that are to be fetched.
    pub closed spec fn requests(&self) -> Seq<(CandidateIdentifier, RequestEntryView)> {
        self.request_manager@
    }

    /// The state's invariant: every part is well-formed.
    pub closed spec fn wf(&self) -> bool {
        &&& self.implicit_view.wf()
        &&& self.candidates.wf()
        &&& self.per_relay_parent.wf()
        &&& self.per_session.wf()
        &&& self.peers.wf()
        &&& self.request_manager.wf()
        &&& forall|rp: primitives::Hash| #[trigger]
            self.per_relay_parent@.dom().contains(rp) ==> self.per_relay_parent@[rp].wf()
        &&& forall|s: SessionIndex| #[trigger]
            self.per_session@.dom().contains(s) ==> self.per_session@[s].wf()
    }

    /// In a well-formed state the parts are well-formed.
    pub proof fn lemma_wf_parts(&self)
        requires
            self.wf(),
        ensures
            self.known_candidates().wf(),
            self.peer_table().wf(),
            forall|rp: primitives::Hash| #[trigger]
                self.relay_parents().dom().contains(rp) ==> self.relay_parents()[rp].wf(),
            forall|s: SessionIndex| #[trigger]
                self.sessions().dom().contains(s) ==> self.sessions()[s].wf(),
    {
        self.candidates.lemma_wf_view();
    }

    /// Whether two states hold the same.
    pub open spec fn same_as(&self, other: &State) -> bool {
        &&& self.leaves() == other.leaves()
        &&& self.relay_parents() == other.relay_parents()
        &&& self.sessions() == other.sessions()
        &&& self.peer_table().peers() == other.peer_table().peers()
        &&& self.peer_table().authorities() == other.peer_table().authorities()
        &&& self.known_candidates() == other.known_candidates()
        &&& self.requests() == other.requests()
    }

    /// Whether two states hold the same but for what is kept for one
    /// relay-parent, which both have.
    pub open spec fn same_but_at(&self, other: &State, relay_parent: primitives::Hash) -> bool {
        &&& self.leaves() == other.leaves()
        &&& self.relay_parents().dom() == other.relay_parents().dom()
        &&& self.relay_parents().dom().contains(relay_parent)
        &&& forall|rp: primitives::Hash|
            rp != relay_parent && self.relay_parents().dom().contains(rp)
                ==> #[trigger] self.relay_parents()[rp] == other.relay_parents()[rp]
        &&& self.sessions() == other.sessions()
        &&& self.peer_table().peers() == other.peer_table().peers()
        &&& self.peer_table().authorities() == other.peer_table().authorities()
    }

    /// The state at the start: no leaves, no peers, nothing known. One peer
    /// may have `advertisement_limit` advertisements of unconfirmed
    /// candidates standing.
    pub fn new(advertisement_limit: usize) -> (r: Self)
        ensures
            r.wf(),
            r.leaves() == Map::<primitives::Hash, Seq<primitives::Hash>>::empty(),
            r.relay_parents() == Map::<primitives::Hash, PerRelayParentState>::empty(),
            r.sessions() == Map::<SessionIndex, PerSessionState>::empty(),
            r.peer_table().peers() == Map::<PeerId, PeerStateView>::empty(),
            r.peer_table().authorities() == Map::<AuthorityDiscoveryId, PeerId>::empty(),
            r.known_candidates().advertisements == Seq::<Advertisement>::empty(),
            r.known_candidates().confirmed == Map::<CandidateHash, ConfirmedCandidate>::empty(),
            r.known_candidates().advertisement_limit == advertisement_limit,
            r.requests() == Seq::<(CandidateIdentifier, RequestEntryView)>::empty(),
    {
        State {
            implicit_view: ImplicitView::new(),
            candidates: Candidates::new(advertisement_limit),
            per_relay_parent: VecMap::new(),
            per_session: VecMap::new(),
            peers: PeerTable::new(),
            request_manager: RequestManager::new(),
        }
    }

    /// What is kept for a relay-parent.
    pub fn relay_parent_state(&self, relay_parent: &primitives::Hash) -> (r: Option<
        &PerRelayParentState,
    >)
        requires
            self.wf(),
        ensures
            match r {
                Some(s) => self.relay_parents().dom().contains(*relay_parent) && *s
                    == self.relay_parents()[*relay_parent] && s.wf(),
                None => !self.relay_parents().dom().contains(*relay_parent),
            },
    {
        self.per_relay_parent.get(relay_parent)
    }

    /// What is kept of a session.
    pub fn session_state(&self, session: SessionIndex) -> (r: Option<&PerSessionState>)
        requires
            self.wf(),
        ensures
            match r {
                Some(s) => self.sessions().dom().contains(session) && *s == self.sessions()[session]
                    && s.wf(),
                None => !self.sessions().dom().contains(session),
            },
    {
        self.per_session.get(&session)
    }

    /// The connected peers.
    pub fn peers(&self) -> (r: &PeerTable)
        requires
            self.wf(),
        ensures
            *r == self.peer_table(),
            r.wf(),
    {
        &self.peers
    }

    /// The registry of candidates.
    pub fn candidates(&self) -> (r: &Candidates)
        requires
            self.wf(),
        ensures
            r@ == self.known_candidates(),
            r.wf(),
    {
        &self.candidates
    }

    /// The candidates that are to be fetched.
    pub fn request_manager(&self) -> (r: &RequestManager)
        requires
            self.wf(),
        ensures
            r@ == self.requests(),
            r.wf(),
    {
        &self.request_manager
    }

    /// The relay-parents that are allowed under the active leaves.
    pub fn implicit_view(&self) -> (r: &ImplicitView)
        requires
            self.wf(),
        ensures
            r@ == self.leaves(),
            r.wf(),
    {
        &self.implicit_view
    }

    /// What the checks before the signature check make of a statement from
    /// a peer: the peer must be connected, the relay-parent and its session
    /// must be known, and the relay-parent's own checks must pass.
    pub open spec fn screening(
        &self,
        peer: PeerId,
        relay_parent: primitives::Hash,
        statement: UncheckedSignedStatement,
    ) -> IncomingScreening {
        if !self.peer_table().peers().dom().contains(peer) {
            IncomingScreening::Ignore
        } else if !self.relay_parents().dom().contains(relay_parent) {
            IncomingScreening::Report(Rep::UnexpectedStatementMissingKnowledge)
        } else if !self.sessions().dom().contains(self.relay_parents()[relay_parent].session) {
            IncomingScreening::Ignore
        } else {
            self.relay_parents()[relay_parent].screening(
                self.sessions()[self.relay_parents()[relay_parent].session].spec_discovery_keys(),
                self.peer_table().peers()[peer],
                statement,
            )
        }
    }

    /// Checks a statement from a peer, as far as that can be done before
    /// its signature is checked.
    pub fn screen_incoming_statement(
        &self,
        peer: &PeerId,
        relay_parent: &primitives::Hash,
        statement: &UncheckedSignedStatement,
    ) -> (r: IncomingScreening)
        requires
            self.wf(),
        ensures
            r == self.screening(*peer, *relay_parent, *statement),
    {
        let peer_state = match self.peers.get(peer) {
            None => {
                return IncomingScreening::Ignore;
            },
            Some(p) => p,
        };
        let per_relay_parent = match self.per_relay_parent.get(relay_parent) {
            None => {
                return IncomingScreening::Report(COST_UNEXPECTED_STATEMENT_MISSING_KNOWLEDGE);
            },
            Some(p) => p,
        };
        let per_session = match self.per_session.get(&per_relay_parent.session) {
            None => {
                return IncomingScreening::Ignore;
            },
            Some(s) => s,
        };
        per_relay_parent.screen_incoming_statement(
            per_session.discovery_keys(),
            peer_state,
            statement,
        )
    }

    /// Whether the signature of a statement at a relay-parent is good under
    /// the session of the relay-parent and the key of the statement's
    /// author.
    pub open spec fn signature_verdict(
        &self,
        relay_parent: primitives::Hash,
        statement: UncheckedSignedStatement,
    ) -> bool {
        &&& self.relay_parents().dom().contains(relay_parent)
        &&& self.sessions().dom().contains(self.relay_parents()[relay_parent].session)
        &&& signature_accepted(
            self.relay_parents()[relay_parent].session,
            self.sessions()[self.relay_parents()[relay_parent].session].spec_validators(),
            relay_parent,
            statement,
        )
    }

    /// `next` and `outcome` are what comes of a statement that `peer` sent
    /// at `relay_parent`, where `signature_valid` says whether its signature
    /// is good.
    ///
    /// A statement that does not pass the screening is dropped as the
    /// screening says. One that passes is dropped with a report of an
    /// invalid signature unless its signature is good. Then the store of the
    /// relay-parent decides: a statement that it takes or has already is
    /// recorded as received in the cluster tracker, the candidate is
    /// recorded as advertised by the peer, and unless it is confirmed or the
    /// advertisement is refused, it is noted for fetching from the peer.
    /// Whatever is dropped leaves the state as it was.
    pub open spec fn received(
        &self,
        next: &State,
        peer: PeerId,
        relay_parent: primitives::Hash,
        statement: UncheckedSignedStatement,
        signature_valid: bool,
        outcome: IncomingStatementOutcome,
    ) -> bool {
        match self.screening(peer, relay_parent, statement) {
            IncomingScreening::Ignore => next.same_as(self) && outcome
                == IncomingStatementOutcome::Ignored,
            IncomingScreening::Report(rep) => next.same_as(self) && outcome
                == IncomingStatementOutcome::Reported(rep),
            IncomingScreening::Pass(sender) => if !signature_valid {
                next.same_as(self) && outcome == IncomingStatementOutcome::Reported(
                    Rep::InvalidSignature,
                )
            } else {
                let before = self.relay_parents()[relay_parent];
                let groups = self.sessions()[before.session].spec_groups();
                let checked = SignedStatement { unchecked: statement };
                match before.import_outcome(&groups, checked) {
                    ImportOutcome::Ignore => next.same_as(self) && outcome
                        == IncomingStatementOutcome::Ignored,
                    ImportOutcome::Report(rep) => next.same_as(self) && outcome
                        == IncomingStatementOutcome::Reported(rep),
                    ImportOutcome::Imported { fresh, group } => {
                        let candidate = statement.payload.candidate();
                        let ad = Advertisement {
                            candidate,
                            peer,
                            relay_parent,
                            group,
                            claim: None,
                        };
                        let bad = self.known_candidates().insert_unconfirmed_outcome(ad).is_err();
                        let requested = !bad && !self.known_candidates().confirmed.dom().contains(
                            candidate,
                        );
                        &&& self.same_but_at(next, relay_parent)
                        &&& before.imported(&next.relay_parents()[relay_parent], &groups, sender, checked)
                        &&& next.known_candidates() == self.known_candidates().insert_unconfirmed(ad)
                        &&& next.requests() == (if requested {
                            with_cluster_source(
                                self.requests(),
                                CandidateIdentifier { relay_parent, candidate_hash: candidate },
                                group,
                                peer,
                            )
                        } else {
                            self.requests()
                        })
                        &&& outcome == IncomingStatementOutcome::Accepted(
                            AcceptedStatement {
                                statement: checked,
                                sender,
                                group,
                                fresh,
                                bad_advertisement: bad,
                                requested,
                                backed: fresh && next.relay_parents()[relay_parent].backed(
                                    &groups,
                                    group,
                                    candidate,
                                ),
                            },
                        )
                    },
                }
            },
        }
    }

    /// Takes in a statement that `peer` sent at `relay_parent`, given
    /// whether its signature is good.
    pub fn receive_statement(
        &mut self,
        peer: PeerId,
        relay_parent: primitives::Hash,
        statement: UncheckedSignedStatement,
        signature_valid: bool,
    ) -> (outcome: IncomingStatementOutcome)
        requires
            old(self).wf(),
        ensures
            final(self).wf(),
            old(self).received(final(self), peer, relay_parent, statement, signature_valid, outcome),
    {
        let sender = match self.screen_incoming_statement(&peer, &relay_parent, &statement) {
            IncomingScreening::Ignore => {
                return IncomingStatementOutcome::Ignored;
            },
            IncomingScreening::Report(rep) => {
                return IncomingStatementOutcome::Reported(rep);
            },
            IncomingScreening::Pass(sender) => sender,
        };
        let checked = match statement.into_checked(signature_valid) {
            Ok(checked) => checked,
            Err(_) => {
                return IncomingStatementOutcome::Reported(COST_INVALID_SIGNATURE);
            },
        };
        let mut per_relay_parent = match self.per_relay_parent.remove(&relay_parent) {
            Some(p) => p,
            None => {
                return IncomingStatementOutcome::Ignored;
            },
        };
        let ghost before = per_relay_parent;
        let per_session = match self.per_session.get(&per_relay_parent.session) {
            Some(s) => s,
            None => {
                self.per_relay_parent.insert(relay_parent, per_relay_parent);
                assert(self.per_relay_parent@ =~= old(self).per_relay_parent@);
                return IncomingStatementOutcome::Ignored;
            },
        };
        proof {
            assert(old(self).per_session@.dom().contains(per_relay_parent.session));
            per_session.lemma_wf_groups();
        }
        let import = per_relay_parent.import_statement(per_session.groups(), sender, checked);
        let candidate_hash = checked.payload().candidate_hash();
        let (fresh, group, backed) = match import {
            ImportOutcome::Imported { fresh, group } => (
                fresh,
                group,
                fresh && per_relay_parent.is_backed(per_session.groups(), group, candidate_hash),
            ),
            ImportOutcome::Ignore => {
                self.per_relay_parent.insert(relay_parent, per_relay_parent);
                assert(self.per_relay_parent@ =~= old(self).per_relay_parent@);
                return IncomingStatementOutcome::Ignored;
            },
            ImportOutcome::Report(rep) => {
                self.per_relay_parent.insert(relay_parent, per_relay_parent);
                assert(self.per_relay_parent@ =~= old(self).per_relay_parent@);
                return IncomingStatementOutcome::Reported(rep);
            },
        };
        self.per_relay_parent.insert(relay_parent, per_relay_parent);
        let advertised = self.candidates.insert_unconfirmed(
            peer,
            candidate_hash,
            relay_parent,
            group,
            None,
        );
        let bad_advertisement = advertised.is_err();
        let requested = !bad_advertisement && !self.candidates.is_confirmed(&candidate_hash);
        if requested {
            self.request_manager.note_cluster_source(relay_parent, candidate_hash, group, peer);
        }
        proof {
            assert(self.per_relay_parent@.dom() =~= old(self).per_relay_parent@.dom());
            old(self).candidates.lemma_wf_view();
        }
        IncomingStatementOutcome::Accepted(
            AcceptedStatement {
                statement: checked,
                sender,
                group,
                fresh,
                bad_advertisement,
                requested,
                backed,
            },
        )
    }

    /// Takes in a statement that `peer` sent at `relay_parent`: screens it,
    /// checks its signature under the relay-parent and its session, and
    /// goes on as [`State::receive_statement`] does.
    pub fn handle_incoming_statement(
        &mut self,
        peer: PeerId,
        relay_parent: primitives::Hash,
        statement: UncheckedSignedStatement,
    ) -> (outcome: IncomingStatementOutcome)
        requires
            old(self).wf(),
        ensures
            final(self).wf(),
            old(self).received(
                final(self),
                peer,
                relay_parent,
                statement,
                old(self).signature_verdict(relay_parent, statement),
                outcome,
            ),
            outcome is Accepted ==> old(self).signature_verdict(relay_parent, statement),
    {
        let passes = match self.screen_incoming_statement(&peer, &relay_parent, &statement) {
            IncomingScreening::Pass(_) => true,
            _ => false,
        };
        let signature_valid = passes && match self.per_relay_parent.get(&relay_parent) {
            Some(per_relay_parent) => match self.per_session.get(&per_relay_parent.session) {
                Some(per_session) => verify_statement_signature(
                    per_relay_parent.session,
                    per_session.validators(),
                    relay_parent,
                    &statement,
                ),
                None => false,
            },
            None => false,
        };
        self.receive_statement(peer, relay_parent, statement, signature_valid)
    }

    /// `next` and `messages` are what comes of circulating `statement`
    /// within our cluster at `relay_parent`.
    ///
    /// Where the relay-parent or its session is not known, or no circulation
    /// takes place, the state stays as it was and nothing goes out.
    /// Otherwise only the cluster tracker of the relay-parent changes: it
    /// records what is sent.
    pub open spec fn sent_direct(
        &self,
        next: &State,
        relay_parent: primitives::Hash,
        statement: SignedStatement,
        messages: Seq<OutboundStatementView>,
    ) -> bool {
        if !self.relay_parents().dom().contains(relay_parent) || !self.sessions().dom().contains(
            self.relay_parents()[relay_parent].session,
        ) {
            next.same_as(self) && messages == Seq::<OutboundStatementView>::empty()
        } else {
            let before = self.relay_parents()[relay_parent];
            let keys = self.sessions()[before.session].spec_discovery_keys();
            match before.circulation(keys, &self.peer_table(), relay_parent, statement) {
                None => next.same_as(self) && messages == Seq::<OutboundStatementView>::empty(),
                Some(c) => {
                    let after = next.relay_parents()[relay_parent];
                    &&& self.same_but_at(next, relay_parent)
                    &&& next.known_candidates() == self.known_candidates()
                    &&& next.requests() == self.requests()
                    &&& after.session == before.session
                    &&& after.statement_store == before.statement_store
                    &&& after.local_validator.is_some()
                    &&& after.local_validator.unwrap().index == before.local_validator.unwrap().index
                    &&& after.local_validator.unwrap().group == before.local_validator.unwrap().group
                    &&& after.local_validator.unwrap().assignment
                        == before.local_validator.unwrap().assignment
                    &&& after.local_validator.unwrap().cluster_tracker@ == c.tracker
                    &&& messages == outbound_messages(
                        relay_parent,
                        before.prior_for(statement),
                        c.prior_to,
                        statement,
                        c.statement_to,
                    )
                },
            }
        }
    }

    /// Circulates a statement within our cluster at a relay-parent: to the
    /// members other than ourselves whose peers are connected and know the
    /// relay-parent, as far as the cluster's rules allow. What comes back
    /// are the messages to send, in their order: a `Seconded` statement for
    /// those that do not have the candidate of a `Valid` statement yet, then
    /// the statement itself.
    pub fn send_statement_direct(
        &mut self,
        relay_parent: primitives::Hash,
        statement: SignedStatement,
    ) -> (messages: Vec<OutboundStatement>)
        requires
            old(self).wf(),
        ensures
            final(self).wf(),
            old(self).sent_direct(final(self), relay_parent, statement, outbound_views(messages@)),
            forall|i: int, j: int|
                0 <= i < messages@.len() && 0 <= j < messages@[i].to@.len() ==> old(
                    self,
                ).peer_table().peer_knows(#[trigger] messages@[i].to@[j], relay_parent),
    {
        let mut messages: Vec<OutboundStatement> = Vec::new();
        let mut per_relay_parent = match self.per_relay_parent.remove(&relay_parent) {
            Some(p) => p,
            None => {
                assert(self.per_relay_parent@ =~= old(self).per_relay_parent@);
                assert(outbound_views(messages@) =~= Seq::<OutboundStatementView>::empty());
                return messages;
            },
        };
        let ghost before = per_relay_parent;
        let per_session = match self.per_session.get(&per_relay_parent.session) {
            Some(s) => s,
            None => {
                self.per_relay_parent.insert(relay_parent, per_relay_parent);
                assert(self.per_relay_parent@ =~= old(self).per_relay_parent@);
                assert(outbound_views(messages@) =~= Seq::<OutboundStatementView>::empty());
                return messages;
            },
        };
        let ghost keys = per_session.spec_discovery_keys();
        let out = per_relay_parent.circulate(
            per_session.discovery_keys(),
            &self.peers,
            relay_parent,
            statement,
        );
        let ghost plan = before.circulation(keys, &self.peers, relay_parent, statement);
        proof {
            if plan.is_some() {
                let l = before.local_validator.unwrap();
                let targets = crate::relay_parent::eligible_targets(
                    l.cluster_tracker@.validators,
                    l.index,
                    keys,
                    &self.peers,
                    relay_parent,
                );
                crate::relay_parent::lemma_circulate_within_targets(
                    l.cluster_tracker@,
                    targets,
                    before.prior_for(statement),
                    statement,
                );
                assert forall|p: PeerId|
                    out.prior_to@.contains(p) || out.statement_to@.contains(
                        p,
                    ) implies self.peers.peer_knows(p, relay_parent) by {
                    let i = choose|i: int| 0 <= i < targets.len() && (#[trigger] targets[i]).1 == p;
                    crate::relay_parent::lemma_eligible_targets_know(
                        l.cluster_tracker@.validators,
                        l.index,
                        keys,
                        &self.peers,
                        relay_parent,
                        i,
                    );
                }
            }
        }
        self.per_relay_parent.insert(relay_parent, per_relay_parent);
        let Circulation { prior_seconded, prior_to, statement_to } = out;
        let ghost ahead = prior_to@;
        let ghost direct = statement_to@;
        if prior_to.len() > 0 {
            match prior_seconded {
                Some(seconded) => {
                    messages.push(
                        OutboundStatement {
                            to: prior_to,
                            relay_parent,
                            statement: seconded.as_unchecked(),
                        },
                    );
                },
                None => {},
            }
        }
        if statement_to.len() > 0 {
            messages.push(
                OutboundStatement { to: statement_to, relay_parent, statement: statement.as_unchecked() },
            );
        }
        proof {
            assert(self.per_relay_parent@.dom() =~= old(self).per_relay_parent@.dom());
            if plan.is_none() {
                assert(self.per_relay_parent@ =~= old(self).per_relay_parent@);
                assert(outbound_views(messages@) =~= Seq::<OutboundStatementView>::empty());
            } else {
                assert(outbound_views(messages@) =~= outbound_messages(
                    relay_parent,
                    before.prior_for(statement),
                    ahead,
                    statement,
                    direct,
                ));
                assert forall|i: int, j: int|
                    0 <= i < messages@.len() && 0 <= j < messages@[i].to@.len() implies old(
                    self,
                ).peer_table().peer_knows(#[trigger] messages@[i].to@[j], relay_parent) by {
                    let p = messages@[i].to@[j];
                    assert(ahead.contains(p) || direct.contains(p));
                }
            }
        }
        messages
    }

    /// The targets at a relay-parent that come from the grid, where
    /// `proposed` is what the grid names: none where the relay-parent or its
    /// session is not known or we have no role there.
    pub open spec fn grid_targets_of(
        &self,
        relay_parent: primitives::Hash,
        proposed: Seq<ValidatorIndex>,
    ) -> Seq<(ValidatorIndex, PeerId)> {
        if !self.relay_parents().dom().contains(relay_parent) || !self.sessions().dom().contains(
            self.relay_parents()[relay_parent].session,
        ) {
            Seq::empty()
        } else {
            self.relay_parents()[relay_parent].grid_targets_of(
                proposed,
                self.sessions()[self.relay_parents()[relay_parent].session].spec_discovery_keys(),
                &self.peer_table(),
                relay_parent,
            )
        }
    }

    /// The targets at a relay-parent that come from the grid, each with its
    /// peer. `proposed` is what the grid names. A validator is a target at
    /// most once, and a member of our cluster is a target as such and not as
    /// a grid target; a validator whose peer is not connected or does not
    /// know the relay-parent is no target.
    pub fn grid_targets(&self, relay_parent: primitives::Hash, proposed: &Vec<ValidatorIndex>) -> (targets:
        Vec<(ValidatorIndex, PeerId)>)
        requires
            self.wf(),
        ensures
            targets@ == self.grid_targets_of(relay_parent, proposed@),
            forall|i: int|
                0 <= i < targets@.len() ==> self.peer_table().peer_knows(
                    (#[trigger] targets@[i]).1,
                    relay_parent,
                ),
    {
        let per_relay_parent = match self.per_relay_parent.get(&relay_parent) {
            Some(p) => p,
            None => {
                return Vec::new();
            },
        };
        let per_session = match self.per_session.get(&per_relay_parent.session) {
            Some(s) => s,
            None => {
                return Vec::new();
            },
        };
        let targets = per_relay_parent.grid_targets(
            proposed,
            per_session.discovery_keys(),
            &self.peers,
            relay_parent,
        );
        proof {
            assert forall|i: int| 0 <= i < targets@.len() implies self.peer_table().peer_knows(
                (#[trigger] targets@[i]).1,
                relay_parent,
            ) by {
                let l = per_relay_parent.local_validator.unwrap();
                crate::relay_parent::lemma_grid_targets_know(
                    proposed@,
                    l.cluster_tracker@.validators,
                    l.index,
                    per_session.spec_discovery_keys(),
                    &self.peers,
                    relay_parent,
                    i,
                );
            }
        }
        targets
    }

    /// What is expected of the candidate of a statement of our own: its
    /// parachain and its relay-parent. A `Seconded` statement brings them; a
    /// `Valid` one is about a candidate that must be confirmed.
    pub open spec fn expected_of(&self, statement: &SignedFullStatementWithPVD) -> Option<
        (ParaId, primitives::Hash),
    > {
        match statement.payload {
            StatementWithPVD::Seconded(_, receipt, _) => Some(
                (receipt.para_id, receipt.relay_parent),
            ),
            StatementWithPVD::Valid(h) => if self.known_candidates().confirmed.dom().contains(h) {
                Some(
                    (
                        self.known_candidates().confirmed[h].receipt.para_id,
                        self.known_candidates().confirmed[h].receipt.relay_parent,
                    ),
                )
            } else {
                None
            },
        }
    }

    /// Whether a statement of our own can be shared at a relay-parent:
    /// `Ok(true)` where it can, `Ok(false)` where the session of the
    /// relay-parent is not known and nothing is done, and an error where the
    /// statement is not one that we can make here. It must be ours, about a
    /// candidate of the parachain that our group is assigned to, at this
    /// relay-parent, and new to the store, which must take it.
    pub open spec fn share_verdict(
        &self,
        relay_parent: primitives::Hash,
        statement: &SignedFullStatementWithPVD,
    ) -> Result<bool, JfyiError> {
        if !self.relay_parents().dom().contains(relay_parent) {
            Err(JfyiError::InvalidShare)
        } else if !self.sessions().dom().contains(self.relay_parents()[relay_parent].session) {
            Ok(false)
        } else {
            let before = self.relay_parents()[relay_parent];
            let groups = self.sessions()[before.session].spec_groups();
            if before.local_validator.is_none() || self.expected_of(statement).is_none() {
                Err(JfyiError::InvalidShare)
            } else {
                let l = before.local_validator.unwrap();
                let (para, candidate_relay_parent) = self.expected_of(statement).unwrap();
                if l.index != statement.validator_index || l.assignment != Some(para) || relay_parent
                    != candidate_relay_parent || before.statement_store@.insert_outcome(
                    &groups,
                    statement.compact(),
                ) != Ok::<bool, StatementStoreError>(true) {
                    Err(JfyiError::InvalidShare)
                } else {
                    Ok(true)
                }
            }
        }
    }

    /// `next` is this state after a statement of our own that can be shared
    /// was taken in: a `Seconded` statement has confirmed its candidate, for
    /// which nothing is to be fetched any more, and the store of the
    /// relay-parent has the statement.
    pub open spec fn took_local_statement(
        &self,
        next: &State,
        relay_parent: primitives::Hash,
        statement: &SignedFullStatementWithPVD,
    ) -> bool {
        let before = self.relay_parents()[relay_parent];
        let after = next.relay_parents()[relay_parent];
        let groups = self.sessions()[before.session].spec_groups();
        &&& self.same_but_at(next, relay_parent)
        &&& after.session == before.session
        &&& after.local_validator == before.local_validator
        &&& after.statement_store@ == before.statement_store@.insert(&groups, statement.compact())
        &&& match statement.payload {
            StatementWithPVD::Seconded(h, receipt, persisted_validation_data) => {
                &&& next.known_candidates() == self.known_candidates().confirm(
                    h,
                    ConfirmedCandidate {
                        receipt,
                        persisted_validation_data,
                        assigned_group: before.local_validator.unwrap().group,
                    },
                )
                &&& next.requests() == self.requests().filter(
                    RequestFilter::NotOfCandidate(h).selects(),
                )
            },
            StatementWithPVD::Valid(_) => {
                &&& next.known_candidates() == self.known_candidates()
                &&& next.requests() == self.requests()
            },
        }
    }

    /// `next` and `result` are what comes of sharing a statement of our own
    /// at `relay_parent`: where it cannot be shared, nothing changes; where
    /// it can, it is taken in and then circulated within our cluster.
    pub open spec fn shared(
        &self,
        next: &State,
        relay_parent: primitives::Hash,
        statement: &SignedFullStatementWithPVD,
        result: &Result<ShareOutcome, JfyiError>,
    ) -> bool {
        match self.share_verdict(relay_parent, statement) {
            Err(e) => next.same_as(self) && *result == Err::<ShareOutcome, JfyiError>(e),
            Ok(false) => next.same_as(self) && result.is_ok() && result.unwrap().reckoning.is_none()
                && result.unwrap().messages@.len() == 0,
            Ok(true) => {
                &&& result.is_ok()
                &&& exists|middle: State|
                    {
                        &&& #[trigger] self.took_local_statement(&middle, relay_parent, statement)
                        &&& middle.sent_direct(
                            next,
                            relay_parent,
                            statement.compact(),
                            outbound_views(result.unwrap().messages@),
                        )
                    }
                &&& match statement.payload {
                    StatementWithPVD::Seconded(h, _, _) => {
                        let group = self.relay_parents()[relay_parent].local_validator.unwrap().group;
                        &&& result.unwrap().reckoning.is_none()
                            == self.known_candidates().confirmed.dom().contains(h)
                        &&& result.unwrap().reckoning matches Some(reckoning) ==> reckoning.correct@
                            == self.known_candidates().correct_advertisers(h, group)
                            && reckoning.incorrect@ == self.known_candidates().incorrect_advertisers(
                            h,
                            group,
                        )
                    },
                    StatementWithPVD::Valid(_) => result.unwrap().reckoning.is_none(),
                }
            },
        }
    }

    /// Takes in a statement of our own and circulates it within our
    /// cluster. The statement must be one that we can make at the
    /// relay-parent; otherwise nothing changes and the answer is
    /// `InvalidShare`.
    pub fn share_local_statement(
        &mut self,
        relay_parent: primitives::Hash,
        statement: SignedFullStatementWithPVD,
    ) -> (result: Result<ShareOutcome, JfyiError>)
        requires
            old(self).wf(),
        ensures
            final(self).wf(),
            old(self).shared(final(self), relay_parent, &statement, &result),
            result matches Ok(outcome) ==> forall|i: int, j: int|
                0 <= i < outcome.messages@.len() && 0 <= j < outcome.messages@[i].to@.len() ==> old(
                    self,
                ).peer_table().peer_knows(#[trigger] outcome.messages@[i].to@[j], relay_parent),
    {
        let compact = statement.signed_to_compact();
        {
            let per_relay_parent = match self.per_relay_parent.get(&relay_parent) {
                None => {
                    return Err(JfyiError::InvalidShare);
                },
                Some(p) => p,
            };
            let per_session = match self.per_session.get(&per_relay_parent.session) {
                None => {
                    return Ok(ShareOutcome { reckoning: None, messages: Vec::new() });
                },
                Some(s) => s,
            };
            let local = match &per_relay_parent.local_validator {
                None => {
                    return Err(JfyiError::InvalidShare);
                },
                Some(l) => l,
            };
            let expected = match &statement.payload {
                StatementWithPVD::Seconded(_, receipt, _) => Some(
                    (receipt.para_id, receipt.relay_parent),
                ),
                StatementWithPVD::Valid(h) => match self.candidates.get_confirmed(h) {
                    Some(c) => Some((c.para_id(), c.relay_parent())),
                    None => None,
                },
            };
            let (expected_para, expected_relay_parent) = match expected {
                None => {
                    return Err(JfyiError::InvalidShare);
                },
                Some(x) => x,
            };
            if !local.index.same(&statement.validator_index) {
                return Err(JfyiError::InvalidShare);
            }
            let assigned = match local.assignment {
                Some(para) => para.same(&expected_para),
                None => false,
            };
            if !assigned || !relay_parent.same(&expected_relay_parent) {
                return Err(JfyiError::InvalidShare);
            }
            proof {
                assert(old(self).per_session@.dom().contains(per_relay_parent.session));
                per_session.lemma_wf_groups();
            }
            if !per_relay_parent.would_take(per_session.groups(), compact) {
                return Err(JfyiError::InvalidShare);
            }
        }
        let mut per_relay_parent = match self.per_relay_parent.remove(&relay_parent) {
            Some(p) => p,
            None => {
                return Err(JfyiError::InvalidShare);
            },
        };
        let ghost before = per_relay_parent;
        let local_group = match &per_relay_parent.local_validator {
            Some(l) => l.group,
            None => GroupIndex(0),
        };
        match self.per_session.get(&per_relay_parent.session) {
            Some(per_session) => {
                proof {
                    per_session.lemma_wf_groups();
                }
                let _ = per_relay_parent.statement_store.insert(per_session.groups(), compact);
            },
            None => {},
        }
        self.per_relay_parent.insert(relay_parent, per_relay_parent);
        let reckoning = match statement.payload {
            StatementWithPVD::Seconded(h, receipt, persisted_validation_data) => {
                let reckoning = self.candidates.confirm_candidate(
                    h,
                    receipt,
                    persisted_validation_data,
                    local_group,
                );
                self.request_manager.remove_for(h);
                reckoning
            },
            StatementWithPVD::Valid(_) => None,
        };
        let ghost middle = *self;
        proof {
            assert(self.per_relay_parent@.dom() =~= old(self).per_relay_parent@.dom());
            assert(old(self).took_local_statement(&middle, relay_parent, &statement));
        }
        let messages = self.send_statement_direct(relay_parent, compact);
        Ok(ShareOutcome { reckoning, messages })
    }

    /// A candidate's receipt and validation data have come to hand: the
    /// candidate is confirmed as one of `assigned_group`, and nothing is to
    /// be fetched for it any more. What comes back is the reckoning with the
    /// peers that had advertised it, and nothing where the candidate was
    /// confirmed before.
    pub fn confirm_candidate(
        &mut self,
        candidate_hash: CandidateHash,
        candidate_receipt: crate::candidates::CommittedCandidateReceipt,
        persisted_validation_data: crate::candidates::PersistedValidationData,
        assigned_group: GroupIndex,
    ) -> (r: Option<PostConfirmationReckoning>)
        requires
            old(self).wf(),
        ensures
            final(self).wf(),
            final(self).leaves() == old(self).leaves(),
            final(self).relay_parents() == old(self).relay_parents(),
            final(self).sessions() == old(self).sessions(),
            final(self).peer_table() == old(self).peer_table(),
            r.is_none() == old(self).known_candidates().confirmed.dom().contains(candidate_hash),
            final(self).known_candidates() == old(self).known_candidates().confirm(
                candidate_hash,
                ConfirmedCandidate {
                    receipt: candidate_receipt,
                    persisted_validation_data,
                    assigned_group,
                },
            ),
            final(self).requests() == old(self).requests().filter(
                RequestFilter::NotOfCandidate(candidate_hash).selects(),
            ),
            r matches Some(reckoning) ==> reckoning.correct@ == old(
                self,
            ).known_candidates().correct_advertisers(candidate_hash, assigned_group)
                && reckoning.incorrect@ == old(self).known_candidates().incorrect_advertisers(
                candidate_hash,
                assigned_group,
            ),
    {
        let reckoning = self.candidates.confirm_candidate(
            candidate_hash,
            candidate_receipt,
            persisted_validation_data,
            assigned_group,
        );
        self.request_manager.remove_for(candidate_hash);
        reckoning
    }

    /// `next` is this state with a changed table of peers and nothing else
    /// changed.
    pub open spec fn same_but_peers(&self, next: &State) -> bool {
        &&& next.leaves() == self.leaves()
        &&& next.relay_parents() == self.relay_parents()
        &&& next.sessions() == self.sessions()
        &&& next.known_candidates() == self.known_candidates()
        &&& next.requests() == self.requests()
    }

    /// `next` and `outcome` are what comes of an event from the network.
    ///
    /// A peer that connects with the served protocol version gets the
    /// authority identities that are free, and one that speaks another
    /// version is passed over. A peer that disconnects frees its
    /// identities. A gossip topology is installed where its session is
    /// known. A statement is taken in as [`State::received`] says, with the
    /// verdict of the signature check. A new view of a peer replaces the
    /// old one, and what the peer is taken to know is worked out from it.
    pub open spec fn network_updated(
        &self,
        next: &State,
        update: &NetworkBridgeEvent,
        outcome: NetworkUpdateOutcome,
    ) -> bool {
        match *update {
            NetworkBridgeEvent::PeerConnected(peer, version, authority_ids) => if version
                != VSTAGING_VERSION {
                next.same_as(self) && outcome == NetworkUpdateOutcome::Done
            } else {
                &&& outcome == NetworkUpdateOutcome::Done
                &&& self.same_but_peers(next)
                &&& next.peer_table().authorities() == (match authority_ids {
                    Some(ids) => crate::peers::claim_authorities(
                        self.peer_table().authorities(),
                        peer,
                        ids@,
                    ).0,
                    None => self.peer_table().authorities(),
                })
                &&& next.peer_table().peers() == self.peer_table().peers().insert(
                    peer,
                    PeerStateView::connected(
                        match authority_ids {
                            Some(ids) => Some(
                                crate::peers::claim_authorities(
                                    self.peer_table().authorities(),
                                    peer,
                                    ids@,
                                ).1,
                            ),
                            None => None,
                        },
                    ),
                )
            },
            NetworkBridgeEvent::PeerDisconnected(peer) => {
                &&& outcome == NetworkUpdateOutcome::Done
                &&& self.same_but_peers(next)
                &&& next.peer_table().peers() == self.peer_table().peers().remove(peer)
                &&& next.peer_table().authorities() == (if self.peer_table().peers().dom().contains(
                    peer,
                ) && self.peer_table().peers()[peer].discovery_ids is Some {
                    crate::peers::release_authorities(
                        self.peer_table().authorities(),
                        self.peer_table().peers()[peer].discovery_ids.unwrap(),
                    )
                } else {
                    self.peer_table().authorities()
                })
            },
            NetworkBridgeEvent::NewGossipTopology(session, topology) => if !self.sessions().dom().contains(
                session,
            ) {
                next.same_as(self) && outcome == NetworkUpdateOutcome::Done
            } else {
                &&& outcome == NetworkUpdateOutcome::Done
                &&& next.leaves() == self.leaves()
                &&& next.relay_parents() == self.relay_parents()
                &&& next.peer_table().peers() == self.peer_table().peers()
                &&& next.peer_table().authorities() == self.peer_table().authorities()
                &&& next.known_candidates() == self.known_candidates()
                &&& next.requests() == self.requests()
                &&& next.sessions().dom() == self.sessions().dom()
                &&& forall|s: SessionIndex|
                    s != session && self.sessions().dom().contains(s) ==> #[trigger] next.sessions()[s]
                        == self.sessions()[s]
                &&& next.sessions()[session].spec_grid_view() == Some(topology@)
                &&& next.sessions()[session].spec_validators()
                    == self.sessions()[session].spec_validators()
                &&& next.sessions()[session].spec_discovery_keys()
                    == self.sessions()[session].spec_discovery_keys()
                &&& next.sessions()[session].spec_groups() == self.sessions()[session].spec_groups()
                &&& next.sessions()[session].spec_local_validator()
                    == self.sessions()[session].spec_local_validator()
            },
            NetworkBridgeEvent::PeerMessage(peer, message) => match message {
                StatementDistributionMessage::V1 => next.same_as(self) && outcome
                    == NetworkUpdateOutcome::Done,
                StatementDistributionMessage::VStaging(VStagingMessage::V1Compatibility) => next.same_as(
                    self,
                ) && outcome == NetworkUpdateOutcome::Done,
                StatementDistributionMessage::VStaging(
                    VStagingMessage::Statement(relay_parent, statement),
                ) => exists|o: IncomingStatementOutcome|
                    outcome == NetworkUpdateOutcome::Statement(o) && #[trigger] self.received(
                        next,
                        peer,
                        relay_parent,
                        statement,
                        self.signature_verdict(relay_parent, statement),
                        o,
                    ),
                StatementDistributionMessage::VStaging(
                    VStagingMessage::BackedCandidateManifest(_),
                ) => next.same_as(self) && outcome == NetworkUpdateOutcome::ForGrid,
                StatementDistributionMessage::VStaging(
                    VStagingMessage::BackedCandidateKnown(_, _),
                ) => next.same_as(self) && outcome == NetworkUpdateOutcome::ForGrid,
            },
            NetworkBridgeEvent::PeerViewChange(peer, view) => {
                &&& outcome == NetworkUpdateOutcome::Done
                &&& self.same_but_peers(next)
                &&& next.peer_table().authorities() == self.peer_table().authorities()
                &&& next.peer_table().peers() == (if self.peer_table().peers().dom().contains(peer) {
                    self.peer_table().peers().insert(
                        peer,
                        PeerStateView {
                            view: view@,
                            implicit_view: crate::peers::derived_implicit_view(self.leaves(), view@),
                            discovery_ids: self.peer_table().peers()[peer].discovery_ids,
                        },
                    )
                } else {
                    self.peer_table().peers()
                })
            },
            NetworkBridgeEvent::OurViewChange(_) => next.same_as(self) && outcome
                == NetworkUpdateOutcome::Done,
        }
    }

    /// Takes in an event from the network.
    pub fn handle_network_update(&mut self, update: NetworkBridgeEvent) -> (outcome:
        NetworkUpdateOutcome)
        requires
            old(self).wf(),
        ensures
            final(self).wf(),
            old(self).network_updated(final(self), &update, outcome),
    {
        match update {
            NetworkBridgeEvent::PeerConnected(peer, version, authority_ids) => {
                if version != VSTAGING_VERSION {
                    return NetworkUpdateOutcome::Done;
                }
                self.peers.connect(peer, authority_ids);
                NetworkUpdateOutcome::Done
            },
            NetworkBridgeEvent::PeerDisconnected(peer) => {
                self.peers.disconnect(peer);
                NetworkUpdateOutcome::Done
            },
            NetworkBridgeEvent::NewGossipTopology(session, topology) => {
                match self.per_session.remove(&session) {
                    Some(per_session) => {
                        let mut per_session = per_session;
                        per_session.supply_topology(topology);
                        self.per_session.insert(session, per_session);
                        assert(self.per_session@.dom() =~= old(self).per_session@.dom());
                    },
                    None => {
                        assert(self.per_session@ =~= old(self).per_session@);
                    },
                }
                NetworkUpdateOutcome::Done
            },
            NetworkBridgeEvent::PeerMessage(peer, message) => match message {
                StatementDistributionMessage::V1 => NetworkUpdateOutcome::Done,
                StatementDistributionMessage::VStaging(VStagingMessage::V1Compatibility) => {
                    NetworkUpdateOutcome::Done
                },
                StatementDistributionMessage::VStaging(
                    VStagingMessage::Statement(relay_parent, statement),
                ) => {
                    let o = self.handle_incoming_statement(peer, relay_parent, statement);
                    NetworkUpdateOutcome::Statement(o)
                },
                StatementDistributionMessage::VStaging(
                    VStagingMessage::BackedCandidateManifest(_),
                ) => NetworkUpdateOutcome::ForGrid,
                StatementDistributionMessage::VStaging(
                    VStagingMessage::BackedCandidateKnown(_, _),
                ) => NetworkUpdateOutcome::ForGrid,
            },
            NetworkBridgeEvent::PeerViewChange(peer, view) => {
                self.peers.update_view(peer, view, &self.implicit_view);
                NetworkUpdateOutcome::Done
            },
            NetworkBridgeEvent::OurViewChange(_) => NetworkUpdateOutcome::Done,
        }
    }

    /// Whether a relay-parent is allowed under some active leaf.
    pub open spec fn allows(&self, relay_parent: primitives::Hash) -> bool {
        exists|leaf: primitives::Hash| #[trigger]
            self.leaves().dom().contains(leaf) && self.leaves()[leaf].contains(relay_parent)
    }

    /// The relay-parents that are allowed under some active leaf.
    pub open spec fn allowed(&self) -> Set<primitives::Hash> {
        Set::new(|relay_parent: primitives::Hash| self.allows(relay_parent))
    }

    /// What is allowed depends on the active leaves alone.
    pub proof fn lemma_allowed_by_leaves(&self, other: &State)
        requires
            self.leaves() == other.leaves(),
        ensures
            self.allowed() == other.allowed(),
    {
        assert forall|x: primitives::Hash| self.allows(x) <==> other.allows(x) by {
            if self.allows(x) {
                let leaf = choose|leaf: primitives::Hash| #[trigger]
                    self.leaves().dom().contains(leaf) && self.leaves()[leaf].contains(x);
                assert(other.leaves().dom().contains(leaf) && other.leaves()[leaf].contains(x));
            }
            if other.allows(x) {
                let leaf = choose|leaf: primitives::Hash| #[trigger]
                    other.leaves().dom().contains(leaf) && other.leaves()[leaf].contains(x);
                assert(self.leaves().dom().contains(leaf) && self.leaves()[leaf].contains(x));
            }
        }
        assert(self.allowed() =~= other.allowed());
    }

    /// The state allows what its implicit view allows.
    proof fn lemma_allows(&self)
        ensures
            forall|relay_parent: primitives::Hash|
                self.implicit_view.allows(relay_parent) <==> #[trigger] self.allows(relay_parent),
    {
        assert forall|relay_parent: primitives::Hash|
            self.implicit_view.allows(relay_parent) <==> #[trigger] self.allows(relay_parent) by {
            if self.implicit_view.allows(relay_parent) {
                let leaf = choose|leaf: primitives::Hash| #[trigger]
                    self.implicit_view@.dom().contains(leaf) && self.implicit_view@[leaf].contains(
                        relay_parent,
                    );
                assert(self.leaves().dom().contains(leaf) && self.leaves()[leaf].contains(
                    relay_parent,
                ));
            }
            if self.allows(relay_parent) {
                let leaf = choose|leaf: primitives::Hash| #[trigger]
                    self.leaves().dom().contains(leaf) && self.leaves()[leaf].contains(relay_parent);
                assert(self.implicit_view@.dom().contains(leaf) && self.implicit_view@[leaf].contains(
                    relay_parent,
                ));
            }
        }
    }

    /// A leaf has been activated, and `allowed_ancestry` are the ancestors
    /// of it that may still be built on. The leaf is activated in the
    /// implicit view. What comes back are the allowed relay-parents for
    /// which nothing is kept yet, each once: for each of them the session
    /// and the availability cores are to be had, and
    /// [`State::note_relay_parent`] is to be called.
    pub fn handle_activated_leaf(
        &mut self,
        leaf: primitives::Hash,
        allowed_ancestry: Vec<primitives::Hash>,
    ) -> (fresh: Vec<primitives::Hash>)
        requires
            old(self).wf(),
        ensures
            final(self).wf(),
            final(self).leaves() == (if old(self).leaves().dom().contains(leaf) {
                old(self).leaves()
            } else {
                old(self).leaves().insert(
                    leaf,
                    crate::implicit_view::allowed_under(leaf, allowed_ancestry@),
                )
            }),
            final(self).relay_parents() == old(self).relay_parents(),
            final(self).sessions() == old(self).sessions(),
            final(self).peer_table() == old(self).peer_table(),
            final(self).known_candidates() == old(self).known_candidates(),
            final(self).requests() == old(self).requests(),
            fresh@.no_duplicates(),
            forall|relay_parent: primitives::Hash|
                fresh@.contains(relay_parent) <==> final(self).allows(relay_parent)
                    && !final(self).relay_parents().dom().contains(relay_parent),
    {
        self.implicit_view.activate_leaf(leaf, allowed_ancestry);
        let all = self.implicit_view.all_allowed_relay_parents();
        let mut fresh: Vec<primitives::Hash> = Vec::new();
        let mut i: usize = 0;
        while i < all.len()
            invariant
                i <= all.len(),
                self.per_relay_parent.wf(),
                all@.no_duplicates(),
                fresh@.no_duplicates(),
                forall|x: primitives::Hash| #[trigger]
                    fresh@.contains(x) <==> all@.take(i as int).contains(x)
                        && !self.per_relay_parent@.dom().contains(x),
            decreases all.len() - i,
        {
            let x = all[i];
            let ghost before = fresh@;
            let kept_already = self.per_relay_parent.contains_key(&x);
            if !kept_already {
                fresh.push(x);
            }
            i += 1;
            proof {
                let done = all@.take(i - 1);
                let next = all@.take(i as int);
                all@.lemma_take_succ_push(i - 1);
                assert(next[i - 1] == x);
                assert forall|y: primitives::Hash| #[trigger]
                    fresh@.contains(y) <==> next.contains(y)
                        && !self.per_relay_parent@.dom().contains(y) by {
                    assert(before.contains(y) <==> done.contains(y)
                        && !self.per_relay_parent@.dom().contains(y));
                    if done.contains(y) {
                        let k = choose|k: int| 0 <= k < done.len() && done[k] == y;
                        assert(next[k] == y);
                    }
                    if next.contains(y) {
                        let k = choose|k: int| 0 <= k < next.len() && next[k] == y;
                        if k < i - 1 {
                            assert(done[k] == y);
                        }
                    }
                    if before.contains(y) {
                        let k = choose|k: int| 0 <= k < before.len() && before[k] == y;
                        assert(fresh@[k] == y);
                    }
                    if fresh@.contains(y) {
                        let k = choose|k: int| 0 <= k < fresh@.len() && fresh@[k] == y;
                        if k < before.len() {
                            assert(before[k] == y);
                        }
                    }
                    if !kept_already {
                        assert(fresh@[before.len() as int] == x);
                    }
                }
                if !kept_already {
                    assert(!before.contains(x)) by {
                        if done.contains(x) {
                            let k = choose|k: int| 0 <= k < done.len() && done[k] == x;
                            assert(all@[k] == all@[i - 1]);
                        }
                    }
                }
            }
        }
        proof {
            assert(all@.take(all@.len() as int) =~= all@);
            self.lemma_allows();
        }
        fresh
    }

    /// Whether a session is known.
    pub fn knows_session(&self, session: SessionIndex) -> (r: bool)
        requires
            self.wf(),
        ensures
            r == self.sessions().dom().contains(session),
    {
        self.per_session.contains_key(&session)
    }

    /// Takes in what the chain says of a session, unless the session is
    /// known already. `local_validator` is our own index among the
    /// session's validators, where one of their keys is ours.
    pub fn note_session(
        &mut self,
        session: SessionIndex,
        session_info: SessionInfo,
        local_validator: Option<ValidatorIndex>,
    )
        requires
            old(self).wf(),
            session_info.validator_groups@.len() <= u32::MAX,
            session_info.discovery_keys@.len() <= u32::MAX,
        ensures
            final(self).wf(),
            final(self).leaves() == old(self).leaves(),
            final(self).relay_parents() == old(self).relay_parents(),
            final(self).peer_table() == old(self).peer_table(),
            final(self).known_candidates() == old(self).known_candidates(),
            final(self).requests() == old(self).requests(),
            old(self).sessions().dom().contains(session) ==> final(self).sessions() == old(self).sessions(),
            !old(self).sessions().dom().contains(session) ==> {
                &&& final(self).sessions().dom() == old(self).sessions().dom().insert(session)
                &&& forall|s: SessionIndex|
                    old(self).sessions().dom().contains(s) ==> #[trigger] final(self).sessions()[s]
                        == old(self).sessions()[s]
                &&& final(self).sessions()[session].spec_validators() == session_info.validators@
                &&& final(self).sessions()[session].spec_discovery_keys()
                    == session_info.discovery_keys@
                &&& final(self).sessions()[session].spec_groups()@ == crate::groups::groups_view(
                    session_info.validator_groups@,
                )
                &&& final(self).sessions()[session].spec_groups().spec_validator_count()
                    == session_info.discovery_keys@.len()
                &&& final(self).sessions()[session].spec_local_validator() == local_validator
                &&& final(self).sessions()[session].spec_grid_view().is_none()
            },
    {
        if self.per_session.contains_key(&session) {
            return ;
        }
        let per_session = PerSessionState::new(session_info, local_validator);
        self.per_session.insert(session, per_session);
        assert(self.per_session@.dom() =~= old(self).per_session@.dom().insert(session));
    }

    /// Begins to keep state for a relay-parent of a session, with the
    /// availability cores as they stand at it and with the limit on
    /// `Seconded` statements of one validator within the cluster. Nothing is
    /// done, and the answer is `false`, where state is kept for the
    /// relay-parent already or the session is not known.
    pub fn note_relay_parent(
        &mut self,
        relay_parent: primitives::Hash,
        session: SessionIndex,
        availability_cores: &Vec<CoreState>,
        seconding_limit: usize,
    ) -> (done: bool)
        requires
            old(self).wf(),
        ensures
            final(self).wf(),
            done == (!old(self).relay_parents().dom().contains(relay_parent) && old(
                self,
            ).sessions().dom().contains(session)),
            final(self).leaves() == old(self).leaves(),
            final(self).sessions() == old(self).sessions(),
            final(self).peer_table() == old(self).peer_table(),
            final(self).known_candidates() == old(self).known_candidates(),
            final(self).requests() == old(self).requests(),
            !done ==> final(self).relay_parents() == old(self).relay_parents(),
            done ==> {
                let per_session = old(self).sessions()[session];
                let role = match per_session.spec_local_validator() {
                    Some(v) => crate::relay_parent::local_role(
                        v,
                        per_session.spec_validators(),
                        per_session.spec_groups()@,
                    ),
                    None => None,
                };
                let after = final(self).relay_parents()[relay_parent];
                &&& final(self).relay_parents().dom() == old(self).relay_parents().dom().insert(
                    relay_parent,
                )
                &&& forall|rp: primitives::Hash|
                    old(self).relay_parents().dom().contains(rp)
                        ==> #[trigger] final(self).relay_parents()[rp] == old(
                        self,
                    ).relay_parents()[rp]
                &&& after.session == session
                &&& after.statement_store@.statements == Seq::<SignedStatement>::empty()
                &&& after.local_validator.is_some() == role.is_some()
                &&& after.local_validator matches Some(l) ==> {
                    &&& Some(l.index) == per_session.spec_local_validator()
                    &&& Some(l.group) == role
                    &&& l.assignment == crate::relay_parent::assignment_of(
                        availability_cores@,
                        l.group,
                    )
                    &&& l.cluster_tracker@ == crate::cluster::ClusterView::empty(
                        l.index,
                        per_session.spec_groups()@[l.group.0 as int],
                        seconding_limit as nat,
                    )
                }
            },
    {
        if self.per_relay_parent.contains_key(&relay_parent) {
            return false;
        }
        let per_session = match self.per_session.get(&session) {
            Some(s) => s,
            None => {
                return false;
            },
        };
        proof {
            per_session.lemma_wf_groups();
        }
        let local_validator = match per_session.local_validator() {
            Some(v) => find_local_validator_state(
                v,
                per_session.validators(),
                per_session.groups(),
                availability_cores,
                seconding_limit,
            ),
            None => None,
        };
        let state = PerRelayParentState::new(session, local_validator);
        self.per_relay_parent.insert(relay_parent, state);
        assert(self.per_relay_parent@.dom() =~= old(self).per_relay_parent@.dom().insert(
            relay_parent,
        ));
        true
    }

    /// The sessions that some relay-parent belongs to.
    pub open spec fn referenced_sessions(&self) -> Set<SessionIndex> {
        Set::new(
            |s: SessionIndex|
                exists|rp: primitives::Hash| #[trigger]
                    self.relay_parents().dom().contains(rp) && self.relay_parents()[rp].session == s,
        )
    }

    /// A leaf has been deactivated. It leaves the implicit view; what is
    /// kept for relay-parents that are no longer allowed is dropped, with
    /// the candidates and the requests at them, and so are the sessions that
    /// no relay-parent belongs to any more.
    pub fn handle_deactivate_leaf(&mut self, leaf: primitives::Hash)
        requires
            old(self).wf(),
        ensures
            final(self).wf(),
            final(self).leaves() == old(self).leaves().remove(leaf),
            final(self).relay_parents() == old(self).relay_parents().restrict(final(self).allowed()),
            final(self).sessions() == old(self).sessions().restrict(
                final(self).referenced_sessions(),
            ),
            final(self).peer_table() == old(self).peer_table(),
            final(self).known_candidates() == old(self).known_candidates().retain(
                final(self).allowed(),
            ),
            final(self).requests() == old(self).requests().filter(
                crate::requests::at_relay_parents(final(self).allowed()),
            ),
    {
        self.implicit_view.deactivate_leaf(leaf);
        let keep = self.implicit_view.all_allowed_relay_parents();
        proof {
            self.lemma_allows();
            assert forall|x: primitives::Hash| keep@.to_set().contains(x) <==> self.allowed().contains(
                x,
            ) by {
                assert(self.implicit_view.allows(x) <==> self.allows(x));
            }
            assert(keep@.to_set() =~= self.allowed());
        }
        let ghost allowed = self.allowed();
        let ghost deactivated = *self;
        self.per_relay_parent.retain_in(&keep);
        self.candidates.retain_relay_parents(&keep);
        let filter = RequestFilter::AtRelayParents(keep);
        self.request_manager.retain(&filter);
        proof {
            self.lemma_allowed_by_leaves(&deactivated);
            let by_list = filter.selects();
            let by_set = crate::requests::at_relay_parents(allowed);
            assert forall|i: int| 0 <= i < old(self).requests().len() implies by_list(
                #[trigger] old(self).requests()[i],
            ) == by_set(old(self).requests()[i]) by {
                let rp = old(self).requests()[i].0.relay_parent;
                assert(filter.keeps(old(self).requests()[i].0) == allowed.contains(rp));
            }
            crate::lists::lemma_filter_agree(old(self).requests(), by_list, by_set);
        }
        let mut sessions: Vec<SessionIndex> = Vec::new();
        let mut i: usize = 0;
        proof {
            self.per_relay_parent.lemma_positions();
        }
        while i < self.per_relay_parent.len()
            invariant
                i <= self.per_relay_parent.spec_len(),
                self.per_relay_parent.wf(),
                forall|s: SessionIndex| #[trigger]
                    sessions@.contains(s) <==> exists|p: int|
                        0 <= p < i && (#[trigger] self.per_relay_parent.spec_value_at(p)).session
                            == s,
            decreases self.per_relay_parent.spec_len() - i,
        {
            let ghost before = sessions@;
            let s = self.per_relay_parent.value_at(i).session;
            sessions.push(s);
            i += 1;
            proof {
                assert forall|x: SessionIndex| #[trigger]
                    sessions@.contains(x) <==> exists|p: int|
                        0 <= p < i && (#[trigger] self.per_relay_parent.spec_value_at(p)).session
                            == x by {
                    assert(before.contains(x) <==> exists|p: int|
                        0 <= p < i - 1 && (#[trigger] self.per_relay_parent.spec_value_at(
                            p,
                        )).session == x);
                    assert(sessions@[before.len() as int] == s);
                    if before.contains(x) {
                        let k = choose|k: int| 0 <= k < before.len() && before[k] == x;
                        assert(sessions@[k] == x);
                    }
                    if sessions@.contains(x) {
                        let k = choose|k: int| 0 <= k < sessions@.len() && sessions@[k] == x;
                        if k < before.len() {
                            assert(before[k] == x);
                        } else {
                            assert(self.per_relay_parent.spec_value_at(i - 1).session == x);
                        }
                    }
                }
            }
        }
        proof {
            self.per_relay_parent.lemma_positions();
            assert(sessions@.to_set() =~= self.referenced_sessions()) by {
                assert forall|s: SessionIndex|
                    sessions@.to_set().contains(s) <==> self.referenced_sessions().contains(s) by {
                    if sessions@.contains(s) {
                        let p = choose|p: int|
                            0 <= p < i && (#[trigger] self.per_relay_parent.spec_value_at(p)).session
                                == s;
                        let rp = self.per_relay_parent.spec_key_at(p);
                        assert(self.per_relay_parent@.dom().contains(rp));
                        assert(self.relay_parents().dom().contains(rp) && self.relay_parents()[rp].session
                            == s);
                    }
                    if self.referenced_sessions().contains(s) {
                        let rp = choose|rp: primitives::Hash| #[trigger]
                            self.relay_parents().dom().contains(rp) && self.relay_parents()[rp].session
                                == s;
                        let p = choose|p: int|
                            0 <= p < self.per_relay_parent.spec_len()
                                && self.per_relay_parent.spec_key_at(p) == rp;
                        assert(self.per_relay_parent@[self.per_relay_parent.spec_key_at(p)]
                            == self.per_relay_parent.spec_value_at(p));
                        assert(self.per_relay_parent.spec_value_at(p).session == s);
                    }
                }
            }
        }
        self.per_session.retain_in(&sessions);
        proof {
            self.lemma_allowed_by_leaves(&deactivated);
        }
    }
}

} // verus!
