//! The state that is kept for one relay-parent, and what happens to it when
//! a statement comes in or goes out.

use crate::cluster::{ClusterTracker, ClusterView, Edge, RejectIncoming};
use crate::groups::{group_of, Groups};
use crate::peers::{PeerState, PeerStateView, PeerTable};
use crate::primitives;
use crate::primitives::{
    AuthorityDiscoveryId, CandidateHash, CompactStatement, GroupIndex, Identifier, ParaId, PeerId,
    SessionIndex, SignedStatement, UncheckedSignedStatement, ValidatorId, ValidatorIndex,
};
use crate::reputation::{Rep, COST_EXCESSIVE_SECONDED, COST_UNEXPECTED_STATEMENT};
use crate::statement_store::{StatementStore, StatementStoreError, StoreView};
use crate::lists::{contains_id, copy_ids};
use vstd::prelude::*;

verus! {

/// What an availability core is doing.
#[derive(Clone, Copy, PartialEq, Eq, Debug)]
pub enum CoreState {
    /// The core holds a candidate of a parachain.
    Occupied(ParaId),
    /// The core is free and a parachain is scheduled on it.
    Scheduled(ParaId),
    /// The core is free and nothing is scheduled on it.
    Free,
}

impl CoreState {
    /// The parachain that the core is assigned to.
    pub open spec fn spec_para_id(self) -> Option<ParaId> {
        match self {
            CoreState::Occupied(p) => Some(p),
            CoreState::Scheduled(p) => Some(p),
            CoreState::Free => None,
        }
    }

    /// The parachain that the core is assigned to.
    pub fn para_id(&self) -> (r: Option<ParaId>)
        ensures
            r == self.spec_para_id(),
    {
        match self {
            CoreState::Occupied(p) => Some(*p),
            CoreState::Scheduled(p) => Some(*p),
            CoreState::Free => None,
        }
    }
}

/// The parachain that a group is assigned to: that of the core with the
/// group's index.
pub open spec fn assignment_of(cores: Seq<CoreState>, group: GroupIndex) -> Option<ParaId> {
    if group.0 < cores.len() {
        cores[group.0 as int].spec_para_id()
    } else {
        None
    }
}

/// Our own role at a relay-parent.
pub struct LocalValidatorState {
    /// Our validator index.
    pub index: ValidatorIndex,
    /// Our group.
    pub group: GroupIndex,
    /// The parachain that our group is assigned to, if any.
    pub assignment: Option<ParaId>,
    /// The communication with the other members of our group.
    pub cluster_tracker: ClusterTracker,
}

/// What is known of a validator at a relay-parent.
#[derive(Clone, Copy, PartialEq, Eq, Debug)]
pub struct PerRelayParentValidatorState {
    /// How many `Seconded` statements of the validator are known.
    pub seconded_count: usize,
    /// The validator's group.
    pub group_id: GroupIndex,
}

/// What is kept for a relay-parent.
pub struct PerRelayParentState {
    /// Our own role, if we are a validator in a group.
    pub local_validator: Option<LocalValidatorState>,
    /// The statements seen at the relay-parent.
    pub statement_store: StatementStore,
    /// The session that the relay-parent belongs to.
    pub session: SessionIndex,
}

/// What our role at a relay-parent is, where we have one: we are a validator
/// of the session and some group lists us.
pub open spec fn local_role(
    validator_index: ValidatorIndex,
    validators: Seq<ValidatorId>,
    groups: Seq<Seq<ValidatorIndex>>,
) -> Option<GroupIndex> {
    if validator_index.0 < validators.len() {
        group_of(groups, validator_index)
    } else {
        None
    }
}

/// Works out our role at a relay-parent: our group, the parachain that the
/// group is assigned to, and a cluster tracker in which nothing has been
/// said yet. There is none where we are not a validator of the session or no
/// group lists us.
pub fn find_local_validator_state(
    validator_index: ValidatorIndex,
    validators: &Vec<ValidatorId>,
    groups: &Groups,
    availability_cores: &Vec<CoreState>,
    seconding_limit: usize,
) -> (r: Option<LocalValidatorState>)
    requires
        groups.wf(),
    ensures
        r.is_some() == local_role(validator_index, validators@, groups@).is_some(),
        r matches Some(l) ==> {
            &&& l.index == validator_index
            &&& Some(l.group) == local_role(validator_index, validators@, groups@)
            &&& l.assignment == assignment_of(availability_cores@, l.group)
            &&& l.cluster_tracker.wf()
            &&& l.cluster_tracker@ == ClusterView::empty(
                validator_index,
                groups@[l.group.0 as int],
                seconding_limit as nat,
            )
        },
{
    if groups.all().len() == 0 {
        proof {
            crate::groups::lemma_group_of_listed(groups@, validator_index);
        }
        return None;
    }
    if validator_index.0 as usize >= validators.len() {
        return None;
    }
    let our_group = match groups.by_validator_index(validator_index) {
        Some(g) => g,
        None => {
            return None;
        },
    };
    proof {
        groups.lemma_group_lists_validator(validator_index);
        assert(groups@[our_group.0 as int].contains(validator_index));
    }
    let group_validators = match groups.get(our_group) {
        Some(members) => copy_ids(members),
        None => {
            return None;
        },
    };
    let assignment = if (our_group.0 as usize) < availability_cores.len() {
        availability_cores[our_group.0 as usize].para_id()
    } else {
        None
    };
    match ClusterTracker::new(validator_index, group_validators, seconding_limit) {
        Some(cluster_tracker) => Some(
            LocalValidatorState { index: validator_index, group: our_group, assignment, cluster_tracker },
        ),
        None => None,
    }
}

/// Whether a peer bears the discovery key of a validator.
pub open spec fn speaks_for(
    discovery_keys: Seq<AuthorityDiscoveryId>,
    peer: PeerStateView,
    validator: ValidatorIndex,
) -> bool {
    validator.0 < discovery_keys.len() && peer.is_authority(discovery_keys[validator.0 as int])
}

/// The validator as whom a peer sends to us within the cluster: the first of
/// `senders` whose discovery key the peer bears.
pub open spec fn cluster_sender(
    senders: Seq<ValidatorIndex>,
    discovery_keys: Seq<AuthorityDiscoveryId>,
    peer: PeerStateView,
) -> Option<ValidatorIndex>
    decreases senders.len(),
{
    if senders.len() == 0 {
        None
    } else if speaks_for(discovery_keys, peer, senders[0]) {
        Some(senders[0])
    } else {
        cluster_sender(senders.drop_first(), discovery_keys, peer)
    }
}

/// What the checks before the signature check make of an incoming
/// statement.
#[derive(Clone, Copy, PartialEq, Eq, Debug)]
pub enum IncomingScreening {
    /// The statement is dropped and nothing is said of it.
    Ignore,
    /// The statement is dropped and the peer is reported.
    Report(Rep),
    /// The statement may be taken if its signature is good. It comes from
    /// the peer as this member of the cluster.
    Pass(ValidatorIndex),
}

/// What becomes of a statement whose signature is good.
#[derive(Clone, Copy, PartialEq, Eq, Debug)]
pub enum ImportOutcome {
    /// The statement is dropped and nothing is said of it.
    Ignore,
    /// The statement is dropped and the peer is reported.
    Report(Rep),
    /// The statement was taken. `fresh` says whether the store did not have
    /// it yet, and `group` is the group of its author.
    Imported { fresh: bool, group: GroupIndex },
}

/// The signed `Seconded` statement about a candidate that can be sent ahead
/// of a `Valid` one: that of the cluster's sendable seconder, where the
/// store has it.
pub open spec fn sendable_seconded(
    tracker: ClusterView,
    store: StoreView,
    candidate: CandidateHash,
) -> Option<SignedStatement> {
    match tracker.sendable_seconder(candidate) {
        Some(v) => store.get(v, CompactStatement::Seconded(candidate)),
        None => None,
    }
}

/// The signed `Seconded` statement about a candidate that can be sent ahead
/// of a `Valid` one.
pub fn cluster_sendable_seconded_statement(
    cluster_tracker: &ClusterTracker,
    statement_store: &StatementStore,
    candidate_hash: CandidateHash,
) -> (r: Option<SignedStatement>)
    requires
        statement_store.wf(),
    ensures
        r == sendable_seconded(cluster_tracker@, statement_store@, candidate_hash),
        r matches Some(s) ==> s.statement() == CompactStatement::Seconded(candidate_hash),
{
    match cluster_tracker.sendable_seconder(candidate_hash) {
        Some(v) => statement_store.validator_statement(v, CompactStatement::Seconded(candidate_hash)),
        None => None,
    }
}

/// The peer to which statements for a validator go at a relay-parent: the
/// one that bears the validator's discovery key, where it is connected and
/// taken to know the relay-parent.
pub open spec fn target_peer(
    discovery_keys: Seq<AuthorityDiscoveryId>,
    peers: &PeerTable,
    relay_parent: primitives::Hash,
    validator: ValidatorIndex,
) -> Option<PeerId> {
    if validator.0 < discovery_keys.len() && peers.authorities().dom().contains(
        discovery_keys[validator.0 as int],
    ) && peers.peer_knows(peers.authorities()[discovery_keys[validator.0 as int]], relay_parent) {
        Some(peers.authorities()[discovery_keys[validator.0 as int]])
    } else {
        None
    }
}

/// The members of the cluster other than `local` that can be reached at a
/// relay-parent, each with its peer, in the cluster's order.
pub open spec fn eligible_targets(
    validators: Seq<ValidatorIndex>,
    local: ValidatorIndex,
    discovery_keys: Seq<AuthorityDiscoveryId>,
    peers: &PeerTable,
    relay_parent: primitives::Hash,
) -> Seq<(ValidatorIndex, PeerId)>
    decreases validators.len(),
{
    if validators.len() == 0 {
        Seq::empty()
    } else {
        let rest = eligible_targets(
            validators.drop_last(),
            local,
            discovery_keys,
            peers,
            relay_parent,
        );
        let v = validators.last();
        if v != local && target_peer(discovery_keys, peers, relay_parent, v).is_some() {
            rest.push((v, target_peer(discovery_keys, peers, relay_parent, v).unwrap()))
        } else {
            rest
        }
    }
}

/// Every eligible target is a member of the cluster other than `local`, and
/// its peer is connected and taken to know the relay-parent.
pub proof fn lemma_eligible_targets_know(
    validators: Seq<ValidatorIndex>,
    local: ValidatorIndex,
    discovery_keys: Seq<AuthorityDiscoveryId>,
    peers: &PeerTable,
    relay_parent: primitives::Hash,
    i: int,
)
    requires
        0 <= i < eligible_targets(validators, local, discovery_keys, peers, relay_parent).len(),
    ensures
        ({
            let t = eligible_targets(validators, local, discovery_keys, peers, relay_parent)[i];
            &&& t.0 != local
            &&& validators.contains(t.0)
            &&& target_peer(discovery_keys, peers, relay_parent, t.0) == Some(t.1)
            &&& peers.peer_knows(t.1, relay_parent)
        }),
    decreases validators.len(),
{
    if validators.len() > 0 {
        let rest = eligible_targets(
            validators.drop_last(),
            local,
            discovery_keys,
            peers,
            relay_parent,
        );
        if i < rest.len() {
            lemma_eligible_targets_know(
                validators.drop_last(),
                local,
                discovery_keys,
                peers,
                relay_parent,
                i,
            );
            let t = rest[i];
            let k = choose|k: int|
                0 <= k < validators.drop_last().len() && validators.drop_last()[k] == t.0;
            assert(validators[k] == t.0);
        } else {
            assert(validators[validators.len() - 1] == validators.last());
        }
    }
}

/// The validators that the grid proposes and that are targets of their own:
/// each once, in the order in which they are proposed, leaving out
/// ourselves, the members of the cluster, which are targets as such, and
/// those that cannot be reached at the relay-parent. Each comes with its
/// peer.
pub open spec fn eligible_grid_targets(
    proposed: Seq<ValidatorIndex>,
    cluster: Seq<ValidatorIndex>,
    local: ValidatorIndex,
    discovery_keys: Seq<AuthorityDiscoveryId>,
    peers: &PeerTable,
    relay_parent: primitives::Hash,
) -> Seq<(ValidatorIndex, PeerId)>
    decreases proposed.len(),
{
    if proposed.len() == 0 {
        Seq::empty()
    } else {
        let rest = eligible_grid_targets(
            proposed.drop_last(),
            cluster,
            local,
            discovery_keys,
            peers,
            relay_parent,
        );
        let v = proposed.last();
        if v != local && !cluster.contains(v) && !proposed.drop_last().contains(v) && target_peer(
            discovery_keys,
            peers,
            relay_parent,
            v,
        ).is_some() {
            rest.push((v, target_peer(discovery_keys, peers, relay_parent, v).unwrap()))
        } else {
            rest
        }
    }
}

/// Every grid target was proposed, is neither ourselves nor a member of the
/// cluster, occurs once, and has a peer that is connected and taken to know
/// the relay-parent.
pub proof fn lemma_grid_targets_know(
    proposed: Seq<ValidatorIndex>,
    cluster: Seq<ValidatorIndex>,
    local: ValidatorIndex,
    discovery_keys: Seq<AuthorityDiscoveryId>,
    peers: &PeerTable,
    relay_parent: primitives::Hash,
    i: int,
)
    requires
        0 <= i < eligible_grid_targets(
            proposed,
            cluster,
            local,
            discovery_keys,
            peers,
            relay_parent,
        ).len(),
    ensures
        ({
            let targets = eligible_grid_targets(
                proposed,
                cluster,
                local,
                discovery_keys,
                peers,
                relay_parent,
            );
            &&& targets[i].0 != local
            &&& !cluster.contains(targets[i].0)
            &&& proposed.contains(targets[i].0)
            &&& target_peer(discovery_keys, peers, relay_parent, targets[i].0) == Some(targets[i].1)
            &&& peers.peer_knows(targets[i].1, relay_parent)
            &&& forall|j: int| 0 <= j < targets.len() && j != i ==> targets[j].0 != targets[i].0
        }),
    decreases proposed.len(),
{
    if proposed.len() > 0 {
        let init = proposed.drop_last();
        let rest = eligible_grid_targets(init, cluster, local, discovery_keys, peers, relay_parent);
        let targets = eligible_grid_targets(
            proposed,
            cluster,
            local,
            discovery_keys,
            peers,
            relay_parent,
        );
        assert(proposed[proposed.len() - 1] == proposed.last());
        if i < rest.len() {
            lemma_grid_targets_know(init, cluster, local, discovery_keys, peers, relay_parent, i);
            let k = choose|k: int| 0 <= k < init.len() && init[k] == rest[i].0;
            assert(proposed[k] == rest[i].0);
        }
        assert forall|j: int| 0 <= j < targets.len() && j != i implies targets[j].0
            != targets[i].0 by {
            if j < rest.len() {
                lemma_grid_targets_know(init, cluster, local, discovery_keys, peers, relay_parent, j);
            }
        }
    }
}

/// How far a circulation has come: the tracker as it stands, and the peers
/// that get the `Seconded` statement sent ahead and the statement itself.
pub struct CirculationView {
    /// The cluster tracker.
    pub tracker: ClusterView,
    /// The peers that get the `Seconded` statement sent ahead.
    pub prior_to: Seq<PeerId>,
    /// The peers that get the statement.
    pub statement_to: Seq<PeerId>,
}

/// Whether a target is to get the `Seconded` statement ahead of the
/// statement: the statement is `Valid` and the target is not known to have
/// the candidate.
pub open spec fn needs_prior(
    tracker: ClusterView,
    target: ValidatorIndex,
    statement: SignedStatement,
) -> bool {
    statement.statement() is Valid && !tracker.knows_candidate(
        target,
        statement.statement().candidate(),
    )
}

/// The circulation after one more target: where the target needs the
/// `Seconded` statement first and there is one, that is recorded as sent and
/// the peer gets it; then, where the statement may be sent to the target, it
/// is recorded as sent and the peer gets it.
pub open spec fn circulate_to(
    c: CirculationView,
    target: (ValidatorIndex, PeerId),
    prior: Option<SignedStatement>,
    statement: SignedStatement,
) -> CirculationView {
    let ahead = needs_prior(c.tracker, target.0, statement) && prior.is_some();
    let tracker = if ahead {
        c.tracker.note_sent(
            target.0,
            prior.unwrap().validator(),
            CompactStatement::Seconded(statement.statement().candidate()),
        )
    } else {
        c.tracker
    };
    let prior_to = if ahead {
        c.prior_to.push(target.1)
    } else {
        c.prior_to
    };
    if tracker.can_send(target.0, statement.validator(), statement.statement()).is_ok() {
        CirculationView {
            tracker: tracker.note_sent(target.0, statement.validator(), statement.statement()),
            prior_to,
            statement_to: c.statement_to.push(target.1),
        }
    } else {
        CirculationView { tracker, prior_to, statement_to: c.statement_to }
    }
}

/// The circulation of a statement to the targets in turn.
pub open spec fn circulate(
    tracker: ClusterView,
    targets: Seq<(ValidatorIndex, PeerId)>,
    prior: Option<SignedStatement>,
    statement: SignedStatement,
) -> CirculationView
    decreases targets.len(),
{
    if targets.len() == 0 {
        CirculationView { tracker, prior_to: Seq::empty(), statement_to: Seq::empty() }
    } else {
        circulate_to(
            circulate(tracker, targets.drop_last(), prior, statement),
            targets.last(),
            prior,
            statement,
        )
    }
}

/// Whether some target needs the `Seconded` statement first.
pub open spec fn some_needs_prior(
    tracker: ClusterView,
    targets: Seq<(ValidatorIndex, PeerId)>,
    statement: SignedStatement,
) -> bool {
    exists|i: int| 0 <= i < targets.len() && needs_prior(tracker, (#[trigger] targets[i]).0, statement)
}

/// A circulation keeps the tracker well-formed, and sends only to peers of
/// the targets.
pub proof fn lemma_circulate_within_targets(
    tracker: ClusterView,
    targets: Seq<(ValidatorIndex, PeerId)>,
    prior: Option<SignedStatement>,
    statement: SignedStatement,
)
    ensures
        tracker.wf() ==> circulate(tracker, targets, prior, statement).tracker.wf(),
        forall|p: PeerId|
            circulate(tracker, targets, prior, statement).prior_to.contains(p) ==> exists|i: int|
                0 <= i < targets.len() && (#[trigger] targets[i]).1 == p,
        forall|p: PeerId|
            circulate(tracker, targets, prior, statement).statement_to.contains(p) ==> exists|i: int|
                0 <= i < targets.len() && (#[trigger] targets[i]).1 == p,
        circulate(tracker, targets, prior, statement).tracker.local == tracker.local,
        circulate(tracker, targets, prior, statement).tracker.validators == tracker.validators,
        circulate(tracker, targets, prior, statement).tracker.seconding_limit
            == tracker.seconding_limit,
        circulate(tracker, targets, prior, statement).tracker.received == tracker.received,
        prior.is_none() ==> circulate(tracker, targets, prior, statement).prior_to.len() == 0,
    decreases targets.len(),
{
    if targets.len() > 0 {
        let init = targets.drop_last();
        let last = targets.last();
        lemma_circulate_within_targets(tracker, init, prior, statement);
        let before = circulate(tracker, init, prior, statement);
        let after = circulate(tracker, targets, prior, statement);
        let ahead = needs_prior(before.tracker, last.0, statement) && prior.is_some();
        if tracker.wf() {
            if ahead {
                crate::cluster::lemma_notes_preserve_wf(
                    before.tracker,
                    last.0,
                    prior.unwrap().validator(),
                    CompactStatement::Seconded(statement.statement().candidate()),
                );
            }
            let middle = if ahead {
                before.tracker.note_sent(
                    last.0,
                    prior.unwrap().validator(),
                    CompactStatement::Seconded(statement.statement().candidate()),
                )
            } else {
                before.tracker
            };
            crate::cluster::lemma_notes_preserve_wf(
                middle,
                last.0,
                statement.validator(),
                statement.statement(),
            );
        }
        assert forall|p: PeerId| after.prior_to.contains(p) implies exists|i: int|
            0 <= i < targets.len() && (#[trigger] targets[i]).1 == p by {
            if before.prior_to.contains(p) {
                let i = choose|i: int| 0 <= i < init.len() && (#[trigger] init[i]).1 == p;
                assert(targets[i].1 == p);
            } else {
                let k = choose|k: int| 0 <= k < after.prior_to.len() && after.prior_to[k] == p;
                if k < before.prior_to.len() {
                    assert(before.prior_to[k] == p);
                }
                assert(targets[targets.len() - 1].1 == p);
            }
        }
        assert forall|p: PeerId| after.statement_to.contains(p) implies exists|i: int|
            0 <= i < targets.len() && (#[trigger] targets[i]).1 == p by {
            if before.statement_to.contains(p) {
                let i = choose|i: int| 0 <= i < init.len() && (#[trigger] init[i]).1 == p;
                assert(targets[i].1 == p);
            } else {
                let k = choose|k: int|
                    0 <= k < after.statement_to.len() && after.statement_to[k] == p;
                if k < before.statement_to.len() {
                    assert(before.statement_to[k] == p);
                }
                assert(targets[targets.len() - 1].1 == p);
            }
        }
    }
}

/// A `Valid` statement goes only to a target that is known to have the
/// candidate when its turn comes, or that gets the `Seconded` statement in
/// the batch that is sent ahead.
pub proof fn lemma_valid_follows_seconded(
    tracker: ClusterView,
    targets: Seq<(ValidatorIndex, PeerId)>,
    prior: Option<SignedStatement>,
    statement: SignedStatement,
    p: PeerId,
)
    requires
        statement.statement() is Valid,
        circulate(tracker, targets, prior, statement).statement_to.contains(p),
    ensures
        (exists|i: int|
            0 <= i < targets.len() && (#[trigger] targets[i]).1 == p && circulate(
                tracker,
                targets.take(i),
                prior,
                statement,
            ).tracker.knows_candidate(targets[i].0, statement.statement().candidate())) || (
        prior.is_some() && circulate(tracker, targets, prior, statement).prior_to.contains(p)),
    decreases targets.len(),
{
    if targets.len() > 0 {
        let init = targets.drop_last();
        let last = targets.last();
        let before = circulate(tracker, init, prior, statement);
        let after = circulate(tracker, targets, prior, statement);
        let candidate = statement.statement().candidate();
        if before.statement_to.contains(p) {
            lemma_valid_follows_seconded(tracker, init, prior, statement, p);
            if exists|i: int|
                0 <= i < init.len() && (#[trigger] init[i]).1 == p && circulate(
                    tracker,
                    init.take(i),
                    prior,
                    statement,
                ).tracker.knows_candidate(init[i].0, candidate) {
                let i = choose|i: int|
                    0 <= i < init.len() && (#[trigger] init[i]).1 == p && circulate(
                        tracker,
                        init.take(i),
                        prior,
                        statement,
                    ).tracker.knows_candidate(init[i].0, candidate);
                assert(init.take(i) =~= targets.take(i));
                assert(targets[i] == init[i]);
            } else {
                let k = choose|k: int| 0 <= k < before.prior_to.len() && before.prior_to[k] == p;
                assert(after.prior_to[k] == p);
            }
        } else {
            let k = choose|k: int| 0 <= k < after.statement_to.len() && after.statement_to[k] == p;
            if k < before.statement_to.len() {
                assert(before.statement_to[k] == p);
            }
            assert(last.1 == p);
            let ahead = needs_prior(before.tracker, last.0, statement) && prior.is_some();
            if ahead {
                assert(after.prior_to[before.prior_to.len() as int] == p);
            } else {
                assert(before.tracker.knows_candidate(last.0, candidate));
                assert(targets.take(targets.len() - 1) =~= init);
                assert(targets[targets.len() - 1] == last);
            }
        }
    }
}

/// In a circulation, what goes to a target was not recorded as sent to it
/// before: neither the `Seconded` statement that is sent ahead nor the
/// statement itself goes over the same edge twice.
pub proof fn lemma_circulation_sends_new_edges(
    c: CirculationView,
    target: (ValidatorIndex, PeerId),
    prior: Option<SignedStatement>,
    statement: SignedStatement,
)
    requires
        c.tracker.wf(),
        prior matches Some(s) ==> c.tracker.validators.contains(s.validator()),
    ensures
        circulate_to(c, target, prior, statement).prior_to.len() > c.prior_to.len()
            ==> !c.tracker.sent.contains(
            Edge {
                peer: target.0,
                originator: prior.unwrap().validator(),
                statement: CompactStatement::Seconded(statement.statement().candidate()),
            },
        ),
        circulate_to(c, target, prior, statement).statement_to.len() > c.statement_to.len()
            ==> !c.tracker.sent.contains(
            Edge {
                peer: target.0,
                originator: statement.validator(),
                statement: statement.statement(),
            },
        ),
{
    let candidate = statement.statement().candidate();
    let ahead = needs_prior(c.tracker, target.0, statement) && prior.is_some();
    let direct = Edge {
        peer: target.0,
        originator: statement.validator(),
        statement: statement.statement(),
    };
    if ahead {
        let seconded = CompactStatement::Seconded(candidate);
        crate::cluster::lemma_new_edges(c.tracker, target.0, prior.unwrap().validator(), seconded);
        crate::cluster::lemma_notes_preserve_wf(
            c.tracker,
            target.0,
            prior.unwrap().validator(),
            seconded,
        );
        let middle = c.tracker.note_sent(target.0, prior.unwrap().validator(), seconded);
        crate::cluster::lemma_new_edges(
            middle,
            target.0,
            statement.validator(),
            statement.statement(),
        );
        if c.tracker.sent.contains(direct) {
            crate::lists::lemma_push_new_keeps(
                c.tracker.sent,
                Edge {
                    peer: target.0,
                    originator: prior.unwrap().validator(),
                    statement: seconded,
                },
                direct,
            );
        }
    } else {
        crate::cluster::lemma_new_edges(
            c.tracker,
            target.0,
            statement.validator(),
            statement.statement(),
        );
    }
}

/// What goes out to a prefix of the targets goes out to the targets.
pub proof fn lemma_circulate_prefix(
    tracker: ClusterView,
    targets: Seq<(ValidatorIndex, PeerId)>,
    prior: Option<SignedStatement>,
    statement: SignedStatement,
    n: int,
    p: PeerId,
)
    requires
        0 <= n <= targets.len(),
        circulate(tracker, targets.take(n), prior, statement).prior_to.contains(p),
    ensures
        circulate(tracker, targets, prior, statement).prior_to.contains(p),
    decreases targets.len() - n,
{
    if n < targets.len() {
        let shorter = circulate(tracker, targets.take(n), prior, statement);
        let longer = circulate(tracker, targets.take(n + 1), prior, statement);
        assert(targets.take(n + 1).drop_last() =~= targets.take(n));
        let k = choose|k: int| 0 <= k < shorter.prior_to.len() && shorter.prior_to[k] == p;
        assert(longer.prior_to[k] == p);
        lemma_circulate_prefix(tracker, targets, prior, statement, n + 1, p);
    } else {
        assert(targets.take(n) =~= targets);
    }
}

/// In the circulation of a `Valid` statement, a validator comes to be known
/// to have the candidate only by getting the `Seconded` statement that is
/// sent ahead.
pub proof fn lemma_circulation_teaches_by_prior(
    tracker: ClusterView,
    targets: Seq<(ValidatorIndex, PeerId)>,
    prior: Option<SignedStatement>,
    statement: SignedStatement,
    v: ValidatorIndex,
)
    requires
        statement.statement() is Valid,
        prior matches Some(s) ==> tracker.knowledge.contains(
            Edge {
                peer: s.validator(),
                originator: s.validator(),
                statement: CompactStatement::Seconded(statement.statement().candidate()),
            },
        ),
        circulate(tracker, targets, prior, statement).tracker.knows_candidate(
            v,
            statement.statement().candidate(),
        ),
    ensures
        tracker.knows_candidate(v, statement.statement().candidate()) || (prior.is_some()
            && exists|j: int|
            0 <= j < targets.len() && (#[trigger] targets[j]).0 == v && circulate(
                tracker,
                targets,
                prior,
                statement,
            ).prior_to.contains(targets[j].1)),
    decreases targets.len(),
{
    let candidate = statement.statement().candidate();
    if targets.len() > 0 {
        let init = targets.drop_last();
        let last = targets.last();
        let before = circulate(tracker, init, prior, statement);
        let after = circulate(tracker, targets, prior, statement);
        lemma_circulate_within_targets(tracker, init, prior, statement);
        lemma_circulate_within_targets(tracker, targets, prior, statement);
        let i = choose|i: int| after.tracker.shows_candidate(i, v, candidate);
        let e = after.tracker.knowledge[i];
        assert(after.tracker.knowledge.contains(e));
        let ahead = needs_prior(before.tracker, last.0, statement) && prior.is_some();
        let middle = if ahead {
            before.tracker.note_sent(
                last.0,
                prior.unwrap().validator(),
                CompactStatement::Seconded(candidate),
            )
        } else {
            before.tracker
        };
        if middle.can_send(last.0, statement.validator(), statement.statement()).is_ok() {
            crate::cluster::lemma_note_sent_teaches(
                middle,
                last.0,
                statement.validator(),
                statement.statement(),
                e,
            );
        }
        assert(middle.knowledge.contains(e));
        if ahead {
            crate::cluster::lemma_note_sent_teaches(
                before.tracker,
                last.0,
                prior.unwrap().validator(),
                CompactStatement::Seconded(candidate),
                e,
            );
        }
        if before.tracker.knowledge.contains(e) {
            let k = choose|k: int|
                0 <= k < before.tracker.knowledge.len() && before.tracker.knowledge[k] == e;
            assert(before.tracker.shows_candidate(k, v, candidate));
            lemma_circulation_teaches_by_prior(tracker, init, prior, statement, v);
            if !tracker.knows_candidate(v, candidate) {
                let j = choose|j: int|
                    0 <= j < init.len() && (#[trigger] init[j]).0 == v && before.prior_to.contains(
                        init[j].1,
                    );
                assert(targets[j] == init[j]);
                let m = choose|m: int|
                    0 <= m < before.prior_to.len() && before.prior_to[m] == init[j].1;
                assert(after.prior_to[m] == init[j].1);
            }
        } else if e == (Edge {
            peer: last.0,
            originator: prior.unwrap().validator(),
            statement: CompactStatement::Seconded(candidate),
        }) {
            assert(targets[targets.len() - 1] == last);
            assert(after.prior_to[before.prior_to.len() as int] == last.1);
        } else {
            let k = choose|k: int| 0 <= k < tracker.knowledge.len() && tracker.knowledge[k] == e;
            assert(tracker.shows_candidate(k, v, candidate));
        }
    }
}

/// A `Valid` statement goes only to the peer of a validator that was known
/// to have the candidate, or to a peer that gets a `Seconded` statement
/// about the candidate in the batch that is sent ahead.
pub proof fn lemma_valid_only_after_seconded(
    tracker: ClusterView,
    targets: Seq<(ValidatorIndex, PeerId)>,
    prior: Option<SignedStatement>,
    statement: SignedStatement,
    p: PeerId,
)
    requires
        statement.statement() is Valid,
        prior matches Some(s) ==> tracker.knowledge.contains(
            Edge {
                peer: s.validator(),
                originator: s.validator(),
                statement: CompactStatement::Seconded(statement.statement().candidate()),
            },
        ),
        forall|i: int, j: int|
            0 <= i < targets.len() && 0 <= j < targets.len() && (#[trigger] targets[i]).0 == (
            #[trigger] targets[j]).0 ==> targets[i].1 == targets[j].1,
        circulate(tracker, targets, prior, statement).statement_to.contains(p),
    ensures
        (exists|i: int|
            0 <= i < targets.len() && (#[trigger] targets[i]).1 == p && tracker.knows_candidate(
                targets[i].0,
                statement.statement().candidate(),
            )) || (prior.is_some() && circulate(tracker, targets, prior, statement).prior_to.contains(
            p,
        )),
{
    let candidate = statement.statement().candidate();
    let all = circulate(tracker, targets, prior, statement);
    lemma_valid_follows_seconded(tracker, targets, prior, statement, p);
    if !(prior.is_some() && all.prior_to.contains(p)) {
        let i = choose|i: int|
            0 <= i < targets.len() && (#[trigger] targets[i]).1 == p && circulate(
                tracker,
                targets.take(i),
                prior,
                statement,
            ).tracker.knows_candidate(targets[i].0, candidate);
        lemma_circulation_teaches_by_prior(tracker, targets.take(i), prior, statement, targets[i].0);
        if !tracker.knows_candidate(targets[i].0, candidate) {
            let shorter = circulate(tracker, targets.take(i), prior, statement);
            let j = choose|j: int|
                0 <= j < targets.take(i).len() && (#[trigger] targets.take(i)[j]).0 == targets[i].0
                    && shorter.prior_to.contains(targets.take(i)[j].1);
            assert(targets.take(i)[j] == targets[j]);
            assert(targets[j].1 == targets[i].1);
            lemma_circulate_prefix(tracker, targets, prior, statement, i, p);
        }
    }
}

/// What a circulation hands to the network: the `Seconded` statement that
/// is sent ahead with the peers that get it, and the peers that get the
/// statement itself.
#[derive(Clone, PartialEq, Eq, Debug)]
pub struct Circulation {
    /// The `Seconded` statement that is sent ahead, if one is.
    pub prior_seconded: Option<SignedStatement>,
    /// The peers that get the `Seconded` statement sent ahead.
    pub prior_to: Vec<PeerId>,
    /// The peers that get the statement.
    pub statement_to: Vec<PeerId>,
}

impl PerRelayParentState {
    /// The parts are well-formed.
    pub open spec fn wf(&self) -> bool {
        &&& self.statement_store.wf()
        &&& self.local_validator matches Some(l) ==> l.cluster_tracker.wf()
    }

    /// A relay-parent at which nothing has been said yet.
    pub fn new(session: SessionIndex, local_validator: Option<LocalValidatorState>) -> (r: Self)
        requires
            local_validator matches Some(l) ==> l.cluster_tracker.wf(),
        ensures
            r.wf(),
            r.session == session,
            r.local_validator == local_validator,
            r.statement_store@.statements == Seq::<SignedStatement>::empty(),
            r.statement_store@.groups == Map::<ValidatorIndex, GroupIndex>::empty(),
    {
        PerRelayParentState { local_validator, statement_store: StatementStore::new(), session }
    }

    /// What is known of a validator at the relay-parent, where a statement
    /// of it has been taken.
    pub fn validator_state(&self, validator: ValidatorIndex) -> (r: Option<
        PerRelayParentValidatorState,
    >)
        requires
            self.wf(),
        ensures
            r.is_some() == self.statement_store@.groups.dom().contains(validator),
            r matches Some(s) ==> s.group_id == self.statement_store@.groups[validator]
                && s.seconded_count == self.statement_store@.seconded_count(validator),
    {
        match self.statement_store.validator_group_index(validator) {
            Some(group_id) => Some(
                PerRelayParentValidatorState {
                    seconded_count: self.statement_store.seconded_count(validator),
                    group_id,
                },
            ),
            None => None,
        }
    }

    /// What the checks before the signature check make of a statement that
    /// a peer sent: we must have a role here, the peer must speak for a
    /// member of our cluster, and the cluster's rules must allow the
    /// statement from that member.
    pub open spec fn screening(
        &self,
        discovery_keys: Seq<AuthorityDiscoveryId>,
        peer: PeerStateView,
        statement: UncheckedSignedStatement,
    ) -> IncomingScreening {
        match self.local_validator {
            None => IncomingScreening::Report(Rep::UnexpectedStatement),
            Some(l) => match cluster_sender(l.cluster_tracker@.senders(), discovery_keys, peer) {
                None => IncomingScreening::Report(Rep::UnexpectedStatement),
                Some(sender) => match l.cluster_tracker@.can_receive(
                    sender,
                    statement.validator_index,
                    statement.payload,
                ) {
                    Ok(_) => IncomingScreening::Pass(sender),
                    Err(RejectIncoming::ExcessiveSeconded) => IncomingScreening::Report(
                        Rep::ExcessiveSeconded,
                    ),
                    Err(RejectIncoming::CandidateUnknown) => IncomingScreening::Report(
                        Rep::UnexpectedStatement,
                    ),
                    Err(RejectIncoming::Duplicate) => IncomingScreening::Report(
                        Rep::UnexpectedStatement,
                    ),
                    Err(RejectIncoming::NotInGroup) => IncomingScreening::Ignore,
                },
            },
        }
    }

    /// Checks a statement that a peer sent, as far as that can be done
    /// before its signature is checked.
    pub fn screen_incoming_statement(
        &self,
        discovery_keys: &Vec<AuthorityDiscoveryId>,
        peer_state: &PeerState,
        statement: &UncheckedSignedStatement,
    ) -> (r: IncomingScreening)
        ensures
            r == self.screening(discovery_keys@, peer_state@, *statement),
    {
        let local_validator = match &self.local_validator {
            None => {
                return IncomingScreening::Report(COST_UNEXPECTED_STATEMENT);
            },
            Some(l) => l,
        };
        let allowed_senders = local_validator.cluster_tracker.senders_for_originator(
            statement.unchecked_validator_index(),
        );
        let mut found: Option<ValidatorIndex> = None;
        let mut i: usize = 0;
        assert(allowed_senders@.skip(0) =~= allowed_senders@);
        while i < allowed_senders.len() && found.is_none()
            invariant
                i <= allowed_senders.len(),
                cluster_sender(allowed_senders@, discovery_keys@, peer_state@) == (match found {
                    Some(v) => Some(v),
                    None => cluster_sender(
                        allowed_senders@.skip(i as int),
                        discovery_keys@,
                        peer_state@,
                    ),
                }),
            decreases allowed_senders.len() - i + (if found.is_none() { 1int } else { 0int }),
        {
            let v = allowed_senders[i];
            assert(allowed_senders@.skip(i as int)[0] == v);
            assert(allowed_senders@.skip(i as int).drop_first() =~= allowed_senders@.skip(i + 1));
            if (v.0 as usize) < discovery_keys.len() && peer_state.is_authority(
                &discovery_keys[v.0 as usize],
            ) {
                found = Some(v);
            } else {
                i += 1;
            }
        }
        let sender = match found {
            None => {
                return IncomingScreening::Report(COST_UNEXPECTED_STATEMENT);
            },
            Some(v) => v,
        };
        match local_validator.cluster_tracker.can_receive(
            sender,
            statement.unchecked_validator_index(),
            statement.unchecked_payload(),
        ) {
            Ok(_) => IncomingScreening::Pass(sender),
            Err(RejectIncoming::ExcessiveSeconded) => IncomingScreening::Report(
                COST_EXCESSIVE_SECONDED,
            ),
            Err(RejectIncoming::CandidateUnknown) => IncomingScreening::Report(
                COST_UNEXPECTED_STATEMENT,
            ),
            Err(RejectIncoming::Duplicate) => IncomingScreening::Report(COST_UNEXPECTED_STATEMENT),
            Err(RejectIncoming::NotInGroup) => IncomingScreening::Ignore,
        }
    }

    /// What becomes of a statement that passed the screening and whose
    /// signature is good: the store decides.
    pub open spec fn import_outcome(&self, groups: &Groups, statement: SignedStatement) -> ImportOutcome {
        if self.local_validator.is_none() {
            ImportOutcome::Ignore
        } else {
            match self.statement_store@.insert_outcome(groups, statement) {
                Err(StatementStoreError::ExcessiveSeconded) => ImportOutcome::Report(
                    Rep::ExcessiveSeconded,
                ),
                Err(_) => ImportOutcome::Ignore,
                Ok(fresh) => ImportOutcome::Imported {
                    fresh,
                    group: self.statement_store@.group_for(groups, statement.validator()).unwrap(),
                },
            }
        }
    }

    /// `next` is this state after [`PerRelayParentState::import_statement`]:
    /// where the statement is taken, the cluster tracker has recorded it as
    /// received from `sender` and the store has taken it; otherwise nothing
    /// has changed.
    pub open spec fn imported(
        &self,
        next: &PerRelayParentState,
        groups: &Groups,
        sender: ValidatorIndex,
        statement: SignedStatement,
    ) -> bool {
        if self.import_outcome(groups, statement) is Imported {
            &&& next.session == self.session
            &&& next.statement_store@ == self.statement_store@.insert(groups, statement)
            &&& next.local_validator.is_some()
            &&& next.local_validator.unwrap().index == self.local_validator.unwrap().index
            &&& next.local_validator.unwrap().group == self.local_validator.unwrap().group
            &&& next.local_validator.unwrap().assignment == self.local_validator.unwrap().assignment
            &&& next.local_validator.unwrap().cluster_tracker@
                == self.local_validator.unwrap().cluster_tracker@.note_received(
                sender,
                statement.validator(),
                statement.statement(),
            )
        } else {
            *next == *self
        }
    }

    /// Takes a statement that passed the screening and whose signature is
    /// good. Nothing changes unless the store takes the statement or has it
    /// already.
    pub fn import_statement(
        &mut self,
        groups: &Groups,
        sender: ValidatorIndex,
        statement: SignedStatement,
    ) -> (r: ImportOutcome)
        requires
            old(self).wf(),
            groups.wf(),
        ensures
            final(self).wf(),
            r == old(self).import_outcome(groups, statement),
            old(self).imported(final(self), groups, sender, statement),
    {
        if self.local_validator.is_none() {
            return ImportOutcome::Ignore;
        }
        let originator = statement.validator_index();
        if originator.0 as usize >= groups.validator_count() {
            return ImportOutcome::Ignore;
        }
        let group = match self.statement_store.validator_group_index(originator) {
            Some(g) => g,
            None => match groups.by_validator_index(originator) {
                Some(g) => g,
                None => {
                    return ImportOutcome::Ignore;
                },
            },
        };
        let known = self.statement_store.validator_statement(originator, statement.payload()).is_some();
        if !known && statement.payload().is_seconded() && self.statement_store.seconded_count(
            originator,
        ) >= crate::statement_store::MAX_SECONDED_PER_VALIDATOR {
            return ImportOutcome::Report(COST_EXCESSIVE_SECONDED);
        }
        match &mut self.local_validator {
            Some(l) => {
                l.cluster_tracker.note_received(sender, originator, statement.payload());
            },
            None => {},
        }
        let inserted = self.statement_store.insert(groups, statement);
        match inserted {
            Ok(fresh) => ImportOutcome::Imported { fresh, group },
            Err(_) => ImportOutcome::Ignore,
        }
    }

    /// Whether the store would take a statement as a fresh one.
    pub fn would_take(&self, groups: &Groups, statement: SignedStatement) -> (r: bool)
        requires
            self.wf(),
            groups.wf(),
        ensures
            r == (self.statement_store@.insert_outcome(groups, statement) == Ok::<
                bool,
                StatementStoreError,
            >(true)),
    {
        let author = statement.validator_index();
        if author.0 as usize >= groups.validator_count() {
            return false;
        }
        let in_group = self.statement_store.validator_group_index(author).is_some()
            || groups.by_validator_index(author).is_some();
        if !in_group {
            return false;
        }
        if self.statement_store.validator_statement(author, statement.payload()).is_some() {
            return false;
        }
        !(statement.payload().is_seconded() && self.statement_store.seconded_count(author)
            >= crate::statement_store::MAX_SECONDED_PER_VALIDATOR)
    }

    /// Whether the statements about a candidate from the validators of a
    /// group are as many as backing takes.
    pub open spec fn backed(&self, groups: &Groups, group: GroupIndex, candidate: CandidateHash) -> bool {
        group.0 < groups@.len() && self.statement_store@.statements.filter(
            self.statement_store@.of_group_about(group, candidate),
        ).len() >= crate::minimum_votes_spec(groups@[group.0 as int].len())
    }

    /// Whether the statements about a candidate from the validators of a
    /// group are as many as backing takes.
    pub fn is_backed(&self, groups: &Groups, group: GroupIndex, candidate: CandidateHash) -> (r:
        bool)
        requires
            self.wf(),
        ensures
            r == self.backed(groups, group, candidate),
    {
        match groups.get(group) {
            Some(members) => {
                let votes = self.statement_store.group_statements(group, candidate).len();
                votes >= crate::minimum_votes(members.len())
            },
            None => false,
        }
    }

    /// The targets at a relay-parent that come from the grid, where
    /// `proposed` is what the grid names: a member of our cluster is a
    /// target as such, and not as a grid target.
    pub open spec fn grid_targets_of(
        &self,
        proposed: Seq<ValidatorIndex>,
        discovery_keys: Seq<AuthorityDiscoveryId>,
        peers: &PeerTable,
        relay_parent: primitives::Hash,
    ) -> Seq<(ValidatorIndex, PeerId)> {
        match self.local_validator {
            None => Seq::empty(),
            Some(l) => eligible_grid_targets(
                proposed,
                l.cluster_tracker@.validators,
                l.index,
                discovery_keys,
                peers,
                relay_parent,
            ),
        }
    }

    /// The targets at a relay-parent that come from the grid, each with its
    /// peer. `proposed` is what the grid names; left out are ourselves, the
    /// members of our cluster, repetitions, and validators whose peers are
    /// not connected or do not know the relay-parent.
    pub fn grid_targets(
        &self,
        proposed: &Vec<ValidatorIndex>,
        discovery_keys: &Vec<AuthorityDiscoveryId>,
        peers: &PeerTable,
        relay_parent: primitives::Hash,
    ) -> (targets: Vec<(ValidatorIndex, PeerId)>)
        requires
            peers.wf(),
        ensures
            targets@ == self.grid_targets_of(proposed@, discovery_keys@, peers, relay_parent),
    {
        let mut targets: Vec<(ValidatorIndex, PeerId)> = Vec::new();
        let local = match &self.local_validator {
            None => {
                return targets;
            },
            Some(l) => l,
        };
        let cluster = local.cluster_tracker.targets();
        let mut i: usize = 0;
        while i < proposed.len()
            invariant
                i <= proposed.len(),
                peers.wf(),
                cluster@ == local.cluster_tracker@.validators,
                targets@ == eligible_grid_targets(
                    proposed@.take(i as int),
                    cluster@,
                    local.index,
                    discovery_keys@,
                    peers,
                    relay_parent,
                ),
            decreases proposed.len() - i,
        {
            let v = proposed[i];
            proof {
                assert(proposed@.take(i + 1).drop_last() =~= proposed@.take(i as int));
                assert(proposed@.take(i + 1).last() == v);
            }
            if !v.same(&local.index) && !contains_id(cluster, &v) && !occurs_before(proposed, i, &v) {
                match connected_validator_peer(peers, discovery_keys, v) {
                    Some(peer) => {
                        if peers.knows_relay_parent(&peer, &relay_parent) {
                            targets.push((v, peer));
                        }
                    },
                    None => {},
                }
            }
            i += 1;
        }
        assert(proposed@.take(proposed@.len() as int) =~= proposed@);
        targets
    }

    /// What a circulation of `statement` comes to, and nothing where none
    /// takes place: we have no role here, or the statement is `Valid`, some
    /// target would need the `Seconded` statement first, and there is none
    /// to send.
    pub open spec fn circulation(
        &self,
        discovery_keys: Seq<AuthorityDiscoveryId>,
        peers: &PeerTable,
        relay_parent: primitives::Hash,
        statement: SignedStatement,
    ) -> Option<CirculationView> {
        match self.local_validator {
            None => None,
            Some(l) => {
                let targets = eligible_targets(
                    l.cluster_tracker@.validators,
                    l.index,
                    discovery_keys,
                    peers,
                    relay_parent,
                );
                let prior = self.prior_for(statement);
                if prior.is_none() && some_needs_prior(l.cluster_tracker@, targets, statement) {
                    None
                } else {
                    Some(circulate(l.cluster_tracker@, targets, prior, statement))
                }
            },
        }
    }

    /// The `Seconded` statement that is sent ahead of `statement` to the
    /// targets that need it: none for a `Seconded` statement, and for a
    /// `Valid` one that of the cluster's sendable seconder.
    pub open spec fn prior_for(&self, statement: SignedStatement) -> Option<SignedStatement> {
        match self.local_validator {
            Some(l) => if statement.statement() is Valid {
                sendable_seconded(
                    l.cluster_tracker@,
                    self.statement_store@,
                    statement.statement().candidate(),
                )
            } else {
                None
            },
            None => None,
        }
    }

    /// `next` is this state after [`PerRelayParentState::circulate`] with
    /// the outcome `out`.
    pub open spec fn circulated(
        &self,
        next: &PerRelayParentState,
        discovery_keys: Seq<AuthorityDiscoveryId>,
        peers: &PeerTable,
        relay_parent: primitives::Hash,
        statement: SignedStatement,
        out: &Circulation,
    ) -> bool {
        match self.circulation(discovery_keys, peers, relay_parent, statement) {
            None => *next == *self && out.prior_to@.len() == 0 && out.statement_to@.len() == 0
                && out.prior_seconded.is_none(),
            Some(c) => {
                &&& next.session == self.session
                &&& next.statement_store == self.statement_store
                &&& next.local_validator.is_some()
                &&& next.local_validator.unwrap().index == self.local_validator.unwrap().index
                &&& next.local_validator.unwrap().group == self.local_validator.unwrap().group
                &&& next.local_validator.unwrap().assignment
                    == self.local_validator.unwrap().assignment
                &&& next.local_validator.unwrap().cluster_tracker@ == c.tracker
                &&& out.prior_to@ == c.prior_to
                &&& out.statement_to@ == c.statement_to
                &&& out.prior_seconded == (if c.prior_to.len() > 0 {
                    self.prior_for(statement)
                } else {
                    None
                })
            },
        }
    }

    /// Circulates a statement within the cluster: to each member other than
    /// ourselves whose peer is connected and knows the relay-parent, as far
    /// as the cluster's rules allow. A member that is not known to have the
    /// candidate of a `Valid` statement gets a `Seconded` statement first.
    /// Where that is needed and there is none to send, nothing is sent and
    /// nothing is recorded.
    pub fn circulate(
        &mut self,
        discovery_keys: &Vec<AuthorityDiscoveryId>,
        peers: &PeerTable,
        relay_parent: primitives::Hash,
        statement: SignedStatement,
    ) -> (out: Circulation)
        requires
            old(self).wf(),
            peers.wf(),
        ensures
            final(self).wf(),
            old(self).circulated(final(self), discovery_keys@, peers, relay_parent, statement, &out),
    {
        let nothing = Circulation {
            prior_seconded: None,
            prior_to: Vec::new(),
            statement_to: Vec::new(),
        };
        let compact = statement.payload();
        let originator = statement.validator_index();
        let candidate_hash = compact.candidate_hash();
        let prior = match &self.local_validator {
            None => {
                return nothing;
            },
            Some(l) => if compact.is_seconded() {
                None
            } else {
                cluster_sendable_seconded_statement(
                    &l.cluster_tracker,
                    &self.statement_store,
                    candidate_hash,
                )
            },
        };
        let targets = match &self.local_validator {
            None => {
                return nothing;
            },
            Some(l) => collect_targets(l, discovery_keys, peers, relay_parent),
        };
        let ghost start = old(self).local_validator.unwrap().cluster_tracker@;
        if prior.is_none() && !compact.is_seconded() {
            let lacking = match &self.local_validator {
                None => false,
                Some(l) => any_lacks_candidate(&l.cluster_tracker, &targets, statement),
            };
            if lacking {
                return nothing;
            }
        }
        let mut prior_to: Vec<PeerId> = Vec::new();
        let mut statement_to: Vec<PeerId> = Vec::new();
        match &mut self.local_validator {
            None => {},
            Some(l) => {
                let mut i: usize = 0;
                while i < targets.len()
                    invariant
                        i <= targets.len(),
                        compact == statement.statement(),
                        originator == statement.validator(),
                        candidate_hash == statement.statement().candidate(),
                        l.index == old(self).local_validator.unwrap().index,
                        l.group == old(self).local_validator.unwrap().group,
                        l.assignment == old(self).local_validator.unwrap().assignment,
                        (CirculationView {
                            tracker: l.cluster_tracker@,
                            prior_to: prior_to@,
                            statement_to: statement_to@,
                        }) == circulate(start, targets@.take(i as int), prior, statement),
                    decreases targets.len() - i,
                {
                    let (target, peer) = targets[i];
                    proof {
                        assert(targets@.take(i + 1).drop_last() =~= targets@.take(i as int));
                        assert(targets@.take(i + 1).last() == targets@[i as int]);
                    }
                    if !compact.is_seconded() && !l.cluster_tracker.knows_candidate(
                        target,
                        candidate_hash,
                    ) {
                        match prior {
                            Some(seconded) => {
                                l.cluster_tracker.note_sent(
                                    target,
                                    seconded.validator_index(),
                                    CompactStatement::Seconded(candidate_hash),
                                );
                                prior_to.push(peer);
                            },
                            None => {},
                        }
                    }
                    if l.cluster_tracker.can_send(target, originator, compact).is_ok() {
                        l.cluster_tracker.note_sent(target, originator, compact);
                        statement_to.push(peer);
                    }
                    i += 1;
                }
                proof {
                    assert(targets@.take(targets@.len() as int) =~= targets@);
                    lemma_circulate_within_targets(start, targets@, prior, statement);
                }
            },
        }
        let prior_seconded = if prior_to.len() > 0 {
            prior
        } else {
            None
        };
        Circulation { prior_seconded, prior_to, statement_to }
    }
}

/// The members of the cluster other than ourselves that can be reached at a
/// relay-parent, each with its peer.
fn collect_targets(
    local: &LocalValidatorState,
    discovery_keys: &Vec<AuthorityDiscoveryId>,
    peers: &PeerTable,
    relay_parent: primitives::Hash,
) -> (targets: Vec<(ValidatorIndex, PeerId)>)
    requires
        peers.wf(),
    ensures
        targets@ == eligible_targets(
            local.cluster_tracker@.validators,
            local.index,
            discovery_keys@,
            peers,
            relay_parent,
        ),
{
    let members = local.cluster_tracker.targets();
    let mut targets: Vec<(ValidatorIndex, PeerId)> = Vec::new();
    let mut i: usize = 0;
    while i < members.len()
        invariant
            i <= members.len(),
            peers.wf(),
            members@ == local.cluster_tracker@.validators,
            targets@ == eligible_targets(
                members@.take(i as int),
                local.index,
                discovery_keys@,
                peers,
                relay_parent,
            ),
        decreases members.len() - i,
    {
        let v = members[i];
        proof {
            assert(members@.take(i + 1).drop_last() =~= members@.take(i as int));
            assert(members@.take(i + 1).last() == v);
        }
        if !v.same(&local.index) {
            match connected_validator_peer(peers, discovery_keys, v) {
                Some(peer) => {
                    if peers.knows_relay_parent(&peer, &relay_parent) {
                        targets.push((v, peer));
                    }
                },
                None => {},
            }
        }
        i += 1;
    }
    assert(members@.take(members@.len() as int) =~= members@);
    targets
}

/// Whether a value occurs in a list before a position.
fn occurs_before(list: &Vec<ValidatorIndex>, end: usize, v: &ValidatorIndex) -> (r: bool)
    requires
        end <= list.len(),
    ensures
        r == list@.take(end as int).contains(*v),
{
    let mut i: usize = 0;
    while i < end
        invariant
            i <= end <= list.len(),
            forall|j: int| 0 <= j < i ==> list@[j] != *v,
        decreases end - i,
    {
        if list[i].same(v) {
            assert(list@.take(end as int)[i as int] == *v);
            return true;
        }
        i += 1;
    }
    false
}

/// The connected peer that bears the discovery key of a validator.
pub fn connected_validator_peer(
    peers: &PeerTable,
    discovery_keys: &Vec<AuthorityDiscoveryId>,
    validator_index: ValidatorIndex,
) -> (r: Option<PeerId>)
    requires
        peers.wf(),
    ensures
        r == (if validator_index.0 < discovery_keys@.len() && peers.authorities().dom().contains(
            discovery_keys@[validator_index.0 as int],
        ) {
            Some(peers.authorities()[discovery_keys@[validator_index.0 as int]])
        } else {
            None
        }),
{
    if (validator_index.0 as usize) < discovery_keys.len() {
        peers.peer_of_authority(&discovery_keys[validator_index.0 as usize])
    } else {
        None
    }
}

/// Whether some target is not known to have the candidate of a `Valid`
/// statement.
fn any_lacks_candidate(
    tracker: &ClusterTracker,
    targets: &Vec<(ValidatorIndex, PeerId)>,
    statement: SignedStatement,
) -> (r: bool)
    requires
        statement.statement() is Valid,
    ensures
        r == some_needs_prior(tracker@, targets@, statement),
{
    let candidate_hash = statement.payload().candidate_hash();
    let mut i: usize = 0;
    while i < targets.len()
        invariant
            i <= targets.len(),
            statement.statement() is Valid,
            candidate_hash == statement.statement().candidate(),
            forall|j: int| 0 <= j < i ==> !needs_prior(tracker@, (#[trigger] targets@[j]).0, statement),
        decreases targets.len() - i,
    {
        if !tracker.knows_candidate(targets[i].0, candidate_hash) {
            assert(needs_prior(tracker@, targets@[i as int].0, statement));
            return true;
        }
        i += 1;
    }
    false
}

} // verus!
