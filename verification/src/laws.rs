//! What holds of the state of statement distribution whatever happens to
//! it.

use crate::cluster::{lemma_first_seconder_seconded, Edge};
use crate::lists::lemma_push_new_holds;
use crate::engine::{IncomingStatementOutcome, State};
use crate::messages::OutboundStatementView;
use crate::primitives;
use crate::primitives::{
    CandidateHash, CompactStatement, PeerId, SignedStatement, UncheckedSignedStatement,
    ValidatorIndex,
};
use crate::relay_parent::{
    eligible_targets, lemma_eligible_targets_know, lemma_valid_only_after_seconded, target_peer,
};
use crate::reputation::Rep;
use vstd::prelude::*;

verus! {

/// At no relay-parent does the store hold more than two `Seconded`
/// statements of one validator.
pub proof fn lemma_at_most_two_seconded_everywhere(
    state: &State,
    relay_parent: primitives::Hash,
    validator: ValidatorIndex,
)
    requires
        state.wf(),
        state.relay_parents().dom().contains(relay_parent),
    ensures
        state.relay_parents()[relay_parent].statement_store@.seconded_count(validator) <= 2,
{
    state.lemma_wf_parts();
    state.relay_parents()[relay_parent].statement_store.lemma_wf_view();
}

/// At no relay-parent does the cluster tracker hold a triple of member,
/// originator and statement more than once among what was sent, or among
/// what was received.
pub proof fn lemma_cluster_logs_hold_each_triple_once(
    state: &State,
    relay_parent: primitives::Hash,
    triple: Edge,
)
    requires
        state.wf(),
        state.relay_parents().dom().contains(relay_parent),
        state.relay_parents()[relay_parent].local_validator.is_some(),
    ensures
        state.relay_parents()[relay_parent].local_validator.unwrap().cluster_tracker@.sent.to_multiset().count(
            triple,
        ) <= 1,
        state.relay_parents()[relay_parent].local_validator.unwrap().cluster_tracker@.received.to_multiset().count(
            triple,
        ) <= 1,
{
    state.lemma_wf_parts();
    crate::cluster::lemma_logs_hold_each_triple_once(
        state.relay_parents()[relay_parent].local_validator.unwrap().cluster_tracker@,
        triple,
    );
}

/// A statement whose signature is not good changes nothing and is not
/// accepted: what enters the store of a relay-parent has passed the
/// signature check under that relay-parent and its session.
pub proof fn lemma_nothing_enters_without_good_signature(
    before: &State,
    after: &State,
    peer: PeerId,
    relay_parent: primitives::Hash,
    statement: UncheckedSignedStatement,
    outcome: IncomingStatementOutcome,
)
    requires
        before.received(after, peer, relay_parent, statement, false, outcome),
    ensures
        after.same_as(before),
        !(outcome is Accepted),
{
}

/// A statement from a peer that was accepted is refused when the peer sends
/// it again: the state stays as it was after the first time, and the peer is
/// reported once, for an unexpected statement.
pub proof fn lemma_replay_is_reported_once(
    first: &State,
    second: &State,
    third: &State,
    peer: PeerId,
    relay_parent: primitives::Hash,
    statement: UncheckedSignedStatement,
    valid_at_first: bool,
    valid_at_second: bool,
    outcome_at_first: IncomingStatementOutcome,
    outcome_at_second: IncomingStatementOutcome,
)
    requires
        first.received(second, peer, relay_parent, statement, valid_at_first, outcome_at_first),
        second.received(third, peer, relay_parent, statement, valid_at_second, outcome_at_second),
        outcome_at_first is Accepted,
    ensures
        third.same_as(second),
        outcome_at_second == IncomingStatementOutcome::Reported(Rep::UnexpectedStatement),
{
    let before = first.relay_parents()[relay_parent];
    let after = second.relay_parents()[relay_parent];
    let tracker = before.local_validator.unwrap().cluster_tracker@;
    let sender = first.screening(peer, relay_parent, statement)->Pass_0;
    lemma_push_new_holds(
        tracker.received,
        Edge { peer: sender, originator: statement.validator_index, statement: statement.payload },
    );
    assert(after.local_validator.unwrap().cluster_tracker@.senders() == tracker.senders());
}

/// Whether `validator` is a member of our cluster at `relay_parent` that is
/// known to have `candidate` and whose peer is `p`.
pub open spec fn is_knowing_member(
    state: &State,
    relay_parent: primitives::Hash,
    candidate: CandidateHash,
    validator: ValidatorIndex,
    p: PeerId,
) -> bool {
    let per_relay_parent = state.relay_parents()[relay_parent];
    &&& target_peer(
        state.sessions()[per_relay_parent.session].spec_discovery_keys(),
        &state.peer_table(),
        relay_parent,
        validator,
    ) == Some(p)
    &&& per_relay_parent.local_validator.unwrap().cluster_tracker@.knows_candidate(
        validator,
        candidate,
    )
}

/// A peer gets a `Valid` statement in a circulation only if a `Seconded`
/// statement about the candidate goes to it in an earlier message of the
/// same circulation, or if it is the peer of a member of the cluster that
/// was known to have the candidate.
pub proof fn lemma_valid_sent_after_seconded(
    before: &State,
    after: &State,
    relay_parent: primitives::Hash,
    statement: SignedStatement,
    messages: Seq<OutboundStatementView>,
    p: PeerId,
)
    requires
        before.wf(),
        before.sent_direct(after, relay_parent, statement, messages),
        statement.statement() is Valid,
        messages.len() > 0,
        messages.last().statement == statement.unchecked,
        messages.last().to.contains(p),
    ensures
        (messages.len() == 2 && messages[0].statement.payload == CompactStatement::Seconded(
            statement.statement().candidate(),
        ) && messages[0].to.contains(p)) || (exists|v: ValidatorIndex|
            is_knowing_member(before, relay_parent, statement.statement().candidate(), v, p)),
{
    let candidate = statement.statement().candidate();
    let per_relay_parent = before.relay_parents()[relay_parent];
    let keys = before.sessions()[per_relay_parent.session].spec_discovery_keys();
    let local = per_relay_parent.local_validator.unwrap();
    let tracker = local.cluster_tracker@;
    let targets = eligible_targets(
        tracker.validators,
        local.index,
        keys,
        &before.peer_table(),
        relay_parent,
    );
    let prior = per_relay_parent.prior_for(statement);
    let c = per_relay_parent.circulation(keys, &before.peer_table(), relay_parent, statement).unwrap();
    before.lemma_wf_parts();
    per_relay_parent.statement_store.lemma_wf_view();
    lemma_first_seconder_seconded(tracker.knowledge, tracker.local, tracker.validators, candidate);
    assert forall|i: int, j: int|
        0 <= i < targets.len() && 0 <= j < targets.len() && (#[trigger] targets[i]).0 == (
        #[trigger] targets[j]).0 implies targets[i].1 == targets[j].1 by {
        lemma_eligible_targets_know(
            tracker.validators,
            local.index,
            keys,
            &before.peer_table(),
            relay_parent,
            i,
        );
        lemma_eligible_targets_know(
            tracker.validators,
            local.index,
            keys,
            &before.peer_table(),
            relay_parent,
            j,
        );
    }
    assert(c.statement_to.contains(p)) by {
        if c.statement_to.len() == 0 {
            assert(messages.last().statement.payload is Seconded);
        }
    }
    lemma_valid_only_after_seconded(tracker, targets, prior, statement, p);
    if prior.is_some() && c.prior_to.contains(p) {
        assert(messages.len() == 2);
    } else {
        let i = choose|i: int|
            0 <= i < targets.len() && (#[trigger] targets[i]).1 == p && tracker.knows_candidate(
                targets[i].0,
                candidate,
            );
        lemma_eligible_targets_know(
            tracker.validators,
            local.index,
            keys,
            &before.peer_table(),
            relay_parent,
            i,
        );
        assert(is_knowing_member(before, relay_parent, candidate, targets[i].0, p));
    }
}

} // verus!
