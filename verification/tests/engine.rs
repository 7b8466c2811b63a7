use std::sync::Arc;

use polkadot_primitives::{Signed, SigningContext};
use sp_keystore::{testing::MemoryKeystore, Keystore, KeystorePtr};
use statement_distribution::candidates::{
    CommittedCandidateReceipt, PersistedValidationData, PostConfirmationReckoning,
};
use statement_distribution::cluster::Edge;
use statement_distribution::engine::{
    AcceptedStatement, IncomingStatementOutcome, JfyiError, NetworkUpdateOutcome, ShareOutcome,
    State,
};
use statement_distribution::messages::{
    BackedCandidateManifest, NetworkBridgeEvent, OutboundStatement, SignedFullStatementWithPVD,
    StatementDistributionMessage, StatementWithPVD, VStagingMessage, VSTAGING_VERSION,
};
use statement_distribution::primitives::{
    AuthorityDiscoveryId, CandidateHash, CompactStatement, GroupIndex, ParaId, PeerId,
    SignedStatement, UncheckedSignedStatement, ValidatorId, ValidatorIndex, ValidatorSignature,
};
use statement_distribution::relay_parent::{
    cluster_sendable_seconded_statement, connected_validator_peer, find_local_validator_state,
    CoreState, IncomingScreening, PerRelayParentValidatorState,
};
use statement_distribution::reputation::{
    COST_EXCESSIVE_SECONDED, COST_INVALID_SIGNATURE, COST_UNEXPECTED_STATEMENT,
    COST_UNEXPECTED_STATEMENT_MISSING_KNOWLEDGE,
};
use statement_distribution::requests::{CandidateIdentifier, RequestEntry};
use statement_distribution::session::{PerSessionState, SessionGridTopology, SessionInfo};

const SESSION: u32 = 3;
const PARA: ParaId = ParaId(5);

fn hash(byte: u8) -> statement_distribution::primitives::Hash {
    statement_distribution::primitives::Hash([byte; 32])
}

fn relay_parent() -> statement_distribution::primitives::Hash {
    hash(0xaa)
}

fn candidate(byte: u8) -> CandidateHash {
    CandidateHash(hash(byte))
}

fn peer(validator: u32) -> PeerId {
    PeerId([0x50 + validator as u8; 32])
}

fn authority(validator: u32) -> AuthorityDiscoveryId {
    AuthorityDiscoveryId([0x10 + validator as u8; 32])
}

fn v(index: u32) -> ValidatorIndex {
    ValidatorIndex(index)
}

fn unchecked(validator: u32, payload: CompactStatement) -> UncheckedSignedStatement {
    UncheckedSignedStatement {
        payload,
        validator_index: v(validator),
        signature: ValidatorSignature([validator as u8 + 1; 64]),
    }
}

fn seconded(validator: u32, byte: u8) -> UncheckedSignedStatement {
    unchecked(validator, CompactStatement::Seconded(candidate(byte)))
}

fn valid(validator: u32, byte: u8) -> UncheckedSignedStatement {
    unchecked(validator, CompactStatement::Valid(candidate(byte)))
}

fn checked(statement: UncheckedSignedStatement) -> SignedStatement {
    SignedStatement { unchecked: statement }
}

fn receipt(relay_parent: statement_distribution::primitives::Hash) -> CommittedCandidateReceipt {
    CommittedCandidateReceipt { para_id: PARA, relay_parent, encoded: vec![4, 2] }
}

fn pvd() -> PersistedValidationData {
    PersistedValidationData { encoded: vec![7] }
}

fn local_seconded(validator: u32, byte: u8) -> SignedFullStatementWithPVD {
    SignedFullStatementWithPVD {
        payload: StatementWithPVD::Seconded(candidate(byte), receipt(relay_parent()), pvd()),
        validator_index: v(validator),
        signature: ValidatorSignature([validator as u8 + 1; 64]),
    }
}

fn local_valid(validator: u32, byte: u8) -> SignedFullStatementWithPVD {
    SignedFullStatementWithPVD {
        payload: StatementWithPVD::Valid(candidate(byte)),
        validator_index: v(validator),
        signature: ValidatorSignature([validator as u8 + 1; 64]),
    }
}

/// Four validators: 0, 1 and 2 are group 0, and 3 is group 1.
fn session_info(keys: Vec<ValidatorId>) -> SessionInfo {
    SessionInfo {
        validators: keys,
        discovery_keys: (0..4).map(authority).collect(),
        validator_groups: vec![vec![v(0), v(1), v(2)], vec![v(3)]],
    }
}

fn plain_keys() -> Vec<ValidatorId> {
    (0..4).map(|i| ValidatorId([0x30 + i as u8; 32])).collect()
}

fn connect(state: &mut State, validator: u32) {
    let outcome = state.handle_network_update(NetworkBridgeEvent::PeerConnected(
        peer(validator),
        VSTAGING_VERSION,
        Some(vec![authority(validator)]),
    ));
    assert_eq!(outcome, NetworkUpdateOutcome::Done);
    let outcome = state.handle_network_update(NetworkBridgeEvent::PeerViewChange(
        peer(validator),
        vec![relay_parent()],
    ));
    assert_eq!(outcome, NetworkUpdateOutcome::Done);
}

/// We are validator 0. The relay-parent is an active leaf, and the peers of
/// validators 1 and 2 are connected and have it in view.
fn state_with_keys(keys: Vec<ValidatorId>, seconding_limit: usize) -> State {
    let mut state = State::new(16);
    assert_eq!(state.handle_activated_leaf(relay_parent(), Vec::new()), vec![relay_parent()]);
    assert!(!state.knows_session(SESSION));
    state.note_session(SESSION, session_info(keys), Some(v(0)));
    assert!(state.knows_session(SESSION));
    assert!(state.note_relay_parent(
        relay_parent(),
        SESSION,
        &vec![CoreState::Scheduled(PARA), CoreState::Free],
        seconding_limit
    ));
    connect(&mut state, 1);
    connect(&mut state, 2);
    state
}

fn state(seconding_limit: usize) -> State {
    state_with_keys(plain_keys(), seconding_limit)
}

fn stored(state: &State) -> Vec<SignedStatement> {
    state.relay_parent_state(&relay_parent()).unwrap().statement_store.statements()
}

fn received(state: &State) -> Vec<Edge> {
    let per_relay_parent = state.relay_parent_state(&relay_parent()).unwrap();
    per_relay_parent.local_validator.as_ref().unwrap().cluster_tracker.received()
}

fn sent(state: &State) -> Vec<Edge> {
    let per_relay_parent = state.relay_parent_state(&relay_parent()).unwrap();
    per_relay_parent.local_validator.as_ref().unwrap().cluster_tracker.sent()
}

fn accepted(
    statement: UncheckedSignedStatement,
    sender: u32,
    fresh: bool,
    requested: bool,
    backed: bool,
) -> IncomingStatementOutcome {
    IncomingStatementOutcome::Accepted(AcceptedStatement {
        statement: checked(statement),
        sender: v(sender),
        group: GroupIndex(0),
        fresh,
        bad_advertisement: false,
        requested,
        backed,
    })
}

fn message(to: &[u32], statement: UncheckedSignedStatement) -> OutboundStatement {
    OutboundStatement {
        to: to.iter().map(|t| peer(*t)).collect(),
        relay_parent: relay_parent(),
        statement,
    }
}

#[test]
fn new_relay_parent_has_the_local_role() {
    let state = state(2);
    let per_relay_parent = state.relay_parent_state(&relay_parent()).unwrap();
    assert_eq!(per_relay_parent.session, SESSION);
    let local = per_relay_parent.local_validator.as_ref().expect("we are a validator");
    assert_eq!(local.index, v(0));
    assert_eq!(local.group, GroupIndex(0));
    assert_eq!(local.assignment, Some(PARA));
    assert_eq!(local.cluster_tracker.targets(), &vec![v(0), v(1), v(2)]);
    assert_eq!(local.cluster_tracker.seconding_limit(), 2);
    assert_eq!(local.cluster_tracker.local_index(), v(0));
    assert!(per_relay_parent.statement_store.statements().is_empty());
    assert!(state.relay_parent_state(&hash(1)).is_none());
}

#[test]
fn relay_parent_is_noted_once_and_only_for_a_known_session() {
    let mut state = state(2);
    assert!(!state.note_relay_parent(relay_parent(), SESSION, &Vec::new(), 2));
    assert!(!state.note_relay_parent(hash(1), SESSION + 1, &Vec::new(), 2));
    assert!(state.relay_parent_state(&hash(1)).is_none());
    assert!(state.note_relay_parent(hash(1), SESSION, &Vec::new(), 2));
    let other = state.relay_parent_state(&hash(1)).unwrap();
    // No core for our group, no assignment.
    assert_eq!(other.local_validator.as_ref().unwrap().assignment, None);
}

#[test]
fn session_is_noted_once() {
    let mut state = state(2);
    let mut other = session_info(plain_keys());
    other.validators = Vec::new();
    state.note_session(SESSION, other, None);
    let per_session = state.session_state(SESSION).unwrap();
    assert_eq!(per_session.validators(), &plain_keys());
    assert_eq!(per_session.local_validator(), Some(v(0)));
}

#[test]
fn session_state_looks_up_authorities() {
    let per_session = PerSessionState::new(session_info(plain_keys()), Some(v(2)));
    assert_eq!(per_session.authority_index_in_session(&authority(0)), Some(v(0)));
    assert_eq!(per_session.authority_index_in_session(&authority(3)), Some(v(3)));
    assert_eq!(per_session.authority_index_in_session(&authority(4)), None);
    assert_eq!(per_session.local_validator(), Some(v(2)));
    assert_eq!(per_session.discovery_keys().len(), 4);
    assert_eq!(per_session.groups().by_validator_index(v(3)), Some(GroupIndex(1)));
    assert!(!per_session.has_topology());
}

#[test]
fn authority_listed_twice_is_the_later_validator() {
    let mut info = session_info(plain_keys());
    info.discovery_keys = vec![authority(0), authority(1), authority(0)];
    let per_session = PerSessionState::new(info, None);
    assert_eq!(per_session.authority_index_in_session(&authority(0)), Some(v(2)));
    assert_eq!(per_session.authority_index_in_session(&authority(1)), Some(v(1)));
}

#[test]
fn local_validator_state_needs_a_group() {
    let per_session = PerSessionState::new(session_info(plain_keys()), None);
    let cores = vec![CoreState::Occupied(ParaId(8)), CoreState::Scheduled(ParaId(9))];
    let found = find_local_validator_state(
        v(3),
        per_session.validators(),
        per_session.groups(),
        &cores,
        4,
    )
    .expect("validator 3 is in group 1");
    assert_eq!(found.index, v(3));
    assert_eq!(found.group, GroupIndex(1));
    assert_eq!(found.assignment, Some(ParaId(9)));
    assert_eq!(found.cluster_tracker.targets(), &vec![v(3)]);
    assert_eq!(found.cluster_tracker.seconding_limit(), 4);
    // Not a validator of the session.
    assert!(find_local_validator_state(
        v(4),
        per_session.validators(),
        per_session.groups(),
        &cores,
        4
    )
    .is_none());
    // A validator whose signing key the session does not have.
    assert!(find_local_validator_state(v(3), &Vec::new(), per_session.groups(), &cores, 4).is_none());
    // A free core assigns nothing.
    let free = vec![CoreState::Free, CoreState::Free];
    let found =
        find_local_validator_state(v(0), per_session.validators(), per_session.groups(), &free, 4)
            .unwrap();
    assert_eq!(found.assignment, None);
    assert_eq!(CoreState::Occupied(ParaId(8)).para_id(), Some(ParaId(8)));
    assert_eq!(CoreState::Scheduled(ParaId(9)).para_id(), Some(ParaId(9)));
    assert_eq!(CoreState::Free.para_id(), None);
}

#[test]
fn cluster_forward_of_a_valid_statement() {
    let mut state = state(2);
    // We have received and recorded `Seconded` from validator 1.
    assert_eq!(
        state.receive_statement(peer(1), relay_parent(), seconded(1, 9), true),
        accepted(seconded(1, 9), 1, true, true, false)
    );
    assert_eq!(
        state.confirm_candidate(candidate(9), receipt(relay_parent()), pvd(), GroupIndex(0)),
        Some(PostConfirmationReckoning { correct: vec![peer(1)], incorrect: Vec::new() })
    );
    // Now we issue `Valid`.
    let shared = state.share_local_statement(relay_parent(), local_valid(0, 9));
    assert_eq!(
        shared,
        Ok(ShareOutcome {
            reckoning: None,
            messages: vec![
                // Validator 2 does not have the candidate: it gets the
                // `Seconded` statement of validator 1 first.
                message(&[2], seconded(1, 9)),
                // Validator 1 knows its own `Seconded`; both get `Valid`.
                message(&[1, 2], valid(0, 9)),
            ],
        })
    );
    assert_eq!(stored(&state), vec![checked(seconded(1, 9)), checked(valid(0, 9))]);
    assert_eq!(
        sent(&state),
        vec![
            Edge { peer: v(1), originator: v(0), statement: valid(0, 9).payload },
            Edge { peer: v(2), originator: v(1), statement: seconded(1, 9).payload },
            Edge { peer: v(2), originator: v(0), statement: valid(0, 9).payload },
        ]
    );
}

#[test]
fn statement_is_not_sent_twice() {
    let mut state = state(2);
    state.receive_statement(peer(1), relay_parent(), seconded(1, 9), true);
    let first = state.send_statement_direct(relay_parent(), checked(valid(0, 9)));
    assert_eq!(first, vec![message(&[2], seconded(1, 9)), message(&[1, 2], valid(0, 9))]);
    let second = state.send_statement_direct(relay_parent(), checked(valid(0, 9)));
    assert_eq!(second, Vec::new());
    assert_eq!(sent(&state).len(), 3);
}

#[test]
fn seconded_statement_needs_nothing_sent_ahead() {
    let mut state = state(2);
    let shared = state.share_local_statement(relay_parent(), local_seconded(0, 9));
    assert_eq!(
        shared,
        Ok(ShareOutcome {
            reckoning: Some(PostConfirmationReckoning {
                correct: Vec::new(),
                incorrect: Vec::new()
            }),
            messages: vec![message(&[1, 2], seconded(0, 9))],
        })
    );
    assert!(state.candidates().is_confirmed(&candidate(9)));
    assert_eq!(stored(&state), vec![checked(seconded(0, 9))]);
}

#[test]
fn excessive_seconded_from_a_peer() {
    let mut state = state(2);
    assert_eq!(
        state.receive_statement(peer(1), relay_parent(), seconded(1, 1), true),
        accepted(seconded(1, 1), 1, true, true, false)
    );
    assert_eq!(
        state.receive_statement(peer(1), relay_parent(), seconded(1, 2), true),
        accepted(seconded(1, 2), 1, true, true, false)
    );
    assert_eq!(
        state.receive_statement(peer(1), relay_parent(), seconded(1, 3), true),
        IncomingStatementOutcome::Reported(COST_EXCESSIVE_SECONDED)
    );
    assert_eq!(stored(&state), vec![checked(seconded(1, 1)), checked(seconded(1, 2))]);
    assert_eq!(received(&state).len(), 2);
}

#[test]
fn excessive_seconded_is_refused_by_the_store_under_a_wider_cluster_limit() {
    let mut state = state(5);
    state.receive_statement(peer(1), relay_parent(), seconded(1, 1), true);
    state.receive_statement(peer(1), relay_parent(), seconded(1, 2), true);
    assert_eq!(
        state.receive_statement(peer(1), relay_parent(), seconded(1, 3), true),
        IncomingStatementOutcome::Reported(COST_EXCESSIVE_SECONDED)
    );
    assert_eq!(stored(&state).len(), 2);
    // Nothing of the third statement was recorded.
    assert_eq!(received(&state).len(), 2);
    assert_eq!(state.candidates().advertisements().len(), 2);
    assert_eq!(state.request_manager().len(), 2);
}

#[test]
fn statement_at_an_unknown_relay_parent() {
    let mut state = state(2);
    assert_eq!(
        state.screen_incoming_statement(&peer(1), &hash(0xbb), &seconded(1, 1)),
        IncomingScreening::Report(COST_UNEXPECTED_STATEMENT_MISSING_KNOWLEDGE)
    );
    assert_eq!(
        state.receive_statement(peer(1), hash(0xbb), seconded(1, 1), true),
        IncomingStatementOutcome::Reported(COST_UNEXPECTED_STATEMENT_MISSING_KNOWLEDGE)
    );
    assert!(state.relay_parent_state(&hash(0xbb)).is_none());
    assert!(stored(&state).is_empty());
    assert!(received(&state).is_empty());
    assert!(state.candidates().advertisements().is_empty());
    assert_eq!(state.request_manager().len(), 0);
}

#[test]
fn statement_with_a_bad_signature() {
    let mut state = state(2);
    assert_eq!(
        state.screen_incoming_statement(&peer(1), &relay_parent(), &seconded(1, 1)),
        IncomingScreening::Pass(v(1))
    );
    assert_eq!(
        state.receive_statement(peer(1), relay_parent(), seconded(1, 1), false),
        IncomingStatementOutcome::Reported(COST_INVALID_SIGNATURE)
    );
    assert!(stored(&state).is_empty());
    assert!(received(&state).is_empty());
    assert!(state.candidates().advertisements().is_empty());
    assert_eq!(state.request_manager().len(), 0);
}

#[test]
fn statement_from_a_peer_that_is_not_connected_is_ignored() {
    let mut state = state(2);
    assert_eq!(
        state.receive_statement(PeerId([1; 32]), relay_parent(), seconded(1, 1), true),
        IncomingStatementOutcome::Ignored
    );
    assert!(stored(&state).is_empty());
}

#[test]
fn statement_from_a_peer_that_is_no_cluster_member_is_unexpected() {
    let mut state = state(2);
    connect(&mut state, 3);
    assert_eq!(
        state.receive_statement(peer(3), relay_parent(), seconded(3, 1), true),
        IncomingStatementOutcome::Reported(COST_UNEXPECTED_STATEMENT)
    );
    // A peer without authority identities speaks for nobody.
    state.handle_network_update(NetworkBridgeEvent::PeerConnected(
        PeerId([1; 32]),
        VSTAGING_VERSION,
        None,
    ));
    assert_eq!(
        state.receive_statement(PeerId([1; 32]), relay_parent(), seconded(1, 1), true),
        IncomingStatementOutcome::Reported(COST_UNEXPECTED_STATEMENT)
    );
    assert!(stored(&state).is_empty());
}

#[test]
fn statement_is_unexpected_where_we_are_no_validator() {
    let mut state = State::new(16);
    state.handle_activated_leaf(relay_parent(), Vec::new());
    state.note_session(SESSION, session_info(plain_keys()), None);
    assert!(state.note_relay_parent(relay_parent(), SESSION, &Vec::new(), 2));
    connect(&mut state, 1);
    assert!(state.relay_parent_state(&relay_parent()).unwrap().local_validator.is_none());
    assert_eq!(
        state.receive_statement(peer(1), relay_parent(), seconded(1, 1), true),
        IncomingStatementOutcome::Reported(COST_UNEXPECTED_STATEMENT)
    );
}

#[test]
fn valid_statement_about_an_unknown_candidate_is_unexpected() {
    let mut state = state(2);
    assert_eq!(
        state.receive_statement(peer(1), relay_parent(), valid(1, 1), true),
        IncomingStatementOutcome::Reported(COST_UNEXPECTED_STATEMENT)
    );
    assert!(stored(&state).is_empty());
}

#[test]
fn replayed_statement_changes_nothing_and_is_reported() {
    let mut state = state(2);
    let first = state.receive_statement(peer(1), relay_parent(), seconded(1, 1), true);
    assert_eq!(first, accepted(seconded(1, 1), 1, true, true, false));
    let stored_once = stored(&state);
    let received_once = received(&state);
    let advertised_once = state.candidates().advertisements();
    let requested_once = state.request_manager().identifiers();
    let second = state.receive_statement(peer(1), relay_parent(), seconded(1, 1), true);
    assert_eq!(second, IncomingStatementOutcome::Reported(COST_UNEXPECTED_STATEMENT));
    assert_eq!(stored(&state), stored_once);
    assert_eq!(received(&state), received_once);
    assert_eq!(state.candidates().advertisements(), advertised_once);
    assert_eq!(state.request_manager().identifiers(), requested_once);
    assert_eq!(stored_once.len(), 1);
}

#[test]
fn statement_passed_on_by_another_member_is_redundant() {
    let mut state = state(2);
    state.receive_statement(peer(1), relay_parent(), seconded(1, 1), true);
    assert_eq!(
        state.receive_statement(peer(2), relay_parent(), seconded(1, 1), true),
        accepted(seconded(1, 1), 2, false, true, false)
    );
    assert_eq!(stored(&state).len(), 1);
    assert_eq!(received(&state).len(), 2);
    assert_eq!(
        state.request_manager().get(relay_parent(), candidate(1)),
        Some(RequestEntry {
            group: GroupIndex(0),
            peers: vec![peer(1), peer(2)],
            cluster_priority: true,
            in_flight: None,
            failures: 0,
        })
    );
}

#[test]
fn accepted_statement_is_advertised_and_requested() {
    let mut state = state(2);
    state.receive_statement(peer(1), relay_parent(), seconded(1, 1), true);
    assert!(state.candidates().is_unconfirmed(&candidate(1)));
    assert_eq!(
        state.request_manager().identifiers(),
        vec![CandidateIdentifier { relay_parent: relay_parent(), candidate_hash: candidate(1) }]
    );
    let per_relay_parent = state.relay_parent_state(&relay_parent()).unwrap();
    assert_eq!(
        per_relay_parent.validator_state(v(1)),
        Some(PerRelayParentValidatorState { seconded_count: 1, group_id: GroupIndex(0) })
    );
    assert_eq!(per_relay_parent.validator_state(v(2)), None);
}

#[test]
fn statement_about_a_confirmed_candidate_is_not_requested() {
    let mut state = state(2);
    state.confirm_candidate(candidate(1), receipt(relay_parent()), pvd(), GroupIndex(0));
    assert_eq!(
        state.receive_statement(peer(1), relay_parent(), seconded(1, 1), true),
        accepted(seconded(1, 1), 1, true, false, false)
    );
    assert_eq!(state.request_manager().len(), 0);
}

#[test]
fn advertisement_against_the_confirmed_group_is_flagged() {
    let mut state = state(2);
    state.confirm_candidate(candidate(1), receipt(relay_parent()), pvd(), GroupIndex(1));
    assert_eq!(
        state.receive_statement(peer(1), relay_parent(), seconded(1, 1), true),
        IncomingStatementOutcome::Accepted(AcceptedStatement {
            statement: checked(seconded(1, 1)),
            sender: v(1),
            group: GroupIndex(0),
            fresh: true,
            bad_advertisement: true,
            requested: false,
            backed: false,
        })
    );
    assert_eq!(state.request_manager().len(), 0);
}

#[test]
fn second_statement_on_a_candidate_backs_it() {
    let mut state = state(2);
    state.receive_statement(peer(1), relay_parent(), seconded(1, 1), true);
    assert_eq!(
        state.receive_statement(peer(1), relay_parent(), seconded(2, 1), true),
        accepted(seconded(2, 1), 1, true, true, true)
    );
    let per_relay_parent = state.relay_parent_state(&relay_parent()).unwrap();
    let per_session = state.session_state(SESSION).unwrap();
    assert!(per_relay_parent.is_backed(per_session.groups(), GroupIndex(0), candidate(1)));
    assert!(!per_relay_parent.is_backed(per_session.groups(), GroupIndex(0), candidate(2)));
    assert!(!per_relay_parent.is_backed(per_session.groups(), GroupIndex(1), candidate(1)));
    assert!(!per_relay_parent.is_backed(per_session.groups(), GroupIndex(9), candidate(1)));
}

#[test]
fn statement_goes_only_to_peers_that_know_the_relay_parent() {
    let mut state = state(2);
    // The peer of validator 2 changes its view to another head.
    state.handle_network_update(NetworkBridgeEvent::PeerViewChange(peer(2), vec![hash(1)]));
    let shared = state.share_local_statement(relay_parent(), local_seconded(0, 9)).unwrap();
    assert_eq!(shared.messages, vec![message(&[1], seconded(0, 9))]);
    // A peer that has disconnected gets nothing either.
    state.handle_network_update(NetworkBridgeEvent::PeerDisconnected(peer(1)));
    let shared = state.share_local_statement(relay_parent(), local_seconded(0, 8)).unwrap();
    assert_eq!(shared.messages, Vec::new());
    assert_eq!(stored(&state).len(), 2);
}

#[test]
fn valid_statement_without_a_seconded_one_is_not_circulated() {
    let mut state = state(2);
    let messages = state.send_statement_direct(relay_parent(), checked(valid(0, 9)));
    assert_eq!(messages, Vec::new());
    assert!(sent(&state).is_empty());
}

#[test]
fn circulation_at_an_unknown_relay_parent_sends_nothing() {
    let mut state = state(2);
    assert_eq!(state.send_statement_direct(hash(1), checked(seconded(0, 9))), Vec::new());
    assert!(sent(&state).is_empty());
}

#[test]
fn sendable_seconded_statement_comes_from_the_store() {
    let mut state = state(2);
    state.receive_statement(peer(1), relay_parent(), seconded(1, 9), true);
    let per_relay_parent = state.relay_parent_state(&relay_parent()).unwrap();
    let tracker = &per_relay_parent.local_validator.as_ref().unwrap().cluster_tracker;
    assert_eq!(
        cluster_sendable_seconded_statement(tracker, &per_relay_parent.statement_store, candidate(9)),
        Some(checked(seconded(1, 9)))
    );
    assert_eq!(
        cluster_sendable_seconded_statement(tracker, &per_relay_parent.statement_store, candidate(8)),
        None
    );
}

#[test]
fn connected_validator_peer_goes_by_the_discovery_key() {
    let state = state(2);
    let keys: Vec<AuthorityDiscoveryId> = (0..4).map(authority).collect();
    assert_eq!(connected_validator_peer(state.peers(), &keys, v(1)), Some(peer(1)));
    assert_eq!(connected_validator_peer(state.peers(), &keys, v(3)), None);
    assert_eq!(connected_validator_peer(state.peers(), &keys, v(9)), None);
}

#[test]
fn share_of_a_statement_that_is_not_ours_is_invalid() {
    let mut state = state(2);
    assert_eq!(
        state.share_local_statement(relay_parent(), local_seconded(1, 9)),
        Err(JfyiError::InvalidShare)
    );
    assert!(stored(&state).is_empty());
    assert!(!state.candidates().is_confirmed(&candidate(9)));
}

#[test]
fn share_at_an_unknown_relay_parent_is_invalid() {
    let mut state = state(2);
    assert_eq!(
        state.share_local_statement(hash(1), local_seconded(0, 9)),
        Err(JfyiError::InvalidShare)
    );
}

#[test]
fn share_of_a_candidate_of_another_parachain_is_invalid() {
    let mut state = state(2);
    let mut statement = local_seconded(0, 9);
    statement.payload = StatementWithPVD::Seconded(
        candidate(9),
        CommittedCandidateReceipt { para_id: ParaId(6), relay_parent: relay_parent(), encoded: vec![] },
        pvd(),
    );
    assert_eq!(state.share_local_statement(relay_parent(), statement), Err(JfyiError::InvalidShare));
    assert!(!state.candidates().is_confirmed(&candidate(9)));
}

#[test]
fn share_of_a_candidate_at_another_relay_parent_is_invalid() {
    let mut state = state(2);
    let mut statement = local_seconded(0, 9);
    statement.payload = StatementWithPVD::Seconded(candidate(9), receipt(hash(1)), pvd());
    assert_eq!(state.share_local_statement(relay_parent(), statement), Err(JfyiError::InvalidShare));
}

#[test]
fn share_of_valid_about_an_unconfirmed_candidate_is_invalid() {
    let mut state = state(2);
    assert_eq!(
        state.share_local_statement(relay_parent(), local_valid(0, 9)),
        Err(JfyiError::InvalidShare)
    );
}

#[test]
fn share_of_a_known_statement_is_invalid() {
    let mut state = state(2);
    assert!(state.share_local_statement(relay_parent(), local_seconded(0, 9)).is_ok());
    assert_eq!(
        state.share_local_statement(relay_parent(), local_seconded(0, 9)),
        Err(JfyiError::InvalidShare)
    );
    assert_eq!(stored(&state).len(), 1);
}

#[test]
fn share_of_a_third_seconded_statement_is_invalid() {
    let mut state = state(5);
    assert!(state.share_local_statement(relay_parent(), local_seconded(0, 1)).is_ok());
    assert!(state.share_local_statement(relay_parent(), local_seconded(0, 2)).is_ok());
    assert_eq!(
        state.share_local_statement(relay_parent(), local_seconded(0, 3)),
        Err(JfyiError::InvalidShare)
    );
    assert!(!state.candidates().is_confirmed(&candidate(3)));
    assert_eq!(stored(&state).len(), 2);
}

#[test]
fn share_confirms_the_candidate_and_reckons() {
    let mut state = state(2);
    state.receive_statement(peer(1), relay_parent(), seconded(1, 9), true);
    assert_eq!(state.request_manager().len(), 1);
    let shared = state.share_local_statement(relay_parent(), local_seconded(0, 9)).unwrap();
    assert_eq!(
        shared.reckoning,
        Some(PostConfirmationReckoning { correct: vec![peer(1)], incorrect: Vec::new() })
    );
    assert_eq!(state.request_manager().len(), 0);
    assert!(state.candidates().advertisements().is_empty());
    let confirmed = state.candidates().get_confirmed(&candidate(9)).unwrap();
    assert_eq!(confirmed.group_index(), GroupIndex(0));
    assert_eq!(confirmed.receipt, receipt(relay_parent()));
}

#[test]
fn peer_of_another_protocol_version_is_passed_over() {
    let mut state = State::new(16);
    let outcome = state.handle_network_update(NetworkBridgeEvent::PeerConnected(
        peer(1),
        1,
        Some(vec![authority(1)]),
    ));
    assert_eq!(outcome, NetworkUpdateOutcome::Done);
    assert!(state.peers().get(&peer(1)).is_none());
    assert_eq!(state.peers().peer_of_authority(&authority(1)), None);
}

#[test]
fn duplicate_authority_identity_on_connect() {
    let mut state = State::new(16);
    let first = PeerId([1; 32]);
    let second = PeerId([2; 32]);
    let third = PeerId([3; 32]);
    let a = authority(0);
    let connected = |p: PeerId| NetworkBridgeEvent::PeerConnected(p, VSTAGING_VERSION, Some(vec![a]));
    state.handle_network_update(connected(first));
    state.handle_network_update(connected(second));
    assert_eq!(state.peers().get(&second).unwrap().discovery_ids, Some(Vec::new()));
    assert_eq!(state.peers().get(&first).unwrap().discovery_ids, Some(vec![a]));
    assert_eq!(state.peers().peer_of_authority(&a), Some(first));
    state.handle_network_update(NetworkBridgeEvent::PeerDisconnected(first));
    assert_eq!(state.peers().peer_of_authority(&a), None);
    state.handle_network_update(connected(third));
    assert_eq!(state.peers().peer_of_authority(&a), Some(third));
    assert_eq!(state.peers().get(&third).unwrap().discovery_ids, Some(vec![a]));
}

#[test]
fn legacy_and_grid_messages_change_nothing() {
    let mut state = state(2);
    let manifest = BackedCandidateManifest {
        relay_parent: relay_parent(),
        candidate_hash: candidate(1),
        group_index: GroupIndex(0),
    };
    let messages = [
        (StatementDistributionMessage::V1, NetworkUpdateOutcome::Done),
        (
            StatementDistributionMessage::VStaging(VStagingMessage::V1Compatibility),
            NetworkUpdateOutcome::Done,
        ),
        (
            StatementDistributionMessage::VStaging(VStagingMessage::BackedCandidateManifest(manifest)),
            NetworkUpdateOutcome::ForGrid,
        ),
        (
            StatementDistributionMessage::VStaging(VStagingMessage::BackedCandidateKnown(
                relay_parent(),
                candidate(1),
            )),
            NetworkUpdateOutcome::ForGrid,
        ),
    ];
    for (message, expected) in messages {
        let outcome = state.handle_network_update(NetworkBridgeEvent::PeerMessage(peer(1), message));
        assert_eq!(outcome, expected);
    }
    assert_eq!(
        state.handle_network_update(NetworkBridgeEvent::OurViewChange(vec![hash(1)])),
        NetworkUpdateOutcome::Done
    );
    assert!(stored(&state).is_empty());
    assert!(state.candidates().advertisements().is_empty());
}

#[test]
fn gossip_topology_is_installed_for_a_known_session() {
    let mut state = state(2);
    let topology = SessionGridTopology {
        shuffled_indices: vec![1, 0, 2, 3],
        canonical_shuffling: vec![v(1), v(0), v(2), v(3)],
    };
    assert!(!state.session_state(SESSION).unwrap().has_topology());
    state.handle_network_update(NetworkBridgeEvent::NewGossipTopology(SESSION + 1, topology.clone()));
    assert!(!state.session_state(SESSION).unwrap().has_topology());
    assert!(state.session_state(SESSION + 1).is_none());
    state.handle_network_update(NetworkBridgeEvent::NewGossipTopology(SESSION, topology));
    let per_session = state.session_state(SESSION).unwrap();
    assert!(per_session.has_topology());
    assert_eq!(per_session.validators(), &plain_keys());
    assert_eq!(per_session.local_validator(), Some(v(0)));
}

#[test]
fn leaf_deactivation_cleanup() {
    let mut state = State::new(16);
    let l1 = hash(1);
    let l2 = hash(2);
    let r = hash(3);
    let mut fresh = state.handle_activated_leaf(l1, vec![r]);
    fresh.sort_by_key(|h| h.0);
    assert_eq!(fresh, vec![l1, r]);
    state.note_session(SESSION, session_info(plain_keys()), Some(v(0)));
    state.note_session(SESSION + 1, session_info(plain_keys()), Some(v(0)));
    let cores = vec![CoreState::Scheduled(PARA)];
    assert!(state.note_relay_parent(l1, SESSION + 1, &cores, 2));
    assert!(state.note_relay_parent(r, SESSION, &cores, 2));
    // The second leaf shares the ancestor, for which state is kept already.
    assert_eq!(state.handle_activated_leaf(l2, vec![r]), vec![l2]);
    assert!(state.note_relay_parent(l2, SESSION, &cores, 2));
    state.handle_network_update(NetworkBridgeEvent::PeerConnected(
        peer(1),
        VSTAGING_VERSION,
        Some(vec![authority(1)]),
    ));
    state.handle_network_update(NetworkBridgeEvent::PeerViewChange(peer(1), vec![l1, l2]));
    assert_eq!(
        state.receive_statement(peer(1), r, seconded(1, 7), true),
        IncomingStatementOutcome::Accepted(AcceptedStatement {
            statement: checked(seconded(1, 7)),
            sender: v(1),
            group: GroupIndex(0),
            fresh: true,
            bad_advertisement: false,
            requested: true,
            backed: false,
        })
    );
    state.receive_statement(peer(1), l1, seconded(1, 8), true);
    state.confirm_candidate(candidate(6), receipt(l1), pvd(), GroupIndex(0));
    state.confirm_candidate(candidate(5), receipt(r), pvd(), GroupIndex(0));
    assert_eq!(state.request_manager().len(), 2);

    state.handle_deactivate_leaf(l1);
    // The other leaf still admits the ancestor.
    assert!(state.relay_parent_state(&l1).is_none());
    assert!(state.relay_parent_state(&r).is_some());
    assert!(state.relay_parent_state(&l2).is_some());
    assert_eq!(state.relay_parent_state(&r).unwrap().statement_store.len(), 1);
    assert!(!state.knows_session(SESSION + 1));
    assert!(state.knows_session(SESSION));
    assert_eq!(
        state.request_manager().identifiers(),
        vec![CandidateIdentifier { relay_parent: r, candidate_hash: candidate(7) }]
    );
    assert!(state.candidates().is_unconfirmed(&candidate(7)));
    assert!(!state.candidates().is_unconfirmed(&candidate(8)));
    assert!(!state.candidates().is_confirmed(&candidate(6)));
    assert!(state.candidates().is_confirmed(&candidate(5)));
    assert!(!state.implicit_view().is_active(&l1));
    assert!(state.implicit_view().is_active(&l2));

    state.handle_deactivate_leaf(l2);
    assert!(state.relay_parent_state(&r).is_none());
    assert!(state.relay_parent_state(&l2).is_none());
    assert!(!state.knows_session(SESSION));
    assert_eq!(state.request_manager().len(), 0);
    assert!(!state.candidates().is_unconfirmed(&candidate(7)));
    assert!(!state.candidates().is_confirmed(&candidate(5)));
    assert!(state.implicit_view().all_allowed_relay_parents().is_empty());
    // The peers stay.
    assert!(state.peers().get(&peer(1)).is_some());
}

#[test]
fn deactivating_a_leaf_that_is_not_active_changes_nothing() {
    let mut state = state(2);
    state.receive_statement(peer(1), relay_parent(), seconded(1, 7), true);
    state.handle_deactivate_leaf(hash(1));
    assert!(state.relay_parent_state(&relay_parent()).is_some());
    assert!(state.knows_session(SESSION));
    assert_eq!(stored(&state).len(), 1);
    assert_eq!(state.request_manager().len(), 1);
}

/// A keystore with one key, and that key.
fn keystore_with_key() -> (KeystorePtr, polkadot_primitives::ValidatorId) {
    let keystore: KeystorePtr = Arc::new(MemoryKeystore::new());
    let public = keystore
        .sr25519_generate_new(polkadot_primitives::PARACHAIN_KEY_TYPE_ID, Some("//Bob"))
        .expect("the keystore makes a key");
    (keystore, public.into())
}

/// `Seconded(candidate)` signed by validator 1 with the key in the keystore,
/// in the context of a session and a relay-parent.
fn really_signed(
    keystore: &KeystorePtr,
    key: &polkadot_primitives::ValidatorId,
    session: u32,
    relay_parent: statement_distribution::primitives::Hash,
    byte: u8,
) -> UncheckedSignedStatement {
    let context = SigningContext {
        session_index: session,
        parent_hash: polkadot_primitives::Hash::from(relay_parent.0),
    };
    let payload = polkadot_primitives::CompactStatement::Seconded(polkadot_primitives::CandidateHash(
        polkadot_primitives::Hash::from([byte; 32]),
    ));
    let signed = Signed::sign(keystore, payload, &context, polkadot_primitives::ValidatorIndex(1), key)
        .expect("the keystore signs")
        .expect("the key is in the keystore");
    let mut signature = [0u8; 64];
    signature.copy_from_slice(signed.signature().as_ref());
    UncheckedSignedStatement {
        payload: CompactStatement::Seconded(candidate(byte)),
        validator_index: v(1),
        signature: ValidatorSignature(signature),
    }
}

fn state_with_real_key(key: &polkadot_primitives::ValidatorId) -> State {
    let mut keys = plain_keys();
    let mut raw = [0u8; 32];
    raw.copy_from_slice(key.as_ref());
    keys[1] = ValidatorId(raw);
    state_with_keys(keys, 2)
}

#[test]
fn statement_with_a_good_signature_is_taken() {
    let (keystore, key) = keystore_with_key();
    let mut state = state_with_real_key(&key);
    let statement = really_signed(&keystore, &key, SESSION, relay_parent(), 9);
    let outcome = state.handle_incoming_statement(peer(1), relay_parent(), statement);
    assert_eq!(outcome, accepted(statement, 1, true, true, false));
    assert_eq!(stored(&state), vec![checked(statement)]);
}

#[test]
fn statement_signed_for_another_relay_parent_is_refused() {
    let (keystore, key) = keystore_with_key();
    let mut state = state_with_real_key(&key);
    let statement = really_signed(&keystore, &key, SESSION, hash(1), 9);
    let outcome = state.handle_incoming_statement(peer(1), relay_parent(), statement);
    assert_eq!(outcome, IncomingStatementOutcome::Reported(COST_INVALID_SIGNATURE));
    assert!(stored(&state).is_empty());
    assert!(received(&state).is_empty());
}

#[test]
fn statement_signed_for_another_session_is_refused() {
    let (keystore, key) = keystore_with_key();
    let mut state = state_with_real_key(&key);
    let statement = really_signed(&keystore, &key, SESSION + 1, relay_parent(), 9);
    let outcome = state.handle_network_update(NetworkBridgeEvent::PeerMessage(
        peer(1),
        StatementDistributionMessage::VStaging(VStagingMessage::Statement(relay_parent(), statement)),
    ));
    assert_eq!(
        outcome,
        NetworkUpdateOutcome::Statement(IncomingStatementOutcome::Reported(COST_INVALID_SIGNATURE))
    );
    assert!(stored(&state).is_empty());
}

#[test]
fn statement_from_the_network_is_checked_and_taken() {
    let (keystore, key) = keystore_with_key();
    let mut state = state_with_real_key(&key);
    let statement = really_signed(&keystore, &key, SESSION, relay_parent(), 9);
    let event = NetworkBridgeEvent::PeerMessage(
        peer(1),
        StatementDistributionMessage::VStaging(VStagingMessage::Statement(relay_parent(), statement)),
    );
    assert_eq!(
        state.handle_network_update(event.clone()),
        NetworkUpdateOutcome::Statement(accepted(statement, 1, true, true, false))
    );
    // The same message again: one report, and nothing changes.
    assert_eq!(
        state.handle_network_update(event),
        NetworkUpdateOutcome::Statement(IncomingStatementOutcome::Reported(
            COST_UNEXPECTED_STATEMENT
        ))
    );
    assert_eq!(stored(&state), vec![checked(statement)]);
    assert_eq!(received(&state).len(), 1);
}

#[test]
fn unsigned_statement_is_screened_before_its_signature_counts() {
    let (_, key) = keystore_with_key();
    let mut state = state_with_real_key(&key);
    // The screening refuses this one; its bad signature is not even looked at.
    assert_eq!(
        state.handle_incoming_statement(peer(1), relay_parent(), valid(1, 9)),
        IncomingStatementOutcome::Reported(COST_UNEXPECTED_STATEMENT)
    );
    // This one passes the screening and fails on its signature.
    assert_eq!(
        state.handle_incoming_statement(peer(1), relay_parent(), seconded(1, 9)),
        IncomingStatementOutcome::Reported(COST_INVALID_SIGNATURE)
    );
}

#[test]
fn grid_targets_leave_out_the_cluster_and_the_unreachable() {
    let mut state = state(2);
    connect(&mut state, 3);
    // Validator 3 is no member of our cluster and its peer knows the
    // relay-parent; validators 1 and 2 are cluster members; validator 0 is
    // us; validator 9 is nobody.
    let proposed = vec![v(2), v(3), v(0), v(9), v(3), v(1)];
    assert_eq!(state.grid_targets(relay_parent(), &proposed), vec![(v(3), peer(3))]);
    assert_eq!(state.grid_targets(hash(1), &proposed), Vec::new());
    // A peer that does not know the relay-parent is no target.
    state.handle_network_update(NetworkBridgeEvent::PeerViewChange(peer(3), Vec::new()));
    assert_eq!(state.grid_targets(relay_parent(), &proposed), Vec::new());
}
