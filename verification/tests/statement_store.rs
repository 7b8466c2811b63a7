use statement_distribution::groups::Groups;
use statement_distribution::primitives::{
    AuthorityDiscoveryId, CandidateHash, CompactStatement, GroupIndex, SignedStatement,
    UncheckedSignedStatement, ValidatorIndex, ValidatorSignature,
};
use statement_distribution::statement_store::{
    StatementStore, StatementStoreError, MAX_SECONDED_PER_VALIDATOR,
};

fn candidate(byte: u8) -> CandidateHash {
    CandidateHash(statement_distribution::primitives::Hash([byte; 32]))
}

fn signed(validator: u32, payload: CompactStatement) -> SignedStatement {
    SignedStatement {
        unchecked: UncheckedSignedStatement {
            payload,
            validator_index: ValidatorIndex(validator),
            signature: ValidatorSignature([validator as u8; 64]),
        },
    }
}

fn seconded(validator: u32, byte: u8) -> SignedStatement {
    signed(validator, CompactStatement::Seconded(candidate(byte)))
}

fn valid(validator: u32, byte: u8) -> SignedStatement {
    signed(validator, CompactStatement::Valid(candidate(byte)))
}

/// Validators 0, 1, 2 in group 0, validators 3, 4 in group 1, validator 5 in
/// no group; six validators in all.
fn groups() -> Groups {
    let keys: Vec<AuthorityDiscoveryId> = (0..6).map(|i| AuthorityDiscoveryId([i; 32])).collect();
    Groups::new(
        vec![
            vec![ValidatorIndex(0), ValidatorIndex(1), ValidatorIndex(2)],
            vec![ValidatorIndex(3), ValidatorIndex(4)],
        ],
        &keys,
    )
}

#[test]
fn store_tells_fresh_from_redundant() {
    let groups = groups();
    let mut store = StatementStore::new();
    assert_eq!(store.insert(&groups, seconded(0, 1)), Ok(true));
    assert_eq!(store.insert(&groups, seconded(0, 1)), Ok(false));
    assert_eq!(store.insert(&groups, valid(1, 1)), Ok(true));
    assert_eq!(store.insert(&groups, valid(1, 1)), Ok(false));
    assert_eq!(store.len(), 2);
    assert_eq!(store.statements(), vec![seconded(0, 1), valid(1, 1)]);
}

#[test]
fn store_takes_two_seconded_statements_of_a_validator_and_no_third() {
    let groups = groups();
    let mut store = StatementStore::new();
    assert_eq!(MAX_SECONDED_PER_VALIDATOR, 2);
    assert_eq!(store.insert(&groups, seconded(0, 1)), Ok(true));
    assert_eq!(store.insert(&groups, seconded(0, 2)), Ok(true));
    assert_eq!(store.insert(&groups, seconded(0, 3)), Err(StatementStoreError::ExcessiveSeconded));
    assert_eq!(store.seconded_count(ValidatorIndex(0)), 2);
    assert_eq!(store.len(), 2);
    // What the store has already is still redundant, not excessive.
    assert_eq!(store.insert(&groups, seconded(0, 2)), Ok(false));
    // The cap is per validator, and `Valid` statements do not count.
    assert_eq!(store.insert(&groups, seconded(1, 3)), Ok(true));
    assert_eq!(store.insert(&groups, valid(0, 3)), Ok(true));
    assert_eq!(store.insert(&groups, valid(0, 4)), Ok(true));
    assert_eq!(store.insert(&groups, valid(0, 5)), Ok(true));
    assert_eq!(store.seconded_count(ValidatorIndex(0)), 2);
    assert_eq!(store.seconded_count(ValidatorIndex(1)), 1);
}

#[test]
fn store_refuses_a_validator_outside_the_session() {
    let groups = groups();
    let mut store = StatementStore::new();
    assert_eq!(store.insert(&groups, seconded(6, 1)), Err(StatementStoreError::ValidatorUnknown));
    assert_eq!(store.insert(&groups, valid(700, 1)), Err(StatementStoreError::ValidatorUnknown));
    assert_eq!(store.len(), 0);
}

#[test]
fn store_refuses_a_validator_without_a_group() {
    let groups = groups();
    let mut store = StatementStore::new();
    assert_eq!(store.insert(&groups, seconded(5, 1)), Err(StatementStoreError::NotInAnyGroup));
    assert_eq!(store.len(), 0);
    assert_eq!(store.validator_group_index(ValidatorIndex(5)), None);
}

#[test]
fn store_hands_back_the_signed_statement() {
    let groups = groups();
    let mut store = StatementStore::new();
    store.insert(&groups, seconded(3, 7)).unwrap();
    assert_eq!(
        store.validator_statement(ValidatorIndex(3), CompactStatement::Seconded(candidate(7))),
        Some(seconded(3, 7))
    );
    assert_eq!(
        store.validator_statement(ValidatorIndex(3), CompactStatement::Valid(candidate(7))),
        None
    );
    assert_eq!(
        store.validator_statement(ValidatorIndex(4), CompactStatement::Seconded(candidate(7))),
        None
    );
}

#[test]
fn store_records_the_group_on_the_first_statement() {
    let groups = groups();
    let mut store = StatementStore::new();
    assert_eq!(store.validator_group_index(ValidatorIndex(4)), None);
    store.insert(&groups, valid(4, 1)).unwrap();
    assert_eq!(store.validator_group_index(ValidatorIndex(4)), Some(GroupIndex(1)));
    assert_eq!(store.validator_group_index(ValidatorIndex(3)), None);
    store.insert(&groups, seconded(0, 1)).unwrap();
    assert_eq!(store.validator_group_index(ValidatorIndex(0)), Some(GroupIndex(0)));
}

#[test]
fn store_lists_statements_by_candidate_and_by_group() {
    let groups = groups();
    let mut store = StatementStore::new();
    store.insert(&groups, seconded(0, 1)).unwrap();
    store.insert(&groups, seconded(3, 2)).unwrap();
    store.insert(&groups, valid(1, 1)).unwrap();
    store.insert(&groups, valid(4, 2)).unwrap();
    store.insert(&groups, valid(4, 1)).unwrap();
    assert_eq!(
        store.candidate_statements(candidate(1)),
        vec![seconded(0, 1), valid(1, 1), valid(4, 1)]
    );
    assert_eq!(store.candidate_statements(candidate(2)), vec![seconded(3, 2), valid(4, 2)]);
    assert_eq!(store.candidate_statements(candidate(3)), Vec::new());
    assert_eq!(
        store.group_statements(GroupIndex(0), candidate(1)),
        vec![seconded(0, 1), valid(1, 1)]
    );
    assert_eq!(store.group_statements(GroupIndex(1), candidate(1)), vec![valid(4, 1)]);
    assert_eq!(
        store.group_statements(GroupIndex(1), candidate(2)),
        vec![seconded(3, 2), valid(4, 2)]
    );
    assert_eq!(store.group_statements(GroupIndex(2), candidate(1)), Vec::new());
}
