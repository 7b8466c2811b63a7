use statement_distribution::groups::Groups;
use statement_distribution::minimum_votes;
use statement_distribution::primitives::{AuthorityDiscoveryId, GroupIndex, ValidatorIndex};
use statement_distribution::reputation::{
    Rep, RepKind, BENEFIT_VALID_RESPONSE, BENEFIT_VALID_STATEMENT, COST_EXCESSIVE_SECONDED,
    COST_IMPROPERLY_DECODED_RESPONSE, COST_INVALID_RESPONSE, COST_INVALID_SIGNATURE,
    COST_UNEXPECTED_STATEMENT, COST_UNEXPECTED_STATEMENT_MISSING_KNOWLEDGE,
    COST_UNEXPECTED_STATEMENT_REMOTE, COST_UNEXPECTED_STATEMENT_UNKNOWN_CANDIDATE,
    COST_UNREQUESTED_RESPONSE_STATEMENT,
};

fn keys(n: u8) -> Vec<AuthorityDiscoveryId> {
    (0..n).map(|i| AuthorityDiscoveryId([i; 32])).collect()
}

fn group(members: &[u32]) -> Vec<ValidatorIndex> {
    members.iter().map(|v| ValidatorIndex(*v)).collect()
}

#[test]
fn minimum_votes_is_two_or_the_group_size() {
    assert_eq!(minimum_votes(0), 0);
    assert_eq!(minimum_votes(1), 1);
    assert_eq!(minimum_votes(2), 2);
    assert_eq!(minimum_votes(3), 2);
    assert_eq!(minimum_votes(1000), 2);
    assert_eq!(minimum_votes(usize::MAX), 2);
}

#[test]
fn groups_invert_the_assignment() {
    let groups = Groups::new(vec![group(&[0, 1, 2]), group(&[3, 4]), group(&[5])], &keys(7));
    assert_eq!(groups.by_validator_index(ValidatorIndex(0)), Some(GroupIndex(0)));
    assert_eq!(groups.by_validator_index(ValidatorIndex(2)), Some(GroupIndex(0)));
    assert_eq!(groups.by_validator_index(ValidatorIndex(3)), Some(GroupIndex(1)));
    assert_eq!(groups.by_validator_index(ValidatorIndex(4)), Some(GroupIndex(1)));
    assert_eq!(groups.by_validator_index(ValidatorIndex(5)), Some(GroupIndex(2)));
    assert_eq!(groups.validator_count(), 7);
}

#[test]
fn spare_validator_has_no_group() {
    let groups = Groups::new(vec![group(&[0, 1]), group(&[2])], &keys(4));
    assert_eq!(groups.by_validator_index(ValidatorIndex(3)), None);
    assert_eq!(groups.by_validator_index(ValidatorIndex(99)), None);
}

#[test]
fn groups_are_kept_in_order() {
    let groups = Groups::new(vec![group(&[2, 0]), group(&[1])], &keys(3));
    assert_eq!(groups.all(), &vec![group(&[2, 0]), group(&[1])]);
    assert_eq!(groups.get(GroupIndex(0)), Some(&group(&[2, 0])));
    assert_eq!(groups.get(GroupIndex(1)), Some(&group(&[1])));
    assert_eq!(groups.get(GroupIndex(2)), None);
}

#[test]
fn validator_listed_twice_belongs_to_the_last_group() {
    let groups = Groups::new(vec![group(&[0, 1]), group(&[1, 2])], &keys(3));
    assert_eq!(groups.by_validator_index(ValidatorIndex(1)), Some(GroupIndex(1)));
    assert_eq!(groups.by_validator_index(ValidatorIndex(0)), Some(GroupIndex(0)));
}

#[test]
fn no_groups_no_members() {
    let groups = Groups::new(Vec::new(), &keys(2));
    assert!(groups.all().is_empty());
    assert_eq!(groups.by_validator_index(ValidatorIndex(0)), None);
    assert_eq!(groups.get(GroupIndex(0)), None);
}

#[test]
fn reputation_changes_have_their_weight() {
    let minor = [
        COST_UNEXPECTED_STATEMENT,
        COST_UNEXPECTED_STATEMENT_MISSING_KNOWLEDGE,
        COST_UNEXPECTED_STATEMENT_UNKNOWN_CANDIDATE,
        COST_UNEXPECTED_STATEMENT_REMOTE,
        COST_EXCESSIVE_SECONDED,
    ];
    for rep in minor {
        assert_eq!(rep.kind(), RepKind::CostMinor);
        assert!(rep.is_cost());
    }
    let major = [
        COST_INVALID_SIGNATURE,
        COST_IMPROPERLY_DECODED_RESPONSE,
        COST_INVALID_RESPONSE,
        COST_UNREQUESTED_RESPONSE_STATEMENT,
    ];
    for rep in major {
        assert_eq!(rep.kind(), RepKind::CostMajor);
        assert!(rep.is_cost());
    }
    for rep in [BENEFIT_VALID_RESPONSE, BENEFIT_VALID_STATEMENT] {
        assert_eq!(rep.kind(), RepKind::BenefitMajor);
        assert!(!rep.is_cost());
    }
}

#[test]
fn reputation_changes_have_their_words() {
    assert_eq!(Rep::UnexpectedStatement.description(), "Unexpected Statement");
    assert_eq!(
        COST_UNEXPECTED_STATEMENT_MISSING_KNOWLEDGE.description(),
        "Unexpected Statement, missing knowlege for relay parent"
    );
    assert_eq!(COST_EXCESSIVE_SECONDED.description(), "Sent Excessive `Seconded` Statements");
    assert_eq!(COST_INVALID_SIGNATURE.description(), "Invalid Statement Signature");
    assert_eq!(BENEFIT_VALID_STATEMENT.description(), "Peer provided a valid statement");
}
