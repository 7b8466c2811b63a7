use statement_distribution::candidates::{
    Advertisement, BadAdvertisement, Candidates, CommittedCandidateReceipt,
    PersistedValidationData, PostConfirmationReckoning,
};
use statement_distribution::primitives::{CandidateHash, GroupIndex, ParaId, PeerId};

fn hash(byte: u8) -> statement_distribution::primitives::Hash {
    statement_distribution::primitives::Hash([byte; 32])
}

fn candidate(byte: u8) -> CandidateHash {
    CandidateHash(hash(byte))
}

fn peer(byte: u8) -> PeerId {
    PeerId([byte; 32])
}

fn receipt(para: u32, relay_parent: u8) -> CommittedCandidateReceipt {
    CommittedCandidateReceipt {
        para_id: ParaId(para),
        relay_parent: hash(relay_parent),
        encoded: vec![1, 2, 3],
    }
}

fn pvd() -> PersistedValidationData {
    PersistedValidationData { encoded: vec![9, 9] }
}

fn ad(c: u8, p: u8, rp: u8, group: u32) -> Advertisement {
    Advertisement {
        candidate: candidate(c),
        peer: peer(p),
        relay_parent: hash(rp),
        group: GroupIndex(group),
        claim: None,
    }
}

#[test]
fn advertisement_makes_a_candidate_unconfirmed() {
    let mut candidates = Candidates::new(10);
    assert!(!candidates.is_unconfirmed(&candidate(1)));
    assert_eq!(
        candidates.insert_unconfirmed(peer(1), candidate(1), hash(7), GroupIndex(0), None),
        Ok(())
    );
    assert!(candidates.is_unconfirmed(&candidate(1)));
    assert!(!candidates.is_confirmed(&candidate(1)));
    assert!(candidates.get_confirmed(&candidate(1)).is_none());
    assert_eq!(candidates.advertisements(), vec![ad(1, 1, 7, 0)]);
}

#[test]
fn repeated_advertisement_is_kept_once() {
    let mut candidates = Candidates::new(1);
    for _ in 0..3 {
        assert_eq!(
            candidates.insert_unconfirmed(peer(1), candidate(1), hash(7), GroupIndex(0), None),
            Ok(())
        );
    }
    assert_eq!(candidates.advertisements(), vec![ad(1, 1, 7, 0)]);
}

#[test]
fn advertisement_beyond_the_budget_is_refused() {
    let mut candidates = Candidates::new(2);
    assert_eq!(
        candidates.insert_unconfirmed(peer(1), candidate(1), hash(7), GroupIndex(0), None),
        Ok(())
    );
    assert_eq!(
        candidates.insert_unconfirmed(peer(1), candidate(2), hash(7), GroupIndex(0), None),
        Ok(())
    );
    assert_eq!(
        candidates.insert_unconfirmed(peer(1), candidate(3), hash(7), GroupIndex(0), None),
        Err(BadAdvertisement)
    );
    // Another peer has a budget of its own.
    assert_eq!(
        candidates.insert_unconfirmed(peer(2), candidate(3), hash(7), GroupIndex(0), None),
        Ok(())
    );
    assert_eq!(candidates.advertisements(), vec![ad(1, 1, 7, 0), ad(2, 1, 7, 0), ad(3, 2, 7, 0)]);
}

#[test]
fn budget_of_zero_refuses_every_advertisement() {
    let mut candidates = Candidates::new(0);
    assert_eq!(
        candidates.insert_unconfirmed(peer(1), candidate(1), hash(7), GroupIndex(0), None),
        Err(BadAdvertisement)
    );
    assert!(candidates.advertisements().is_empty());
}

#[test]
fn confirmation_frees_the_budget() {
    let mut candidates = Candidates::new(1);
    candidates.insert_unconfirmed(peer(1), candidate(1), hash(7), GroupIndex(0), None).unwrap();
    assert_eq!(
        candidates.insert_unconfirmed(peer(1), candidate(2), hash(7), GroupIndex(0), None),
        Err(BadAdvertisement)
    );
    candidates.confirm_candidate(candidate(1), receipt(5, 7), pvd(), GroupIndex(0));
    assert_eq!(
        candidates.insert_unconfirmed(peer(1), candidate(2), hash(7), GroupIndex(0), None),
        Ok(())
    );
}

#[test]
fn advertisement_of_a_confirmed_candidate_must_name_its_group() {
    let mut candidates = Candidates::new(10);
    candidates.confirm_candidate(candidate(1), receipt(5, 7), pvd(), GroupIndex(2));
    assert_eq!(
        candidates.insert_unconfirmed(peer(1), candidate(1), hash(7), GroupIndex(2), None),
        Ok(())
    );
    assert_eq!(
        candidates.insert_unconfirmed(peer(1), candidate(1), hash(7), GroupIndex(3), None),
        Err(BadAdvertisement)
    );
    // Neither is recorded: the candidate stays confirmed and nothing else.
    assert!(candidates.advertisements().is_empty());
    assert!(!candidates.is_unconfirmed(&candidate(1)));
    assert!(candidates.is_confirmed(&candidate(1)));
}

#[test]
fn confirmation_reckons_with_the_advertisers() {
    let mut candidates = Candidates::new(10);
    candidates.insert_unconfirmed(peer(1), candidate(1), hash(7), GroupIndex(0), None).unwrap();
    candidates.insert_unconfirmed(peer(2), candidate(1), hash(7), GroupIndex(1), None).unwrap();
    candidates.insert_unconfirmed(peer(3), candidate(2), hash(7), GroupIndex(1), None).unwrap();
    candidates.insert_unconfirmed(peer(4), candidate(1), hash(7), GroupIndex(0), None).unwrap();
    candidates.insert_unconfirmed(peer(5), candidate(1), hash(8), GroupIndex(3), None).unwrap();
    let reckoning = candidates.confirm_candidate(candidate(1), receipt(5, 7), pvd(), GroupIndex(0));
    assert_eq!(
        reckoning,
        Some(PostConfirmationReckoning {
            correct: vec![peer(1), peer(4)],
            incorrect: vec![peer(2), peer(5)],
        })
    );
    // The advertisements of the candidate are gone, the others stay.
    assert_eq!(candidates.advertisements(), vec![ad(2, 3, 7, 1)]);
    assert!(candidates.is_confirmed(&candidate(1)));
    assert!(!candidates.is_unconfirmed(&candidate(1)));
    assert!(candidates.is_unconfirmed(&candidate(2)));
}

#[test]
fn confirmation_of_an_unknown_candidate_has_an_empty_reckoning() {
    let mut candidates = Candidates::new(10);
    let reckoning = candidates.confirm_candidate(candidate(1), receipt(5, 7), pvd(), GroupIndex(0));
    assert_eq!(
        reckoning,
        Some(PostConfirmationReckoning { correct: Vec::new(), incorrect: Vec::new() })
    );
    let confirmed = candidates.get_confirmed(&candidate(1)).expect("the candidate is confirmed");
    assert_eq!(confirmed.para_id(), ParaId(5));
    assert_eq!(confirmed.relay_parent(), hash(7));
    assert_eq!(confirmed.group_index(), GroupIndex(0));
    assert_eq!(confirmed.receipt, receipt(5, 7));
    assert_eq!(confirmed.persisted_validation_data, pvd());
}

#[test]
fn second_confirmation_changes_nothing() {
    let mut candidates = Candidates::new(10);
    candidates.insert_unconfirmed(peer(2), candidate(1), hash(7), GroupIndex(1), None).unwrap();
    assert!(candidates
        .confirm_candidate(candidate(1), receipt(5, 7), pvd(), GroupIndex(0))
        .is_some());
    assert_eq!(
        candidates.confirm_candidate(candidate(1), receipt(5, 7), pvd(), GroupIndex(0)),
        None
    );
    // Not even other data replace what is confirmed.
    assert_eq!(
        candidates.confirm_candidate(candidate(1), receipt(6, 8), pvd(), GroupIndex(4)),
        None
    );
    let confirmed = candidates.get_confirmed(&candidate(1)).unwrap();
    assert_eq!(confirmed.para_id(), ParaId(5));
    assert_eq!(confirmed.group_index(), GroupIndex(0));
}

#[test]
fn claims_tell_advertisements_apart() {
    let mut candidates = Candidates::new(10);
    candidates.insert_unconfirmed(peer(1), candidate(1), hash(7), GroupIndex(0), None).unwrap();
    candidates
        .insert_unconfirmed(peer(1), candidate(1), hash(7), GroupIndex(0), Some((ParaId(5), 1)))
        .unwrap();
    candidates
        .insert_unconfirmed(peer(1), candidate(1), hash(7), GroupIndex(0), Some((ParaId(5), 1)))
        .unwrap();
    candidates
        .insert_unconfirmed(peer(1), candidate(1), hash(7), GroupIndex(0), Some((ParaId(5), 2)))
        .unwrap();
    assert_eq!(candidates.advertisements().len(), 3);
}

#[test]
fn retaining_relay_parents_drops_the_rest() {
    let mut candidates = Candidates::new(10);
    candidates.insert_unconfirmed(peer(1), candidate(1), hash(7), GroupIndex(0), None).unwrap();
    candidates.insert_unconfirmed(peer(1), candidate(2), hash(8), GroupIndex(0), None).unwrap();
    candidates.insert_unconfirmed(peer(2), candidate(2), hash(9), GroupIndex(0), None).unwrap();
    candidates.confirm_candidate(candidate(3), receipt(5, 7), pvd(), GroupIndex(0));
    candidates.confirm_candidate(candidate(4), receipt(5, 8), pvd(), GroupIndex(0));
    candidates.confirm_candidate(candidate(5), receipt(5, 9), pvd(), GroupIndex(0));
    candidates.retain_relay_parents(&vec![hash(7), hash(9)]);
    assert_eq!(candidates.advertisements(), vec![ad(1, 1, 7, 0), ad(2, 2, 9, 0)]);
    assert!(candidates.is_confirmed(&candidate(3)));
    assert!(!candidates.is_confirmed(&candidate(4)));
    assert!(candidates.is_confirmed(&candidate(5)));
    candidates.retain_relay_parents(&Vec::new());
    assert!(candidates.advertisements().is_empty());
    assert!(!candidates.is_confirmed(&candidate(3)));
    assert!(!candidates.is_confirmed(&candidate(5)));
}
