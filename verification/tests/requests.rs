use statement_distribution::primitives::{CandidateHash, GroupIndex, PeerId};
use statement_distribution::requests::{
    CandidateIdentifier, RequestEntry, RequestFilter, RequestManager,
};

fn hash(byte: u8) -> statement_distribution::primitives::Hash {
    statement_distribution::primitives::Hash([byte; 32])
}

fn candidate(byte: u8) -> CandidateHash {
    CandidateHash(hash(byte))
}

fn peer(byte: u8) -> PeerId {
    PeerId([byte; 32])
}

fn id(relay_parent: u8, c: u8) -> CandidateIdentifier {
    CandidateIdentifier { relay_parent: hash(relay_parent), candidate_hash: candidate(c) }
}

fn entry(group: u32, peers: &[u8], cluster_priority: bool) -> RequestEntry {
    RequestEntry {
        group: GroupIndex(group),
        peers: peers.iter().map(|p| peer(*p)).collect(),
        cluster_priority,
        in_flight: None,
        failures: 0,
    }
}

#[test]
fn new_request_manager_is_empty() {
    let requests = RequestManager::new();
    assert_eq!(requests.len(), 0);
    assert!(requests.identifiers().is_empty());
    assert_eq!(requests.get(hash(1), candidate(1)), None);
}

#[test]
fn fresh_request_entry_has_no_sources() {
    assert_eq!(RequestEntry::new(GroupIndex(3)), entry(3, &[], false));
}

#[test]
fn request_entry_keeps_each_peer_once() {
    let mut e = RequestEntry::new(GroupIndex(0));
    e.add_peer(peer(2));
    e.add_peer(peer(1));
    e.add_peer(peer(2));
    assert_eq!(e, entry(0, &[2, 1], false));
    e.set_cluster_priority();
    assert_eq!(e, entry(0, &[2, 1], true));
    e.set_cluster_priority();
    assert_eq!(e, entry(0, &[2, 1], true));
}

#[test]
fn get_or_insert_files_a_request_once() {
    let mut requests = RequestManager::new();
    assert_eq!(requests.get_or_insert(hash(1), candidate(1), GroupIndex(4)), entry(4, &[], false));
    assert_eq!(requests.len(), 1);
    // The request is there already: the group of the second call is not used.
    assert_eq!(requests.get_or_insert(hash(1), candidate(1), GroupIndex(5)), entry(4, &[], false));
    assert_eq!(requests.len(), 1);
    assert_eq!(requests.get(hash(1), candidate(1)), Some(entry(4, &[], false)));
    assert_eq!(requests.get(hash(2), candidate(1)), None);
    assert_eq!(requests.get(hash(1), candidate(2)), None);
}

#[test]
fn requests_keep_the_order_of_insertion() {
    let mut requests = RequestManager::new();
    requests.get_or_insert(hash(3), candidate(1), GroupIndex(0));
    requests.get_or_insert(hash(1), candidate(9), GroupIndex(0));
    requests.get_or_insert(hash(2), candidate(5), GroupIndex(0));
    requests.get_or_insert(hash(1), candidate(9), GroupIndex(0));
    assert_eq!(requests.identifiers(), vec![id(3, 1), id(1, 9), id(2, 5)]);
    // An update keeps the place.
    requests.update(hash(3), candidate(1), entry(0, &[7], true));
    assert_eq!(requests.identifiers(), vec![id(3, 1), id(1, 9), id(2, 5)]);
    assert_eq!(requests.get(hash(3), candidate(1)), Some(entry(0, &[7], true)));
    // An update of what is not there files it last.
    requests.update(hash(0), candidate(0), entry(1, &[], false));
    assert_eq!(requests.identifiers(), vec![id(3, 1), id(1, 9), id(2, 5), id(0, 0)]);
}

#[test]
fn cluster_source_is_recorded_with_priority() {
    let mut requests = RequestManager::new();
    requests.note_cluster_source(hash(1), candidate(1), GroupIndex(2), peer(8));
    assert_eq!(requests.get(hash(1), candidate(1)), Some(entry(2, &[8], true)));
    requests.note_cluster_source(hash(1), candidate(1), GroupIndex(2), peer(9));
    requests.note_cluster_source(hash(1), candidate(1), GroupIndex(2), peer(8));
    assert_eq!(requests.get(hash(1), candidate(1)), Some(entry(2, &[8, 9], true)));
    assert_eq!(requests.len(), 1);
}

#[test]
fn requests_for_a_candidate_are_removed() {
    let mut requests = RequestManager::new();
    requests.get_or_insert(hash(1), candidate(1), GroupIndex(0));
    requests.get_or_insert(hash(1), candidate(2), GroupIndex(0));
    requests.get_or_insert(hash(2), candidate(1), GroupIndex(0));
    requests.get_or_insert(hash(2), candidate(3), GroupIndex(0));
    requests.remove_for(candidate(1));
    assert_eq!(requests.identifiers(), vec![id(1, 2), id(2, 3)]);
    requests.remove_for(candidate(7));
    assert_eq!(requests.identifiers(), vec![id(1, 2), id(2, 3)]);
}

#[test]
fn requests_are_retained_by_relay_parent() {
    let mut requests = RequestManager::new();
    requests.get_or_insert(hash(1), candidate(1), GroupIndex(0));
    requests.get_or_insert(hash(2), candidate(2), GroupIndex(0));
    requests.get_or_insert(hash(3), candidate(3), GroupIndex(0));
    requests.get_or_insert(hash(1), candidate(4), GroupIndex(0));
    requests.retain(&RequestFilter::AtRelayParents(vec![hash(3), hash(1)]));
    assert_eq!(requests.identifiers(), vec![id(1, 1), id(3, 3), id(1, 4)]);
    requests.retain(&RequestFilter::AtRelayParents(Vec::new()));
    assert_eq!(requests.len(), 0);
}

#[test]
fn request_filter_keeps_what_it_says() {
    let at = RequestFilter::AtRelayParents(vec![hash(1)]);
    assert!(at.keeps_request(&hash(1), &candidate(5)));
    assert!(!at.keeps_request(&hash(2), &candidate(5)));
    let not = RequestFilter::NotOfCandidate(candidate(5));
    assert!(!not.keeps_request(&hash(1), &candidate(5)));
    assert!(not.keeps_request(&hash(1), &candidate(6)));
}
