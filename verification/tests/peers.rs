use statement_distribution::implicit_view::ImplicitView;
use statement_distribution::peers::PeerTable;
use statement_distribution::primitives::{AuthorityDiscoveryId, PeerId};

fn hash(byte: u8) -> statement_distribution::primitives::Hash {
    statement_distribution::primitives::Hash([byte; 32])
}

fn peer(byte: u8) -> PeerId {
    PeerId([byte; 32])
}

fn authority(byte: u8) -> AuthorityDiscoveryId {
    AuthorityDiscoveryId([byte; 32])
}

#[test]
fn implicit_view_brings_the_leaf_and_its_ancestry() {
    let mut view = ImplicitView::new();
    assert!(view.all_allowed_relay_parents().is_empty());
    view.activate_leaf(hash(3), vec![hash(2), hash(1)]);
    assert!(view.is_active(&hash(3)));
    assert!(!view.is_active(&hash(2)));
    assert_eq!(
        view.known_allowed_relay_parents_under(&hash(3)),
        Some(&vec![hash(3), hash(2), hash(1)])
    );
    assert_eq!(view.known_allowed_relay_parents_under(&hash(2)), None);
    assert_eq!(view.all_allowed_relay_parents(), vec![hash(3), hash(2), hash(1)]);
}

#[test]
fn implicit_view_lists_a_shared_ancestor_once() {
    let mut view = ImplicitView::new();
    view.activate_leaf(hash(3), vec![hash(1)]);
    view.activate_leaf(hash(4), vec![hash(1), hash(0)]);
    let mut all = view.all_allowed_relay_parents();
    all.sort_by_key(|h| h.0);
    assert_eq!(all, vec![hash(0), hash(1), hash(3), hash(4)]);
}

#[test]
fn implicit_view_keeps_an_active_leaf_as_it_is() {
    let mut view = ImplicitView::new();
    view.activate_leaf(hash(3), vec![hash(1)]);
    view.activate_leaf(hash(3), vec![hash(2)]);
    assert_eq!(view.known_allowed_relay_parents_under(&hash(3)), Some(&vec![hash(3), hash(1)]));
}

#[test]
fn implicit_view_forgets_what_no_leaf_brings() {
    let mut view = ImplicitView::new();
    view.activate_leaf(hash(3), vec![hash(1)]);
    view.activate_leaf(hash(4), vec![hash(1), hash(0)]);
    view.deactivate_leaf(hash(4));
    let mut all = view.all_allowed_relay_parents();
    all.sort_by_key(|h| h.0);
    assert_eq!(all, vec![hash(1), hash(3)]);
    view.deactivate_leaf(hash(9));
    assert_eq!(view.all_allowed_relay_parents().len(), 2);
    view.deactivate_leaf(hash(3));
    assert!(view.all_allowed_relay_parents().is_empty());
}

#[test]
fn connected_peer_has_empty_views() {
    let mut peers = PeerTable::new();
    assert!(peers.get(&peer(1)).is_none());
    peers.connect(peer(1), None);
    let state = peers.get(&peer(1)).expect("the peer is connected");
    assert!(state.view.is_empty());
    assert!(state.implicit_view.is_empty());
    assert_eq!(state.discovery_ids, None);
    assert!(!state.is_authority(&authority(1)));
    assert!(!state.knows_relay_parent(&hash(1)));
}

#[test]
fn first_peer_to_claim_an_authority_keeps_it() {
    let mut peers = PeerTable::new();
    peers.connect(peer(1), Some(vec![authority(10)]));
    peers.connect(peer(2), Some(vec![authority(10), authority(20)]));
    assert_eq!(peers.peer_of_authority(&authority(10)), Some(peer(1)));
    assert_eq!(peers.peer_of_authority(&authority(20)), Some(peer(2)));
    assert_eq!(peers.get(&peer(1)).unwrap().discovery_ids, Some(vec![authority(10)]));
    assert_eq!(peers.get(&peer(2)).unwrap().discovery_ids, Some(vec![authority(20)]));
    assert!(peers.get(&peer(1)).unwrap().is_authority(&authority(10)));
    assert!(!peers.get(&peer(2)).unwrap().is_authority(&authority(10)));
    assert!(peers.get(&peer(2)).unwrap().is_authority(&authority(20)));
}

#[test]
fn authority_claimed_twice_by_one_peer_is_kept_once() {
    let mut peers = PeerTable::new();
    peers.connect(peer(1), Some(vec![authority(10), authority(10)]));
    assert_eq!(peers.get(&peer(1)).unwrap().discovery_ids, Some(vec![authority(10)]));
}

#[test]
fn disconnect_frees_the_authorities() {
    let mut peers = PeerTable::new();
    peers.connect(peer(1), Some(vec![authority(10), authority(11)]));
    peers.connect(peer(2), Some(vec![authority(10)]));
    peers.disconnect(peer(1));
    assert!(peers.get(&peer(1)).is_none());
    assert_eq!(peers.peer_of_authority(&authority(10)), None);
    assert_eq!(peers.peer_of_authority(&authority(11)), None);
    // The second peer lost its claim when it made it, and does not get it back.
    assert_eq!(peers.get(&peer(2)).unwrap().discovery_ids, Some(Vec::new()));
    peers.connect(peer(3), Some(vec![authority(10)]));
    assert_eq!(peers.peer_of_authority(&authority(10)), Some(peer(3)));
    // Disconnecting a peer that is not there changes nothing.
    peers.disconnect(peer(9));
    assert_eq!(peers.peer_of_authority(&authority(10)), Some(peer(3)));
}

#[test]
fn view_of_a_peer_is_read_against_our_leaves() {
    let mut local = ImplicitView::new();
    local.activate_leaf(hash(3), vec![hash(2), hash(1)]);
    local.activate_leaf(hash(5), vec![hash(2)]);
    let mut peers = PeerTable::new();
    peers.connect(peer(1), None);
    peers.update_view(peer(1), vec![hash(3), hash(9), hash(5)], &local);
    let state = peers.get(&peer(1)).unwrap();
    assert_eq!(state.view, vec![hash(3), hash(9), hash(5)]);
    assert_eq!(state.implicit_view, vec![hash(3), hash(2), hash(1), hash(5)]);
    assert!(state.knows_relay_parent(&hash(1)));
    assert!(state.knows_relay_parent(&hash(5)));
    // A head that is no leaf of ours brings nothing, not even itself.
    assert!(!state.knows_relay_parent(&hash(9)));
    assert!(peers.knows_relay_parent(&peer(1), &hash(2)));
    assert!(!peers.knows_relay_parent(&peer(2), &hash(2)));
}

#[test]
fn new_view_of_a_peer_replaces_the_old_one() {
    let mut local = ImplicitView::new();
    local.activate_leaf(hash(3), vec![hash(2)]);
    local.activate_leaf(hash(5), Vec::new());
    let mut peers = PeerTable::new();
    peers.connect(peer(1), Some(vec![authority(10)]));
    peers.update_view(peer(1), vec![hash(3)], &local);
    peers.update_view(peer(1), vec![hash(5)], &local);
    let state = peers.get(&peer(1)).unwrap();
    assert_eq!(state.view, vec![hash(5)]);
    assert_eq!(state.implicit_view, vec![hash(5)]);
    assert_eq!(state.discovery_ids, Some(vec![authority(10)]));
    peers.update_view(peer(1), Vec::new(), &local);
    assert!(peers.get(&peer(1)).unwrap().implicit_view.is_empty());
}

#[test]
fn view_of_a_peer_that_is_not_connected_is_not_recorded() {
    let local = ImplicitView::new();
    let mut peers = PeerTable::new();
    peers.update_view(peer(1), vec![hash(3)], &local);
    assert!(peers.get(&peer(1)).is_none());
}
