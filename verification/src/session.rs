//! What is fixed for the length of a session: the validators, their groups
//! and the keys under which they are found on the network.

use crate::groups::{groups_view, Groups};
use crate::primitives::{AuthorityDiscoveryId, ValidatorId, ValidatorIndex};
use crate::vec_map::VecMap;
use vstd::prelude::*;

verus! {

/// What the chain says of a session, as far as statement distribution reads
/// it.
#[derive(Clone, PartialEq, Eq, Debug)]
pub struct SessionInfo {
    /// The signing keys of the validators, by validator index.
    pub validators: Vec<ValidatorId>,
    /// The discovery keys of the validators, by validator index.
    pub discovery_keys: Vec<AuthorityDiscoveryId>,
    /// The validator groups, by group index.
    pub validator_groups: Vec<Vec<ValidatorIndex>>,
}

/// The gossip topology of a session, as it is supplied.
#[derive(Clone, PartialEq, Eq, Debug)]
pub struct SessionGridTopology {
    /// For each validator index, its place in the shuffling.
    pub shuffled_indices: Vec<usize>,
    /// The validators in the order of the shuffling.
    pub canonical_shuffling: Vec<ValidatorIndex>,
}

/// The model of a [`SessionGridTopology`].
pub struct SessionGridTopologyView {
    /// For each validator index, its place in the shuffling.
    pub shuffled_indices: Seq<usize>,
    /// The validators in the order of the shuffling.
    pub canonical_shuffling: Seq<ValidatorIndex>,
}

impl SessionGridTopology {
    /// The model of the topology.
    pub open spec fn view(&self) -> SessionGridTopologyView {
        SessionGridTopologyView {
            shuffled_indices: self.shuffled_indices@,
            canonical_shuffling: self.canonical_shuffling@,
        }
    }
}

/// The validator that a discovery key belongs to: the last one in the
/// session's order that has the key, and none where no validator has it.
pub open spec fn authority_index(keys: Seq<AuthorityDiscoveryId>, key: AuthorityDiscoveryId) -> Option<
    ValidatorIndex,
>
    decreases keys.len(),
{
    if keys.len() == 0 {
        None
    } else if keys.last() == key {
        Some(ValidatorIndex((keys.len() - 1) as u32))
    } else {
        authority_index(keys.drop_last(), key)
    }
}

/// The validator that a discovery key belongs to has that key.
pub proof fn lemma_authority_index_holds_key(keys: Seq<AuthorityDiscoveryId>, key: AuthorityDiscoveryId)
    requires
        keys.len() <= u32::MAX,
    ensures
        authority_index(keys, key) matches Some(v) ==> v.0 < keys.len() && keys[v.0 as int] == key,
        authority_index(keys, key).is_none() ==> !keys.contains(key),
    decreases keys.len(),
{
    if keys.len() > 0 && keys.last() != key {
        lemma_authority_index_holds_key(keys.drop_last(), key);
        if keys.contains(key) {
            let i = choose|i: int| 0 <= i < keys.len() && keys[i] == key;
            assert(keys.drop_last()[i] == key);
        }
    }
}

/// What is kept of a session.
pub struct PerSessionState {
    validators: Vec<ValidatorId>,
    discovery_keys: Vec<AuthorityDiscoveryId>,
    groups: Groups,
    authority_lookup: VecMap<AuthorityDiscoveryId, ValidatorIndex>,
    grid_view: Option<SessionGridTopology>,
    local_validator: Option<ValidatorIndex>,
}

impl PerSessionState {
    /// The signing keys of the validators, by validator index.
    pub closed spec fn spec_validators(&self) -> Seq<ValidatorId> {
        self.validators@
    }

    /// The discovery keys of the validators, by validator index.
    pub closed spec fn spec_discovery_keys(&self) -> Seq<AuthorityDiscoveryId> {
        self.discovery_keys@
    }

    /// The groups of the session.
    pub closed spec fn spec_groups(&self) -> Groups {
        self.groups
    }

    /// Our own validator index in the session, if we are a validator in it.
    pub closed spec fn spec_local_validator(&self) -> Option<ValidatorIndex> {
        self.local_validator
    }

    /// The gossip topology, once it has been supplied.
    pub closed spec fn spec_grid_view(&self) -> Option<SessionGridTopologyView> {
        match self.grid_view {
            Some(t) => Some(t@),
            None => None,
        }
    }

    /// The lookup of authorities agrees with the discovery keys, and the
    /// groups are well-formed.
    pub closed spec fn wf(&self) -> bool {
        &&& self.groups.wf()
        &&& self.authority_lookup.wf()
        &&& self.discovery_keys@.len() <= u32::MAX
        &&& forall|key: AuthorityDiscoveryId| #[trigger]
            self.authority_lookup@.dom().contains(key) <==> authority_index(
                self.discovery_keys@,
                key,
            ).is_some()
        &&& forall|key: AuthorityDiscoveryId| #[trigger]
            self.authority_lookup@.dom().contains(key) ==> authority_index(
                self.discovery_keys@,
                key,
            ) == Some(self.authority_lookup@[key])
    }

    /// A well-formed session has well-formed groups.
    pub proof fn lemma_wf_groups(&self)
        requires
            self.wf(),
        ensures
            self.spec_groups().wf(),
    {
    }

    /// Takes in what the chain says of a session. `local_validator` is our
    /// own index among the session's validators, where one of their keys is
    /// ours.
    pub fn new(session_info: SessionInfo, local_validator: Option<ValidatorIndex>) -> (r: Self)
        requires
            session_info.validator_groups@.len() <= u32::MAX,
            session_info.discovery_keys@.len() <= u32::MAX,
        ensures
            r.wf(),
            r.spec_validators() == session_info.validators@,
            r.spec_discovery_keys() == session_info.discovery_keys@,
            r.spec_groups()@ == groups_view(session_info.validator_groups@),
            r.spec_groups().spec_validator_count() == session_info.discovery_keys@.len(),
            r.spec_local_validator() == local_validator,
            r.spec_grid_view().is_none(),
    {
        let SessionInfo { validators, discovery_keys, validator_groups } = session_info;
        let groups = Groups::new(validator_groups, &discovery_keys);
        let mut authority_lookup: VecMap<AuthorityDiscoveryId, ValidatorIndex> = VecMap::new();
        let mut i: usize = 0;
        while i < discovery_keys.len()
            invariant
                i <= discovery_keys.len(),
                discovery_keys@.len() <= u32::MAX,
                authority_lookup.wf(),
                forall|key: AuthorityDiscoveryId| #[trigger]
                    authority_lookup@.dom().contains(key) <==> authority_index(
                        discovery_keys@.take(i as int),
                        key,
                    ).is_some(),
                forall|key: AuthorityDiscoveryId| #[trigger]
                    authority_lookup@.dom().contains(key) ==> authority_index(
                        discovery_keys@.take(i as int),
                        key,
                    ) == Some(authority_lookup@[key]),
            decreases discovery_keys.len() - i,
        {
            let ghost before = authority_lookup@;
            authority_lookup.insert(discovery_keys[i], ValidatorIndex(i as u32));
            i += 1;
            proof {
                let done = discovery_keys@.take(i - 1);
                let next = discovery_keys@.take(i as int);
                assert(next.drop_last() =~= done);
                assert(next.last() == discovery_keys@[i - 1]);
                assert forall|key: AuthorityDiscoveryId| #[trigger]
                    authority_lookup@.dom().contains(key) <==> authority_index(next, key).is_some() by {
                    assert(before.dom().contains(key) <==> authority_index(done, key).is_some());
                }
                assert forall|key: AuthorityDiscoveryId| #[trigger]
                    authority_lookup@.dom().contains(key) implies authority_index(next, key) == Some(
                    authority_lookup@[key],
                ) by {
                    if key != next.last() {
                        assert(before.dom().contains(key));
                    }
                }
            }
        }
        assert(discovery_keys@.take(discovery_keys@.len() as int) =~= discovery_keys@);
        PerSessionState {
            validators,
            discovery_keys,
            groups,
            authority_lookup,
            grid_view: None,
            local_validator,
        }
    }

    /// Installs the gossip topology of the session.
    pub fn supply_topology(&mut self, topology: SessionGridTopology)
        requires
            old(self).wf(),
        ensures
            final(self).wf(),
            final(self).spec_grid_view() == Some(topology@),
            final(self).spec_validators() == old(self).spec_validators(),
            final(self).spec_discovery_keys() == old(self).spec_discovery_keys(),
            final(self).spec_groups() == old(self).spec_groups(),
            final(self).spec_local_validator() == old(self).spec_local_validator(),
    {
        self.grid_view = Some(topology);
    }

    /// The validator that a discovery key belongs to.
    pub fn authority_index_in_session(&self, discovery_key: &AuthorityDiscoveryId) -> (r: Option<
        ValidatorIndex,
    >)
        requires
            self.wf(),
        ensures
            r == authority_index(self.spec_discovery_keys(), *discovery_key),
    {
        match self.authority_lookup.get(discovery_key) {
            Some(v) => Some(*v),
            None => None,
        }
    }

    /// The signing keys of the validators, by validator index.
    pub fn validators(&self) -> (r: &Vec<ValidatorId>)
        ensures
            r@ == self.spec_validators(),
    {
        &self.validators
    }

    /// The discovery keys of the validators, by validator index.
    pub fn discovery_keys(&self) -> (r: &Vec<AuthorityDiscoveryId>)
        ensures
            r@ == self.spec_discovery_keys(),
    {
        &self.discovery_keys
    }

    /// The groups of the session.
    pub fn groups(&self) -> (r: &Groups)
        ensures
            *r == self.spec_groups(),
    {
        &self.groups
    }

    /// Our own validator index in the session, if we are a validator in it.
    pub fn local_validator(&self) -> (r: Option<ValidatorIndex>)
        ensures
            r == self.spec_local_validator(),
    {
        self.local_validator
    }

    /// Whether the gossip topology has been supplied.
    pub fn has_topology(&self) -> (r: bool)
        ensures
            r == self.spec_grid_view().is_some(),
    {
        self.grid_view.is_some()
    }
}

} // verus!
