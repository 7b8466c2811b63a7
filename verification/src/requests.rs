//! The candidates that are still to be fetched, in the order in which the
//! need for them arose.
//!
//! The requests are kept in an `indexmap::IndexMap`, which remembers the
//! order of insertion. Verus does not see inside it: what it holds is named
//! by [`request_entries`], and each call into it goes through one function
//! whose contract is taken on trust from the map's documentation.

use crate::lists::{contains_id, push_new};
use crate::primitives;
use crate::primitives::{CandidateHash, GroupIndex, Identifier, PeerId};
use indexmap::IndexMap;
use vstd::prelude::*;

verus! {

/// `indexmap::IndexMap`, a hash map that keeps its entries in the order of
/// insertion. Nothing of its inside is known here.
#[verifier::external_type_specification]
#[verifier::external_body]
#[verifier::reject_recursive_types(K)]
#[verifier::reject_recursive_types(V)]
#[verifier::reject_recursive_types(S)]
pub struct ExIndexMap<K, V, S>(IndexMap<K, V, S>);

/// What names a request: the relay-parent and the candidate.
#[derive(Clone, Copy, PartialEq, Eq, Debug)]
pub struct CandidateIdentifier {
    /// The relay-parent at which the candidate was advertised.
    pub relay_parent: primitives::Hash,
    /// The candidate.
    pub candidate_hash: CandidateHash,
}

/// What is known of one candidate that is to be fetched.
#[derive(Clone, PartialEq, Eq, Debug)]
pub struct RequestEntry {
    /// The group that the candidate is said to belong to.
    pub group: GroupIndex,
    /// The peers that advertised the candidate, in the order in which they
    /// did, each once.
    pub peers: Vec<PeerId>,
    /// Whether peers of our own cluster advertised the candidate, so that
    /// the request goes before those that have only other sources.
    pub cluster_priority: bool,
    /// The peer that is being asked at the moment.
    pub in_flight: Option<PeerId>,
    /// How many attempts have failed.
    pub failures: u32,
}

/// The model of a [`RequestEntry`].
pub struct RequestEntryView {
    /// The group that the candidate is said to belong to.
    pub group: GroupIndex,
    /// The peers that advertised the candidate.
    pub peers: Seq<PeerId>,
    /// Whether the request has cluster priority.
    pub cluster_priority: bool,
    /// The peer that is being asked at the moment.
    pub in_flight: Option<PeerId>,
    /// How many attempts have failed.
    pub failures: u32,
}

impl RequestEntryView {
    /// The entry of a candidate that nobody has advertised yet.
    pub open spec fn fresh(group: GroupIndex) -> RequestEntryView {
        RequestEntryView {
            group,
            peers: Seq::empty(),
            cluster_priority: false,
            in_flight: None,
            failures: 0,
        }
    }

    /// The entry after `peer` is recorded as a source.
    pub open spec fn add_peer(self, peer: PeerId) -> RequestEntryView {
        RequestEntryView { peers: push_new(self.peers, peer), ..self }
    }

    /// The entry after it is given cluster priority.
    pub open spec fn set_cluster_priority(self) -> RequestEntryView {
        RequestEntryView { cluster_priority: true, ..self }
    }
}

impl RequestEntry {
    /// The model of the entry.
    pub open spec fn view(&self) -> RequestEntryView {
        RequestEntryView {
            group: self.group,
            peers: self.peers@,
            cluster_priority: self.cluster_priority,
            in_flight: self.in_flight,
            failures: self.failures,
        }
    }

    /// The entry of a candidate that nobody has advertised yet.
    pub fn new(group: GroupIndex) -> (r: Self)
        ensures
            r@ == RequestEntryView::fresh(group),
    {
        RequestEntry {
            group,
            peers: Vec::new(),
            cluster_priority: false,
            in_flight: None,
            failures: 0,
        }
    }

    /// Records a peer as a source of the candidate, unless it is one already.
    pub fn add_peer(&mut self, peer: PeerId)
        ensures
            final(self)@ == old(self)@.add_peer(peer),
    {
        if !contains_id(&self.peers, &peer) {
            self.peers.push(peer);
        }
    }

    /// Gives the request the priority of a candidate that our own cluster
    /// advertised.
    pub fn set_cluster_priority(&mut self)
        ensures
            final(self)@ == old(self)@.set_cluster_priority(),
    {
        self.cluster_priority = true;
    }
}

/// A condition on requests, by which some are kept and the others dropped.
#[derive(Clone, PartialEq, Eq, Debug)]
pub enum RequestFilter {
    /// Keeps the requests at one of these relay-parents.
    AtRelayParents(Vec<primitives::Hash>),
    /// Keeps the requests for other candidates than this one.
    NotOfCandidate(CandidateHash),
}

impl RequestFilter {
    /// Whether the filter keeps the request that `id` names.
    pub open spec fn keeps(self, id: CandidateIdentifier) -> bool {
        match self {
            RequestFilter::AtRelayParents(keep) => keep@.contains(id.relay_parent),
            RequestFilter::NotOfCandidate(candidate) => id.candidate_hash != candidate,
        }
    }

    /// The entries that the filter keeps.
    pub open spec fn selects(self) -> spec_fn((CandidateIdentifier, RequestEntryView)) -> bool {
        |e: (CandidateIdentifier, RequestEntryView)| self.keeps(e.0)
    }

    /// Whether the filter keeps the request for `candidate_hash` at
    /// `relay_parent`.
    pub fn keeps_request(&self, relay_parent: &primitives::Hash, candidate_hash: &CandidateHash) -> (r:
        bool)
        ensures
            r == self.keeps(
                CandidateIdentifier { relay_parent: *relay_parent, candidate_hash: *candidate_hash },
            ),
    {
        match self {
            RequestFilter::AtRelayParents(keep) => contains_id(keep, relay_parent),
            RequestFilter::NotOfCandidate(candidate) => !candidate_hash.same(candidate),
        }
    }
}

/// The entries of a map of requests in their order, each with the
/// relay-parent and candidate that it is filed under.
pub uninterp spec fn request_entries(
    map: IndexMap<([u8; 32], [u8; 32]), RequestEntry>,
) -> Seq<(CandidateIdentifier, RequestEntryView)>;

/// The entry at `i` is `value`, filed under `id`.
pub open spec fn filed_at(
    entries: Seq<(CandidateIdentifier, RequestEntryView)>,
    i: int,
    id: CandidateIdentifier,
    value: RequestEntryView,
) -> bool {
    0 <= i < entries.len() && entries[i] == (id, value)
}

/// No entry is filed under `id`.
pub open spec fn lacks(entries: Seq<(CandidateIdentifier, RequestEntryView)>, id: CandidateIdentifier) -> bool {
    forall|i: int| 0 <= i < entries.len() ==> (#[trigger] entries[i]).0 != id
}

/// No two entries are filed under the same relay-parent and candidate.
pub open spec fn distinct_keys(entries: Seq<(CandidateIdentifier, RequestEntryView)>) -> bool {
    forall|i: int, j: int|
        0 <= i < j < entries.len() ==> (#[trigger] entries[i]).0 != (#[trigger] entries[j]).0
}

/// Selects the requests at one of the relay-parents `keep`.
pub open spec fn at_relay_parents(keep: Set<primitives::Hash>) -> spec_fn(
    (CandidateIdentifier, RequestEntryView),
) -> bool {
    |e: (CandidateIdentifier, RequestEntryView)| keep.contains(e.0.relay_parent)
}

/// The requests after `peer`, a member of our cluster, is recorded as a
/// source of the candidate that `id` names: the request for it, filed last
/// where there was none, has the peer among its sources and cluster
/// priority.
pub open spec fn with_cluster_source(
    entries: Seq<(CandidateIdentifier, RequestEntryView)>,
    id: CandidateIdentifier,
    group: GroupIndex,
    peer: PeerId,
) -> Seq<(CandidateIdentifier, RequestEntryView)> {
    if lacks(entries, id) {
        entries.push((id, RequestEntryView::fresh(group).add_peer(peer).set_cluster_priority()))
    } else {
        let i = choose|i: int| 0 <= i < entries.len() && (#[trigger] entries[i]).0 == id;
        entries.update(i, (id, entries[i].1.add_peer(peer).set_cluster_priority()))
    }
}

/// `IndexMap::new`: the new map has no entries.
#[verifier::external_body]
fn index_map_new() -> (map: IndexMap<([u8; 32], [u8; 32]), RequestEntry>)
    ensures
        request_entries(map) == Seq::<(CandidateIdentifier, RequestEntryView)>::empty(),
{
    IndexMap::new()
}

/// `IndexMap::len`: the number of entries.
#[verifier::external_body]
fn index_map_len(map: &IndexMap<([u8; 32], [u8; 32]), RequestEntry>) -> (n: usize)
    ensures
        n == request_entries(*map).len(),
{
    map.len()
}

/// `IndexMap::get`: the value filed under the key, here as a copy, and
/// nothing where no entry is filed under the key.
#[verifier::external_body]
fn index_map_get(map: &IndexMap<([u8; 32], [u8; 32]), RequestEntry>, id: CandidateIdentifier) -> (r:
    Option<RequestEntry>)
    ensures
        match r {
            Some(entry) => exists|i: int| filed_at(request_entries(*map), i, id, entry@),
            None => lacks(request_entries(*map), id),
        },
{
    map.get(&(id.relay_parent.0, id.candidate_hash.0.0)).cloned()
}

/// `IndexMap::get_index`: the key of the entry at a position of the order,
/// and nothing from the number of entries on.
#[verifier::external_body]
fn index_map_key_at(map: &IndexMap<([u8; 32], [u8; 32]), RequestEntry>, index: usize) -> (r: Option<
    CandidateIdentifier,
>)
    ensures
        match r {
            Some(id) => index < request_entries(*map).len() && request_entries(*map)[index as int].0
                == id,
            None => index >= request_entries(*map).len(),
        },
{
    map.get_index(index).map(
        |(k, _)|
            CandidateIdentifier {
                relay_parent: primitives::Hash(k.0),
                candidate_hash: CandidateHash(primitives::Hash(k.1)),
            },
    )
}

/// `IndexMap::insert`: where an entry is filed under the key, it keeps its
/// place and takes the new value; where none is, the new entry comes last.
#[verifier::external_body]
fn index_map_insert(
    map: &mut IndexMap<([u8; 32], [u8; 32]), RequestEntry>,
    id: CandidateIdentifier,
    entry: RequestEntry,
)
    ensures
        lacks(request_entries(*old(map)), id) ==> request_entries(*final(map)) == request_entries(
            *old(map),
        ).push((id, entry@)),
        forall|i: int|
            0 <= i < request_entries(*old(map)).len() && (#[trigger] request_entries(
                *old(map),
            )[i]).0 == id ==> request_entries(*final(map)) == request_entries(*old(map)).update(
                i,
                (id, entry@),
            ),
{
    map.insert((id.relay_parent.0, id.candidate_hash.0.0), entry);
}

/// `IndexMap::retain`: the entries that the filter keeps stay, in their
/// order, and the others leave.
#[verifier::external_body]
fn index_map_retain(map: &mut IndexMap<([u8; 32], [u8; 32]), RequestEntry>, filter: &RequestFilter)
    ensures
        request_entries(*final(map)) == request_entries(*old(map)).filter(filter.selects()),
{
    map.retain(
        |k, _| filter.keeps_request(&primitives::Hash(k.0), &CandidateHash(primitives::Hash(k.1))),
    );
}

/// Filtering keeps the keys distinct.
proof fn lemma_filter_distinct_keys(
    entries: Seq<(CandidateIdentifier, RequestEntryView)>,
    p: spec_fn((CandidateIdentifier, RequestEntryView)) -> bool,
)
    requires
        distinct_keys(entries),
    ensures
        distinct_keys(entries.filter(p)),
        forall|id: CandidateIdentifier| lacks(entries, id) ==> lacks(entries.filter(p), id),
    decreases entries.len(),
{
    if entries.len() == 0 {
        crate::lists::lemma_filter_empty(p);
    } else {
        let init = entries.drop_last();
        let last = entries.last();
        assert(init.push(last) =~= entries);
        assert(distinct_keys(init)) by {
            assert forall|i: int, j: int| 0 <= i < j < init.len() implies (#[trigger] init[i]).0 != (
            #[trigger] init[j]).0 by {
                assert(entries[i].0 != entries[j].0);
            }
        }
        lemma_filter_distinct_keys(init, p);
        init.lemma_filter_push(last, p);
        assert(lacks(init, last.0)) by {
            assert forall|i: int| 0 <= i < init.len() implies (#[trigger] init[i]).0 != last.0 by {
                assert(entries[i].0 != entries[entries.len() - 1].0);
            }
        }
        let f = init.filter(p);
        assert forall|id: CandidateIdentifier| lacks(entries, id) implies lacks(
            entries.filter(p),
            id,
        ) by {
            assert(lacks(init, id)) by {
                assert forall|i: int| 0 <= i < init.len() implies (#[trigger] init[i]).0 != id by {
                    assert(entries[i].0 != id);
                }
            }
            assert(entries[entries.len() - 1].0 != id);
        }
    }
}

/// The candidates that are to be fetched.
pub struct RequestManager {
    requests: IndexMap<([u8; 32], [u8; 32]), RequestEntry>,
}

impl RequestManager {
    /// The requests in the order in which they were first filed.
    pub closed spec fn view(&self) -> Seq<(CandidateIdentifier, RequestEntryView)> {
        request_entries(self.requests)
    }

    /// No two requests are filed under the same relay-parent and candidate.
    pub open spec fn wf(&self) -> bool {
        distinct_keys(self@)
    }

    /// The position at which the request that `id` names is filed.
    pub open spec fn position(&self, id: CandidateIdentifier) -> int {
        choose|i: int| 0 <= i < self@.len() && (#[trigger] self@[i]).0 == id
    }

    /// No requests.
    pub fn new() -> (r: Self)
        ensures
            r.wf(),
            r@ == Seq::<(CandidateIdentifier, RequestEntryView)>::empty(),
    {
        RequestManager { requests: index_map_new() }
    }

    /// The number of requests.
    pub fn len(&self) -> (n: usize)
        ensures
            n == self@.len(),
    {
        index_map_len(&self.requests)
    }

    /// The request for a candidate at a relay-parent, as a copy.
    pub fn get(&self, relay_parent: primitives::Hash, candidate_hash: CandidateHash) -> (r: Option<
        RequestEntry,
    >)
        ensures
            match r {
                Some(entry) => exists|i: int|
                    filed_at(self@, i, CandidateIdentifier { relay_parent, candidate_hash }, entry@),
                None => lacks(self@, CandidateIdentifier { relay_parent, candidate_hash }),
            },
    {
        let r = index_map_get(&self.requests, CandidateIdentifier { relay_parent, candidate_hash });
        proof {
            if let Some(entry) = &r {
                let id = CandidateIdentifier { relay_parent, candidate_hash };
                let i = choose|i: int| filed_at(request_entries(self.requests), i, id, entry@);
                assert(filed_at(self@, i, id, entry@));
            }
        }
        r
    }

    /// What names the requests, in their order.
    pub fn identifiers(&self) -> (r: Vec<CandidateIdentifier>)
        ensures
            r@ == self@.map_values(|e: (CandidateIdentifier, RequestEntryView)| e.0),
    {
        let mut ids: Vec<CandidateIdentifier> = Vec::new();
        let n = index_map_len(&self.requests);
        let mut i: usize = 0;
        while i < n
            invariant
                n == self@.len(),
                i <= n,
                ids@ == self@.take(i as int).map_values(
                    |e: (CandidateIdentifier, RequestEntryView)| e.0,
                ),
            decreases n - i,
        {
            match index_map_key_at(&self.requests, i) {
                Some(id) => {
                    ids.push(id);
                },
                None => {},
            }
            proof {
                self@.lemma_take_succ_push(i as int);
                assert(ids@ =~= self@.take(i + 1).map_values(
                    |e: (CandidateIdentifier, RequestEntryView)| e.0,
                ));
            }
            i += 1;
        }
        assert(self@.take(self@.len() as int) =~= self@);
        ids
    }

    /// The request for a candidate at a relay-parent. Where there is none
    /// yet, one is filed, last in the order, for `group_index` and without
    /// sources.
    pub fn get_or_insert(
        &mut self,
        relay_parent: primitives::Hash,
        candidate_hash: CandidateHash,
        group_index: GroupIndex,
    ) -> (r: RequestEntry)
        requires
            old(self).wf(),
        ensures
            final(self).wf(),
            lacks(old(self)@, CandidateIdentifier { relay_parent, candidate_hash }) ==> r@
                == RequestEntryView::fresh(group_index) && final(self)@ == old(self)@.push(
                (CandidateIdentifier { relay_parent, candidate_hash }, r@),
            ),
            !lacks(old(self)@, CandidateIdentifier { relay_parent, candidate_hash }) ==> final(self)@
                == old(self)@ && old(self)@[old(self).position(
                CandidateIdentifier { relay_parent, candidate_hash },
            )] == (CandidateIdentifier { relay_parent, candidate_hash }, r@),
    {
        let id = CandidateIdentifier { relay_parent, candidate_hash };
        match index_map_get(&self.requests, id) {
            Some(entry) => {
                proof {
                    let i = choose|i: int| filed_at(self@, i, id, entry@);
                    let p = self.position(id);
                    assert(self@[i].0 == id);
                    if i < p {
                        assert(self@[i].0 != self@[p].0);
                    }
                    if p < i {
                        assert(self@[p].0 != self@[i].0);
                    }
                }
                entry
            },
            None => {
                let entry = RequestEntry::new(group_index);
                let stored = RequestEntry::new(group_index);
                index_map_insert(&mut self.requests, id, stored);
                proof {
                    let before = old(self)@;
                    assert forall|i: int, j: int| 0 <= i < j < self@.len() implies (
                    #[trigger] self@[i]).0 != (#[trigger] self@[j]).0 by {
                        if j < before.len() {
                            assert(before[i].0 != before[j].0);
                        } else {
                            assert(before[i].0 != id);
                        }
                    }
                }
                entry
            },
        }
    }

    /// Puts `entry` in the place of the request for a candidate at a
    /// relay-parent. Where there is no such request, one is filed, last in
    /// the order.
    pub fn update(
        &mut self,
        relay_parent: primitives::Hash,
        candidate_hash: CandidateHash,
        entry: RequestEntry,
    )
        requires
            old(self).wf(),
        ensures
            final(self).wf(),
            lacks(old(self)@, CandidateIdentifier { relay_parent, candidate_hash }) ==> final(self)@
                == old(self)@.push((CandidateIdentifier { relay_parent, candidate_hash }, entry@)),
            !lacks(old(self)@, CandidateIdentifier { relay_parent, candidate_hash }) ==> final(self)@
                == old(self)@.update(
                old(self).position(CandidateIdentifier { relay_parent, candidate_hash }),
                (CandidateIdentifier { relay_parent, candidate_hash }, entry@),
            ),
    {
        let id = CandidateIdentifier { relay_parent, candidate_hash };
        let ghost before = self@;
        let ghost value = entry@;
        index_map_insert(&mut self.requests, id, entry);
        proof {
            if lacks(before, id) {
                assert forall|i: int, j: int| 0 <= i < j < self@.len() implies (
                #[trigger] self@[i]).0 != (#[trigger] self@[j]).0 by {
                    if j < before.len() {
                        assert(before[i].0 != before[j].0);
                    } else {
                        assert(before[i].0 != id);
                    }
                }
            } else {
                let p = old(self).position(id);
                assert(0 <= p < before.len() && before[p].0 == id);
                assert(self@ == before.update(p, (id, value)));
                assert forall|i: int, j: int| 0 <= i < j < self@.len() implies (
                #[trigger] self@[i]).0 != (#[trigger] self@[j]).0 by {
                    assert(before[i].0 != before[j].0);
                }
            }
        }
    }

    /// Records a peer of our cluster as a source of a candidate at a
    /// relay-parent, filing a request for the candidate where there is none.
    pub fn note_cluster_source(
        &mut self,
        relay_parent: primitives::Hash,
        candidate_hash: CandidateHash,
        group_index: GroupIndex,
        peer: PeerId,
    )
        requires
            old(self).wf(),
        ensures
            final(self).wf(),
            final(self)@ == with_cluster_source(
                old(self)@,
                CandidateIdentifier { relay_parent, candidate_hash },
                group_index,
                peer,
            ),
    {
        let ghost id = CandidateIdentifier { relay_parent, candidate_hash };
        let mut entry = self.get_or_insert(relay_parent, candidate_hash, group_index);
        let ghost middle = self@;
        entry.add_peer(peer);
        entry.set_cluster_priority();
        proof {
            if lacks(old(self)@, id) {
                assert(middle[old(self)@.len() as int].0 == id);
                assert(!lacks(middle, id));
                let p = self.position(id);
                if p < old(self)@.len() {
                    assert(old(self)@[p].0 != id);
                }
            }
        }
        self.update(relay_parent, candidate_hash, entry);
        proof {
            if lacks(old(self)@, id) {
                assert(self@ =~= with_cluster_source(old(self)@, id, group_index, peer));
            } else {
                let p = old(self).position(id);
                let c = choose|i: int| 0 <= i < old(self)@.len() && (#[trigger] old(self)@[i]).0 == id;
                assert(p == c);
            }
        }
    }

    /// Drops the requests that the filter does not keep.
    pub fn retain(&mut self, filter: &RequestFilter)
        requires
            old(self).wf(),
        ensures
            final(self).wf(),
            final(self)@ == old(self)@.filter(filter.selects()),
    {
        index_map_retain(&mut self.requests, filter);
        proof {
            lemma_filter_distinct_keys(old(self)@, filter.selects());
        }
    }

    /// Drops the requests for a candidate, at whatever relay-parent: it has
    /// been confirmed.
    pub fn remove_for(&mut self, candidate_hash: CandidateHash)
        requires
            old(self).wf(),
        ensures
            final(self).wf(),
            final(self)@ == old(self)@.filter(
                RequestFilter::NotOfCandidate(candidate_hash).selects(),
            ),
    {
        let filter = RequestFilter::NotOfCandidate(candidate_hash);
        self.retain(&filter);
    }
}

} // verus!
