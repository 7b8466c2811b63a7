//! The validator groups of a session, and which group each validator is in.

use crate::primitives::{AuthorityDiscoveryId, GroupIndex, ValidatorIndex};
use crate::vec_map::VecMap;
use vstd::prelude::*;

verus! {

/// `g` is the last group that lists `v`.
pub open spec fn is_last_group_of(
    groups: Seq<Seq<ValidatorIndex>>,
    v: ValidatorIndex,
    g: int,
) -> bool {
    &&& 0 <= g < groups.len()
    &&& groups[g].contains(v)
    &&& forall|j: int| g < j < groups.len() ==> !(#[trigger] groups[j]).contains(v)
}

/// The group that a validator belongs to: the last one that lists it, and
/// none where no group does.
pub open spec fn group_of(groups: Seq<Seq<ValidatorIndex>>, v: ValidatorIndex) -> Option<
    GroupIndex,
> {
    if exists|g: int| is_last_group_of(groups, v, g) {
        Some(GroupIndex((choose|g: int| is_last_group_of(groups, v, g)) as u32))
    } else {
        None
    }
}

/// At most one group is the last that lists a validator.
pub proof fn lemma_last_group_unique(
    groups: Seq<Seq<ValidatorIndex>>,
    v: ValidatorIndex,
    a: int,
    b: int,
)
    requires
        is_last_group_of(groups, v, a),
        is_last_group_of(groups, v, b),
    ensures
        a == b,
{
    if a < b {
        assert(!groups[b].contains(v));
    }
    if b < a {
        assert(!groups[a].contains(v));
    }
}

/// A validator has a group exactly where some group lists it.
pub proof fn lemma_group_of_listed(groups: Seq<Seq<ValidatorIndex>>, v: ValidatorIndex)
    ensures
        group_of(groups, v).is_some() <==> exists|g: int|
            0 <= g < groups.len() && (#[trigger] groups[g]).contains(v),
    decreases groups.len(),
{
    if exists|g: int| 0 <= g < groups.len() && (#[trigger] groups[g]).contains(v) {
        let g = choose|g: int| 0 <= g < groups.len() && (#[trigger] groups[g]).contains(v);
        lemma_some_last_group(groups, v, g, groups.len() as int);
    }
}

/// Where a group below `bound` lists the validator and none from `bound`
/// on does, some group is the last to list it.
proof fn lemma_some_last_group(
    groups: Seq<Seq<ValidatorIndex>>,
    v: ValidatorIndex,
    g: int,
    bound: int,
)
    requires
        0 <= g < bound <= groups.len(),
        groups[g].contains(v),
        forall|j: int| bound <= j < groups.len() ==> !(#[trigger] groups[j]).contains(v),
    ensures
        exists|l: int| is_last_group_of(groups, v, l),
    decreases bound - g,
{
    if groups[bound - 1].contains(v) {
        assert(is_last_group_of(groups, v, bound - 1));
    } else {
        lemma_some_last_group(groups, v, g, bound - 1);
    }
}

/// The model of a vector of groups.
pub open spec fn groups_view(groups: Seq<Vec<ValidatorIndex>>) -> Seq<Seq<ValidatorIndex>> {
    groups.map_values(|g: Vec<ValidatorIndex>| g@)
}

/// The groups of a session, frozen, with the group of each validator.
pub struct Groups {
    groups: Vec<Vec<ValidatorIndex>>,
    by_validator_index: VecMap<ValidatorIndex, GroupIndex>,
    validator_count: usize,
}

impl Groups {
    /// The groups in order, each with its members in order.
    pub closed spec fn view(&self) -> Seq<Seq<ValidatorIndex>> {
        groups_view(self.groups@)
    }

    /// The number of validators of the session.
    pub closed spec fn spec_validator_count(&self) -> nat {
        self.validator_count as nat
    }

    /// The reverse map holds, for each validator, the last group that lists
    /// it.
    pub closed spec fn wf(&self) -> bool {
        &&& self.groups@.len() <= u32::MAX
        &&& self.by_validator_index.wf()
        &&& forall|v: ValidatorIndex| #[trigger]
            self.by_validator_index@.dom().contains(v) <==> group_of(self@, v).is_some()
        &&& forall|v: ValidatorIndex| #[trigger]
            self.by_validator_index@.dom().contains(v) ==> group_of(self@, v) == Some(
                self.by_validator_index@[v],
            )
    }

    /// The group of a validator lists the validator, and no later group
    /// does.
    pub proof fn lemma_group_lists_validator(&self, v: ValidatorIndex)
        requires
            self.wf(),
        ensures
            self@.len() <= u32::MAX,
            group_of(self@, v) matches Some(g) ==> is_last_group_of(self@, v, g.0 as int),
    {
        if group_of(self@, v).is_some() {
            let g = choose|g: int| is_last_group_of(self@, v, g);
            assert(is_last_group_of(self@, v, g));
        }
    }

    /// Freezes the groups of a session. `discovery_keys` holds one key for
    /// each validator of the session, so its length is their number.
    pub fn new(groups: Vec<Vec<ValidatorIndex>>, discovery_keys: &Vec<AuthorityDiscoveryId>) -> (r:
        Self)
        requires
            groups@.len() <= u32::MAX,
        ensures
            r.wf(),
            r@ == groups_view(groups@),
            r.spec_validator_count() == discovery_keys@.len(),
    {
        let mut reverse: VecMap<ValidatorIndex, GroupIndex> = VecMap::new();
        let ghost all = groups_view(groups@);
        let mut i: usize = 0;
        while i < groups.len()
            invariant
                i <= groups.len(),
                groups@.len() <= u32::MAX,
                all == groups_view(groups@),
                reverse.wf(),
                forall|v: ValidatorIndex| #[trigger]
                    reverse@.dom().contains(v) <==> exists|g: int|
                        is_last_group_of(all.take(i as int), v, g),
                forall|v: ValidatorIndex| #[trigger]
                    reverse@.dom().contains(v) ==> is_last_group_of(
                        all.take(i as int),
                        v,
                        reverse@[v].0 as int,
                    ),
            decreases groups.len() - i,
        {
            let group = &groups[i];
            let ghost done = all.take(i as int);
            assert(all[i as int] == group@);
            let mut j: usize = 0;
            proof {
                let started = done.push(group@.take(0));
                assert forall|v: ValidatorIndex, g: int|
                    is_last_group_of(started, v, g) <==> is_last_group_of(done, v, g) by {
                    assert(!started[i as int].contains(v));
                    if is_last_group_of(done, v, g) {
                        assert(started[g] == done[g]);
                        assert forall|k: int| g < k < started.len() implies !(
                        #[trigger] started[k]).contains(v) by {
                            if k < i {
                                assert(started[k] == done[k]);
                            }
                        }
                    }
                    if is_last_group_of(started, v, g) {
                        assert(started[g] == done[g]);
                        assert forall|k: int| g < k < done.len() implies !(
                        #[trigger] done[k]).contains(v) by {
                            assert(started[k] == done[k]);
                        }
                    }
                }
            }
            while j < group.len()
                invariant
                    j <= group.len(),
                    i < groups.len(),
                    groups@.len() <= u32::MAX,
                    all == groups_view(groups@),
                    done == all.take(i as int),
                    all[i as int] == group@,
                    reverse.wf(),
                    forall|v: ValidatorIndex| #[trigger]
                        reverse@.dom().contains(v) <==> exists|g: int|
                            is_last_group_of(done.push(group@.take(j as int)), v, g),
                    forall|v: ValidatorIndex| #[trigger]
                        reverse@.dom().contains(v) ==> is_last_group_of(
                            done.push(group@.take(j as int)),
                            v,
                            reverse@[v].0 as int,
                        ),
                decreases group.len() - j,
            {
                let member = group[j];
                let ghost before = reverse@;
                let ghost partial = done.push(group@.take(j as int));
                let ghost next = done.push(group@.take(j + 1));
                reverse.insert(member, GroupIndex(i as u32));
                proof {
                    assert(group@.take(j + 1) =~= group@.take(j as int).push(member));
                    assert(next[i as int].contains(member)) by {
                        assert(next[i as int][j as int] == member);
                    }
                    assert(is_last_group_of(next, member, i as int));
                    assert forall|v: ValidatorIndex, g: int|
                        v != member implies (is_last_group_of(next, v, g) <==> is_last_group_of(
                            partial,
                            v,
                            g,
                        )) by {
                        assert(next[i as int].contains(v) <==> partial[i as int].contains(v)) by {
                            if next[i as int].contains(v) {
                                let k = choose|k: int|
                                    0 <= k < next[i as int].len() && next[i as int][k] == v;
                                assert(partial[i as int][k] == v);
                            }
                            if partial[i as int].contains(v) {
                                let k = choose|k: int|
                                    0 <= k < partial[i as int].len() && partial[i as int][k] == v;
                                assert(next[i as int][k] == v);
                            }
                        }
                        assert forall|k: int| 0 <= k < i implies next[k] == partial[k] by {}
                        if is_last_group_of(partial, v, g) {
                            assert forall|k: int| g < k < next.len() implies !(
                            #[trigger] next[k]).contains(v) by {
                                assert(!partial[k].contains(v));
                            }
                        }
                        if is_last_group_of(next, v, g) {
                            assert forall|k: int| g < k < partial.len() implies !(
                            #[trigger] partial[k]).contains(v) by {
                                assert(!next[k].contains(v));
                            }
                        }
                    }
                    assert forall|v: ValidatorIndex| #[trigger]
                        reverse@.dom().contains(v) <==> exists|g: int|
                            is_last_group_of(next, v, g) by {
                        if v != member {
                            assert(reverse@.dom().contains(v) <==> before.dom().contains(v));
                            if before.dom().contains(v) {
                                let g = choose|g: int| is_last_group_of(partial, v, g);
                                assert(is_last_group_of(next, v, g));
                            }
                            if exists|g: int| is_last_group_of(next, v, g) {
                                let g = choose|g: int| is_last_group_of(next, v, g);
                                assert(is_last_group_of(partial, v, g));
                            }
                        }
                    }
                    assert forall|v: ValidatorIndex| #[trigger]
                        reverse@.dom().contains(v) implies is_last_group_of(
                        next,
                        v,
                        reverse@[v].0 as int,
                    ) by {
                        if v != member {
                            assert(before.dom().contains(v));
                            assert(is_last_group_of(partial, v, before[v].0 as int));
                        }
                    }
                }
                j += 1;
            }
            proof {
                assert(group@.take(group@.len() as int) =~= group@);
                assert(done.push(group@) =~= all.take(i + 1));
            }
            i += 1;
        }
        let r = Groups { groups, by_validator_index: reverse, validator_count: discovery_keys.len() };
        proof {
            assert(all.take(all.len() as int) =~= all);
            assert(r@ == all);
            assert forall|v: ValidatorIndex| #[trigger]
                r.by_validator_index@.dom().contains(v) implies group_of(r@, v) == Some(
                r.by_validator_index@[v],
            ) by {
                let g = r.by_validator_index@[v].0 as int;
                assert(is_last_group_of(all, v, g));
                let c = choose|g: int| is_last_group_of(all, v, g);
                lemma_last_group_unique(all, v, g, c);
            }
        }
        r
    }

    /// All groups, in order.
    pub fn all(&self) -> (groups: &Vec<Vec<ValidatorIndex>>)
        ensures
            groups_view(groups@) == self@,
    {
        &self.groups
    }

    /// The members of a group.
    pub fn get(&self, group_index: GroupIndex) -> (members: Option<&Vec<ValidatorIndex>>)
        ensures
            match members {
                Some(m) => group_index.0 < self@.len() && m@ == self@[group_index.0 as int],
                None => group_index.0 >= self@.len(),
            },
    {
        if (group_index.0 as usize) < self.groups.len() {
            let m = &self.groups[group_index.0 as usize];
            assert(self@[group_index.0 as int] == m@);
            Some(m)
        } else {
            None
        }
    }

    /// The group that a validator belongs to.
    pub fn by_validator_index(&self, validator_index: ValidatorIndex) -> (group: Option<GroupIndex>)
        requires
            self.wf(),
        ensures
            group == group_of(self@, validator_index),
    {
        match self.by_validator_index.get(&validator_index) {
            Some(g) => Some(*g),
            None => None,
        }
    }

    /// The number of validators of the session.
    pub fn validator_count(&self) -> (n: usize)
        ensures
            n == self.spec_validator_count(),
    {
        self.validator_count
    }
}

} // verus!
