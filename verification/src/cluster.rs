//! Direct communication within a validator group at one relay-parent.
//!
//! The tracker records which statement went to which member of the group,
//! which came from which, and what each member is therefore believed to
//! know. From that it answers whether a statement may be sent or accepted.

use crate::lists::{
    contains_id, copy_ids, lemma_push_new_adds_one, lemma_push_new_holds, lemma_push_new_keeps,
    push_new,
};
use crate::primitives::{CandidateHash, CompactStatement, Identifier, ValidatorIndex};
use vstd::prelude::*;

verus! {

/// A statement of `originator` as it concerns the group member `peer`: sent
/// to it, received from it, or known to it.
#[derive(Clone, Copy, PartialEq, Eq, Debug)]
pub struct Edge {
    /// The group member at the other end.
    pub peer: ValidatorIndex,
    /// The validator that signed the statement.
    pub originator: ValidatorIndex,
    /// The statement.
    pub statement: CompactStatement,
}

impl Identifier for Edge {
    fn same(&self, other: &Edge) -> (r: bool) {
        self.peer.same(&other.peer) && self.originator.same(&other.originator)
            && self.statement.same(&other.statement)
    }
}

/// An incoming statement is acceptable.
#[derive(Clone, Copy, PartialEq, Eq, Debug)]
pub enum Accept {
    /// Nothing is held against the sender.
    WithoutPrejudice,
    /// The statement is acceptable although the sender has misbehaved before.
    /// No rule produces this yet.
    WithPrejudice,
}

/// Why an incoming statement is refused.
#[derive(Clone, Copy, PartialEq, Eq, Debug)]
pub enum RejectIncoming {
    /// The sender has passed on as many `Seconded` statements of the
    /// originator as the limit allows.
    ExcessiveSeconded,
    /// A `Valid` statement about a candidate that the sender is not known to
    /// have.
    CandidateUnknown,
    /// The sender has sent this statement before, or the statement is our own.
    Duplicate,
    /// The sender is not in the group.
    NotInGroup,
}

/// Why a statement is not to be sent.
#[derive(Clone, Copy, PartialEq, Eq, Debug)]
pub enum RejectOutgoing {
    /// The target is not in the group.
    NotInGroup,
    /// The target has been sent this statement before, or signed it itself.
    Duplicate,
    /// The target has been sent as many `Seconded` statements of the
    /// originator as the limit allows.
    ExcessiveSeconded,
    /// A `Valid` statement about a candidate that the target is not known to
    /// have.
    CandidateUnknown,
}

/// Selects the `Seconded` statements of `originator` that concern `peer`.
pub open spec fn seconded_between(peer: ValidatorIndex, originator: ValidatorIndex) -> spec_fn(
    Edge,
) -> bool {
    |e: Edge| e.peer == peer && e.originator == originator && e.statement is Seconded
}

/// The number of `Seconded` statements of `originator` that `log` records
/// for `peer`.
pub open spec fn seconded_count(log: Seq<Edge>, peer: ValidatorIndex, originator: ValidatorIndex) -> nat {
    log.filter(seconded_between(peer, originator)).len()
}

/// Whether an entry of the knowledge log shows that its originator, a
/// member of the group other than `local`, seconded the candidate.
pub open spec fn names_seconder(
    e: Edge,
    local: ValidatorIndex,
    validators: Seq<ValidatorIndex>,
    candidate: CandidateHash,
) -> bool {
    &&& e.peer == e.originator
    &&& e.originator != local
    &&& validators.contains(e.originator)
    &&& e.statement == CompactStatement::Seconded(candidate)
}

/// The originator of the first entry of a knowledge log that names a
/// seconder of the candidate.
pub open spec fn first_seconder(
    knowledge: Seq<Edge>,
    local: ValidatorIndex,
    validators: Seq<ValidatorIndex>,
    candidate: CandidateHash,
) -> Option<ValidatorIndex>
    decreases knowledge.len(),
{
    if knowledge.len() == 0 {
        None
    } else if names_seconder(knowledge[0], local, validators, candidate) {
        Some(knowledge[0].originator)
    } else {
        first_seconder(knowledge.drop_first(), local, validators, candidate)
    }
}

/// The validator that `first_seconder` finds is a member of the group other
/// than `local`, and the log shows that it seconded the candidate.
pub proof fn lemma_first_seconder_seconded(
    knowledge: Seq<Edge>,
    local: ValidatorIndex,
    validators: Seq<ValidatorIndex>,
    candidate: CandidateHash,
)
    ensures
        first_seconder(knowledge, local, validators, candidate) matches Some(v) ==> v != local
            && validators.contains(v) && knowledge.contains(
            Edge { peer: v, originator: v, statement: CompactStatement::Seconded(candidate) },
        ),
    decreases knowledge.len(),
{
    if knowledge.len() > 0 {
        if names_seconder(knowledge[0], local, validators, candidate) {
            assert(knowledge[0] == Edge {
                peer: knowledge[0].originator,
                originator: knowledge[0].originator,
                statement: CompactStatement::Seconded(candidate),
            });
        } else {
            lemma_first_seconder_seconded(knowledge.drop_first(), local, validators, candidate);
            if first_seconder(knowledge, local, validators, candidate).is_some() {
                let v = first_seconder(knowledge, local, validators, candidate).unwrap();
                let e = Edge {
                    peer: v,
                    originator: v,
                    statement: CompactStatement::Seconded(candidate),
                };
                let i = choose|i: int|
                    0 <= i < knowledge.drop_first().len() && knowledge.drop_first()[i] == e;
                assert(knowledge[i + 1] == e);
            }
        }
    }
}

/// What a cluster tracker holds.
pub struct ClusterView {
    /// Our own validator index.
    pub local: ValidatorIndex,
    /// The members of the group, in the session's order.
    pub validators: Seq<ValidatorIndex>,
    /// How many `Seconded` statements of one originator may pass between us
    /// and one member.
    pub seconding_limit: nat,
    /// What each member is believed to know.
    pub knowledge: Seq<Edge>,
    /// What was sent, to whom.
    pub sent: Seq<Edge>,
    /// What was received, from whom.
    pub received: Seq<Edge>,
}

impl ClusterView {
    /// The group is not empty, no log holds an entry twice, and what was
    /// sent to a member or received from it is known to it.
    pub open spec fn wf(self) -> bool {
        &&& self.validators.len() > 0
        &&& self.knowledge.no_duplicates()
        &&& self.sent.no_duplicates()
        &&& self.received.no_duplicates()
        &&& forall|i: int| 0 <= i < self.sent.len() ==> self.knowledge.contains(#[trigger] self.sent[i])
        &&& forall|i: int|
            0 <= i < self.received.len() ==> self.knowledge.contains(#[trigger] self.received[i])
    }

    /// The tracker of a group in which nothing has been said yet.
    pub open spec fn empty(
        local: ValidatorIndex,
        validators: Seq<ValidatorIndex>,
        seconding_limit: nat,
    ) -> ClusterView {
        ClusterView {
            local,
            validators,
            seconding_limit,
            knowledge: Seq::empty(),
            sent: Seq::empty(),
            received: Seq::empty(),
        }
    }

    /// The entry at `i` of the knowledge log shows that `validator` has a
    /// `Seconded` statement of a group member about the candidate.
    pub open spec fn shows_candidate(
        self,
        i: int,
        validator: ValidatorIndex,
        candidate: CandidateHash,
    ) -> bool {
        &&& 0 <= i < self.knowledge.len()
        &&& self.knowledge[i].peer == validator
        &&& self.knowledge[i].statement == CompactStatement::Seconded(candidate)
        &&& self.validators.contains(self.knowledge[i].originator)
    }

    /// Whether `validator` is believed to know a `Seconded` statement of some
    /// group member about the candidate.
    pub open spec fn knows_candidate(self, validator: ValidatorIndex, candidate: CandidateHash) -> bool {
        exists|i: int| self.shows_candidate(i, validator, candidate)
    }

    /// Whether a statement of `originator` may be sent to `target`.
    pub open spec fn can_send(
        self,
        target: ValidatorIndex,
        originator: ValidatorIndex,
        statement: CompactStatement,
    ) -> Result<(), RejectOutgoing> {
        if !self.validators.contains(target) {
            Err(RejectOutgoing::NotInGroup)
        } else if target == originator || self.sent.contains(
            Edge { peer: target, originator, statement },
        ) {
            Err(RejectOutgoing::Duplicate)
        } else {
            match statement {
                CompactStatement::Seconded(_) => if seconded_count(self.sent, target, originator)
                    >= self.seconding_limit {
                    Err(RejectOutgoing::ExcessiveSeconded)
                } else {
                    Ok(())
                },
                CompactStatement::Valid(candidate) => if !self.knows_candidate(target, candidate) {
                    Err(RejectOutgoing::CandidateUnknown)
                } else {
                    Ok(())
                },
            }
        }
    }

    /// Whether a statement of `originator` may be accepted from `sender`.
    pub open spec fn can_receive(
        self,
        sender: ValidatorIndex,
        originator: ValidatorIndex,
        statement: CompactStatement,
    ) -> Result<Accept, RejectIncoming> {
        if !self.validators.contains(sender) {
            Err(RejectIncoming::NotInGroup)
        } else if originator == self.local || self.received.contains(
            Edge { peer: sender, originator, statement },
        ) {
            Err(RejectIncoming::Duplicate)
        } else {
            match statement {
                CompactStatement::Seconded(_) => if seconded_count(
                    self.received,
                    sender,
                    originator,
                ) >= self.seconding_limit {
                    Err(RejectIncoming::ExcessiveSeconded)
                } else {
                    Ok(Accept::WithoutPrejudice)
                },
                CompactStatement::Valid(candidate) => if !self.knows_candidate(sender, candidate) {
                    Err(RejectIncoming::CandidateUnknown)
                } else {
                    Ok(Accept::WithoutPrejudice)
                },
            }
        }
    }

    /// The knowledge log after `peer` and the originator are known to have
    /// the statement.
    pub open spec fn learn(
        self,
        peer: ValidatorIndex,
        originator: ValidatorIndex,
        statement: CompactStatement,
    ) -> Seq<Edge> {
        push_new(
            push_new(self.knowledge, Edge { peer, originator, statement }),
            Edge { peer: originator, originator, statement },
        )
    }

    /// The tracker after the statement was sent to `target`.
    pub open spec fn note_sent(
        self,
        target: ValidatorIndex,
        originator: ValidatorIndex,
        statement: CompactStatement,
    ) -> ClusterView {
        ClusterView {
            knowledge: self.learn(target, originator, statement),
            sent: push_new(self.sent, Edge { peer: target, originator, statement }),
            ..self
        }
    }

    /// The tracker after the statement was received from `sender`.
    pub open spec fn note_received(
        self,
        sender: ValidatorIndex,
        originator: ValidatorIndex,
        statement: CompactStatement,
    ) -> ClusterView {
        ClusterView {
            knowledge: self.learn(sender, originator, statement),
            received: push_new(self.received, Edge { peer: sender, originator, statement }),
            ..self
        }
    }

    /// A member of the group other than us whose `Seconded` statement about
    /// the candidate is known: the first that the knowledge log shows, and
    /// none where it shows none.
    pub open spec fn sendable_seconder(self, candidate: CandidateHash) -> Option<ValidatorIndex> {
        first_seconder(self.knowledge, self.local, self.validators, candidate)
    }

    /// The members of the group that may pass statements on to us: all but
    /// ourselves, in the group's order.
    pub open spec fn senders(self) -> Seq<ValidatorIndex> {
        self.validators.filter(|v: ValidatorIndex| v != self.local)
    }
}

/// Recording the same statement as sent twice changes nothing the second
/// time.
pub proof fn lemma_note_sent_idempotent(
    c: ClusterView,
    target: ValidatorIndex,
    originator: ValidatorIndex,
    statement: CompactStatement,
)
    ensures
        c.note_sent(target, originator, statement).note_sent(target, originator, statement)
            == c.note_sent(target, originator, statement),
{
    let once = c.note_sent(target, originator, statement);
    let e = Edge { peer: target, originator, statement };
    let own = Edge { peer: originator, originator, statement };
    lemma_push_new_holds(c.sent, e);
    lemma_push_new_holds(c.knowledge, e);
    lemma_push_new_holds(push_new(c.knowledge, e), own);
    lemma_push_new_keeps(push_new(c.knowledge, e), own, e);
}

/// What is recorded as sent may not be sent again, and what is recorded as
/// received is refused when it comes again.
pub proof fn lemma_recorded_is_refused(
    c: ClusterView,
    peer: ValidatorIndex,
    originator: ValidatorIndex,
    statement: CompactStatement,
)
    ensures
        c.note_sent(peer, originator, statement).can_send(peer, originator, statement).is_err(),
        c.note_received(peer, originator, statement).can_receive(
            peer,
            originator,
            statement,
        ).is_err(),
{
    let e = Edge { peer, originator, statement };
    lemma_push_new_holds(c.sent, e);
    lemma_push_new_holds(c.received, e);
}

/// Recording the same statement as received twice changes nothing the
/// second time.
pub proof fn lemma_note_received_idempotent(
    c: ClusterView,
    sender: ValidatorIndex,
    originator: ValidatorIndex,
    statement: CompactStatement,
)
    ensures
        c.note_received(sender, originator, statement).note_received(
            sender,
            originator,
            statement,
        ) == c.note_received(sender, originator, statement),
{
    let e = Edge { peer: sender, originator, statement };
    let own = Edge { peer: originator, originator, statement };
    lemma_push_new_holds(c.received, e);
    lemma_push_new_holds(c.knowledge, e);
    lemma_push_new_holds(push_new(c.knowledge, e), own);
    lemma_push_new_keeps(push_new(c.knowledge, e), own, e);
}

/// Recording a statement as sent adds to the knowledge log only that the
/// target and the originator have the statement.
pub proof fn lemma_note_sent_teaches(
    c: ClusterView,
    target: ValidatorIndex,
    originator: ValidatorIndex,
    statement: CompactStatement,
    e: Edge,
)
    requires
        c.note_sent(target, originator, statement).knowledge.contains(e),
    ensures
        c.knowledge.contains(e) || e == (Edge { peer: target, originator, statement }) || e == (Edge {
            peer: originator,
            originator,
            statement,
        }),
{
    let first = Edge { peer: target, originator, statement };
    let own = Edge { peer: originator, originator, statement };
    lemma_push_new_adds_one(push_new(c.knowledge, first), own, e);
    if push_new(c.knowledge, first).contains(e) {
        lemma_push_new_adds_one(c.knowledge, first, e);
    }
}

/// Recording a statement as sent or received keeps the tracker
/// well-formed.
pub proof fn lemma_notes_preserve_wf(
    c: ClusterView,
    peer: ValidatorIndex,
    originator: ValidatorIndex,
    statement: CompactStatement,
)
    requires
        c.wf(),
    ensures
        c.note_sent(peer, originator, statement).wf(),
        c.note_received(peer, originator, statement).wf(),
{
    let e = Edge { peer, originator, statement };
    let own = Edge { peer: originator, originator, statement };
    let learnt = c.learn(peer, originator, statement);
    lemma_push_new_holds(c.sent, e);
    lemma_push_new_holds(c.received, e);
    lemma_push_new_holds(c.knowledge, e);
    lemma_push_new_holds(push_new(c.knowledge, e), own);
    lemma_push_new_keeps(push_new(c.knowledge, e), own, e);
    assert forall|x: Edge| c.knowledge.contains(x) implies learnt.contains(x) by {
        lemma_push_new_keeps(c.knowledge, e, x);
        lemma_push_new_keeps(push_new(c.knowledge, e), own, x);
    }
    let sent = push_new(c.sent, e);
    assert forall|i: int| 0 <= i < sent.len() implies learnt.contains(#[trigger] sent[i]) by {
        assert(sent.contains(sent[i]));
        lemma_push_new_adds_one(c.sent, e, sent[i]);
        if c.sent.contains(sent[i]) {
            let k = choose|k: int| 0 <= k < c.sent.len() && c.sent[k] == sent[i];
            assert(c.knowledge.contains(c.sent[k]));
        }
    }
    let received = push_new(c.received, e);
    assert forall|i: int| 0 <= i < received.len() implies learnt.contains(
        #[trigger] received[i],
    ) by {
        assert(received.contains(received[i]));
        lemma_push_new_adds_one(c.received, e, received[i]);
        if c.received.contains(received[i]) {
            let k = choose|k: int| 0 <= k < c.received.len() && c.received[k] == received[i];
            assert(c.knowledge.contains(c.received[k]));
        }
    }
    assert forall|i: int| 0 <= i < c.sent.len() implies learnt.contains(#[trigger] c.sent[i]) by {
        assert(c.knowledge.contains(c.sent[i]));
    }
    assert forall|i: int| 0 <= i < c.received.len() implies learnt.contains(
        #[trigger] c.received[i],
    ) by {
        assert(c.knowledge.contains(c.received[i]));
    }
}

/// Where the rules allow a statement to be sent to a target, it was not
/// recorded as sent to it before; and a `Seconded` statement of a member of
/// the group was not recorded as sent to a target that is not known to have
/// the candidate.
pub proof fn lemma_new_edges(
    c: ClusterView,
    target: ValidatorIndex,
    originator: ValidatorIndex,
    statement: CompactStatement,
)
    requires
        c.wf(),
    ensures
        c.can_send(target, originator, statement).is_ok() ==> !c.sent.contains(
            Edge { peer: target, originator, statement },
        ),
        statement is Seconded && c.validators.contains(originator) && !c.knows_candidate(
            target,
            statement.candidate(),
        ) ==> !c.sent.contains(Edge { peer: target, originator, statement }),
{
    let e = Edge { peer: target, originator, statement };
    if statement is Seconded && c.validators.contains(originator) && c.sent.contains(e) {
        let i = choose|i: int| 0 <= i < c.sent.len() && c.sent[i] == e;
        assert(c.knowledge.contains(c.sent[i]));
        let k = choose|k: int| 0 <= k < c.knowledge.len() && c.knowledge[k] == e;
        assert(c.shows_candidate(k, target, statement.candidate()));
    }
}

/// The logs of what was sent and of what was received hold each triple of
/// member, originator and statement at most once.
pub proof fn lemma_logs_hold_each_triple_once(c: ClusterView, e: Edge)
    requires
        c.wf(),
    ensures
        c.sent.to_multiset().count(e) <= 1,
        c.received.to_multiset().count(e) <= 1,
{
    c.sent.lemma_multiset_has_no_duplicates();
    c.received.lemma_multiset_has_no_duplicates();
}

/// Whether a log holds an entry.
fn log_contains(log: &Vec<Edge>, e: &Edge) -> (r: bool)
    ensures
        r == log@.contains(*e),
{
    contains_id(log, e)
}

/// Adds an entry to a log that does not hold it yet.
fn log_push_new(log: &mut Vec<Edge>, e: Edge)
    ensures
        final(log)@ == push_new(old(log)@, e),
{
    if !log_contains(log, &e) {
        log.push(e);
    }
}

/// Counts the `Seconded` statements of `originator` that a log records for
/// `peer`, up to `limit`: the answer is whether there are at least `limit`.
fn seconded_reaches(
    log: &Vec<Edge>,
    peer: ValidatorIndex,
    originator: ValidatorIndex,
    limit: usize,
) -> (r: bool)
    ensures
        r == (seconded_count(log@, peer, originator) >= limit),
{
    let mut count: usize = 0;
    let mut i: usize = 0;
    while i < log.len()
        invariant
            i <= log.len(),
            count == seconded_count(log@.take(i as int), peer, originator),
            count <= i,
        decreases log.len() - i,
    {
        let e = &log[i];
        proof {
            log@.lemma_take_succ_push(i as int);
            log@.take(i as int).lemma_filter_push(log@[i as int], seconded_between(peer, originator));
        }
        if e.peer.same(&peer) && e.originator.same(&originator) && e.statement.is_seconded() {
            count += 1;
        }
        i += 1;
    }
    assert(log@.take(log@.len() as int) =~= log@);
    count >= limit
}

/// The knowledge of one group about who holds which statement.
pub struct ClusterTracker {
    local: ValidatorIndex,
    validators: Vec<ValidatorIndex>,
    seconding_limit: usize,
    knowledge: Vec<Edge>,
    sent: Vec<Edge>,
    received: Vec<Edge>,
}

impl ClusterTracker {
    /// What the tracker holds.
    pub closed spec fn view(&self) -> ClusterView {
        ClusterView {
            local: self.local,
            validators: self.validators@,
            seconding_limit: self.seconding_limit as nat,
            knowledge: self.knowledge@,
            sent: self.sent@,
            received: self.received@,
        }
    }

    /// What the tracker holds is well-formed.
    pub open spec fn wf(&self) -> bool {
        self@.wf()
    }

    /// A tracker for the group `cluster_validators`, of which `local` is our
    /// own index, allowing `seconding_limit` `Seconded` statements of one
    /// originator between us and one member. There is none for an empty
    /// group.
    pub fn new(
        local: ValidatorIndex,
        cluster_validators: Vec<ValidatorIndex>,
        seconding_limit: usize,
    ) -> (r: Option<Self>)
        ensures
            cluster_validators@.len() == 0 <==> r.is_none(),
            r matches Some(t) ==> t.wf() && t@ == ClusterView::empty(
                local,
                cluster_validators@,
                seconding_limit as nat,
            ),
    {
        if cluster_validators.len() == 0 {
            return None;
        }
        Some(
            ClusterTracker {
                local,
                validators: cluster_validators,
                seconding_limit,
                knowledge: Vec::new(),
                sent: Vec::new(),
                received: Vec::new(),
            },
        )
    }

    /// Our own validator index.
    pub fn local_index(&self) -> (v: ValidatorIndex)
        ensures
            v == self@.local,
    {
        self.local
    }

    /// The limit on `Seconded` statements of one originator.
    pub fn seconding_limit(&self) -> (k: usize)
        ensures
            k == self@.seconding_limit,
    {
        self.seconding_limit
    }

    /// Whether `validator` is believed to know a `Seconded` statement of some
    /// group member about the candidate.
    pub fn knows_candidate(&self, validator: ValidatorIndex, candidate_hash: CandidateHash) -> (r:
        bool)
        ensures
            r == self@.knows_candidate(validator, candidate_hash),
    {
        let wanted = CompactStatement::Seconded(candidate_hash);
        let mut i: usize = 0;
        while i < self.knowledge.len()
            invariant
                i <= self.knowledge.len(),
                wanted == CompactStatement::Seconded(candidate_hash),
                forall|j: int| 0 <= j < i ==> !self@.shows_candidate(j, validator, candidate_hash),
            decreases self.knowledge.len() - i,
        {
            let e = &self.knowledge[i];
            if e.peer.same(&validator) && e.statement.same(&wanted) && contains_id(
                &self.validators,
                &e.originator,
            ) {
                assert(self@.shows_candidate(i as int, validator, candidate_hash));
                return true;
            }
            i += 1;
        }
        false
    }

    /// Whether a statement of `originator` may be sent to `target`.
    pub fn can_send(
        &self,
        target: ValidatorIndex,
        originator: ValidatorIndex,
        statement: CompactStatement,
    ) -> (r: Result<(), RejectOutgoing>)
        ensures
            r == self@.can_send(target, originator, statement),
    {
        if !contains_id(&self.validators, &target) {
            return Err(RejectOutgoing::NotInGroup);
        }
        if target.same(&originator) || log_contains(
            &self.sent,
            &Edge { peer: target, originator, statement },
        ) {
            return Err(RejectOutgoing::Duplicate);
        }
        match statement {
            CompactStatement::Seconded(_) => {
                if seconded_reaches(&self.sent, target, originator, self.seconding_limit) {
                    Err(RejectOutgoing::ExcessiveSeconded)
                } else {
                    Ok(())
                }
            },
            CompactStatement::Valid(candidate_hash) => {
                if !self.knows_candidate(target, candidate_hash) {
                    Err(RejectOutgoing::CandidateUnknown)
                } else {
                    Ok(())
                }
            },
        }
    }

    /// Whether a statement of `originator` may be accepted from `sender`.
    pub fn can_receive(
        &self,
        sender: ValidatorIndex,
        originator: ValidatorIndex,
        statement: CompactStatement,
    ) -> (r: Result<Accept, RejectIncoming>)
        ensures
            r == self@.can_receive(sender, originator, statement),
    {
        if !contains_id(&self.validators, &sender) {
            return Err(RejectIncoming::NotInGroup);
        }
        if originator.same(&self.local) || log_contains(
            &self.received,
            &Edge { peer: sender, originator, statement },
        ) {
            return Err(RejectIncoming::Duplicate);
        }
        match statement {
            CompactStatement::Seconded(_) => {
                if seconded_reaches(&self.received, sender, originator, self.seconding_limit) {
                    Err(RejectIncoming::ExcessiveSeconded)
                } else {
                    Ok(Accept::WithoutPrejudice)
                }
            },
            CompactStatement::Valid(candidate_hash) => {
                if !self.knows_candidate(sender, candidate_hash) {
                    Err(RejectIncoming::CandidateUnknown)
                } else {
                    Ok(Accept::WithoutPrejudice)
                }
            },
        }
    }

    /// Records that the statement was sent to `target`.
    pub fn note_sent(
        &mut self,
        target: ValidatorIndex,
        originator: ValidatorIndex,
        statement: CompactStatement,
    )
        ensures
            final(self)@ == old(self)@.note_sent(target, originator, statement),
            old(self).wf() ==> final(self).wf(),
    {
        log_push_new(&mut self.knowledge, Edge { peer: target, originator, statement });
        log_push_new(&mut self.knowledge, Edge { peer: originator, originator, statement });
        log_push_new(&mut self.sent, Edge { peer: target, originator, statement });
        proof {
            if old(self).wf() {
                lemma_notes_preserve_wf(old(self)@, target, originator, statement);
            }
        }
    }

    /// Records that the statement was received from `sender`.
    pub fn note_received(
        &mut self,
        sender: ValidatorIndex,
        originator: ValidatorIndex,
        statement: CompactStatement,
    )
        ensures
            final(self)@ == old(self)@.note_received(sender, originator, statement),
            old(self).wf() ==> final(self).wf(),
    {
        log_push_new(&mut self.knowledge, Edge { peer: sender, originator, statement });
        log_push_new(&mut self.knowledge, Edge { peer: originator, originator, statement });
        log_push_new(&mut self.received, Edge { peer: sender, originator, statement });
        proof {
            if old(self).wf() {
                lemma_notes_preserve_wf(old(self)@, sender, originator, statement);
            }
        }
    }

    /// A member of the group other than us whose `Seconded` statement about
    /// the candidate is known: the first that the knowledge log shows.
    /// Sending that statement to a member makes the candidate known to it.
    pub fn sendable_seconder(&self, candidate_hash: CandidateHash) -> (r: Option<ValidatorIndex>)
        ensures
            r == self@.sendable_seconder(candidate_hash),
    {
        let wanted = CompactStatement::Seconded(candidate_hash);
        let mut i: usize = 0;
        assert(self.knowledge@.skip(0) =~= self.knowledge@);
        while i < self.knowledge.len()
            invariant
                i <= self.knowledge.len(),
                wanted == CompactStatement::Seconded(candidate_hash),
                self@.sendable_seconder(candidate_hash) == first_seconder(
                    self.knowledge@.skip(i as int),
                    self.local,
                    self.validators@,
                    candidate_hash,
                ),
            decreases self.knowledge.len() - i,
        {
            let e = &self.knowledge[i];
            assert(self.knowledge@.skip(i as int)[0] == *e);
            assert(self.knowledge@.skip(i as int).drop_first() =~= self.knowledge@.skip(i + 1));
            if e.peer.same(&e.originator) && !e.originator.same(&self.local) && contains_id(
                &self.validators,
                &e.originator,
            ) && e.statement.same(&wanted) {
                return Some(e.originator);
            }
            i += 1;
        }
        None
    }

    /// What was sent, to whom, in the order in which it was recorded.
    pub fn sent(&self) -> (log: Vec<Edge>)
        ensures
            log@ == self@.sent,
    {
        copy_ids(&self.sent)
    }

    /// What was received, from whom, in the order in which it was recorded.
    pub fn received(&self) -> (log: Vec<Edge>)
        ensures
            log@ == self@.received,
    {
        copy_ids(&self.received)
    }

    /// What each member is believed to know, in the order in which it was
    /// recorded.
    pub fn knowledge(&self) -> (log: Vec<Edge>)
        ensures
            log@ == self@.knowledge,
    {
        copy_ids(&self.knowledge)
    }

    /// The members of the group, ourselves included.
    pub fn targets(&self) -> (members: &Vec<ValidatorIndex>)
        ensures
            members@ == self@.validators,
    {
        &self.validators
    }

    /// The members of the group that may pass statements of `originator` on
    /// to us: for every originator, all members but ourselves.
    pub fn senders_for_originator(&self, originator: ValidatorIndex) -> (senders: Vec<
        ValidatorIndex,
    >)
        ensures
            senders@ == self@.senders(),
    {
        let mut senders: Vec<ValidatorIndex> = Vec::new();
        let ghost others = |v: ValidatorIndex| v != self@.local;
        let mut i: usize = 0;
        proof {
            assert(self.validators@.take(0).filter(others) =~= Seq::<ValidatorIndex>::empty()) by {
                reveal(Seq::filter);
            }
        }
        while i < self.validators.len()
            invariant
                i <= self.validators.len(),
                others == |v: ValidatorIndex| v != self@.local,
                senders@ == self.validators@.take(i as int).filter(others),
            decreases self.validators.len() - i,
        {
            let v = self.validators[i];
            proof {
                self.validators@.lemma_take_succ_push(i as int);
                self.validators@.take(i as int).lemma_filter_push(v, others);
            }
            if !v.same(&self.local) {
                senders.push(v);
            }
            i += 1;
        }
        assert(self.validators@.take(self.validators@.len() as int) =~= self.validators@);
        senders
    }
}

} // verus!
