//! The statements seen at one relay-parent.
//!
//! The store is a log: a statement is appended once and never changed. It
//! holds at most [`MAX_SECONDED_PER_VALIDATOR`] `Seconded` statements of one
//! validator.

use crate::groups::{group_of, Groups};
use crate::primitives::{
    CandidateHash, CompactStatement, GroupIndex, Identifier, SignedStatement, ValidatorIndex,
};
use crate::lists::copy_ids;
use crate::vec_map::VecMap;
use vstd::prelude::*;

verus! {

/// How many distinct `Seconded` statements of one validator the store takes.
pub const MAX_SECONDED_PER_VALIDATOR: usize = 2;

/// Why the store refuses a statement.
#[derive(Clone, Copy, PartialEq, Eq, Debug)]
pub enum StatementStoreError {
    /// The author's index lies outside the session's validators.
    ValidatorUnknown,
    /// The author is a validator of the session that no group lists.
    NotInAnyGroup,
    /// The author has as many `Seconded` statements in the store as it may
    /// have, and this would be one more.
    ExcessiveSeconded,
}

/// Selects the `Seconded` statements of a validator.
pub open spec fn seconded_by(validator: ValidatorIndex) -> spec_fn(SignedStatement) -> bool {
    |s: SignedStatement| s.validator() == validator && s.statement() is Seconded
}

/// Selects the statements about a candidate.
pub open spec fn about(candidate: CandidateHash) -> spec_fn(SignedStatement) -> bool {
    |s: SignedStatement| s.statement().candidate() == candidate
}

/// What a statement store holds.
pub struct StoreView {
    /// The statements in the order in which they were taken.
    pub statements: Seq<SignedStatement>,
    /// The group of each validator that has a statement in the store.
    pub groups: Map<ValidatorIndex, GroupIndex>,
}

impl StoreView {
    /// The statement at `i` is `statement` signed by `validator`.
    pub open spec fn holds_at(self, i: int, validator: ValidatorIndex, statement: CompactStatement) -> bool {
        &&& 0 <= i < self.statements.len()
        &&& self.statements[i].validator() == validator
        &&& self.statements[i].statement() == statement
    }

    /// Whether the store has `statement` signed by `validator`.
    pub open spec fn contains(self, validator: ValidatorIndex, statement: CompactStatement) -> bool {
        exists|i: int| self.holds_at(i, validator, statement)
    }

    /// The signed form of `statement` by `validator`, where the store has it.
    pub open spec fn get(self, validator: ValidatorIndex, statement: CompactStatement) -> Option<
        SignedStatement,
    > {
        if self.contains(validator, statement) {
            Some(self.statements[choose|i: int| self.holds_at(i, validator, statement)])
        } else {
            None
        }
    }

    /// The number of `Seconded` statements of a validator.
    pub open spec fn seconded_count(self, validator: ValidatorIndex) -> nat {
        self.statements.filter(seconded_by(validator)).len()
    }

    /// Selects the statements about a candidate whose author is in a group.
    pub open spec fn of_group_about(self, group: GroupIndex, candidate: CandidateHash) -> spec_fn(
        SignedStatement,
    ) -> bool {
        |s: SignedStatement|
            s.statement().candidate() == candidate && self.groups.dom().contains(s.validator())
                && self.groups[s.validator()] == group
    }

    /// No statement occurs twice, no validator has more `Seconded` statements
    /// than allowed, and the group of every author is recorded.
    pub open spec fn wf(self) -> bool {
        &&& forall|i: int, j: int|
            0 <= i < j < self.statements.len() ==> !(#[trigger] self.statements[i].validator()
                == #[trigger] self.statements[j].validator() && self.statements[i].statement()
                == self.statements[j].statement())
        &&& forall|v: ValidatorIndex| #[trigger]
            self.seconded_count(v) <= MAX_SECONDED_PER_VALIDATOR
        &&& forall|i: int|
            0 <= i < self.statements.len() ==> self.groups.dom().contains(
                #[trigger] self.statements[i].validator(),
            )
    }

    /// The group that the store takes a validator to be in: the one it has
    /// recorded, or else the one that `groups` gives.
    pub open spec fn group_for(self, groups: &Groups, validator: ValidatorIndex) -> Option<
        GroupIndex,
    > {
        if self.groups.dom().contains(validator) {
            Some(self.groups[validator])
        } else {
            group_of(groups@, validator)
        }
    }

    /// What [`StatementStore::insert`] answers.
    pub open spec fn insert_outcome(self, groups: &Groups, statement: SignedStatement) -> Result<
        bool,
        StatementStoreError,
    > {
        if statement.validator().0 >= groups.spec_validator_count() {
            Err(StatementStoreError::ValidatorUnknown)
        } else if self.group_for(groups, statement.validator()).is_none() {
            Err(StatementStoreError::NotInAnyGroup)
        } else if self.contains(statement.validator(), statement.statement()) {
            Ok(false)
        } else if statement.statement() is Seconded && self.seconded_count(statement.validator())
            >= MAX_SECONDED_PER_VALIDATOR {
            Err(StatementStoreError::ExcessiveSeconded)
        } else {
            Ok(true)
        }
    }

    /// The store after [`StatementStore::insert`]: longer by the statement
    /// where the statement is fresh, and the same otherwise.
    pub open spec fn insert(self, groups: &Groups, statement: SignedStatement) -> StoreView {
        if self.insert_outcome(groups, statement) == Ok::<bool, StatementStoreError>(true) {
            StoreView {
                statements: self.statements.push(statement),
                groups: self.groups.insert(
                    statement.validator(),
                    self.group_for(groups, statement.validator()).unwrap(),
                ),
            }
        } else {
            self
        }
    }
}

/// A store never holds more than two `Seconded` statements of one validator.
pub proof fn lemma_at_most_two_seconded(store: StoreView, validator: ValidatorIndex)
    requires
        store.wf(),
    ensures
        store.seconded_count(validator) <= 2,
{
}

/// Taking a statement keeps the store well-formed.
pub proof fn lemma_insert_preserves_wf(store: StoreView, groups: &Groups, statement: SignedStatement)
    requires
        store.wf(),
    ensures
        store.insert(groups, statement).wf(),
{
    let next = store.insert(groups, statement);
    if store.insert_outcome(groups, statement) == Ok::<bool, StatementStoreError>(true) {
        let n = store.statements.len() as int;
        assert forall|i: int, j: int| 0 <= i < j < next.statements.len() implies !(
        #[trigger] next.statements[i].validator() == #[trigger] next.statements[j].validator()
            && next.statements[i].statement() == next.statements[j].statement()) by {
            if j == n {
                if next.statements[i].validator() == statement.validator()
                    && next.statements[i].statement() == statement.statement() {
                    assert(store.holds_at(i, statement.validator(), statement.statement()));
                }
            }
        }
        assert forall|v: ValidatorIndex| #[trigger]
            next.seconded_count(v) <= MAX_SECONDED_PER_VALIDATOR by {
            store.statements.lemma_filter_push(statement, seconded_by(v));
            assert(store.seconded_count(v) <= MAX_SECONDED_PER_VALIDATOR);
        }
        assert forall|i: int| 0 <= i < next.statements.len() implies next.groups.dom().contains(
            #[trigger] next.statements[i].validator(),
        ) by {
            if i < n {
                assert(store.groups.dom().contains(store.statements[i].validator()));
            }
        }
    }
}

/// The statements seen at one relay-parent, each once.
pub struct StatementStore {
    statements: Vec<SignedStatement>,
    group_cache: VecMap<ValidatorIndex, GroupIndex>,
}

impl StatementStore {
    /// What the store holds.
    pub closed spec fn view(&self) -> StoreView {
        StoreView { statements: self.statements@, groups: self.group_cache@ }
    }

    /// The store's invariant.
    pub closed spec fn wf(&self) -> bool {
        &&& self@.wf()
        &&& self.group_cache.wf()
    }

    /// Well-formedness of the store includes that of what it holds.
    pub proof fn lemma_wf_view(&self)
        requires
            self.wf(),
        ensures
            self@.wf(),
    {
    }

    /// An empty store.
    pub fn new() -> (r: Self)
        ensures
            r.wf(),
            r@.statements == Seq::<SignedStatement>::empty(),
            r@.groups == Map::<ValidatorIndex, GroupIndex>::empty(),
    {
        let r = StatementStore { statements: Vec::new(), group_cache: VecMap::new() };
        proof {
            assert forall|v: ValidatorIndex| #[trigger]
                r@.seconded_count(v) <= MAX_SECONDED_PER_VALIDATOR by {
                r@.statements.lemma_filter_len(seconded_by(v));
            }
        }
        r
    }

    /// The number of statements in the store.
    pub fn len(&self) -> (n: usize)
        ensures
            n == self@.statements.len(),
    {
        self.statements.len()
    }

    /// The statements in the order in which they were taken.
    pub fn statements(&self) -> (r: Vec<SignedStatement>)
        ensures
            r@ == self@.statements,
    {
        copy_ids(&self.statements)
    }

    /// The position of `statement` signed by `validator`.
    fn find(&self, validator: ValidatorIndex, statement: CompactStatement) -> (r: Option<usize>)
        ensures
            match r {
                Some(i) => self@.holds_at(i as int, validator, statement),
                None => !self@.contains(validator, statement),
            },
    {
        let mut i: usize = 0;
        while i < self.statements.len()
            invariant
                i <= self.statements.len(),
                forall|j: int| 0 <= j < i ==> !self@.holds_at(j, validator, statement),
            decreases self.statements.len() - i,
        {
            let s = &self.statements[i];
            if s.validator_index().same(&validator) && s.payload().same(&statement) {
                assert(self@.holds_at(i as int, validator, statement));
                return Some(i);
            }
            i += 1;
        }
        None
    }

    /// The number of `Seconded` statements that the store has of a validator.
    pub fn seconded_count(&self, validator: ValidatorIndex) -> (n: usize)
        ensures
            n == self@.seconded_count(validator),
    {
        let mut count: usize = 0;
        let mut i: usize = 0;
        proof {
            assert(self.statements@.take(0).filter(seconded_by(validator)).len() == 0) by {
                self.statements@.take(0).lemma_filter_len(seconded_by(validator));
            }
        }
        while i < self.statements.len()
            invariant
                i <= self.statements.len(),
                count == self.statements@.take(i as int).filter(seconded_by(validator)).len(),
                count <= i,
            decreases self.statements.len() - i,
        {
            let s = &self.statements[i];
            proof {
                self.statements@.lemma_take_succ_push(i as int);
                self.statements@.take(i as int).lemma_filter_push(
                    self.statements@[i as int],
                    seconded_by(validator),
                );
            }
            if s.validator_index().same(&validator) && s.payload().is_seconded() {
                count += 1;
            }
            i += 1;
        }
        assert(self.statements@.take(self.statements@.len() as int) =~= self.statements@);
        count
    }

    /// The group that the store takes a validator to be in.
    fn group_for(&self, groups: &Groups, validator: ValidatorIndex) -> (r: Option<GroupIndex>)
        requires
            self.wf(),
            groups.wf(),
        ensures
            r == self@.group_for(groups, validator),
    {
        match self.group_cache.get(&validator) {
            Some(g) => Some(*g),
            None => groups.by_validator_index(validator),
        }
    }

    /// Takes a statement. The answer is `Ok(true)` where the statement is
    /// fresh and `Ok(false)` where the store has it already; the store
    /// changes only where the statement is fresh.
    pub fn insert(&mut self, groups: &Groups, statement: SignedStatement) -> (r: Result<
        bool,
        StatementStoreError,
    >)
        requires
            old(self).wf(),
            groups.wf(),
        ensures
            final(self).wf(),
            r == old(self)@.insert_outcome(groups, statement),
            final(self)@ == old(self)@.insert(groups, statement),
    {
        let validator = statement.validator_index();
        if validator.0 as usize >= groups.validator_count() {
            return Err(StatementStoreError::ValidatorUnknown);
        }
        let group = match self.group_for(groups, validator) {
            None => {
                return Err(StatementStoreError::NotInAnyGroup);
            },
            Some(g) => g,
        };
        if self.find(validator, statement.payload()).is_some() {
            return Ok(false);
        }
        if statement.payload().is_seconded() && self.seconded_count(validator)
            >= MAX_SECONDED_PER_VALIDATOR {
            return Err(StatementStoreError::ExcessiveSeconded);
        }
        self.statements.push(statement);
        self.group_cache.insert(validator, group);
        proof {
            lemma_insert_preserves_wf(old(self)@, groups, statement);
        }
        Ok(true)
    }

    /// The group of a validator, as recorded when the store first took a
    /// statement of it.
    pub fn validator_group_index(&self, validator: ValidatorIndex) -> (r: Option<GroupIndex>)
        requires
            self.wf(),
        ensures
            r == (if self@.groups.dom().contains(validator) {
                Some(self@.groups[validator])
            } else {
                None
            }),
    {
        match self.group_cache.get(&validator) {
            Some(g) => Some(*g),
            None => None,
        }
    }

    /// The signed form of `statement` by `validator`, where the store has it.
    pub fn validator_statement(&self, validator: ValidatorIndex, statement: CompactStatement) -> (r:
        Option<SignedStatement>)
        requires
            self.wf(),
        ensures
            r == self@.get(validator, statement),
            r matches Some(s) ==> s.validator() == validator && s.statement() == statement
                && self@.statements.contains(s),
    {
        match self.find(validator, statement) {
            Some(i) => {
                let s = self.statements[i];
                proof {
                    let j = choose|j: int| self@.holds_at(j, validator, statement);
                    assert(self@.holds_at(i as int, validator, statement));
                    if i < j {
                        assert(!(self@.statements[i as int].validator()
                            == self@.statements[j].validator() && self@.statements[i as int].statement()
                            == self@.statements[j].statement()));
                    }
                    if j < i {
                        assert(!(self@.statements[j].validator()
                            == self@.statements[i as int].validator() && self@.statements[j].statement()
                            == self@.statements[i as int].statement()));
                    }
                    assert(self@.statements[i as int] == s);
                }
                Some(s)
            },
            None => None,
        }
    }

    /// The statements about a candidate, in the order in which they came.
    pub fn candidate_statements(&self, candidate_hash: CandidateHash) -> (r: Vec<SignedStatement>)
        ensures
            r@ == self@.statements.filter(about(candidate_hash)),
    {
        let mut found: Vec<SignedStatement> = Vec::new();
        let mut i: usize = 0;
        proof {
            assert(self.statements@.take(0).filter(about(candidate_hash)) =~= Seq::<
                SignedStatement,
            >::empty()) by {
                self.statements@.take(0).lemma_filter_len(about(candidate_hash));
            }
        }
        while i < self.statements.len()
            invariant
                i <= self.statements.len(),
                found@ == self.statements@.take(i as int).filter(about(candidate_hash)),
            decreases self.statements.len() - i,
        {
            let s = self.statements[i];
            proof {
                self.statements@.lemma_take_succ_push(i as int);
                self.statements@.take(i as int).lemma_filter_push(
                    self.statements@[i as int],
                    about(candidate_hash),
                );
            }
            if s.payload().candidate_hash().same(&candidate_hash) {
                found.push(s);
            }
            i += 1;
        }
        assert(self.statements@.take(self.statements@.len() as int) =~= self.statements@);
        found
    }

    /// The statements about a candidate whose authors are recorded as members
    /// of a group, in the order in which they came.
    pub fn group_statements(&self, group_index: GroupIndex, candidate_hash: CandidateHash) -> (r:
        Vec<SignedStatement>)
        requires
            self.wf(),
        ensures
            r@ == self@.statements.filter(self@.of_group_about(group_index, candidate_hash)),
    {
        let mut found: Vec<SignedStatement> = Vec::new();
        let ghost wanted = self@.of_group_about(group_index, candidate_hash);
        let mut i: usize = 0;
        proof {
            assert(self.statements@.take(0).filter(wanted) =~= Seq::<SignedStatement>::empty()) by {
                self.statements@.take(0).lemma_filter_len(wanted);
            }
        }
        while i < self.statements.len()
            invariant
                self.wf(),
                i <= self.statements.len(),
                wanted == self@.of_group_about(group_index, candidate_hash),
                found@ == self.statements@.take(i as int).filter(wanted),
            decreases self.statements.len() - i,
        {
            let s = self.statements[i];
            proof {
                self.statements@.lemma_take_succ_push(i as int);
                self.statements@.take(i as int).lemma_filter_push(self.statements@[i as int], wanted);
            }
            if s.payload().candidate_hash().same(&candidate_hash) {
                let in_group = match self.group_cache.get(&s.validator_index()) {
                    Some(g) => g.same(&group_index),
                    None => false,
                };
                if in_group {
                    found.push(s);
                }
            }
            i += 1;
        }
        assert(self.statements@.take(self.statements@.len() as int) =~= self.statements@);
        found
    }
}

} // verus!
