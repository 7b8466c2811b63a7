//! Identities and statements that the statement-distribution state is keyed by.
//!
//! Every identity is a small `Copy` value. Verified code compares two of them
//! with [`Identifier::same`], which is proved to agree with equality in
//! contracts.

use vstd::prelude::*;

verus! {

/// A value that can be compared for identity in executable code.
pub trait Identifier: Copy + Sized {
    /// Whether the two values are the same value.
    fn same(&self, other: &Self) -> (r: bool)
        ensures
            r == (*self == *other),
    ;
}

/// Compares two 32-byte strings.
pub fn bytes32_same(a: &[u8; 32], b: &[u8; 32]) -> (r: bool)
    ensures
        r == (*a == *b),
{
    let mut i: usize = 0;
    while i < 32
        invariant
            i <= 32,
            forall|j: int| 0 <= j < i ==> a@[j] == b@[j],
        decreases 32 - i,
    {
        if a[i] != b[i] {
            return false;
        }
        i += 1;
    }
    assert(*a =~= *b);
    true
}

/// Compares two 64-byte strings.
pub fn bytes64_same(a: &[u8; 64], b: &[u8; 64]) -> (r: bool)
    ensures
        r == (*a == *b),
{
    let mut i: usize = 0;
    while i < 64
        invariant
            i <= 64,
            forall|j: int| 0 <= j < i ==> a@[j] == b@[j],
        decreases 64 - i,
    {
        if a[i] != b[i] {
            return false;
        }
        i += 1;
    }
    assert(*a =~= *b);
    true
}

/// The index of a session of the relay chain.
pub type SessionIndex = u32;

impl Identifier for u32 {
    fn same(&self, other: &u32) -> (r: bool) {
        *self == *other
    }
}

/// A fixed-width content hash; as a relay-parent it names a relay-chain block.
#[derive(Clone, Copy, PartialEq, Eq, Debug)]
pub struct Hash(pub [u8; 32]);

impl Identifier for Hash {
    fn same(&self, other: &Hash) -> (r: bool) {
        bytes32_same(&self.0, &other.0)
    }
}

/// The hash of a candidate's committed receipt.
#[derive(Clone, Copy, PartialEq, Eq, Debug)]
pub struct CandidateHash(pub Hash);

impl Identifier for CandidateHash {
    fn same(&self, other: &CandidateHash) -> (r: bool) {
        self.0.same(&other.0)
    }
}

/// The position of a validator in the session's validator vector.
#[derive(Clone, Copy, PartialEq, Eq, Debug)]
pub struct ValidatorIndex(pub u32);

impl Identifier for ValidatorIndex {
    fn same(&self, other: &ValidatorIndex) -> (r: bool) {
        self.0 == other.0
    }
}

/// The position of a validator group in the session's group vector.
#[derive(Clone, Copy, PartialEq, Eq, Debug)]
pub struct GroupIndex(pub u32);

impl Identifier for GroupIndex {
    fn same(&self, other: &GroupIndex) -> (r: bool) {
        self.0 == other.0
    }
}

/// The identifier of a parachain.
#[derive(Clone, Copy, PartialEq, Eq, Debug)]
pub struct ParaId(pub u32);

impl Identifier for ParaId {
    fn same(&self, other: &ParaId) -> (r: bool) {
        self.0 == other.0
    }
}

/// The transport identity of a peer: the 32-byte digest that names it on the
/// network.
#[derive(Clone, Copy, PartialEq, Eq, Debug)]
pub struct PeerId(pub [u8; 32]);

impl Identifier for PeerId {
    fn same(&self, other: &PeerId) -> (r: bool) {
        bytes32_same(&self.0, &other.0)
    }
}

/// The public key under which a validator is discovered on the network.
#[derive(Clone, Copy, PartialEq, Eq, Debug)]
pub struct AuthorityDiscoveryId(pub [u8; 32]);

impl Identifier for AuthorityDiscoveryId {
    fn same(&self, other: &AuthorityDiscoveryId) -> (r: bool) {
        bytes32_same(&self.0, &other.0)
    }
}

/// The public key with which a validator signs statements.
#[derive(Clone, Copy, PartialEq, Eq, Debug)]
pub struct ValidatorId(pub [u8; 32]);

impl Identifier for ValidatorId {
    fn same(&self, other: &ValidatorId) -> (r: bool) {
        bytes32_same(&self.0, &other.0)
    }
}

/// A validator's signature over a statement and its signing context.
#[derive(Clone, Copy, PartialEq, Eq, Debug)]
pub struct ValidatorSignature(pub [u8; 64]);

impl Identifier for ValidatorSignature {
    fn same(&self, other: &ValidatorSignature) -> (r: bool) {
        bytes64_same(&self.0, &other.0)
    }
}

/// What a validator says of a candidate, in compact form.
#[derive(Clone, Copy, PartialEq, Eq, Debug)]
pub enum CompactStatement {
    /// The validator has seen the candidate first-hand and seconds it.
    Seconded(CandidateHash),
    /// The validator has validated a candidate that another one seconded.
    Valid(CandidateHash),
}

impl CompactStatement {
    /// The candidate that the statement is about.
    pub open spec fn candidate(self) -> CandidateHash {
        match self {
            CompactStatement::Seconded(h) => h,
            CompactStatement::Valid(h) => h,
        }
    }

    /// The candidate that the statement is about.
    pub fn candidate_hash(&self) -> (h: CandidateHash)
        ensures
            h == self.candidate(),
    {
        match self {
            CompactStatement::Seconded(h) => *h,
            CompactStatement::Valid(h) => *h,
        }
    }

    /// Whether this is a `Seconded` statement.
    pub fn is_seconded(&self) -> (r: bool)
        ensures
            r == (*self is Seconded),
    {
        match self {
            CompactStatement::Seconded(_) => true,
            CompactStatement::Valid(_) => false,
        }
    }
}

impl Identifier for CompactStatement {
    fn same(&self, other: &CompactStatement) -> (r: bool) {
        match (self, other) {
            (CompactStatement::Seconded(a), CompactStatement::Seconded(b)) => a.same(b),
            (CompactStatement::Valid(a), CompactStatement::Valid(b)) => a.same(b),
            _ => false,
        }
    }
}

/// A statement with the index of its author and a signature that has not
/// been checked.
#[derive(Clone, Copy, PartialEq, Eq, Debug)]
pub struct UncheckedSignedStatement {
    /// The statement.
    pub payload: CompactStatement,
    /// The validator that is said to have signed it.
    pub validator_index: ValidatorIndex,
    /// The signature as it arrived.
    pub signature: ValidatorSignature,
}

impl UncheckedSignedStatement {
    /// The statement, before its signature is known to be good.
    pub fn unchecked_payload(&self) -> (p: CompactStatement)
        ensures
            p == self.payload,
    {
        self.payload
    }

    /// The claimed author, before the signature is known to be good.
    pub fn unchecked_validator_index(&self) -> (v: ValidatorIndex)
        ensures
            v == self.validator_index,
    {
        self.validator_index
    }

    /// Turns the statement into its checked form where `signature_valid`
    /// holds, and hands it back otherwise.
    pub fn into_checked(self, signature_valid: bool) -> (r: Result<
        SignedStatement,
        UncheckedSignedStatement,
    >)
        ensures
            signature_valid ==> r == Ok::<SignedStatement, UncheckedSignedStatement>(
                SignedStatement { unchecked: self },
            ),
            !signature_valid ==> r == Err::<SignedStatement, UncheckedSignedStatement>(self),
    {
        if signature_valid {
            Ok(SignedStatement { unchecked: self })
        } else {
            Err(self)
        }
    }
}

impl Identifier for UncheckedSignedStatement {
    fn same(&self, other: &UncheckedSignedStatement) -> (r: bool) {
        self.payload.same(&other.payload) && self.validator_index.same(&other.validator_index)
            && self.signature.same(&other.signature)
    }
}

/// A statement whose signature was accepted.
#[derive(Clone, Copy, PartialEq, Eq, Debug)]
pub struct SignedStatement {
    /// The statement as it was signed.
    pub unchecked: UncheckedSignedStatement,
}

impl Identifier for SignedStatement {
    fn same(&self, other: &SignedStatement) -> (r: bool) {
        self.unchecked.same(&other.unchecked)
    }
}

impl SignedStatement {
    /// The statement.
    pub open spec fn statement(self) -> CompactStatement {
        self.unchecked.payload
    }

    /// The validator that signed.
    pub open spec fn validator(self) -> ValidatorIndex {
        self.unchecked.validator_index
    }

    /// The statement.
    pub fn payload(&self) -> (p: CompactStatement)
        ensures
            p == self.statement(),
    {
        self.unchecked.payload
    }

    /// The validator that signed.
    pub fn validator_index(&self) -> (v: ValidatorIndex)
        ensures
            v == self.validator(),
    {
        self.unchecked.validator_index
    }

    /// The same data in the form that goes over the wire.
    pub fn as_unchecked(&self) -> (u: UncheckedSignedStatement)
        ensures
            u == self.unchecked,
    {
        self.unchecked
    }
}

} // verus!
