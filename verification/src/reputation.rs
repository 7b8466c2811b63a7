//! The names under which a peer's conduct is reported.
//!
//! The library only names a change of reputation; how much it weighs is for
//! whoever keeps the peers' reputations.

use vstd::prelude::*;

verus! {

/// How much a change of reputation weighs, and in which direction.
#[derive(Clone, Copy, PartialEq, Eq, Debug)]
pub enum RepKind {
    /// A small cost.
    CostMinor,
    /// A large cost.
    CostMajor,
    /// A large benefit.
    BenefitMajor,
}

/// A change of a peer's reputation.
#[derive(Clone, Copy, PartialEq, Eq, Debug)]
pub enum Rep {
    /// A statement that the peer had no business sending.
    UnexpectedStatement,
    /// A statement at a relay-parent of which nothing is known here.
    UnexpectedStatementMissingKnowledge,
    /// A statement about a candidate that is not known.
    UnexpectedStatementUnknownCandidate,
    /// A statement that this remote peer was not allowed to send.
    UnexpectedStatementRemote,
    /// More `Seconded` statements of one validator than allowed.
    ExcessiveSeconded,
    /// A statement whose signature does not verify.
    InvalidSignature,
    /// A response to a candidate request that does not decode.
    ImproperlyDecodedResponse,
    /// A response to a candidate request that is not valid.
    InvalidResponse,
    /// A statement in a response that was not asked for.
    UnrequestedResponseStatement,
    /// The peer answered a candidate request.
    ValidResponse,
    /// The peer provided a valid statement.
    ValidStatement,
}

impl Rep {
    /// The weight of the change.
    pub open spec fn spec_kind(self) -> RepKind {
        match self {
            Rep::UnexpectedStatement => RepKind::CostMinor,
            Rep::UnexpectedStatementMissingKnowledge => RepKind::CostMinor,
            Rep::UnexpectedStatementUnknownCandidate => RepKind::CostMinor,
            Rep::UnexpectedStatementRemote => RepKind::CostMinor,
            Rep::ExcessiveSeconded => RepKind::CostMinor,
            Rep::InvalidSignature => RepKind::CostMajor,
            Rep::ImproperlyDecodedResponse => RepKind::CostMajor,
            Rep::InvalidResponse => RepKind::CostMajor,
            Rep::UnrequestedResponseStatement => RepKind::CostMajor,
            Rep::ValidResponse => RepKind::BenefitMajor,
            Rep::ValidStatement => RepKind::BenefitMajor,
        }
    }

    /// The weight of the change.
    pub fn kind(&self) -> (k: RepKind)
        ensures
            k == self.spec_kind(),
    {
        match self {
            Rep::UnexpectedStatement => RepKind::CostMinor,
            Rep::UnexpectedStatementMissingKnowledge => RepKind::CostMinor,
            Rep::UnexpectedStatementUnknownCandidate => RepKind::CostMinor,
            Rep::UnexpectedStatementRemote => RepKind::CostMinor,
            Rep::ExcessiveSeconded => RepKind::CostMinor,
            Rep::InvalidSignature => RepKind::CostMajor,
            Rep::ImproperlyDecodedResponse => RepKind::CostMajor,
            Rep::InvalidResponse => RepKind::CostMajor,
            Rep::UnrequestedResponseStatement => RepKind::CostMajor,
            Rep::ValidResponse => RepKind::BenefitMajor,
            Rep::ValidStatement => RepKind::BenefitMajor,
        }
    }

    /// Whether the change counts against the peer.
    pub fn is_cost(&self) -> (r: bool)
        ensures
            r == (self.spec_kind() != RepKind::BenefitMajor),
    {
        match self.kind() {
            RepKind::BenefitMajor => false,
            _ => true,
        }
    }

    /// The words that go with the change.
    pub open spec fn spec_description(self) -> Seq<char> {
        match self {
            Rep::UnexpectedStatement => "Unexpected Statement"@,
            Rep::UnexpectedStatementMissingKnowledge =>
                "Unexpected Statement, missing knowlege for relay parent"@,
            Rep::UnexpectedStatementUnknownCandidate => "Unexpected Statement, unknown candidate"@,
            Rep::UnexpectedStatementRemote => "Unexpected Statement, remote not allowed"@,
            Rep::ExcessiveSeconded => "Sent Excessive `Seconded` Statements"@,
            Rep::InvalidSignature => "Invalid Statement Signature"@,
            Rep::ImproperlyDecodedResponse => "Improperly Encoded Candidate Response"@,
            Rep::InvalidResponse => "Invalid Candidate Response"@,
            Rep::UnrequestedResponseStatement => "Un-requested Statement In Response"@,
            Rep::ValidResponse => "Peer Answered Candidate Request"@,
            Rep::ValidStatement => "Peer provided a valid statement"@,
        }
    }

    /// The words that go with the change.
    pub fn description(&self) -> (text: &'static str)
        ensures
            text@ == self.spec_description(),
    {
        match self {
            Rep::UnexpectedStatement => "Unexpected Statement",
            Rep::UnexpectedStatementMissingKnowledge =>
                "Unexpected Statement, missing knowlege for relay parent",
            Rep::UnexpectedStatementUnknownCandidate => "Unexpected Statement, unknown candidate",
            Rep::UnexpectedStatementRemote => "Unexpected Statement, remote not allowed",
            Rep::ExcessiveSeconded => "Sent Excessive `Seconded` Statements",
            Rep::InvalidSignature => "Invalid Statement Signature",
            Rep::ImproperlyDecodedResponse => "Improperly Encoded Candidate Response",
            Rep::InvalidResponse => "Invalid Candidate Response",
            Rep::UnrequestedResponseStatement => "Un-requested Statement In Response",
            Rep::ValidResponse => "Peer Answered Candidate Request",
            Rep::ValidStatement => "Peer provided a valid statement",
        }
    }
}

/// A statement that the peer had no business sending.
pub const COST_UNEXPECTED_STATEMENT: Rep = Rep::UnexpectedStatement;

/// A statement at a relay-parent of which nothing is known here.
pub const COST_UNEXPECTED_STATEMENT_MISSING_KNOWLEDGE: Rep = Rep::UnexpectedStatementMissingKnowledge;

/// A statement about a candidate that is not known.
pub const COST_UNEXPECTED_STATEMENT_UNKNOWN_CANDIDATE: Rep = Rep::UnexpectedStatementUnknownCandidate;

/// A statement that this remote peer was not allowed to send.
pub const COST_UNEXPECTED_STATEMENT_REMOTE: Rep = Rep::UnexpectedStatementRemote;

/// More `Seconded` statements of one validator than allowed.
pub const COST_EXCESSIVE_SECONDED: Rep = Rep::ExcessiveSeconded;

/// A statement whose signature does not verify.
pub const COST_INVALID_SIGNATURE: Rep = Rep::InvalidSignature;

/// A response to a candidate request that does not decode.
pub const COST_IMPROPERLY_DECODED_RESPONSE: Rep = Rep::ImproperlyDecodedResponse;

/// A response to a candidate request that is not valid.
pub const COST_INVALID_RESPONSE: Rep = Rep::InvalidResponse;

/// A statement in a response that was not asked for.
pub const COST_UNREQUESTED_RESPONSE_STATEMENT: Rep = Rep::UnrequestedResponseStatement;

/// The peer answered a candidate request.
pub const BENEFIT_VALID_RESPONSE: Rep = Rep::ValidResponse;

/// The peer provided a valid statement.
pub const BENEFIT_VALID_STATEMENT: Rep = Rep::ValidStatement;

} // verus!
