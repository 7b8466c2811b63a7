//! What comes from the network and what goes to it.

use crate::candidates::{CommittedCandidateReceipt, PersistedValidationData};
use crate::primitives;
use crate::primitives::{
    AuthorityDiscoveryId, CandidateHash, CompactStatement, GroupIndex, PeerId, SessionIndex,
    SignedStatement, UncheckedSignedStatement, ValidatorIndex, ValidatorSignature,
};
use crate::session::SessionGridTopology;
use vstd::prelude::*;

verus! {

/// The version of the validation protocol that a peer speaks.
pub type ProtocolVersion = u32;

/// The version of the validation protocol that is served here.
pub const VSTAGING_VERSION: ProtocolVersion = 2;

/// The announcement that a candidate is backed, as the grid passes it on.
#[derive(Clone, Copy, PartialEq, Eq, Debug)]
pub struct BackedCandidateManifest {
    /// The relay-parent of the candidate.
    pub relay_parent: primitives::Hash,
    /// The candidate.
    pub candidate_hash: CandidateHash,
    /// The group that the candidate belongs to.
    pub group_index: GroupIndex,
}

/// A message of the served protocol version.
#[derive(Clone, Copy, PartialEq, Eq, Debug)]
pub enum VStagingMessage {
    /// A statement at a relay-parent.
    Statement(primitives::Hash, UncheckedSignedStatement),
    /// A candidate is backed.
    BackedCandidateManifest(BackedCandidateManifest),
    /// The sender knows that a candidate at a relay-parent is backed.
    BackedCandidateKnown(primitives::Hash, CandidateHash),
    /// A message of the older protocol, wrapped.
    V1Compatibility,
}

/// A message from a peer.
#[derive(Clone, Copy, PartialEq, Eq, Debug)]
pub enum StatementDistributionMessage {
    /// A message of the older protocol.
    V1,
    /// A message of the served protocol version.
    VStaging(VStagingMessage),
}

/// What the network reports.
#[derive(Clone, PartialEq, Eq, Debug)]
pub enum NetworkBridgeEvent {
    /// A peer has connected, speaking a protocol version and claiming
    /// authority identities.
    PeerConnected(PeerId, ProtocolVersion, Option<Vec<AuthorityDiscoveryId>>),
    /// A peer has disconnected.
    PeerDisconnected(PeerId),
    /// The gossip topology of a session is known.
    NewGossipTopology(SessionIndex, SessionGridTopology),
    /// A peer has sent a message.
    PeerMessage(PeerId, StatementDistributionMessage),
    /// A peer has announced the heads that it has in view.
    PeerViewChange(PeerId, Vec<primitives::Hash>),
    /// Our own view has changed.
    OurViewChange(Vec<primitives::Hash>),
}

/// A statement at a relay-parent for a set of peers.
#[derive(Clone, PartialEq, Eq, Debug)]
pub struct OutboundStatement {
    /// The peers that the statement goes to.
    pub to: Vec<PeerId>,
    /// The relay-parent.
    pub relay_parent: primitives::Hash,
    /// The statement in the form that goes over the wire.
    pub statement: UncheckedSignedStatement,
}

/// The model of an [`OutboundStatement`].
pub struct OutboundStatementView {
    /// The peers that the statement goes to.
    pub to: Seq<PeerId>,
    /// The relay-parent.
    pub relay_parent: primitives::Hash,
    /// The statement in the form that goes over the wire.
    pub statement: UncheckedSignedStatement,
}

impl OutboundStatement {
    /// The model of the message.
    pub open spec fn view(&self) -> OutboundStatementView {
        OutboundStatementView {
            to: self.to@,
            relay_parent: self.relay_parent,
            statement: self.statement,
        }
    }
}

/// The models of a list of messages.
pub open spec fn outbound_views(messages: Seq<OutboundStatement>) -> Seq<OutboundStatementView> {
    messages.map_values(|m: OutboundStatement| m@)
}

/// The messages of a circulation in the order in which they go out: first
/// the `Seconded` statement that is sent ahead, to the peers that need it,
/// then the statement itself. A message to nobody is left out.
pub open spec fn outbound_messages(
    relay_parent: primitives::Hash,
    prior: Option<SignedStatement>,
    prior_to: Seq<PeerId>,
    statement: SignedStatement,
    statement_to: Seq<PeerId>,
) -> Seq<OutboundStatementView> {
    let ahead = if prior_to.len() > 0 && prior.is_some() {
        seq![OutboundStatementView { to: prior_to, relay_parent, statement: prior.unwrap().unchecked }]
    } else {
        Seq::empty()
    };
    let direct = if statement_to.len() > 0 {
        seq![OutboundStatementView { to: statement_to, relay_parent, statement: statement.unchecked }]
    } else {
        Seq::empty()
    };
    ahead + direct
}

/// A statement of our own in full: a `Seconded` statement comes with the
/// candidate's receipt and validation data.
#[derive(Clone, PartialEq, Eq, Debug)]
pub enum StatementWithPVD {
    /// We second the candidate with this hash, receipt and validation data.
    Seconded(CandidateHash, CommittedCandidateReceipt, PersistedValidationData),
    /// We have validated the candidate.
    Valid(CandidateHash),
}

impl StatementWithPVD {
    /// The statement in compact form.
    pub open spec fn compact(&self) -> CompactStatement {
        match self {
            StatementWithPVD::Seconded(h, _, _) => CompactStatement::Seconded(*h),
            StatementWithPVD::Valid(h) => CompactStatement::Valid(*h),
        }
    }

    /// The statement in compact form.
    pub fn to_compact(&self) -> (r: CompactStatement)
        ensures
            r == self.compact(),
    {
        match self {
            StatementWithPVD::Seconded(h, _, _) => CompactStatement::Seconded(*h),
            StatementWithPVD::Valid(h) => CompactStatement::Valid(*h),
        }
    }
}

/// A statement of our own in full, signed.
#[derive(Clone, PartialEq, Eq, Debug)]
pub struct SignedFullStatementWithPVD {
    /// The statement.
    pub payload: StatementWithPVD,
    /// Our validator index.
    pub validator_index: ValidatorIndex,
    /// Our signature over the compact form of the statement.
    pub signature: ValidatorSignature,
}

impl SignedFullStatementWithPVD {
    /// The signed statement in compact form.
    pub open spec fn compact(&self) -> SignedStatement {
        SignedStatement {
            unchecked: UncheckedSignedStatement {
                payload: self.payload.compact(),
                validator_index: self.validator_index,
                signature: self.signature,
            },
        }
    }

    /// The signed statement in compact form.
    pub fn signed_to_compact(&self) -> (r: SignedStatement)
        ensures
            r == self.compact(),
    {
        SignedStatement {
            unchecked: UncheckedSignedStatement {
                payload: self.payload.to_compact(),
                validator_index: self.validator_index,
                signature: self.signature,
            },
        }
    }
}

} // verus!
