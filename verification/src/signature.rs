//! Checking the signature of a statement.
//!
//! The check itself is `polkadot_primitives`' own. Whether a signature is
//! good is a function of the signing context, the statement and the key;
//! that function is named [`signature_checks`] and nothing more is said of
//! it here.

use crate::primitives;
use crate::primitives::{
    CompactStatement, SessionIndex, SignedStatement, UncheckedSignedStatement, ValidatorId,
};
use vstd::prelude::*;

verus! {

/// Whether `polkadot_primitives` accepts the signature of `statement` as
/// made with `key` over the statement in the context of a session and a
/// relay-parent.
pub uninterp spec fn signature_checks(
    session_index: SessionIndex,
    relay_parent: primitives::Hash,
    statement: UncheckedSignedStatement,
    key: ValidatorId,
) -> bool;

/// `polkadot_primitives::UncheckedSigned::try_into_checked`, on a statement
/// rebuilt from its parts: the answer is whether the conversion succeeds,
/// which is whether the signature verifies under the signing context and
/// the key.
#[verifier::external_body]
fn try_into_checked(
    session_index: SessionIndex,
    relay_parent: primitives::Hash,
    statement: UncheckedSignedStatement,
    key: ValidatorId,
) -> (valid: bool)
    ensures
        valid == signature_checks(session_index, relay_parent, statement, key),
{
    let parent_hash = polkadot_primitives::Hash::from(relay_parent.0);
    let context = polkadot_primitives::SigningContext { session_index, parent_hash };
    let payload = match statement.payload {
        CompactStatement::Seconded(h) => polkadot_primitives::CompactStatement::Seconded(polkadot_primitives::CandidateHash(h.0.0.into())),
        CompactStatement::Valid(h) => polkadot_primitives::CompactStatement::Valid(polkadot_primitives::CandidateHash(h.0.0.into())),
    };
    let signature = sp_core::sr25519::Signature::from_raw(statement.signature.0).into();
    let index = polkadot_primitives::ValidatorIndex(statement.validator_index.0);
    let unchecked = polkadot_primitives::UncheckedSignedStatement::new(payload, index, signature);
    unchecked.try_into_checked(&context, &sp_core::sr25519::Public::from_raw(key.0).into()).is_ok()
}

/// Whether a statement passes the check under the validators of a session:
/// its author is one of them and the signature is good under the author's
/// key.
pub open spec fn signature_accepted(
    session_index: SessionIndex,
    validators: Seq<ValidatorId>,
    relay_parent: primitives::Hash,
    statement: UncheckedSignedStatement,
) -> bool {
    &&& statement.validator_index.0 < validators.len()
    &&& signature_checks(
        session_index,
        relay_parent,
        statement,
        validators[statement.validator_index.0 as int],
    )
}

/// Whether the signature of a statement is good under the signing context
/// of `session_index` and `relay_parent` and the key that `validators`
/// holds for its author.
pub fn verify_statement_signature(
    session_index: SessionIndex,
    validators: &Vec<ValidatorId>,
    relay_parent: primitives::Hash,
    statement: &UncheckedSignedStatement,
) -> (valid: bool)
    ensures
        valid == signature_accepted(session_index, validators@, relay_parent, *statement),
{
    let index = statement.validator_index.0 as usize;
    if index < validators.len() {
        try_into_checked(session_index, relay_parent, *statement, validators[index])
    } else {
        false
    }
}

/// Checks a statement's signature under a relay-parent. The statement comes
/// back checked where the signature is good and as it was otherwise.
pub fn check_statement_signature(
    session_index: SessionIndex,
    validators: &Vec<ValidatorId>,
    relay_parent: primitives::Hash,
    statement: UncheckedSignedStatement,
) -> (r: Result<SignedStatement, UncheckedSignedStatement>)
    ensures
        signature_accepted(session_index, validators@, relay_parent, statement) ==> r == Ok::<
            SignedStatement,
            UncheckedSignedStatement,
        >(SignedStatement { unchecked: statement }),
        !signature_accepted(session_index, validators@, relay_parent, statement) ==> r == Err::<
            SignedStatement,
            UncheckedSignedStatement,
        >(statement),
{
    let valid = verify_statement_signature(session_index, validators, relay_parent, &statement);
    statement.into_checked(valid)
}

} // verus!
