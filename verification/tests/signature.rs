use std::sync::Arc;

use polkadot_primitives::{Signed, SigningContext};
use sp_keystore::{testing::MemoryKeystore, Keystore, KeystorePtr};
use statement_distribution::primitives::{
    CandidateHash, CompactStatement, UncheckedSignedStatement, ValidatorId, ValidatorIndex,
    ValidatorSignature,
};
use statement_distribution::signature::{check_statement_signature, verify_statement_signature};

fn hash(byte: u8) -> statement_distribution::primitives::Hash {
    statement_distribution::primitives::Hash([byte; 32])
}

/// Signs `Seconded(candidate)` as the validator `index` of `session` at
/// `relay_parent`, with a key made for the purpose; the key comes back too.
fn signed_seconded(
    session: u32,
    relay_parent: u8,
    candidate: u8,
    index: u32,
) -> (UncheckedSignedStatement, ValidatorId) {
    let keystore: KeystorePtr = Arc::new(MemoryKeystore::new());
    let public = keystore
        .sr25519_generate_new(polkadot_primitives::PARACHAIN_KEY_TYPE_ID, Some("//Alice"))
        .expect("the keystore makes a key");
    let context = SigningContext {
        session_index: session,
        parent_hash: polkadot_primitives::Hash::from([relay_parent; 32]),
    };
    let payload = polkadot_primitives::CompactStatement::Seconded(polkadot_primitives::CandidateHash(
        polkadot_primitives::Hash::from([candidate; 32]),
    ));
    let signed = Signed::sign(
        &keystore,
        payload,
        &context,
        polkadot_primitives::ValidatorIndex(index),
        &public.into(),
    )
    .expect("the keystore signs")
    .expect("the key is in the keystore");
    let mut signature = [0u8; 64];
    signature.copy_from_slice(signed.signature().as_ref());
    let statement = UncheckedSignedStatement {
        payload: CompactStatement::Seconded(CandidateHash(hash(candidate))),
        validator_index: ValidatorIndex(index),
        signature: ValidatorSignature(signature),
    };
    (statement, ValidatorId(public.0))
}

#[test]
fn good_signature_is_accepted() {
    let (statement, key) = signed_seconded(7, 1, 9, 0);
    let validators = vec![key];
    assert!(verify_statement_signature(7, &validators, hash(1), &statement));
    let checked = check_statement_signature(7, &validators, hash(1), statement);
    assert_eq!(checked.map(|s| s.as_unchecked()), Ok(statement));
}

#[test]
fn signature_under_another_relay_parent_is_refused() {
    let (statement, key) = signed_seconded(7, 1, 9, 0);
    let validators = vec![key];
    assert!(!verify_statement_signature(7, &validators, hash(2), &statement));
    assert_eq!(check_statement_signature(7, &validators, hash(2), statement), Err(statement));
}

#[test]
fn signature_under_another_session_is_refused() {
    let (statement, key) = signed_seconded(7, 1, 9, 0);
    let validators = vec![key];
    assert!(!verify_statement_signature(8, &validators, hash(1), &statement));
}

#[test]
fn signature_over_another_statement_is_refused() {
    let (statement, key) = signed_seconded(7, 1, 9, 0);
    let validators = vec![key];
    let altered = UncheckedSignedStatement {
        payload: CompactStatement::Valid(CandidateHash(hash(9))),
        ..statement
    };
    assert!(!verify_statement_signature(7, &validators, hash(1), &altered));
}

#[test]
fn signature_of_another_key_is_refused() {
    let (statement, _) = signed_seconded(7, 1, 9, 0);
    let validators = vec![ValidatorId([3u8; 32])];
    assert!(!verify_statement_signature(7, &validators, hash(1), &statement));
}

#[test]
fn author_outside_the_validators_is_refused() {
    let (statement, key) = signed_seconded(7, 1, 9, 5);
    let validators = vec![key];
    assert!(!verify_statement_signature(7, &validators, hash(1), &statement));
    assert_eq!(check_statement_signature(7, &validators, hash(1), statement), Err(statement));
}
