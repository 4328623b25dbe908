//! Credentials and presigned transaction templates, as data.
//!
//! The key material, the transaction, the signing message and the signatures
//! are carried through as the values that the bitcoin and secp256k1 crates
//! define; nothing here looks inside them.

use bitcoin::blockdata::script::ScriptBuf;
use bitcoin::{PublicKey, Transaction, XOnlyPublicKey};
use secp256k1::schnorr::Signature;
use secp256k1::{Keypair, Message, SecretKey};
use std::collections::HashMap;
use vstd::prelude::*;

verus! {

/// `bitcoin::PublicKey`, opaque.
#[verifier::external_type_specification]
#[verifier::external_body]
pub struct ExPublicKey(PublicKey);

/// `bitcoin::XOnlyPublicKey`, opaque.
#[verifier::external_type_specification]
#[verifier::external_body]
pub struct ExXOnlyPublicKey(XOnlyPublicKey);

/// `bitcoin::Transaction`, opaque.
#[verifier::external_type_specification]
#[verifier::external_body]
pub struct ExTransaction(Transaction);

/// `bitcoin::blockdata::script::ScriptBuf`, opaque.
#[verifier::external_type_specification]
#[verifier::external_body]
pub struct ExScriptBuf(ScriptBuf);

/// `secp256k1::Keypair`, opaque.
#[verifier::external_type_specification]
#[verifier::external_body]
pub struct ExKeypair(Keypair);

/// `secp256k1::SecretKey`, opaque.
#[verifier::external_type_specification]
#[verifier::external_body]
pub struct ExSecretKey(SecretKey);

/// `secp256k1::Message`, opaque.
#[verifier::external_type_specification]
#[verifier::external_body]
pub struct ExMessage(Message);

/// `secp256k1::schnorr::Signature`, opaque.
#[verifier::external_type_specification]
#[verifier::external_body]
pub struct ExSignature(Signature);

/// Info for one signer.
#[derive(Debug)]
pub struct SignerInfo {
    /// Identity of the signer.
    pub id: usize,
    /// The public key that locking scripts embed.
    pub pubkey: PublicKey,
    /// The key pair that signs.
    pub keypair: Keypair,
    /// The public key without its parity.
    pub xonly: XOnlyPublicKey,
    /// The secret key.
    pub privkey: SecretKey,
}

/// Info for one operator.
#[derive(Debug)]
pub struct OperatorInfo {
    /// Identity of the operator.
    pub id: usize,
    /// The operator's public key.
    pub pubkey: PublicKey,
    /// The operator's secret key.
    pub privkey: SecretKey,
}

/// A single step of a flow.
#[derive(Debug)]
pub struct PresignedStep {
    /// The transaction of this step, before it is completed.
    pub tx_template: Transaction,
    /// The digest that the signers sign for this step.
    pub sighash_message: Message,
    /// The signatures made so far, by signer.
    pub signatures: HashMap<Vec<u8>, Signature>,
    /// The script that locks the step's output.
    pub locking_script: ScriptBuf,
}

/// The steps of one flow, in order.
#[derive(Debug)]
pub struct PresignedFlow {
    /// The flow identifier that selects this flow.
    pub flow_id: u32,
    /// The steps, first to last.
    pub steps: Vec<PresignedStep>,
}

} // verus!
