//! The toy digest builder: the 32-byte message that signers sign over.
//!
//! The digest binds a locking script and an amount, or an arbitrary seed. It
//! does not bind a transaction's inputs, outputs or their order.

use crate::le_bytes::{append_le_bytes, le_bytes};
use bitcoin_hashes::sha256;
use vstd::prelude::*;
use vstd::slice::slice_to_vec;

verus! {

/// The SHA-256 digest of `message`, 32 bytes. The hash function is not
/// interpreted: contracts speak of its result by this name.
pub uninterp spec fn sha256_digest(message: Seq<u8>) -> Seq<u8>;

/// Messages of this many bytes or more are not hashed: their length in bits
/// does not fit the 64-bit field that SHA-256 appends.
pub const SHA256_MAX_LEN: u64 = 0x2000_0000_0000_0000;

/// Calls `Hash::hash` of the bitcoin_hashes crate for `sha256::Hash` and takes the
/// 32-byte array out of the hash. The contract claims only that the result
/// is the function `sha256_digest` of the message. Messages whose bit length
/// overflows 64 bits are left out: the crate multiplies the byte length by
/// eight without a check.
#[verifier::external_body]
fn sha256_hash(message: &[u8]) -> (digest: [u8; 32])
    requires
        message@.len() < SHA256_MAX_LEN,
    ensures
        digest@ == sha256_digest(message@),
{
    let hash: sha256::Hash = bitcoin_hashes::Hash::hash(message);
    bitcoin_hashes::Hash::to_byte_array(hash)
}

/// What is hashed for a locking script and an amount: the script's bytes,
/// then the amount in satoshis as 8 little-endian bytes.
pub open spec fn toy_sighash_preimage(locking_script: Seq<u8>, value_sat: u64) -> Seq<u8> {
    locking_script + le_bytes(value_sat as nat, 8)
}

/// Creates the toy signing digest of a locking script and the amount, in
/// satoshis, that it locks.
pub fn create_toy_sighash_message(locking_script: &[u8], value_sat: u64) -> (digest: [u8; 32])
    requires
        locking_script@.len() + 8 < SHA256_MAX_LEN,
    ensures
        digest@ == sha256_digest(toy_sighash_preimage(locking_script@, value_sat)),
{
    let mut preimage: Vec<u8> = slice_to_vec(locking_script);
    append_le_bytes(&mut preimage, value_sat, 8);
    proof {
        crate::le_bytes::lemma_le_bytes_len(value_sat as nat, 8);
    }
    sha256_hash(preimage.as_slice())
}

/// Creates a signing digest from an arbitrary seed.
pub fn create_dummy_sighash_message(seed_bytes: &[u8]) -> (digest: [u8; 32])
    requires
        seed_bytes@.len() < SHA256_MAX_LEN,
    ensures
        digest@ == sha256_digest(seed_bytes@),
{
    sha256_hash(seed_bytes)
}

} // verus!
