//! The flow-identifier oracle: a nonce search that maps an input value to a
//! small flow identifier by hashing.

use crate::le_bytes::{
    append_le_bytes, le_bytes, le_value, lemma_le_bytes_of_le_value, lemma_le_bytes_of_low_bits,
    lemma_le_bytes_take, lemma_le_value_four,
};
use crate::nibble::{nibbles_of, prefix_nibbles};
use vstd::arithmetic::power2::{lemma2_to64, lemma_pow2_pos, lemma_pow2_strictly_increases, pow2};
use vstd::bits::{
    lemma_u32_low_bits_mask_is_mod, lemma_u32_pow2_no_overflow, lemma_u32_shl_is_mul,
    lemma_u64_pow2_no_overflow, lemma_u64_shl_is_mul, low_bits_mask,
};
use vstd::prelude::*;

verus! {

/// The BLAKE3 digest of `message`, 32 bytes. The hash function is not
/// interpreted: contracts speak of its result by this name.
pub uninterp spec fn blake3_digest(message: Seq<u8>) -> Seq<u8>;

/// Calls `blake3::hash`, the default BLAKE3 hash function, and copies the
/// 32 bytes out of the `Hash` it returns. The contract claims only that the
/// result is the function `blake3_digest` of the message.
#[verifier::external_body]
fn blake3_hash(message: &[u8]) -> (digest: [u8; 32])
    ensures
        digest@ == blake3_digest(message@),
{
    *blake3::hash(message).as_bytes()
}

/// Why no flow identifier was returned.
#[derive(Clone, Copy, Debug, PartialEq, Eq, Structural)]
pub enum FlowError {
    /// The masked hash prefix, given here, is not below `2^L`.
    OutOfRange { prefix: u32 },
    /// No nonce up to the attempt cap gave a flow identifier in range.
    SearchExhausted,
}

/// The hashed message: the input in 4 little-endian bytes, then the nonce in
/// 8 little-endian bytes.
pub open spec fn flow_message(input: u32, nonce: u64) -> Seq<u8> {
    le_bytes(input as nat, 4) + le_bytes(nonce as nat, 8)
}

/// The digest that `input` and `nonce` hash to.
pub open spec fn flow_digest(input: u32, nonce: u64) -> Seq<u8> {
    blake3_digest(flow_message(input, nonce))
}

/// Number of bits that the prefix mask keeps: `b_bits`, at most all 32.
pub open spec fn mask_width(b_bits: nat) -> nat {
    if b_bits >= 32 {
        32
    } else {
        b_bits
    }
}

/// The first four digest bytes read as a little-endian number, reduced to
/// its `b_bits` low bits.
pub open spec fn digest_prefix(digest: Seq<u8>, b_bits: nat) -> nat {
    le_value(digest.take(4)) % pow2(mask_width(b_bits))
}

/// A prefix is a flow identifier when it is below `2^L`.
pub open spec fn in_flow_range(prefix: nat, l_bits: nat) -> bool {
    prefix < pow2(l_bits)
}

/// Whether `nonce` gives `input` a flow identifier in range.
pub open spec fn nonce_valid(input: u32, nonce: u64, b_bits: nat, l_bits: nat) -> bool {
    in_flow_range(digest_prefix(flow_digest(input, nonce), b_bits), l_bits)
}

/// The expected number of attempts, `2^(B - L)`, with `B - L` taken as zero
/// where `L` exceeds `B` and the power held to the 64-bit range.
pub open spec fn expected_attempts(b_bits: nat, l_bits: nat) -> nat {
    let spread = if b_bits >= l_bits {
        (b_bits - l_bits) as nat
    } else {
        0
    };
    if spread < 64 {
        pow2(spread)
    } else {
        u64::MAX as nat
    }
}

/// The largest nonce that the search tries: a hundred times the expected
/// number of attempts, held to the 64-bit range.
pub open spec fn attempt_cap(b_bits: nat, l_bits: nat) -> nat {
    let budget = 100 * expected_attempts(b_bits, l_bits);
    if budget > u64::MAX {
        u64::MAX as nat
    } else {
        budget
    }
}

/// What a search owes that tries the nonces from zero to `last_nonce`: the
/// least valid nonce among them with its digest and flow identifier, or
/// `SearchExhausted` when none of them is valid.
pub open spec fn is_search_outcome_up_to(
    input: u32,
    b_bits: nat,
    l_bits: nat,
    last_nonce: nat,
    outcome: Result<(u64, [u8; 32], u32), FlowError>,
) -> bool {
    match outcome {
        Ok((nonce, digest, flow_id)) => {
            &&& nonce <= last_nonce
            &&& digest@ == flow_digest(input, nonce)
            &&& flow_id == digest_prefix(digest@, b_bits)
            &&& in_flow_range(flow_id as nat, l_bits)
            &&& forall|earlier: u64| earlier < nonce ==> !nonce_valid(input, earlier, b_bits, l_bits)
        },
        Err(error) => {
            &&& error == FlowError::SearchExhausted
            &&& forall|nonce: u64| nonce <= last_nonce ==> !nonce_valid(input, nonce, b_bits, l_bits)
        },
    }
}

/// What the search owes for `input`, `b_bits` and `l_bits`: the outcome of
/// trying the nonces from zero to the attempt cap.
pub open spec fn is_search_outcome(
    input: u32,
    b_bits: nat,
    l_bits: nat,
    outcome: Result<(u64, [u8; 32], u32), FlowError>,
) -> bool {
    is_search_outcome_up_to(input, b_bits, l_bits, attempt_cap(b_bits, l_bits), outcome)
}

/// With a flow-identifier space no wider than the prefix, and a prefix of at
/// most 32 bits, the cap on the search is exactly a hundred times
/// `2^(B - L)`: nothing saturates.
pub proof fn lemma_attempt_cap_exact(b_bits: nat, l_bits: nat)
    requires
        l_bits <= b_bits <= 32,
    ensures
        attempt_cap(b_bits, l_bits) == 100 * pow2((b_bits - l_bits) as nat),
{
    let spread = (b_bits - l_bits) as nat;
    lemma2_to64();
    if spread < 32 {
        lemma_pow2_strictly_increases(spread, 32);
    }
}

/// Determinism of the oracle: the input and the two widths fix the outcome
/// of the search, the nonce, the digest and the flow identifier alike.
pub proof fn lemma_search_outcome_unique(
    input: u32,
    b_bits: nat,
    l_bits: nat,
    first: Result<(u64, [u8; 32], u32), FlowError>,
    second: Result<(u64, [u8; 32], u32), FlowError>,
)
    requires
        is_search_outcome(input, b_bits, l_bits, first),
        is_search_outcome(input, b_bits, l_bits, second),
    ensures
        first == second,
{
    match (first, second) {
        (Ok((nonce1, digest1, flow_id1)), Ok((nonce2, digest2, flow_id2))) => {
            assert(nonce_valid(input, nonce1, b_bits, l_bits));
            assert(nonce_valid(input, nonce2, b_bits, l_bits));
            assert(nonce1 == nonce2);
            assert(digest1@ == digest2@);
            assert(digest1 =~= digest2);
        },
        (Ok((nonce, digest, flow_id)), Err(_)) => {
            assert(nonce_valid(input, nonce, b_bits, l_bits));
        },
        (Err(_), Ok((nonce, digest, flow_id))) => {
            assert(nonce_valid(input, nonce, b_bits, l_bits));
        },
        (Err(_), Err(_)) => {},
    }
}

/// The codec and the digest agree: for a prefix of whole bytes, at most four,
/// the nibbles of the masked hash prefix are the first `b_bits / 4` nibbles
/// of the digest. This is what lets the locking script compare the prefix
/// with the head of the digest that it computes itself.
pub proof fn lemma_prefix_is_digest_head(digest: Seq<u8>, b_bits: nat)
    requires
        digest.len() >= 4,
        b_bits <= 32,
        b_bits % 8 == 0,
    ensures
        digest_prefix(digest, b_bits) <= u32::MAX,
        prefix_nibbles(digest_prefix(digest, b_bits) as u32, b_bits) == nibbles_of(digest).take(
            (b_bits / 4) as int,
        ),
{
    let head = digest.take(4);
    let count = b_bits / 8;
    let value = le_value(head);
    lemma_le_value_four(head);
    lemma2_to64();
    lemma_pow2_pos(b_bits);
    assert(mask_width(b_bits) == 8 * count);
    lemma_le_bytes_of_low_bits(value, count);
    lemma_le_bytes_take(value, 4, count);
    lemma_le_bytes_of_le_value(head);
    assert(head.take(count as int) =~= digest.take(count as int));
    assert(nibbles_of(digest.take(count as int)) =~= nibbles_of(digest).take((2 * count) as int));
}

/// Builds the message that is hashed for `input` and `nonce`.
pub fn flow_message_bytes(input: u32, nonce: u64) -> (message: Vec<u8>)
    ensures
        message@ == flow_message(input, nonce),
{
    let mut message: Vec<u8> = Vec::new();
    append_le_bytes(&mut message, input as u64, 4);
    append_le_bytes(&mut message, nonce, 8);
    assert(message@ =~= flow_message(input, nonce));
    message
}

/// Hashes the message of `input` and `nonce`.
pub fn compute_flow_digest(input: u32, nonce: u64) -> (digest: [u8; 32])
    ensures
        digest@ == flow_digest(input, nonce),
{
    let message: Vec<u8> = flow_message_bytes(input, nonce);
    blake3_hash(message.as_slice())
}

/// Derives the flow identifier from a digest: the first four bytes as a
/// little-endian number, masked to `b_bits` bits (all 32 from `b_bits = 32`
/// on), accepted when below `2^l_bits`.
pub fn flow_id_from_digest(digest: &[u8; 32], b_bits: usize, l_bits: usize) -> (result: Result<
    u32,
    FlowError,
>)
    ensures
        result is Ok <==> in_flow_range(digest_prefix(digest@, b_bits as nat), l_bits as nat),
        match result {
            Ok(flow_id) => flow_id == digest_prefix(digest@, b_bits as nat) && in_flow_range(
                flow_id as nat,
                l_bits as nat,
            ),
            Err(error) => {
                &&& error == (FlowError::OutOfRange {
                    prefix: digest_prefix(digest@, b_bits as nat) as u32,
                })
                &&& digest_prefix(digest@, b_bits as nat) <= u32::MAX
                &&& !in_flow_range(digest_prefix(digest@, b_bits as nat), l_bits as nat)
            },
        },
{
    let byte0: u32 = digest[0] as u32;
    let byte1: u32 = digest[1] as u32;
    let byte2: u32 = digest[2] as u32;
    let byte3: u32 = digest[3] as u32;
    let hash_u32: u32 = byte0 + 0x100 * byte1 + 0x1_0000 * byte2 + 0x100_0000 * byte3;
    proof {
        let head = digest@.take(4);
        lemma_le_value_four(head);
        assert(hash_u32 == le_value(head));
        lemma2_to64();
    }
    let prefix_b: u32 = if b_bits >= 32 {
        hash_u32
    } else {
        proof {
            lemma_u32_pow2_no_overflow(b_bits as nat);
            lemma_u32_shl_is_mul(1u32, b_bits as u32);
            lemma_u32_low_bits_mask_is_mod(hash_u32, b_bits as nat);
        }
        let mask_b: u32 = (1u32 << (b_bits as u32)) - 1;
        assert(mask_b == low_bits_mask(b_bits as nat));
        hash_u32 & mask_b
    };
    assert(prefix_b == digest_prefix(digest@, b_bits as nat));
    let in_range: bool = if l_bits >= 32 {
        proof {
            if l_bits > 32 {
                lemma_pow2_strictly_increases(32, l_bits as nat);
            }
        }
        true
    } else {
        proof {
            lemma_u32_pow2_no_overflow(l_bits as nat);
            lemma_u32_shl_is_mul(1u32, l_bits as u32);
        }
        prefix_b < (1u32 << (l_bits as u32))
    };
    if in_range {
        Ok(prefix_b)
    } else {
        Err(FlowError::OutOfRange { prefix: prefix_b })
    }
}

/// Computes the flow identifier of `input` under `nonce`: hashes the
/// message, masks the hash to `b_bits` bits and accepts the prefix when it is
/// below `2^l_bits`. Returns the flow identifier with the full digest.
pub fn calculate_flow_id(input: u32, nonce: u64, b_bits: usize, l_bits: usize) -> (result: Result<
    (u32, [u8; 32]),
    FlowError,
>)
    ensures
        result is Ok <==> nonce_valid(input, nonce, b_bits as nat, l_bits as nat),
        match result {
            Ok((flow_id, digest)) => {
                &&& digest@ == flow_digest(input, nonce)
                &&& flow_id == digest_prefix(digest@, b_bits as nat)
                &&& in_flow_range(flow_id as nat, l_bits as nat)
            },
            Err(error) => {
                &&& error == (FlowError::OutOfRange {
                    prefix: digest_prefix(flow_digest(input, nonce), b_bits as nat) as u32,
                })
                &&& digest_prefix(flow_digest(input, nonce), b_bits as nat) <= u32::MAX
                &&& !nonce_valid(input, nonce, b_bits as nat, l_bits as nat)
            },
        },
{
    let digest: [u8; 32] = compute_flow_digest(input, nonce);
    match flow_id_from_digest(&digest, b_bits, l_bits) {
        Ok(flow_id) => Ok((flow_id, digest)),
        Err(error) => Err(error),
    }
}

/// Computes the largest nonce that the search tries.
pub fn search_attempt_cap(b_bits: usize, l_bits: usize) -> (cap: u64)
    ensures
        cap == attempt_cap(b_bits as nat, l_bits as nat),
{
    let spread: usize = if b_bits >= l_bits {
        b_bits - l_bits
    } else {
        0
    };
    let expected: u64 = if spread < 64 {
        proof {
            lemma_u64_pow2_no_overflow(spread as nat);
            lemma_u64_shl_is_mul(1u64, spread as u64);
        }
        1u64 << (spread as u64)
    } else {
        u64::MAX
    };
    match expected.checked_mul(100) {
        Some(budget) => budget,
        None => u64::MAX,
    }
}

/// Searches the nonces from zero to `last_nonce`, in order, for the first
/// that gives `input` a flow identifier below `2^l_bits`.
pub fn find_valid_nonce_up_to(input: u32, b_bits: usize, l_bits: usize, last_nonce: u64) -> (result:
    Result<(u64, [u8; 32], u32), FlowError>)
    ensures
        is_search_outcome_up_to(input, b_bits as nat, l_bits as nat, last_nonce as nat, result),
        result is Ok <==> exists|nonce: u64|
            nonce <= last_nonce && nonce_valid(input, nonce, b_bits as nat, l_bits as nat),
{
    let mut nonce: u64 = 0;
    loop
        invariant
            nonce <= last_nonce,
            forall|earlier: u64|
                earlier < nonce ==> !nonce_valid(input, earlier, b_bits as nat, l_bits as nat),
        decreases last_nonce - nonce,
    {
        match calculate_flow_id(input, nonce, b_bits, l_bits) {
            Ok((flow_id, digest)) => {
                return Ok((nonce, digest, flow_id));
            },
            Err(_) => {
                nonce = match nonce.checked_add(1) {
                    Some(next) => next,
                    None => {
                        return Err(FlowError::SearchExhausted);
                    },
                };
                if nonce > last_nonce {
                    return Err(FlowError::SearchExhausted);
                }
            },
        }
    }
}

/// Searches for the first nonce, counting from zero, that gives `input` a
/// flow identifier below `2^l_bits`. Gives up after the nonce
/// `attempt_cap(b_bits, l_bits)`: a hundred times the expected number of
/// attempts, or the largest nonce there is.
pub fn find_valid_nonce(input: u32, b_bits: usize, l_bits: usize) -> (result: Result<
    (u64, [u8; 32], u32),
    FlowError,
>)
    ensures
        is_search_outcome(input, b_bits as nat, l_bits as nat, result),
        result is Ok <==> exists|nonce: u64|
            nonce <= attempt_cap(b_bits as nat, l_bits as nat) && nonce_valid(
                input,
                nonce,
                b_bits as nat,
                l_bits as nat,
            ),
        match result {
            Ok((nonce, _, flow_id)) => nonce <= attempt_cap(b_bits as nat, l_bits as nat)
                && flow_id < pow2(l_bits as nat),
            Err(error) => error == FlowError::SearchExhausted,
        },
{
    let cap: u64 = search_attempt_cap(b_bits, l_bits);
    find_valid_nonce_up_to(input, b_bits, l_bits, cap)
}

} // verus!
