//! The nibble codec: a flow identifier as the sequence of 4-bit values that
//! the locking script compares against the digest.

use vstd::prelude::*;
use crate::le_bytes::{append_le_bytes, le_bytes, lemma_le_bytes_len, lemma_le_bytes_take};

verus! {

/// Each byte split in two, high nibble first, byte order kept.
pub open spec fn nibbles_of(bytes: Seq<u8>) -> Seq<u8> {
    Seq::new(
        2 * bytes.len(),
        |i: int|
            if i % 2 == 0 {
                bytes[i / 2] / 16
            } else {
                bytes[i / 2] % 16
            },
    )
}

/// Nibbles paired back into bytes, the first of each pair being the high one.
pub open spec fn bytes_of_nibbles(nibbles: Seq<u8>) -> Seq<u8> {
    Seq::new(nibbles.len() / 2, |i: int| (16 * nibbles[2 * i] + nibbles[2 * i + 1]) as u8)
}

/// The prefix of a flow identifier: the nibbles of its `b_bits / 8` low
/// little-endian bytes.
pub open spec fn prefix_nibbles(flow_id: u32, b_bits: nat) -> Seq<u8> {
    nibbles_of(le_bytes(flow_id as nat, b_bits / 8))
}

/// Splitting bytes into nibbles and pairing the nibbles back together gives
/// the bytes again, and every nibble is below 16.
pub proof fn lemma_nibbles_pair_back(bytes: Seq<u8>)
    ensures
        nibbles_of(bytes).len() == 2 * bytes.len(),
        forall|i: int| 0 <= i < 2 * bytes.len() ==> #[trigger] nibbles_of(bytes)[i] < 16,
        bytes_of_nibbles(nibbles_of(bytes)) == bytes,
{
    let nibbles = nibbles_of(bytes);
    assert forall|i: int| 0 <= i < bytes.len() implies #[trigger] bytes_of_nibbles(nibbles)[i]
        == bytes[i] by {
        let byte = bytes[i];
        assert(nibbles[2 * i] == byte / 16);
        assert(nibbles[2 * i + 1] == byte % 16);
        assert(16 * (byte / 16) + byte % 16 == byte);
    }
    assert(bytes_of_nibbles(nibbles) =~= bytes);
}

/// Nibble round trip: the prefix of a flow identifier has exactly
/// `b_bits / 4` nibbles, each below 16, and pairing them back together gives
/// the first `b_bits / 8` bytes of the identifier's four little-endian bytes.
pub proof fn lemma_prefix_round_trip(flow_id: u32, b_bits: nat)
    requires
        b_bits <= 32,
        b_bits % 8 == 0,
    ensures
        prefix_nibbles(flow_id, b_bits).len() == b_bits / 4,
        forall|i: int|
            0 <= i < b_bits / 4 ==> #[trigger] prefix_nibbles(flow_id, b_bits)[i] < 16,
        bytes_of_nibbles(prefix_nibbles(flow_id, b_bits)) == le_bytes(flow_id as nat, 4).take(
            (b_bits / 8) as int,
        ),
{
    let kept = le_bytes(flow_id as nat, b_bits / 8);
    lemma_le_bytes_len(flow_id as nat, b_bits / 8);
    lemma_le_bytes_take(flow_id as nat, 4, b_bits / 8);
    lemma_nibbles_pair_back(kept);
}

/// Splits every byte of `bytes` into its high and its low nibble.
pub fn bytes_to_nibbles(bytes: &[u8]) -> (nibbles: Vec<u8>)
    ensures
        nibbles@ == nibbles_of(bytes@),
{
    let mut nibbles: Vec<u8> = Vec::new();
    let mut i: usize = 0;
    while i < bytes.len()
        invariant
            i <= bytes@.len(),
            nibbles@.len() == 2 * i,
            forall|k: int| 0 <= k < nibbles@.len() ==> nibbles@[k] == nibbles_of(bytes@)[k],
        decreases bytes@.len() - i,
    {
        let byte: u8 = bytes[i];
        assert((byte >> 4) & 0x0f == byte / 16) by (bit_vector);
        assert(byte & 0x0f == byte % 16) by (bit_vector);
        nibbles.push((byte >> 4) & 0x0F);
        nibbles.push(byte & 0x0F);
        i += 1;
    }
    assert(nibbles@ =~= nibbles_of(bytes@));
    nibbles
}

/// The prefix of `flow_id` for a prefix width of `b_bits` bits: its
/// `b_bits / 8` low bytes in little-endian order, each as two nibbles, high
/// nibble first.
pub fn flow_id_to_prefix_bytes(flow_id: u32, b_bits: usize) -> (nibbles: Vec<u8>)
    requires
        b_bits <= 32,
        b_bits % 8 == 0,
    ensures
        nibbles@ == prefix_nibbles(flow_id, b_bits as nat),
        nibbles@.len() == b_bits / 4,
        forall|i: int| 0 <= i < nibbles@.len() ==> nibbles@[i] < 16,
{
    let prefix_len: usize = b_bits / 8;
    let mut prefix_bytes: Vec<u8> = Vec::new();
    append_le_bytes(&mut prefix_bytes, flow_id as u64, prefix_len);
    proof {
        lemma_le_bytes_len(flow_id as nat, prefix_len as nat);
        assert(prefix_bytes@ =~= le_bytes(flow_id as nat, prefix_len as nat));
    }
    bytes_to_nibbles(prefix_bytes.as_slice())
}

} // verus!
