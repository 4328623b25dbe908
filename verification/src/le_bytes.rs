//! Little-endian byte strings and the numbers they stand for.

use vstd::arithmetic::div_mod::{lemma_fundamental_div_mod_converse, lemma_mod_breakdown};
use vstd::arithmetic::power2::{lemma2_to64, lemma_pow2_adds, lemma_pow2_pos, pow2};
use vstd::prelude::*;

verus! {

/// The first `count` bytes of the little-endian representation of `value`,
/// least significant byte first.
pub open spec fn le_bytes(value: nat, count: nat) -> Seq<u8>
    decreases count,
{
    if count == 0 {
        Seq::empty()
    } else {
        seq![(value % 256) as u8] + le_bytes(value / 256, (count - 1) as nat)
    }
}

/// The number that `bytes` stands for when read least significant byte first.
pub open spec fn le_value(bytes: Seq<u8>) -> nat
    decreases bytes.len(),
{
    if bytes.len() == 0 {
        0
    } else {
        bytes[0] as nat + 256 * le_value(bytes.skip(1))
    }
}

/// `le_bytes` yields exactly as many bytes as were asked for.
pub proof fn lemma_le_bytes_len(value: nat, count: nat)
    ensures
        le_bytes(value, count).len() == count,
    decreases count,
{
    if count > 0 {
        lemma_le_bytes_len(value / 256, (count - 1) as nat);
    }
}

/// The first `shorter` of `count` little-endian bytes are the little-endian
/// bytes for `shorter`: asking for more bytes only appends.
pub proof fn lemma_le_bytes_take(value: nat, count: nat, shorter: nat)
    requires
        shorter <= count,
    ensures
        le_bytes(value, count).take(shorter as int) == le_bytes(value, shorter),
    decreases shorter,
{
    lemma_le_bytes_len(value, count);
    if shorter == 0 {
        assert(le_bytes(value, count).take(0) =~= Seq::<u8>::empty());
    } else {
        let rest_long = le_bytes(value / 256, (count - 1) as nat);
        lemma_le_bytes_take(value / 256, (count - 1) as nat, (shorter - 1) as nat);
        lemma_le_bytes_len(value / 256, (count - 1) as nat);
        assert((seq![(value % 256) as u8] + rest_long).take(shorter as int) =~= seq![
            (value % 256) as u8,
        ] + rest_long.take(shorter - 1));
    }
}

/// Four little-endian bytes stand for the sum of their place values.
pub proof fn lemma_le_value_four(bytes: Seq<u8>)
    requires
        bytes.len() == 4,
    ensures
        le_value(bytes) == bytes[0] + 0x100 * bytes[1] + 0x1_0000 * bytes[2] + 0x100_0000 * bytes[3],
{
    let s1 = bytes.skip(1);
    let s2 = s1.skip(1);
    let s3 = s2.skip(1);
    let s4 = s3.skip(1);
    assert(le_value(s4) == 0);
    assert(le_value(s3) == s3[0] + 256 * le_value(s4));
    assert(le_value(s2) == s2[0] + 256 * le_value(s3));
    assert(le_value(s1) == s1[0] + 256 * le_value(s2));
    assert(le_value(bytes) == bytes[0] + 256 * le_value(s1));
}

/// Writing out the number that `bytes` stands for, in as many bytes, gives
/// `bytes` again.
pub proof fn lemma_le_bytes_of_le_value(bytes: Seq<u8>)
    ensures
        le_bytes(le_value(bytes), bytes.len()) == bytes,
    decreases bytes.len(),
{
    if bytes.len() == 0 {
        assert(le_bytes(le_value(bytes), 0) =~= bytes);
    } else {
        let rest = bytes.skip(1);
        lemma_le_bytes_of_le_value(rest);
        lemma_fundamental_div_mod_converse(
            le_value(bytes) as int,
            256,
            le_value(rest) as int,
            bytes[0] as int,
        );
        assert(seq![bytes[0]] + rest =~= bytes);
    }
}

/// The first `count` little-endian bytes of a number are those of its
/// `8 * count` low bits.
pub proof fn lemma_le_bytes_of_low_bits(value: nat, count: nat)
    ensures
        le_bytes(value % pow2(8 * count), count) == le_bytes(value, count),
    decreases count,
{
    lemma_pow2_pos(8 * count);
    if count > 0 {
        let above = pow2((8 * (count - 1)) as nat);
        let low = value % pow2(8 * count);
        lemma_pow2_pos((8 * (count - 1)) as nat);
        lemma_pow2_adds(8, (8 * (count - 1)) as nat);
        lemma2_to64();
        assert(pow2(8 * count) == 256 * above);
        lemma_mod_breakdown(value as int, 256, above as int);
        lemma_fundamental_div_mod_converse(
            low as int,
            256,
            ((value / 256) % above) as int,
            (value % 256) as int,
        );
        lemma_le_bytes_of_low_bits(value / 256, (count - 1) as nat);
        assert(low % 256 == value % 256);
        assert(low / 256 == (value / 256) % above);
        assert(le_bytes(low, count) == seq![(low % 256) as u8] + le_bytes(
            low / 256,
            (count - 1) as nat,
        ));
    }
}

/// Appends the first `count` little-endian bytes of `value` to `out`.
pub fn append_le_bytes(out: &mut Vec<u8>, value: u64, count: usize)
    ensures
        final(out)@ == old(out)@ + le_bytes(value as nat, count as nat),
{
    let ghost start = out@;
    let mut rest: u64 = value;
    let mut done: usize = 0;
    while done < count
        invariant
            done <= count,
            out@ + le_bytes(rest as nat, (count - done) as nat) == start + le_bytes(
                value as nat,
                count as nat,
            ),
        decreases count - done,
    {
        let ghost before = out@;
        let ghost tail = le_bytes((rest / 256) as nat, (count - done - 1) as nat);
        let low: u8 = (rest % 256) as u8;
        out.push(low);
        proof {
            assert(le_bytes(rest as nat, (count - done) as nat) == seq![low] + tail);
            assert(before.push(low) + tail =~= before + (seq![low] + tail));
        }
        rest = rest / 256;
        done += 1;
    }
    assert(le_bytes(rest as nat, 0) =~= Seq::<u8>::empty());
    assert(out@ + Seq::<u8>::empty() =~= out@);
}

} // verus!
