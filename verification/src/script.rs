//! Script fragments and the assembler that joins them into a locking script.
//!
//! A script is a flat byte string: opcodes, and data pushes in the push-data
//! encoding. Every builder states the exact bytes it returns.

use bitcoin::blockdata::script::{Builder, PushBytes};
use vstd::pervasive::unreached;
use vstd::prelude::*;
use vstd::slice::slice_to_vec;

verus! {

/// Pushes the empty byte string, the number zero.
pub const OP_0: u8 = 0x00;

/// Announces a push whose length follows in one byte.
pub const OP_PUSHDATA1: u8 = 0x4c;

/// Announces a push whose length follows in two bytes.
pub const OP_PUSHDATA2: u8 = 0x4d;

/// Announces a push whose length follows in four bytes.
pub const OP_PUSHDATA4: u8 = 0x4e;

/// Pushes the number one, the canonical success marker. The fifteen opcodes
/// after it push the numbers two to sixteen.
pub const OP_TRUE: u8 = 0x51;

/// Pushes the number sixteen.
pub const OP_16: u8 = 0x60;

/// Fails the script unless the top item is true; removes it.
pub const OP_VERIFY: u8 = 0x69;

/// Removes the top item.
pub const OP_DROP: u8 = 0x75;

/// Duplicates the top item.
pub const OP_DUP: u8 = 0x76;

/// Fails the script unless the two top items are equal; removes both.
pub const OP_EQUALVERIFY: u8 = 0x88;

/// Replaces the two top numbers `a`, `b` (`b` on top) by whether `a < b`.
pub const OP_LESSTHAN: u8 = 0x9f;

/// Replaces the two top numbers `a`, `b` (`b` on top) by whether `a > b`.
pub const OP_GREATERTHAN: u8 = 0xa0;

/// Fails the script unless the signature under the top item, a public key,
/// is valid for it; removes both.
pub const OP_CHECKSIGVERIFY: u8 = 0xad;

/// The bytes of a non-negative script number: little-endian magnitude, with
/// one more zero byte where the top bit of the last byte would read as a sign.
pub open spec fn script_num_bytes(value: nat) -> Seq<u8>
    decreases value,
{
    if value < 0x80 {
        seq![value as u8]
    } else if value < 0x100 {
        seq![value as u8, 0u8]
    } else {
        seq![(value % 0x100) as u8] + script_num_bytes(value / 0x100)
    }
}

/// The push-data encoding of `data`: the shortest length header, then the
/// data itself. Defined for fewer than 2^32 bytes.
pub open spec fn push_data_bytes(data: Seq<u8>) -> Seq<u8> {
    let n = data.len();
    if n < 0x4c {
        seq![n as u8] + data
    } else if n < 0x100 {
        seq![OP_PUSHDATA1, n as u8] + data
    } else if n < 0x10000 {
        seq![OP_PUSHDATA2, (n % 0x100) as u8, (n / 0x100) as u8] + data
    } else {
        seq![
            OP_PUSHDATA4,
            (n % 0x100) as u8,
            ((n / 0x100) % 0x100) as u8,
            ((n / 0x10000) % 0x100) as u8,
            (n / 0x1000000) as u8,
        ] + data
    }
}

/// The instruction that pushes the non-negative number `value`: one opcode
/// for 0 to 16, a data push of the script number above that.
pub open spec fn push_int_bytes(value: nat) -> Seq<u8> {
    if value == 0 {
        seq![OP_0]
    } else if value <= 16 {
        seq![(OP_TRUE + value - 1) as u8]
    } else {
        push_data_bytes(script_num_bytes(value))
    }
}

/// Calls `Builder::push_int` of the bitcoin crate on an empty builder and
/// returns the builder's bytes. The contract claims that these are
/// `push_int_bytes(value)`: `OP_0` for zero, `OP_1` to `OP_16` for 1 to 16,
/// and otherwise a push of the minimal little-endian sign-and-magnitude
/// encoding. Negative numbers are left out.
#[verifier::external_body]
fn script_push_int(value: i64) -> (script: Vec<u8>)
    requires
        0 <= value,
    ensures
        script@ == push_int_bytes(value as nat),
{
    Builder::new().push_int(value).into_bytes()
}

/// Calls `Builder::push_slice` of the bitcoin crate on an empty builder and
/// returns the builder's bytes. The crate accepts the data through
/// `<&PushBytes>::try_from`, which refuses 2^32 bytes or more; the contract
/// claims that everything shorter is encoded as `push_data_bytes` says.
#[verifier::external_body]
fn script_push_data(data: &[u8]) -> (script: Option<Vec<u8>>)
    ensures
        script is Some <==> data@.len() < 0x1_0000_0000,
        script is Some ==> script->0@ == push_data_bytes(data@),
{
    match <&PushBytes>::try_from(data) {
        Ok(bytes) => Some(Builder::new().push_slice(bytes).into_bytes()),
        Err(_) => None,
    }
}

/// Appends `bytes` to `out`.
fn append_bytes(out: &mut Vec<u8>, bytes: &[u8])
    ensures
        final(out)@ == old(out)@ + bytes@,
{
    out.extend_from_slice(bytes);
    assert(out@ =~= old(out)@ + bytes@);
}

/// The fragments' bytes, one after the other.
pub open spec fn concat_fragments(fragments: Seq<Seq<u8>>) -> Seq<u8>
    decreases fragments.len(),
{
    if fragments.len() == 0 {
        Seq::empty()
    } else {
        concat_fragments(fragments.drop_last()) + fragments.last()
    }
}

/// The byte strings that a sequence of fragments holds.
pub open spec fn fragment_bytes(fragments: Seq<Vec<u8>>) -> Seq<Seq<u8>> {
    Seq::new(fragments.len(), |i: int| fragments[i]@)
}

/// Joins script fragments into one script by concatenating their bytes.
pub fn combine_scripts(fragments: &[Vec<u8>]) -> (script: Vec<u8>)
    ensures
        script@ == concat_fragments(fragment_bytes(fragments@)),
{
    let ghost all = fragment_bytes(fragments@);
    let mut combined: Vec<u8> = Vec::new();
    let mut i: usize = 0;
    while i < fragments.len()
        invariant
            i <= fragments@.len(),
            all == fragment_bytes(fragments@),
            combined@ == concat_fragments(all.take(i as int)),
        decreases fragments@.len() - i,
    {
        append_bytes(&mut combined, fragments[i].as_slice());
        proof {
            assert(all.take(i + 1).drop_last() =~= all.take(i as int));
        }
        i += 1;
    }
    assert(all.take(i as int) =~= all);
    combined
}

/// The fail-closed chained equality check of `prefix` against the stack: the
/// last nibble is compared first, because it lies on top.
pub open spec fn prefix_equalverify_bytes(prefix: Seq<u8>) -> Seq<u8>
    decreases prefix.len(),
{
    if prefix.len() == 0 {
        Seq::empty()
    } else {
        push_int_bytes(prefix.last() as nat) + seq![OP_EQUALVERIFY] + prefix_equalverify_bytes(
            prefix.drop_last(),
        )
    }
}

/// Builds the fragment that checks the top of the stack against
/// `prefix_data`: for each value, last one first, a push of the value and
/// `OP_EQUALVERIFY`.
pub fn build_prefix_equalverify(prefix_data: &[u8]) -> (script: Vec<u8>)
    ensures
        script@ == prefix_equalverify_bytes(prefix_data@),
{
    let mut script: Vec<u8> = Vec::new();
    let mut left: usize = prefix_data.len();
    assert(prefix_data@.take(left as int) =~= prefix_data@);
    while left > 0
        invariant
            left <= prefix_data@.len(),
            script@ + prefix_equalverify_bytes(prefix_data@.take(left as int))
                == prefix_equalverify_bytes(prefix_data@),
        decreases left,
    {
        let ghost before = script@;
        let ghost head = prefix_data@.take(left as int);
        left -= 1;
        let nibble: u8 = prefix_data[left];
        let mut push: Vec<u8> = script_push_int(nibble as i64);
        script.append(&mut push);
        script.push(OP_EQUALVERIFY);
        proof {
            let rest = prefix_equalverify_bytes(prefix_data@.take(left as int));
            assert(head.last() == nibble);
            assert(head.drop_last() =~= prefix_data@.take(left as int));
            assert(script@ + rest =~= before + (push_int_bytes(nibble as nat)
                + seq![OP_EQUALVERIFY] + rest));
        }
    }
    assert(script@ + Seq::<u8>::empty() =~= script@);
    script
}

/// The role that a locking script is compiled for.
#[derive(Clone, Copy, Debug, PartialEq, Eq, Structural)]
pub enum GateRole {
    /// Opens for inputs strictly greater than `F1_THRESHOLD`.
    F1,
    /// Opens for inputs strictly less than `F2_THRESHOLD`.
    F2,
}

/// The F1 gate asks for an input strictly greater than this.
pub const F1_THRESHOLD: u32 = 100;

/// The F2 gate asks for an input strictly less than this.
pub const F2_THRESHOLD: u32 = 200;

/// Length in bytes of the hashed message: the input in one limb, the nonce
/// in two.
pub const HASH_MESSAGE_LEN: usize = 12;

/// Width in bytes of the limbs in which the hash fragment takes its message.
pub const HASH_LIMB_LEN: u8 = 4;

/// Number of nibbles that the hash fragment leaves on the stack.
pub const DIGEST_NIBBLES: usize = 64;

impl GateRole {
    /// The constant that the role compares the input with.
    pub open spec fn threshold(self) -> u32 {
        match self {
            GateRole::F1 => F1_THRESHOLD,
            GateRole::F2 => F2_THRESHOLD,
        }
    }

    /// The opcode that compares the input (below) with the threshold (on top).
    pub open spec fn comparison(self) -> u8 {
        match self {
            GateRole::F1 => OP_GREATERTHAN,
            GateRole::F2 => OP_LESSTHAN,
        }
    }
}

/// Push of the public key, then `OP_CHECKSIGVERIFY`.
pub open spec fn sig_check_bytes(pubkey: Seq<u8>) -> Seq<u8> {
    push_data_bytes(pubkey) + seq![OP_CHECKSIGVERIFY]
}

/// `OP_DUP`, push of the role's threshold, the role's comparison, `OP_VERIFY`.
pub open spec fn threshold_check_bytes(role: GateRole) -> Seq<u8> {
    seq![OP_DUP] + push_int_bytes(role.threshold() as nat) + seq![role.comparison(), OP_VERIFY]
}

/// `count` times `OP_DROP`.
pub open spec fn drop_bytes(count: nat) -> Seq<u8> {
    Seq::new(count, |i: int| OP_DROP)
}

/// What follows the hash computation in a locking script: truncation of the
/// digest to the prefix length, prefix match, success marker.
pub open spec fn digest_check_bytes(prefix: Seq<u8>) -> Seq<u8> {
    drop_bytes((DIGEST_NIBBLES - prefix.len()) as nat) + prefix_equalverify_bytes(prefix)
        + seq![OP_TRUE]
}

/// The locking script of a role, fragment by fragment: signature check,
/// threshold check, drop of the duplicated input, the hash computation, and
/// the check of the digest against the prefix.
pub open spec fn locked_script_bytes(
    role: GateRole,
    pubkey: Seq<u8>,
    prefix: Seq<u8>,
    compute: Seq<u8>,
) -> Seq<u8> {
    sig_check_bytes(pubkey) + threshold_check_bytes(role) + drop_bytes(1) + compute
        + digest_check_bytes(prefix)
}

/// Builds the fragment that verifies a signature against `signer_pubkey` and
/// fails the script if it is invalid.
pub fn build_sig_check(signer_pubkey: &[u8]) -> (script: Vec<u8>)
    requires
        signer_pubkey@.len() < 0x1_0000_0000,
    ensures
        script@ == sig_check_bytes(signer_pubkey@),
{
    let mut script: Vec<u8> = match script_push_data(signer_pubkey) {
        Some(push) => push,
        None => unreached(),
    };
    script.push(OP_CHECKSIGVERIFY);
    script
}

/// Builds the fragment that duplicates the numeric input, compares it with
/// the role's threshold and fails the script unless the comparison holds.
pub fn build_threshold_check(role: GateRole) -> (script: Vec<u8>)
    ensures
        script@ == threshold_check_bytes(role),
{
    let mut script: Vec<u8> = Vec::new();
    script.push(OP_DUP);
    match role {
        GateRole::F1 => {
            let mut push: Vec<u8> = script_push_int(F1_THRESHOLD as i64);
            script.append(&mut push);
            script.push(OP_GREATERTHAN);
        },
        GateRole::F2 => {
            let mut push: Vec<u8> = script_push_int(F2_THRESHOLD as i64);
            script.append(&mut push);
            script.push(OP_LESSTHAN);
        },
    }
    script.push(OP_VERIFY);
    assert(script@ =~= threshold_check_bytes(role));
    script
}

/// Builds the fragment that removes the `count` top items of the stack.
pub fn build_drop(count: usize) -> (script: Vec<u8>)
    ensures
        script@ == drop_bytes(count as nat),
{
    let mut script: Vec<u8> = Vec::new();
    let mut i: usize = 0;
    while i < count
        invariant
            i <= count,
            script@ == drop_bytes(i as nat),
        decreases count - i,
    {
        script.push(OP_DROP);
        i += 1;
        assert(script@ =~= drop_bytes(i as nat));
    }
    script
}

/// Assembles the locking script of `role`: the fixed pipeline of fragments
/// around `compute_script`, the fragment that hashes the 12-byte message on
/// the stack and leaves the digest there as `DIGEST_NIBBLES` nibbles.
pub fn build_locked_script(
    role: GateRole,
    signer_pubkey: &[u8],
    flow_id_prefix: &[u8],
    compute_script: &[u8],
) -> (script: Vec<u8>)
    requires
        signer_pubkey@.len() < 0x1_0000_0000,
        flow_id_prefix@.len() <= DIGEST_NIBBLES,
    ensures
        script@ == locked_script_bytes(role, signer_pubkey@, flow_id_prefix@, compute_script@),
{
    let needed_nibbles: usize = flow_id_prefix.len();
    let to_drop: usize = DIGEST_NIBBLES - needed_nibbles;

    let sig_check: Vec<u8> = build_sig_check(signer_pubkey);
    let threshold_check: Vec<u8> = build_threshold_check(role);
    let reorder_for_hash: Vec<u8> = build_drop(1);
    let compute: Vec<u8> = slice_to_vec(compute_script);
    let drop_script: Vec<u8> = build_drop(to_drop);
    let prefix_script: Vec<u8> = build_prefix_equalverify(flow_id_prefix);
    let mut success_script: Vec<u8> = Vec::new();
    success_script.push(OP_TRUE);

    let mut fragments: Vec<Vec<u8>> = Vec::new();
    fragments.push(sig_check);
    fragments.push(threshold_check);
    fragments.push(reorder_for_hash);
    fragments.push(compute);
    fragments.push(drop_script);
    fragments.push(prefix_script);
    fragments.push(success_script);
    let script: Vec<u8> = combine_scripts(fragments.as_slice());
    proof {
        let parts = fragment_bytes(fragments@);
        assert(parts =~= seq![
            sig_check_bytes(signer_pubkey@),
            threshold_check_bytes(role),
            drop_bytes(1),
            compute_script@,
            drop_bytes(to_drop as nat),
            prefix_equalverify_bytes(flow_id_prefix@),
            seq![OP_TRUE],
        ]);
        lemma_concat_seven(parts);
        assert(script@ =~= locked_script_bytes(
            role,
            signer_pubkey@,
            flow_id_prefix@,
            compute_script@,
        ));
    }
    script
}

/// Seven fragments are joined in their order.
proof fn lemma_concat_seven(parts: Seq<Seq<u8>>)
    requires
        parts.len() == 7,
    ensures
        concat_fragments(parts) == parts[0] + parts[1] + parts[2] + parts[3] + parts[4] + parts[5]
            + parts[6],
{
    let first_1 = parts.take(1);
    let first_2 = parts.take(2);
    let first_3 = parts.take(3);
    let first_4 = parts.take(4);
    let first_5 = parts.take(5);
    let first_6 = parts.take(6);
    assert(first_1.drop_last() =~= Seq::<Seq<u8>>::empty());
    assert(concat_fragments(first_1.drop_last()) =~= Seq::<u8>::empty());
    assert(concat_fragments(first_1) =~= concat_fragments(first_1.drop_last()) + parts[0]);
    assert(concat_fragments(first_1) =~= parts[0]);
    assert(first_2.drop_last() =~= first_1);
    assert(concat_fragments(first_2) == concat_fragments(first_1) + parts[1]);
    assert(first_3.drop_last() =~= first_2);
    assert(concat_fragments(first_3) == concat_fragments(first_2) + parts[2]);
    assert(first_4.drop_last() =~= first_3);
    assert(concat_fragments(first_4) == concat_fragments(first_3) + parts[3]);
    assert(first_5.drop_last() =~= first_4);
    assert(concat_fragments(first_5) == concat_fragments(first_4) + parts[4]);
    assert(first_6.drop_last() =~= first_5);
    assert(concat_fragments(first_6) == concat_fragments(first_5) + parts[5]);
    assert(parts.drop_last() =~= first_6);
    assert(concat_fragments(parts) == concat_fragments(first_6) + parts[6]);
}

/// Builds the F1 locking script: signature by `signer_pubkey`, input
/// strictly greater than `F1_THRESHOLD`, and the digest computed by
/// `compute_script` starting with `flow_id_prefix`.
pub fn build_script_f1_blake3_locked(
    signer_pubkey: &[u8],
    flow_id_prefix: &[u8],
    _b_bits: usize,
    compute_script: &[u8],
) -> (script: Vec<u8>)
    requires
        signer_pubkey@.len() < 0x1_0000_0000,
        flow_id_prefix@.len() <= DIGEST_NIBBLES,
    ensures
        script@ == locked_script_bytes(
            GateRole::F1,
            signer_pubkey@,
            flow_id_prefix@,
            compute_script@,
        ),
{
    build_locked_script(GateRole::F1, signer_pubkey, flow_id_prefix, compute_script)
}

/// Builds the F2 locking script: signature by `signer_pubkey`, input
/// strictly less than `F2_THRESHOLD`, and the digest computed by
/// `compute_script` starting with `flow_id_prefix`.
pub fn build_script_f2_blake3_locked(
    signer_pubkey: &[u8],
    flow_id_prefix: &[u8],
    _b_bits: usize,
    compute_script: &[u8],
) -> (script: Vec<u8>)
    requires
        signer_pubkey@.len() < 0x1_0000_0000,
        flow_id_prefix@.len() <= DIGEST_NIBBLES,
    ensures
        script@ == locked_script_bytes(
            GateRole::F2,
            signer_pubkey@,
            flow_id_prefix@,
            compute_script@,
        ),
{
    build_locked_script(GateRole::F2, signer_pubkey, flow_id_prefix, compute_script)
}

/// Assembly is pure: the role, the public key, the prefix and the hash
/// fragment fix every byte of the locking script, so two scripts assembled
/// from the same four are byte for byte the same.
pub proof fn lemma_assembly_is_pure(
    role: GateRole,
    pubkey: Seq<u8>,
    prefix: Seq<u8>,
    compute: Seq<u8>,
    first: Vec<u8>,
    second: Vec<u8>,
)
    requires
        first@ == locked_script_bytes(role, pubkey, prefix, compute),
        second@ == locked_script_bytes(role, pubkey, prefix, compute),
    ensures
        first@ == second@,
{
}

} // verus!
