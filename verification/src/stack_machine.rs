//! A model of the stack machine, for the opcodes that the fragments of this
//! library use, and what the fragments do when the model runs them.
//!
//! The machine itself is not part of this library. The model follows its
//! rules for small-number pushes, direct data pushes, `OP_DUP`, `OP_DROP`,
//! `OP_VERIFY`, `OP_EQUALVERIFY` and the two numeric comparisons; it stops
//! with failure at every other opcode, the signature check and the opcodes
//! of the hash fragment among them. It reads a number from any item of at
//! most four bytes, the shortest encoding or not.
//!
//! The laws say what the fragments around the hash computation do: the
//! threshold step before it, and the digest check after it, on a stack that
//! holds the digest as 64 nibbles with the first nibble lowest.

use crate::flow_id::{digest_prefix, lemma_prefix_is_digest_head};
use crate::le_bytes::le_value;
use crate::nibble::{lemma_nibbles_pair_back, nibbles_of, prefix_nibbles};
use crate::script::{
    digest_check_bytes, drop_bytes, prefix_equalverify_bytes, push_int_bytes, script_num_bytes,
    threshold_check_bytes, GateRole, DIGEST_NIBBLES, OP_0, OP_16, OP_DROP, OP_DUP, OP_EQUALVERIFY,
    OP_GREATERTHAN, OP_LESSTHAN, OP_PUSHDATA1, OP_TRUE, OP_VERIFY,
};
use vstd::prelude::*;

verus! {

/// The item that stands for the non-negative number `value` on the stack:
/// the empty string for zero, the script number otherwise.
pub open spec fn num_item(value: nat) -> Seq<u8> {
    if value == 0 {
        Seq::empty()
    } else {
        script_num_bytes(value)
    }
}

/// The items that stand for `values`, the first lowest on the stack.
pub open spec fn num_items(values: Seq<u8>) -> Seq<Seq<u8>> {
    Seq::new(values.len(), |i: int| num_item(values[i] as nat))
}

/// The number that an item stands for: a little-endian magnitude whose top
/// bit is the sign.
pub open spec fn item_value(item: Seq<u8>) -> int {
    if item.len() == 0 {
        0
    } else if item.last() < 0x80 {
        le_value(item) as int
    } else {
        -(le_value(item.update(item.len() - 1, (item.last() - 0x80) as u8)) as int)
    }
}

/// Whether the machine reads an item as a number: at most four bytes.
pub open spec fn is_number(item: Seq<u8>) -> bool {
    item.len() <= 4
}

/// Whether the machine reads an item as true: some byte is not zero, other
/// than the sign bit alone in the last byte.
pub open spec fn is_true(item: Seq<u8>) -> bool {
    exists|i: int|
        0 <= i < item.len() && #[trigger] item[i] != 0 && !(i == item.len() - 1 && item[i] == 0x80)
}

/// The item that the machine pushes for the result of a comparison.
pub open spec fn bool_item(value: bool) -> Seq<u8> {
    if value {
        seq![1u8]
    } else {
        Seq::empty()
    }
}

/// Runs `script` on `stack`, whose last item is on top. Gives the stack at
/// the end of the script, or `None` where the script fails.
pub open spec fn run_script(script: Seq<u8>, stack: Seq<Seq<u8>>) -> Option<Seq<Seq<u8>>>
    decreases script.len(),
{
    if script.len() == 0 {
        Some(stack)
    } else {
        let op = script[0];
        let rest = script.skip(1);
        let depth = stack.len() as int;
        if op == OP_0 {
            run_script(rest, stack.push(Seq::empty()))
        } else if op < OP_PUSHDATA1 {
            if rest.len() >= op {
                run_script(rest.skip(op as int), stack.push(rest.take(op as int)))
            } else {
                None
            }
        } else if OP_TRUE <= op <= OP_16 {
            run_script(rest, stack.push(seq![(op - OP_TRUE + 1) as u8]))
        } else if op == OP_DROP {
            if depth >= 1 {
                run_script(rest, stack.drop_last())
            } else {
                None
            }
        } else if op == OP_DUP {
            if depth >= 1 {
                run_script(rest, stack.push(stack.last()))
            } else {
                None
            }
        } else if op == OP_VERIFY {
            if depth >= 1 && is_true(stack.last()) {
                run_script(rest, stack.drop_last())
            } else {
                None
            }
        } else if op == OP_EQUALVERIFY {
            if depth >= 2 && stack[depth - 2] == stack[depth - 1] {
                run_script(rest, stack.take(depth - 2))
            } else {
                None
            }
        } else if op == OP_GREATERTHAN || op == OP_LESSTHAN {
            if depth >= 2 && is_number(stack[depth - 2]) && is_number(stack[depth - 1]) {
                let below = item_value(stack[depth - 2]);
                let top = item_value(stack[depth - 1]);
                let holds = if op == OP_GREATERTHAN {
                    below > top
                } else {
                    below < top
                };
                run_script(rest, stack.take(depth - 2).push(bool_item(holds)))
            } else {
                None
            }
        } else {
            None
        }
    }
}

/// A script number stands for the number it was written from, and its last
/// byte carries no sign.
pub proof fn lemma_script_num_value(value: nat)
    requires
        value > 0,
    ensures
        script_num_bytes(value).len() > 0,
        script_num_bytes(value).last() < 0x80,
        le_value(script_num_bytes(value)) == value,
        item_value(num_item(value)) == value,
    decreases value,
{
    let bytes = script_num_bytes(value);
    if value < 0x80 {
        assert(le_value(bytes.skip(1)) == 0);
    } else if value < 0x100 {
        assert(bytes.skip(1) =~= seq![0u8]);
        assert(le_value(bytes.skip(1).skip(1)) == 0);
        assert(le_value(bytes.skip(1)) == 0);
    } else {
        let upper = script_num_bytes(value / 0x100);
        lemma_script_num_value(value / 0x100);
        assert(bytes.skip(1) =~= upper);
        assert(bytes.last() == upper.last());
    }
}

/// A number below 2^31 is written in at most four bytes, so the machine
/// reads its item as a number.
pub proof fn lemma_num_item_is_number(value: nat)
    requires
        value < 0x8000_0000,
    ensures
        is_number(num_item(value)),
{
    if value >= 0x100 {
        let second = value / 0x100;
        assert(script_num_bytes(value).len() == 1 + script_num_bytes(second).len());
        if second >= 0x100 {
            let third = second / 0x100;
            assert(script_num_bytes(second).len() == 1 + script_num_bytes(third).len());
            if third >= 0x100 {
                let fourth = third / 0x100;
                assert(script_num_bytes(third).len() == 1 + script_num_bytes(fourth).len());
                assert(fourth < 0x80);
            }
        }
    }
}

/// Different numbers up to 255 have different items.
pub proof fn lemma_num_item_distinct(first: nat, second: nat)
    requires
        first <= 255,
        second <= 255,
        first != second,
    ensures
        num_item(first) != num_item(second),
{
    let a = num_item(first);
    let b = num_item(second);
    if first != 0 && second != 0 {
        assert(a[0] == first as u8);
        assert(b[0] == second as u8);
    } else if first != 0 {
        assert(a.len() > 0);
    } else {
        assert(b.len() > 0);
    }
}

/// A push of a number below 2^31 puts the number's item on the stack and
/// goes on with what follows.
pub proof fn lemma_run_push_int(value: nat, rest: Seq<u8>, stack: Seq<Seq<u8>>)
    requires
        value < 0x8000_0000,
    ensures
        run_script(push_int_bytes(value) + rest, stack) == run_script(
            rest,
            stack.push(num_item(value)),
        ),
{
    let script = push_int_bytes(value) + rest;
    if value == 0 {
        assert(script.skip(1) =~= rest);
    } else if value <= 16 {
        assert(script.skip(1) =~= rest);
        assert(num_item(value) =~= seq![value as u8]);
    } else {
        let bytes = script_num_bytes(value);
        lemma_num_item_is_number(value);
        lemma_script_num_value(value);
        assert(push_int_bytes(value) =~= seq![bytes.len() as u8] + bytes);
        assert(script[0] == bytes.len());
        assert(script.skip(1) =~= bytes + rest);
        assert(script.skip(1).take(bytes.len() as int) =~= bytes);
        assert(script.skip(1).skip(bytes.len() as int) =~= rest);
    }
}

/// A run of `OP_DROP` removes as many items from the top of the stack.
pub proof fn lemma_run_drops(dropped: Seq<Seq<u8>>, below: Seq<Seq<u8>>, rest: Seq<u8>)
    ensures
        run_script(drop_bytes(dropped.len()) + rest, below + dropped) == run_script(rest, below),
    decreases dropped.len(),
{
    let script = drop_bytes(dropped.len()) + rest;
    let stack = below + dropped;
    if dropped.len() == 0 {
        assert(script =~= rest);
        assert(stack =~= below);
    } else {
        let fewer = dropped.drop_last();
        assert(script.skip(1) =~= drop_bytes(fewer.len()) + rest);
        assert(stack.drop_last() =~= below + fewer);
        lemma_run_drops(fewer, below, rest);
    }
}

/// The prefix-match fragment accepts exactly the sequence it was built from:
/// run on a stack that holds any `actual` values of that length on top, it
/// removes them and ends well if `actual` is `expected`, and fails if they
/// differ anywhere, be it in a single value.
pub proof fn lemma_prefix_match_exact(
    expected: Seq<u8>,
    actual: Seq<u8>,
    below: Seq<Seq<u8>>,
    rest: Seq<u8>,
)
    requires
        actual.len() == expected.len(),
    ensures
        run_script(prefix_equalverify_bytes(expected) + rest, below + num_items(actual)) == if actual
            == expected {
            run_script(rest, below)
        } else {
            None
        },
    decreases expected.len(),
{
    let script = prefix_equalverify_bytes(expected) + rest;
    let stack = below + num_items(actual);
    if expected.len() == 0 {
        assert(actual =~= expected);
        assert(script =~= rest);
        assert(stack =~= below);
    } else {
        let want = expected.last() as nat;
        let have = actual.last() as nat;
        let tail = prefix_equalverify_bytes(expected.drop_last()) + rest;
        let after_check = seq![OP_EQUALVERIFY] + tail;
        let shorter = below + num_items(actual.drop_last());
        assert(script =~= push_int_bytes(want) + after_check);
        lemma_run_push_int(want, after_check, stack);
        let pushed = stack.push(num_item(want));
        assert(after_check.skip(1) =~= tail);
        assert(pushed[pushed.len() - 1] == num_item(want));
        assert(pushed[pushed.len() - 2] == num_item(have));
        assert(pushed.take(pushed.len() - 2) =~= shorter);
        if have == want {
            lemma_prefix_match_exact(expected.drop_last(), actual.drop_last(), below, rest);
            if actual.drop_last() == expected.drop_last() {
                assert(actual =~= actual.drop_last().push(actual.last()));
                assert(expected =~= expected.drop_last().push(expected.last()));
            } else {
                assert(actual != expected);
            }
        } else {
            lemma_num_item_distinct(have, want);
        }
    }
}

/// Whether `input` satisfies the threshold of `role`.
pub open spec fn passes_threshold(role: GateRole, input: nat) -> bool {
    match role {
        GateRole::F1 => input > role.threshold(),
        GateRole::F2 => input < role.threshold(),
    }
}

/// The threshold check lets an input through exactly when it satisfies the
/// role's threshold, and leaves the stack as it found it; otherwise the
/// script fails there, whatever follows.
pub proof fn lemma_threshold_check(
    role: GateRole,
    input: nat,
    below: Seq<Seq<u8>>,
    rest: Seq<u8>,
)
    requires
        input < 0x8000_0000,
    ensures
        run_script(threshold_check_bytes(role) + rest, below.push(num_item(input))) == if passes_threshold(
            role,
            input,
        ) {
            run_script(rest, below.push(num_item(input)))
        } else {
            None
        },
{
    let threshold = role.threshold() as nat;
    let stack = below.push(num_item(input));
    let script = threshold_check_bytes(role) + rest;
    let verify = seq![OP_VERIFY] + rest;
    let compare = seq![role.comparison()] + verify;
    let push = push_int_bytes(threshold) + compare;
    assert(script =~= seq![OP_DUP] + push);
    assert(script.skip(1) =~= push);
    let duplicated = stack.push(num_item(input));
    assert(run_script(script, stack) == run_script(push, duplicated));
    lemma_run_push_int(threshold, compare, duplicated);
    let pushed = duplicated.push(num_item(threshold));
    assert(compare.skip(1) =~= verify);
    lemma_num_item_is_number(input);
    lemma_num_item_is_number(threshold);
    lemma_script_num_value(threshold);
    if input > 0 {
        lemma_script_num_value(input);
    }
    assert(pushed[pushed.len() - 2] == num_item(input));
    assert(pushed[pushed.len() - 1] == num_item(threshold));
    assert(pushed.take(pushed.len() - 2) =~= stack);
    let outcome = bool_item(passes_threshold(role, input));
    let compared = stack.push(outcome);
    assert(run_script(compare, pushed) == run_script(verify, compared));
    assert(verify.skip(1) =~= rest);
    assert(compared.drop_last() =~= stack);
    if passes_threshold(role, input) {
        assert(outcome[0] != 0);
        assert(is_true(outcome));
    } else {
        assert(!is_true(outcome));
    }
}

/// The threshold check and the drop after it, taken together, consume the
/// numeric input: the script goes on below it when the input satisfies the
/// role's threshold, and fails otherwise.
pub proof fn lemma_threshold_step(role: GateRole, input: nat, below: Seq<Seq<u8>>, rest: Seq<u8>)
    requires
        input < 0x8000_0000,
    ensures
        run_script(
            threshold_check_bytes(role) + drop_bytes(1) + rest,
            below.push(num_item(input)),
        ) == if passes_threshold(role, input) {
            run_script(rest, below)
        } else {
            None
        },
{
    let after = drop_bytes(1) + rest;
    assert(threshold_check_bytes(role) + drop_bytes(1) + rest =~= threshold_check_bytes(role)
        + after);
    lemma_threshold_check(role, input, below, after);
    let top = seq![num_item(input)];
    assert(below.push(num_item(input)) =~= below + top);
    lemma_run_drops(top, below, rest);
}

/// The witness and the threshold step: a script that pushes `input` and
/// then checks it against the role's threshold goes on with the stack as it
/// was when the input satisfies the threshold, and fails otherwise, whatever
/// follows.
pub proof fn lemma_pushed_input_meets_threshold(
    role: GateRole,
    input: nat,
    below: Seq<Seq<u8>>,
    rest: Seq<u8>,
)
    requires
        input < 0x8000_0000,
    ensures
        run_script(
            push_int_bytes(input) + threshold_check_bytes(role) + drop_bytes(1) + rest,
            below,
        ) == if passes_threshold(role, input) {
            run_script(rest, below)
        } else {
            None
        },
{
    let after = threshold_check_bytes(role) + drop_bytes(1) + rest;
    assert(push_int_bytes(input) + threshold_check_bytes(role) + drop_bytes(1) + rest
        =~= push_int_bytes(input) + after);
    lemma_run_push_int(input, after, below);
    lemma_threshold_step(role, input, below, rest);
}

/// The end of a locking script, run on a stack that holds the digest as
/// `nibbles`, the first nibble lowest: the truncation and the prefix match
/// remove the digest and go on if `prefix` is the head of the nibbles, and
/// fail the script if it is anything else.
pub proof fn lemma_digest_check(
    prefix: Seq<u8>,
    nibbles: Seq<u8>,
    below: Seq<Seq<u8>>,
    rest: Seq<u8>,
)
    requires
        prefix.len() <= nibbles.len(),
    ensures
        run_script(
            drop_bytes((nibbles.len() - prefix.len()) as nat) + prefix_equalverify_bytes(prefix)
                + rest,
            below + num_items(nibbles),
        ) == if prefix == nibbles.take(prefix.len() as int) {
            run_script(rest, below)
        } else {
            None
        },
{
    let kept = nibbles.take(prefix.len() as int);
    let cut = nibbles.skip(prefix.len() as int);
    let check = prefix_equalverify_bytes(prefix) + rest;
    assert(below + num_items(nibbles) =~= (below + num_items(kept)) + num_items(cut));
    assert(drop_bytes((nibbles.len() - prefix.len()) as nat) + prefix_equalverify_bytes(prefix)
        + rest =~= drop_bytes(num_items(cut).len()) + check);
    lemma_run_drops(num_items(cut), below + num_items(kept), check);
    lemma_prefix_match_exact(prefix, kept, below, rest);
}

/// The digest check of a locking script accepts exactly the digests that
/// start with its prefix: run on a stack that holds a digest's 64 nibbles,
/// the first lowest, it replaces them by the success marker if `prefix` is
/// the head of the nibbles, and fails if `prefix` is anything else.
pub proof fn lemma_digest_check_accepts_exactly(
    prefix: Seq<u8>,
    nibbles: Seq<u8>,
    below: Seq<Seq<u8>>,
)
    requires
        nibbles.len() == DIGEST_NIBBLES,
        prefix.len() <= DIGEST_NIBBLES,
    ensures
        run_script(digest_check_bytes(prefix), below + num_items(nibbles)) == if prefix
            == nibbles.take(prefix.len() as int) {
            Some(below.push(seq![1u8]))
        } else {
            None
        },
{
    let marker = seq![OP_TRUE];
    lemma_digest_check(prefix, nibbles, below, marker);
    assert(marker.skip(1) =~= Seq::<u8>::empty());
    assert(run_script(marker, below) == run_script(marker.skip(1), below.push(seq![1u8])));
}

/// End to end: the locking script built from the prefix of a digest's flow
/// identifier passes its digest check on that digest. The stack holds the
/// digest's 64 nibbles, the first lowest; `b_bits` is a number of whole
/// bytes, at most four.
pub proof fn lemma_flow_prefix_passes_digest_check(
    digest: Seq<u8>,
    b_bits: nat,
    below: Seq<Seq<u8>>,
)
    requires
        digest.len() == 32,
        b_bits <= 32,
        b_bits % 8 == 0,
    ensures
        run_script(
            digest_check_bytes(prefix_nibbles(digest_prefix(digest, b_bits) as u32, b_bits)),
            below + num_items(nibbles_of(digest)),
        ) == Some(below.push(seq![1u8])),
{
    let prefix = prefix_nibbles(digest_prefix(digest, b_bits) as u32, b_bits);
    lemma_prefix_is_digest_head(digest, b_bits);
    lemma_nibbles_pair_back(digest);
    assert(prefix.len() == b_bits / 4);
    lemma_digest_check_accepts_exactly(prefix, nibbles_of(digest), below);
}

/// End to end, the other way: a locking script built from any other prefix
/// of that length, be it altered in a single nibble, fails its digest check
/// on the digest.
pub proof fn lemma_other_prefix_fails_digest_check(
    digest: Seq<u8>,
    b_bits: nat,
    altered: Seq<u8>,
    below: Seq<Seq<u8>>,
)
    requires
        digest.len() == 32,
        b_bits <= 32,
        b_bits % 8 == 0,
        altered.len() == b_bits / 4,
        altered != prefix_nibbles(digest_prefix(digest, b_bits) as u32, b_bits),
    ensures
        run_script(digest_check_bytes(altered), below + num_items(nibbles_of(digest)))
            == None::<Seq<Seq<u8>>>,
{
    lemma_prefix_is_digest_head(digest, b_bits);
    lemma_nibbles_pair_back(digest);
    lemma_digest_check_accepts_exactly(altered, nibbles_of(digest), below);
}

} // verus!
