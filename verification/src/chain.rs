//! What holds of a runtime over sequences of blocks.

use vstd::prelude::*;
use crate::balances::total;
use crate::runtime::{
    accepts, begun, block_result, block_state, lemma_block, lemma_nonce_counts, submitted, State,
};
use crate::system::nonce_in;
use crate::types::Block;

verus! {

/// The state after a sequence of blocks was submitted, one after the other.
pub open spec fn executed(s: State, blocks: Seq<Block>) -> State
    decreases blocks.len(),
{
    if blocks.len() == 0 {
        s
    } else {
        block_state(executed(s, blocks.drop_last()), blocks.last())
    }
}

/// How many extrinsics of `who` were executed while a sequence of blocks
/// was submitted: those of the accepted blocks.
pub open spec fn processed(s: State, blocks: Seq<Block>, who: Seq<char>) -> nat
    decreases blocks.len(),
{
    if blocks.len() == 0 {
        0
    } else {
        let earlier = processed(s, blocks.drop_last(), who);
        if accepts(executed(s, blocks.drop_last()), blocks.last()) {
            earlier + submitted(blocks.last().extrinsics@, who)
        } else {
            earlier
        }
    }
}

/// Whether the headers of a sequence of blocks carry, one after the other,
/// the numbers that follow the height of `s`.
pub open spec fn sequential(s: State, blocks: Seq<Block>) -> bool {
    forall|i: int|
        0 <= i < blocks.len() ==> (#[trigger] blocks[i]).header.block_number
            == s.system.block_number + i + 1
}

/// The height after `k` blocks is `k` more than before.
pub proof fn lemma_height(s: State, blocks: Seq<Block>)
    ensures
        executed(s, blocks).system.block_number == s.system.block_number + blocks.len(),
    decreases blocks.len(),
{
    if blocks.len() > 0 {
        lemma_height(s, blocks.drop_last());
        let before = executed(s, blocks.drop_last());
        if accepts(before, blocks.last()) {
            lemma_nonce_counts(begun(before), blocks.last().extrinsics@, Seq::empty());
        }
    }
}

/// Blocks with sequential headers are all accepted: from height zero, after
/// the blocks numbered `1` to `k` the height is `k`.
pub proof fn lemma_sequential_accepted(s: State, blocks: Seq<Block>, i: int)
    requires
        sequential(s, blocks),
        0 <= i < blocks.len(),
    ensures
        accepts(executed(s, blocks.take(i)), blocks[i]),
        block_result(executed(s, blocks.take(i)), blocks[i]) is Ok,
        executed(s, blocks).system.block_number == s.system.block_number + blocks.len(),
{
    lemma_height(s, blocks.take(i));
    lemma_height(s, blocks);
}

/// The nonce of an account after a sequence of blocks is its nonce before
/// and the number of its extrinsics that were executed, whether their calls
/// succeeded or not.
pub proof fn lemma_nonces(s: State, blocks: Seq<Block>, who: Seq<char>)
    ensures
        nonce_in(executed(s, blocks).system.nonces, who) == nonce_in(s.system.nonces, who)
            + processed(s, blocks, who),
    decreases blocks.len(),
{
    if blocks.len() > 0 {
        lemma_nonces(s, blocks.drop_last(), who);
        let before = executed(s, blocks.drop_last());
        if accepts(before, blocks.last()) {
            lemma_nonce_counts(begun(before), blocks.last().extrinsics@, who);
        }
    }
}

/// Conservation: no sequence of blocks changes the sum of all balances.
pub proof fn lemma_conservation(s: State, blocks: Seq<Block>)
    requires
        s.balances.dom().finite(),
    ensures
        executed(s, blocks).balances.dom().finite(),
        total(executed(s, blocks).balances) == total(s.balances),
    decreases blocks.len(),
{
    if blocks.len() > 0 {
        lemma_conservation(s, blocks.drop_last());
        lemma_block(executed(s, blocks.drop_last()), blocks.last(), Seq::empty());
    }
}

} // verus!
