//! Block pools: how free blocks are handed out and taken back.

use crate::common::BlockId;
use crate::tokens::{SequenceHash, TokenBlock};
use std::collections::VecDeque;
use vstd::multiset::Multiset;
use vstd::prelude::*;

verus! {

/// Types that know the lineage hash of their block.
pub trait KvbmSequenceHashProvider {
    /// The hash.
    spec fn hash_of(&self) -> SequenceHash;

    /// The hash.
    fn kvbm_sequence_hash(&self) -> (hash: SequenceHash)
        ensures
            hash == self.hash_of(),
    ;
}

impl KvbmSequenceHashProvider for TokenBlock {
    open spec fn hash_of(&self) -> SequenceHash {
        self.hash
    }

    fn kvbm_sequence_hash(&self) -> (hash: SequenceHash) {
        self.hash
    }
}

/// A registered block that nobody uses: free to be handed out again.
#[derive(Debug, Clone, Copy, PartialEq, Eq, Structural)]
pub struct InactiveBlock {
    pub block_id: BlockId,
    pub seq_hash: SequenceHash,
}

/// Allocation strategy for blocks in the reset state. A pool takes blocks
/// with `pop` and gives them back with `insert`; which block comes next is the
/// strategy's choice.
pub trait BlockAllocator<B> {
    /// The blocks it holds.
    spec fn held(&self) -> Multiset<B>;

    /// Takes a block back.
    fn insert(&mut self, block: B)
        ensures
            final(self).held() == old(self).held().insert(block),
    ;

    /// Hands out the next block, or none where it holds none.
    fn pop(&mut self) -> (block: Option<B>)
        ensures
            match block {
                Some(block) => old(self).held().contains(block) && final(self).held() == old(
                    self,
                ).held().remove(block),
                None => old(self).held().len() == 0 && final(self).held() == old(self).held(),
            },
    ;

    /// Number of blocks it holds.
    fn len(&self) -> (count: usize)
        ensures
            count == self.held().len(),
    ;

    /// Whether it holds none.
    fn is_empty(&self) -> (empty: bool)
        ensures
            empty == (self.held().len() == 0),
    {
        self.len() == 0
    }
}

/// The queue after a block came back.
pub open spec fn queued<B>(blocks: Seq<B>, block: B) -> Seq<B> {
    blocks.push(block)
}

/// The block that comes out of a queue next, and what stays.
pub open spec fn unqueued<B>(blocks: Seq<B>) -> (Option<B>, Seq<B>) {
    if blocks.len() > 0 {
        (Some(blocks[0]), blocks.skip(1))
    } else {
        (None, blocks)
    }
}

/// Hands blocks out in the order they came.
#[derive(Debug)]
pub struct DequeBlockAllocator<B> {
    pub blocks: VecDeque<B>,
}

impl<B> DequeBlockAllocator<B> {
    /// An allocator without blocks.
    pub fn new() -> (allocator: Self)
        ensures
            allocator.blocks@ == Seq::<B>::empty(),
    {
        DequeBlockAllocator { blocks: VecDeque::new() }
    }
}

impl<B> BlockAllocator<B> for DequeBlockAllocator<B> {
    open spec fn held(&self) -> Multiset<B> {
        self.blocks@.to_multiset()
    }

    fn insert(&mut self, block: B)
        ensures
            final(self).blocks@ == old(self).blocks@.push(block),
            final(self).blocks@ == queued(old(self).blocks@, block),
    {
        self.blocks.push_back(block);
        proof {
            old(self).blocks@.to_multiset_ensures();
        }
    }

    fn pop(&mut self) -> (block: Option<B>)
        ensures
            (block, final(self).blocks@) == unqueued(old(self).blocks@),
            match block {
                Some(block) => old(self).blocks@.len() > 0 && block == old(self).blocks@[0]
                    && final(self).blocks@ == old(self).blocks@.skip(1),
                None => old(self).blocks@.len() == 0 && final(self).blocks@ == old(self).blocks@,
            },
    {
        let block = self.blocks.pop_front();
        proof {
            let before = old(self).blocks@;
            before.to_multiset_ensures();
            if before.len() > 0 {
                assert(before.remove(0) =~= before.skip(1));
                assert(before.contains(before[0]));
                assert(self.blocks@ =~= before.skip(1));
            }
        }
        block
    }

    fn len(&self) -> (count: usize) {
        proof {
            self.blocks@.to_multiset_ensures();
        }
        self.blocks.len()
    }
}

/// Of one strategy for all: a block that is taken back is held once more, and
/// taking a block and giving it back changes nothing.
pub proof fn law_returned_block_is_held<B>(held: Multiset<B>, block: B)
    ensures
        held.insert(block).count(block) == held.count(block) + 1,
        held.insert(block).len() == held.len() + 1,
        held.contains(block) ==> held.remove(block).insert(block) == held,
{
    broadcast use vstd::multiset::group_multiset_axioms;

    if held.contains(block) {
        assert(held.remove(block).insert(block) =~= held);
    }
}

/// Blocks come out in the order they came in: once a block was given back, the
/// next ones out are those that were there before, and then the block.
pub proof fn law_first_in_first_out<B>(blocks: Seq<B>, block: B)
    ensures
        forall|taken: int|
            0 <= taken < blocks.len() ==> (#[trigger] blocks.push(block).skip(taken))[0]
                == blocks[taken],
        blocks.push(block).skip(blocks.len() as int) == seq![block],
{
    assert(blocks.push(block).skip(blocks.len() as int) =~= seq![block]);
}

/// A queue hands out what it was given, in that order: a block that came back to
/// an empty queue is the next out, and behind others it does not change what
/// comes next; taking one out and giving another back commute.
pub proof fn law_queue_keeps_order<B>(blocks: Seq<B>, block: B)
    ensures
        unqueued(Seq::<B>::empty()).0 is None,
        blocks.len() == 0 ==> unqueued(queued(blocks, block)).0 == Some(block),
        blocks.len() == 0 ==> unqueued(queued(blocks, block)).1.len() == 0,
        blocks.len() > 0 ==> {
            &&& unqueued(queued(blocks, block)).0 == unqueued(blocks).0
            &&& unqueued(queued(blocks, block)).1 == queued(unqueued(blocks).1, block)
        },
        queued(blocks, block).len() == blocks.len() + 1,
{
    if blocks.len() > 0 {
        assert(unqueued(queued(blocks, block)).1 =~= queued(unqueued(blocks).1, block));
    }
}

} // verus!
