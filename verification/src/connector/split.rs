//! Splitting a slot's blocks into computed, locally matched and remote ones.

use crate::tokens::SequenceHash;
use std::ops::Range;
use vstd::prelude::*;

verus! {

/// A slot's match state in the middle of an onboarding. The blocks of the
/// request divide into `[computed | local match | remote prefill]`.
#[derive(Debug)]
pub struct SlotMatchSplit {
    pub block_size: usize,
    pub computed_blocks: usize,
    pub local_match_blocks: usize,
    pub total_blocks: usize,
    pub all_sequence_hashes: Vec<SequenceHash>,
}

/// Computes the split. `onboarding` carries the locally matched blocks and the
/// computed tokens of a running onboarding.
pub fn compute_slot_match_split(
    block_size: usize,
    total_blocks: usize,
    all_sequence_hashes: Vec<SequenceHash>,
    onboarding: Option<(usize, usize)>,
) -> (split: SlotMatchSplit)
    requires
        onboarding is Some ==> block_size > 0,
    ensures
        split.divides(block_size, total_blocks, all_sequence_hashes@, onboarding),
        split == (SlotMatchSplit {
            block_size,
            computed_blocks: match onboarding {
                Some((_, num_computed)) => (num_computed as int / block_size as int) as usize,
                None => 0,
            },
            local_match_blocks: match onboarding {
                Some((local, _)) => local,
                None => 0,
            },
            total_blocks,
            all_sequence_hashes,
        }),
{
    let (local_match_blocks, computed_blocks): (usize, usize) = match onboarding {
        Some((local, num_computed)) => (local, num_computed / block_size),
        None => (0, 0),
    };
    SlotMatchSplit {
        block_size,
        computed_blocks,
        local_match_blocks,
        total_blocks,
        all_sequence_hashes,
    }
}

impl SlotMatchSplit {
    /// What dividing a request comes to.
    pub open spec fn divides(
        self,
        block_size: usize,
        total_blocks: usize,
        all_sequence_hashes: Seq<SequenceHash>,
        onboarding: Option<(usize, usize)>,
    ) -> bool {
        &&& self.block_size == block_size
        &&& self.total_blocks == total_blocks
        &&& self.all_sequence_hashes@ == all_sequence_hashes
        &&& match onboarding {
            Some((local, num_computed)) => {
                &&& self.local_match_blocks == local
                &&& self.computed_blocks == num_computed as int / block_size as int
            },
            None => self.local_match_blocks == 0 && self.computed_blocks == 0,
        }
    }

    /// First block that is neither computed nor matched.
    pub open spec fn remote_start(self) -> int {
        self.computed_blocks + self.local_match_blocks
    }

    /// How many blocks are left to a remote prefill.
    pub open spec fn remote_count(self) -> int {
        if self.remote_start() <= self.total_blocks {
            self.total_blocks - self.remote_start()
        } else {
            0
        }
    }

    /// The hashes of the blocks left to a remote prefill.
    pub open spec fn remote_hashes(self) -> Seq<SequenceHash> {
        self.all_sequence_hashes@.subrange(self.remote_start(), self.total_blocks as int)
    }

    /// The split fits the request.
    pub open spec fn fits(self) -> bool {
        &&& self.remote_start() <= self.total_blocks
        &&& self.all_sequence_hashes@.len() == self.total_blocks
    }

    /// Blocks left to a remote prefill.
    pub fn remote_blocks(&self) -> (count: usize)
        ensures
            count == self.remote_count(),
            count == (if self.remote_start() <= self.total_blocks {
                self.total_blocks - self.remote_start()
            } else {
                0
            }),
    {
        self.total_blocks.saturating_sub(self.computed_blocks).saturating_sub(
            self.local_match_blocks,
        )
    }

    /// Block range of the local match.
    pub fn local_match_range(&self) -> (range: Range<usize>)
        requires
            self.remote_start() <= usize::MAX,
        ensures
            range.start == self.computed_blocks,
            range.end == self.remote_start(),
    {
        self.computed_blocks..self.computed_blocks + self.local_match_blocks
    }

    /// Block range left to a remote prefill.
    pub fn remote_range(&self) -> (range: Range<usize>)
        requires
            self.remote_start() <= usize::MAX,
        ensures
            range.start == self.remote_start(),
            range.end == self.total_blocks,
    {
        let start: usize = self.computed_blocks + self.local_match_blocks;
        start..self.total_blocks
    }

    /// Hashes of the blocks left to a remote prefill.
    pub fn expected_remote_hashes(&self) -> (hashes: Vec<SequenceHash>)
        requires
            self.remote_start() <= self.total_blocks <= self.all_sequence_hashes@.len(),
        ensures
            hashes@ == self.remote_hashes(),
            hashes@ == self.all_sequence_hashes@.subrange(
                self.remote_start(),
                self.total_blocks as int,
            ),
    {
        let range: Range<usize> = self.remote_range();
        let mut hashes: Vec<SequenceHash> = Vec::new();
        let mut index: usize = range.start;
        while index < range.end
            invariant
                range.start == self.remote_start(),
                range.end == self.total_blocks,
                range.start <= index <= range.end,
                range.end <= self.all_sequence_hashes@.len(),
                hashes@ == self.all_sequence_hashes@.subrange(range.start as int, index as int),
            decreases range.end - index,
        {
            hashes.push(self.all_sequence_hashes[index]);
            index = index + 1;
            assert(hashes@ =~= self.all_sequence_hashes@.subrange(
                range.start as int,
                index as int,
            ));
        }
        hashes
    }
}

/// The three parts of a split cover the request without overlap.
pub proof fn law_split_partitions_request(split: SlotMatchSplit)
    requires
        split.fits(),
    ensures
        split.computed_blocks + split.local_match_blocks + (split.total_blocks
            - split.remote_start()) == split.total_blocks,
        split.computed_blocks <= split.remote_start() <= split.total_blocks,
        split.all_sequence_hashes@.subrange(
            split.remote_start(),
            split.total_blocks as int,
        ).len() == split.total_blocks - split.remote_start(),
{
}

/// A split counts as computed the whole blocks among the computed tokens and as
/// local what was matched. Without an onboarding everything is remote, and all
/// hashes are expected from there.
pub proof fn law_split_counts_whole_blocks(
    split: SlotMatchSplit,
    block_size: usize,
    total_blocks: usize,
    all_sequence_hashes: Seq<SequenceHash>,
    onboarding: Option<(usize, usize)>,
)
    requires
        split.divides(block_size, total_blocks, all_sequence_hashes, onboarding),
        block_size > 0,
    ensures
        onboarding matches Some((local, num_computed)) ==> {
            &&& split.local_match_blocks == local
            &&& split.computed_blocks * block_size <= num_computed
            &&& num_computed < (split.computed_blocks + 1) * block_size
            &&& split.remote_start() == split.computed_blocks + local
        },
        onboarding is None ==> split.remote_start() == 0,
        split.all_sequence_hashes@ == all_sequence_hashes,
        split.total_blocks == total_blocks,
{
    if let Some((local, num_computed)) = onboarding {
        let count = num_computed as int;
        let size = block_size as int;
        let blocks = split.computed_blocks as int;
        vstd::arithmetic::div_mod::lemma_fundamental_div_mod(count, size);
        vstd::arithmetic::div_mod::lemma_mod_bound(count, size);
        assert(blocks * size <= count < (blocks + 1) * size) by (nonlinear_arith)
            requires
                count == size * blocks + count % size,
                0 <= count % size < size,
        ;
    }
}

/// What a remote prefill is left with is everything behind the computed and the
/// matched blocks: as many blocks as are missing to the total, and for each of
/// them its own hash.
pub proof fn law_remote_prefill_gets_the_rest(split: SlotMatchSplit, index: int)
    requires
        split.computed_blocks + split.local_match_blocks <= split.total_blocks,
        split.total_blocks <= split.all_sequence_hashes@.len(),
    ensures
        split.computed_blocks + split.local_match_blocks + split.remote_count()
            == split.total_blocks,
        split.remote_hashes().len() == split.remote_count(),
        0 <= index < split.remote_count() ==> split.remote_hashes()[index]
            == split.all_sequence_hashes@[split.computed_blocks + split.local_match_blocks + index],
{
}

/// A split that covers more than the request leaves nothing to a remote prefill.
pub proof fn law_covered_request_leaves_nothing(split: SlotMatchSplit)
    requires
        split.computed_blocks + split.local_match_blocks >= split.total_blocks,
    ensures
        split.remote_count() == 0,
{
}

} // verus!
