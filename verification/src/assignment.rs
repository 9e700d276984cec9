//! Pairing of physical block ids with the hashes of a sequence.

use crate::common::{min_int, BlockId};
use crate::tokens::SequenceHash;
use std::ops::Range;
use vstd::prelude::*;

verus! {

/// A physical block that has been aligned with a sequence hash.
#[derive(Debug, Clone, Copy, PartialEq, Eq, Structural)]
pub struct AssignedBlockId {
    pub sequence_hash: SequenceHash,
    pub block_id: BlockId,
}

impl AssignedBlockId {
    /// Pairs a hash with a block id.
    pub fn new(sequence_hash: SequenceHash, block_id: BlockId) -> (assigned: Self)
        ensures
            assigned == (AssignedBlockId { sequence_hash, block_id }),
    {
        AssignedBlockId { sequence_hash, block_id }
    }

    /// The block id.
    pub fn block_id(&self) -> (id: BlockId)
        ensures
            id == self.block_id,
    {
        self.block_id
    }

    /// The sequence hash.
    pub fn sequence_hash(&self) -> (hash: SequenceHash)
        ensures
            hash == self.sequence_hash,
    {
        self.sequence_hash
    }
}

/// Block ids a slot knows of: the leading ones are aligned with the sequence,
/// the rest wait for token blocks.
#[derive(Debug)]
pub struct BlockAssignments {
    /// The blocks that have been aligned to the sequence.
    pub assigned_blocks: Vec<AssignedBlockId>,
    /// Block ids without a token block yet, oldest first.
    pub unassigned_blocks: Vec<BlockId>,
}

/// What [`BlockAssignments`] stands for.
#[verifier::ext_equal]
pub struct AssignmentsView {
    pub assigned: Seq<AssignedBlockId>,
    pub unassigned: Seq<BlockId>,
}

impl AssignmentsView {
    /// No block known.
    pub open spec fn empty() -> Self {
        AssignmentsView { assigned: Seq::empty(), unassigned: Seq::empty() }
    }

    /// All known block ids in the order they arrived.
    pub open spec fn known_ids(self) -> Seq<BlockId> {
        self.assigned.map_values(|a: AssignedBlockId| a.block_id) + self.unassigned
    }

    /// How many of the waiting and new ids find a token block.
    pub open spec fn assignable(self, new_ids: int, hash_count: int) -> int {
        if hash_count <= self.assigned.len() {
            0
        } else {
            min_int(self.unassigned.len() + new_ids, hash_count - self.assigned.len())
        }
    }

    /// The assignments after new ids arrived: waiting ids come before new ones,
    /// each takes the next hash, what is left over waits.
    pub open spec fn applied(self, new_ids: Seq<BlockId>, hashes: Seq<SequenceHash>) -> Self {
        let queue = self.unassigned + new_ids;
        let taken = self.assignable(new_ids.len() as int, hashes.len() as int);
        AssignmentsView {
            assigned: self.assigned + Seq::new(
                taken as nat,
                |i: int|
                    AssignedBlockId {
                        sequence_hash: hashes[self.assigned.len() + i],
                        block_id: queue[i],
                    },
            ),
            unassigned: queue.skip(taken),
        }
    }

    /// The assigned blocks that become complete between `evaluated_blocks` and
    /// the end of the scheduled tokens, as (id, hash) pairs.
    pub open spec fn mappings(self, evaluated_blocks: int, end_block: int) -> Seq<
        (BlockId, SequenceHash),
    > {
        let end = min_int(end_block, self.assigned.len() as int);
        Seq::new(
            if evaluated_blocks < end {
                (end - evaluated_blocks) as nat
            } else {
                0
            },
            |i: int|
                (
                    self.assigned[evaluated_blocks + i].block_id,
                    self.assigned[evaluated_blocks + i].sequence_hash,
                ),
        )
    }
}

impl View for BlockAssignments {
    type V = AssignmentsView;

    open spec fn view(&self) -> AssignmentsView {
        AssignmentsView {
            assigned: self.assigned_blocks@,
            unassigned: self.unassigned_blocks@,
        }
    }
}

impl Default for BlockAssignments {
    fn default() -> (assignments: Self)
        ensures
            assignments@ == AssignmentsView::empty(),
    {
        BlockAssignments { assigned_blocks: Vec::new(), unassigned_blocks: Vec::new() }
    }
}

impl BlockAssignments {
    /// Aligns waiting and new block ids with the hashes that have none yet.
    /// Returns the index range of the newly assigned blocks.
    pub fn apply_new_blocks(&mut self, block_ids: Vec<BlockId>, hashes: &Vec<SequenceHash>) -> (range:
        Range<usize>)
        ensures
            final(self)@ == old(self)@.applied(block_ids@, hashes@),
            range.start == old(self)@.assigned.len(),
            range.end == final(self)@.assigned.len(),
    {
        let start: usize = self.assigned_blocks.len();
        let mut block_ids = block_ids;
        self.unassigned_blocks.append(&mut block_ids);
        let ghost queue = self.unassigned_blocks@;
        let room: usize = if hashes.len() > start {
            hashes.len() - start
        } else {
            0
        };
        let taken: usize = if self.unassigned_blocks.len() < room {
            self.unassigned_blocks.len()
        } else {
            room
        };
        let mut index: usize = 0;
        while index < taken
            invariant
                index <= taken,
                taken <= queue.len(),
                self.unassigned_blocks@ == queue,
                taken > 0 ==> start + taken <= hashes.len(),
                self.assigned_blocks@ == old(self)@.assigned + Seq::new(
                    index as nat,
                    |i: int|
                        AssignedBlockId {
                            sequence_hash: hashes@[start + i],
                            block_id: queue[i],
                        },
                ),
                start == old(self)@.assigned.len(),
            decreases taken - index,
        {
            let assigned = AssignedBlockId::new(
                hashes[start + index],
                self.unassigned_blocks[index],
            );
            self.assigned_blocks.push(assigned);
            index = index + 1;
        }
        let rest = self.unassigned_blocks.split_off(taken);
        self.unassigned_blocks = rest;
        assert(self.unassigned_blocks@ =~= queue.skip(taken as int));
        start..self.assigned_blocks.len()
    }

    /// The block ids past the known ones. The given list repeats every known id
    /// in order before any new one.
    pub fn filter_block_ids(&self, all_block_ids: Vec<BlockId>) -> (rest: Vec<BlockId>)
        requires
            self@.known_ids().is_prefix_of(all_block_ids@),
        ensures
            rest@ == all_block_ids@.skip(self@.known_ids().len() as int),
            self@.known_ids() + rest@ == all_block_ids@,
    {
        assert(self@.known_ids().len() <= all_block_ids.len());
        assert(self@.known_ids() + all_block_ids@.skip(self@.known_ids().len() as int)
            =~= all_block_ids@);
        let known: usize = self.assigned_blocks.len() + self.unassigned_blocks.len();
        let mut all_block_ids = all_block_ids;
        all_block_ids.split_off(known)
    }

    /// The (id, hash) pairs of the assigned blocks in
    /// `[evaluated_blocks, (evaluated_tokens + scheduled) / block_size)`.
    pub fn get_next_block_mappings(
        &self,
        evaluated_blocks: usize,
        evaluated_tokens: usize,
        num_scheduled_tokens: usize,
        block_size: usize,
    ) -> (mappings: Vec<(BlockId, SequenceHash)>)
        requires
            block_size > 0,
            evaluated_tokens + num_scheduled_tokens <= usize::MAX,
        ensures
            mappings@ == self@.mappings(
                evaluated_blocks as int,
                (evaluated_tokens + num_scheduled_tokens) / block_size as int,
            ),
    {
        let end_block: usize = (evaluated_tokens + num_scheduled_tokens) / block_size;
        let end: usize = if end_block < self.assigned_blocks.len() {
            end_block
        } else {
            self.assigned_blocks.len()
        };
        let mut mappings: Vec<(BlockId, SequenceHash)> = Vec::new();
        let mut index: usize = evaluated_blocks;
        while index < end
            invariant
                end <= self.assigned_blocks@.len(),
                evaluated_blocks <= index,
                index <= end || index == evaluated_blocks,
                mappings@ == Seq::new(
                    (index - evaluated_blocks) as nat,
                    |i: int|
                        (
                            self@.assigned[evaluated_blocks + i].block_id,
                            self@.assigned[evaluated_blocks + i].sequence_hash,
                        ),
                ),
            decreases end - index,
        {
            let assigned = self.assigned_blocks[index];
            mappings.push((assigned.block_id, assigned.sequence_hash));
            index = index + 1;
        }
        mappings
    }

    /// Forgets every block.
    pub fn clear(&mut self)
        ensures
            final(self)@ == AssignmentsView::empty(),
    {
        self.assigned_blocks.clear();
        self.unassigned_blocks.clear();
    }
}

/// Applying new ids keeps the arrival order: the known ids afterwards are the
/// known ids before, followed by the new ones.
pub proof fn law_apply_keeps_arrival_order(
    before: AssignmentsView,
    new_ids: Seq<BlockId>,
    hashes: Seq<SequenceHash>,
)
    ensures
        before.applied(new_ids, hashes).known_ids() == before.known_ids() + new_ids,
{
    assert(before.applied(new_ids, hashes).known_ids() =~= before.known_ids() + new_ids);
}

/// Assigned blocks stay assigned, to the same hash.
pub proof fn law_apply_keeps_assigned(
    before: AssignmentsView,
    new_ids: Seq<BlockId>,
    hashes: Seq<SequenceHash>,
    index: int,
)
    requires
        0 <= index < before.assigned.len(),
    ensures
        before.applied(new_ids, hashes).assigned[index] == before.assigned[index],
{
}

/// Ids wait only while every token block is taken.
pub proof fn law_apply_leaves_no_hash_behind(
    before: AssignmentsView,
    new_ids: Seq<BlockId>,
    hashes: Seq<SequenceHash>,
)
    ensures
        before.applied(new_ids, hashes).unassigned.len() > 0 ==> before.applied(
            new_ids,
            hashes,
        ).assigned.len() >= hashes.len(),
{
}

/// After the list past the known ids has been applied, nothing of that list is
/// new any more: filtering it again leaves nothing.
pub proof fn law_filter_after_apply_is_empty(
    before: AssignmentsView,
    all_ids: Seq<BlockId>,
    hashes: Seq<SequenceHash>,
)
    requires
        before.known_ids().is_prefix_of(all_ids),
    ensures
        ({
            let fresh = all_ids.skip(before.known_ids().len() as int);
            let after = before.applied(fresh, hashes);
            &&& after.known_ids() == all_ids
            &&& all_ids.skip(after.known_ids().len() as int) == Seq::<BlockId>::empty()
        }),
{
    let fresh = all_ids.skip(before.known_ids().len() as int);
    law_apply_keeps_arrival_order(before, fresh, hashes);
    assert(before.known_ids() + fresh =~= all_ids);
}

/// A token block that gets a block id gets it for good under its own hash: the
/// newly assigned entry of an index carries the hash of that index, and no
/// entry stands past the hashes.
pub proof fn law_apply_pairs_by_index(
    before: AssignmentsView,
    new_ids: Seq<BlockId>,
    hashes: Seq<SequenceHash>,
    index: int,
)
    requires
        before.assigned.len() <= index < before.applied(new_ids, hashes).assigned.len(),
    ensures
        index < hashes.len(),
        before.applied(new_ids, hashes).assigned[index].sequence_hash == hashes[index],
        before.applied(new_ids, hashes).assigned[index].block_id == (before.unassigned
            + new_ids)[index - before.assigned.len()],
{
}

/// Ids that arrive in two batches are assigned as if they had come in one.
pub proof fn law_batches_of_ids_compose(
    before: AssignmentsView,
    first: Seq<BlockId>,
    second: Seq<BlockId>,
    hashes: Seq<SequenceHash>,
)
    ensures
        before.applied(first, hashes).applied(second, hashes) == before.applied(
            first + second,
            hashes,
        ),
{
    let once = before.applied(first + second, hashes);
    let twice = before.applied(first, hashes).applied(second, hashes);
    assert(twice.assigned =~= once.assigned);
    assert(twice.unassigned =~= once.unassigned);
}

/// Steps compose: what two steps in a row complete is what one step over both
/// completes. No block is named twice, and none between them is left out.
pub proof fn law_mapping_steps_compose(
    assignments: AssignmentsView,
    start: int,
    middle: int,
    end: int,
)
    requires
        0 <= start <= middle <= end,
    ensures
        assignments.mappings(start, middle) + assignments.mappings(middle, end)
            == assignments.mappings(start, end),
{
    assert(assignments.mappings(start, middle) + assignments.mappings(middle, end)
        =~= assignments.mappings(start, end));
}

/// Steps from the first block on name every assigned block up to their end, in
/// order, each by its own id and hash.
pub proof fn law_mappings_name_every_block(assignments: AssignmentsView, end: int)
    requires
        0 <= end,
    ensures
        end <= assignments.assigned.len() ==> assignments.mappings(0, end).len() == end,
        end >= assignments.assigned.len() ==> assignments.mappings(0, end).len()
            == assignments.assigned.len(),
        forall|i: int|
            0 <= i < assignments.mappings(0, end).len() ==> #[trigger] assignments.mappings(
                0,
                end,
            )[i] == (assignments.assigned[i].block_id, assignments.assigned[i].sequence_hash),
{
}

/// A step names exactly the assigned blocks between its ends.
pub proof fn law_step_names_its_blocks(
    assignments: AssignmentsView,
    start: int,
    end: int,
    index: int,
)
    requires
        0 <= start <= index < end,
        index < assignments.assigned.len(),
    ensures
        assignments.mappings(start, end).len() > index - start,
        assignments.mappings(start, end)[index - start] == (
            assignments.assigned[index].block_id,
            assignments.assigned[index].sequence_hash,
        ),
        assignments.mappings(start, end).len() <= end - start,
        assignments.mappings(start, end).len() <= assignments.assigned.len() - start,
{
}

} // verus!
