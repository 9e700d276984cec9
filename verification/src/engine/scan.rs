//! Scanning the tiers for blocks without stopping at a miss.

use crate::common::LogicalLayoutHandle;
use crate::engine::instance::{
    hashes_without, law_remaining_hashes_are_the_missing_ones, remaining_hashes, InstanceLeader,
};
use crate::engine::matches::MatchedBlock;
use crate::tokens::SequenceHash;
use vstd::prelude::*;

verus! {

/// Blocks found in each tier, and all of them by position.
#[derive(Debug)]
pub struct ScanBlocksResult {
    /// Found in host memory.
    pub g2_blocks: Vec<MatchedBlock>,
    /// Found on disk.
    pub g3_blocks: Vec<MatchedBlock>,
    /// All found blocks, lowest position first, with the tier each is in.
    pub sorted_matches: Vec<(SequenceHash, LogicalLayoutHandle)>,
}

/// The hashes of blocks, each with the tier it was found in.
pub open spec fn tagged(blocks: Seq<MatchedBlock>, tier: LogicalLayoutHandle) -> Seq<
    (SequenceHash, LogicalLayoutHandle),
> {
    blocks.map_values(|b: MatchedBlock| (b.sequence_hash, tier))
}

/// Positions never fall along the list.
pub open spec fn sorted_by_position(matches: Seq<(SequenceHash, LogicalLayoutHandle)>) -> bool {
    forall|i: int, j: int|
        0 <= i <= j < matches.len() ==> (#[trigger] matches[i]).0.position <= (
        #[trigger] matches[j]).0.position
}

/// At one position, host matches stand before those of other tiers.
pub open spec fn host_first(matches: Seq<(SequenceHash, LogicalLayoutHandle)>) -> bool {
    forall|i: int, j: int|
        0 <= i < j < matches.len() && (#[trigger] matches[i]).0.position == (
        #[trigger] matches[j]).0.position && matches[j].1 == LogicalLayoutHandle::G2
            ==> matches[i].1 == LogicalLayoutHandle::G2
}

/// Every match is in host memory.
spec fn all_host(matches: Seq<(SequenceHash, LogicalLayoutHandle)>) -> bool {
    forall|i: int| 0 <= i < matches.len() ==> (#[trigger] matches[i]).1 == LogicalLayoutHandle::G2
}

/// Puts a match behind all that are not at a higher position.
fn insert_by_position(
    matches: &mut Vec<(SequenceHash, LogicalLayoutHandle)>,
    hash: SequenceHash,
    tier: LogicalLayoutHandle,
)
    requires
        sorted_by_position(old(matches)@),
        host_first(old(matches)@),
        tier == LogicalLayoutHandle::G2 ==> all_host(old(matches)@),
    ensures
        sorted_by_position(final(matches)@),
        host_first(final(matches)@),
        tier == LogicalLayoutHandle::G2 ==> all_host(final(matches)@),
        final(matches)@.to_multiset() == old(matches)@.to_multiset().insert((hash, tier)),
        final(matches)@.len() == old(matches)@.len() + 1,
{
    let mut index: usize = matches.len();
    while index > 0 && matches[index - 1].0.position > hash.position
        invariant
            *matches == *old(matches),
            index <= matches@.len(),
            forall|i: int| index <= i < matches@.len() ==> (#[trigger] matches@[i]).0.position > hash.position,
        decreases index,
    {
        index = index - 1;
    }
    matches.insert(index, (hash, tier));
    proof {
        let before = old(matches)@;
        let after = matches@;
        let item = (hash, tier);
        after.to_multiset_ensures();
        assert(after.remove(index as int) =~= before);
        assert(after[index as int] == item);
        assert(after.contains(item));
        assert(after.to_multiset() =~= before.to_multiset().insert(item));
        assert forall|i: int, j: int| 0 <= i <= j < after.len() implies (#[trigger] after[i]).0.position
            <= (#[trigger] after[j]).0.position by {
            let bi = if i < index { i } else { i - 1 };
            let bj = if j < index { j } else { j - 1 };
            if i != index {
                assert(after[i] == before[bi]);
            }
            if j != index {
                assert(after[j] == before[bj]);
            }
            if i < index && index > 0 {
                assert(before[i].0.position <= before[index - 1].0.position);
            }
        }
        assert forall|i: int| 0 <= i < after.len() && tier == LogicalLayoutHandle::G2 implies (
        #[trigger] after[i]).1 == LogicalLayoutHandle::G2 by {
            if i != index {
                assert(after[i] == before[if i < index { i } else { i - 1 }]);
            }
        }
        assert forall|i: int, j: int|
            0 <= i < j < after.len() && (#[trigger] after[i]).0.position == (
            #[trigger] after[j]).0.position && after[j].1 == LogicalLayoutHandle::G2 implies after[i].1
            == LogicalLayoutHandle::G2 by {
            let bi = if i < index { i } else { i - 1 };
            let bj = if j < index { j } else { j - 1 };
            if i != index {
                assert(after[i] == before[bi]);
            }
            if j != index {
                assert(after[j] == before[bj]);
            }
        }
    }
}

/// Adds the blocks of one tier.
fn insert_tier(
    matches: &mut Vec<(SequenceHash, LogicalLayoutHandle)>,
    blocks: &Vec<MatchedBlock>,
    tier: LogicalLayoutHandle,
)
    requires
        sorted_by_position(old(matches)@),
        host_first(old(matches)@),
        tier == LogicalLayoutHandle::G2 ==> all_host(old(matches)@),
    ensures
        sorted_by_position(final(matches)@),
        host_first(final(matches)@),
        final(matches)@.to_multiset() == old(matches)@.to_multiset().add(
            tagged(blocks@, tier).to_multiset(),
        ),
{
    let mut index: usize = 0;
    assert(tagged(blocks@.take(0), tier) =~= Seq::<(SequenceHash, LogicalLayoutHandle)>::empty());
    proof {
        tagged(blocks@.take(0), tier).to_multiset_ensures();
        assert(matches@.to_multiset().add(tagged(blocks@.take(0), tier).to_multiset())
            =~= matches@.to_multiset());
    }
    while index < blocks.len()
        invariant
            index <= blocks@.len(),
            sorted_by_position(matches@),
            host_first(matches@),
            tier == LogicalLayoutHandle::G2 ==> all_host(matches@),
            matches@.to_multiset() == old(matches)@.to_multiset().add(
                tagged(blocks@.take(index as int), tier).to_multiset(),
            ),
        decreases blocks@.len() - index,
    {
        let ghost known = tagged(blocks@.take(index as int), tier);
        let ghost more = tagged(blocks@.take(index + 1), tier);
        let ghost so_far = matches@.to_multiset();
        insert_by_position(matches, blocks[index].sequence_hash, tier);
        proof {
            let item = (blocks@[index as int].sequence_hash, tier);
            assert(more =~= known.push(item));
            known.to_multiset_ensures();
            assert(more.to_multiset() =~= known.to_multiset().insert(item));
            assert(matches@.to_multiset() =~= old(matches)@.to_multiset().add(more.to_multiset()));
        }
        index = index + 1;
    }
    assert(blocks@.take(index as int) =~= blocks@);
}

impl InstanceLeader {
    /// The disk blocks that a scan takes: none without a disk manager, and none
    /// if host memory holds every hash.
    pub open spec fn scanned_disk(
        self,
        sequence_hashes: Seq<SequenceHash>,
        g2_blocks: Seq<MatchedBlock>,
        g3_blocks: Seq<MatchedBlock>,
    ) -> Seq<MatchedBlock> {
        if self.config.g3_manager is Some && hashes_without(sequence_hashes, g2_blocks).len() > 0 {
            g3_blocks
        } else {
            Seq::empty()
        }
    }

    /// What a scan of both tiers comes to.
    pub open spec fn scanned(
        self,
        sequence_hashes: Seq<SequenceHash>,
        g2_blocks: Seq<MatchedBlock>,
        g3_blocks: Seq<MatchedBlock>,
        result: ScanBlocksResult,
    ) -> bool {
        &&& result.g2_blocks@ == g2_blocks
        &&& result.g3_blocks@ == self.scanned_disk(sequence_hashes, g2_blocks, g3_blocks)
        &&& sorted_by_position(result.sorted_matches@)
        &&& host_first(result.sorted_matches@)
        &&& result.sorted_matches@.to_multiset() == tagged(
            result.g2_blocks@,
            LogicalLayoutHandle::G2,
        ).to_multiset().add(tagged(result.g3_blocks@, LogicalLayoutHandle::G3).to_multiset())
    }

    /// Merges the scans of both tiers. `g3_blocks` is what the disk manager
    /// found among the hashes that host memory lacks.
    pub fn scan_blocks(
        &self,
        sequence_hashes: &Vec<SequenceHash>,
        g2_blocks: Vec<MatchedBlock>,
        g3_blocks: Vec<MatchedBlock>,
    ) -> (result: ScanBlocksResult)
        ensures
            result.g2_blocks@ == g2_blocks@,
            result.g3_blocks@ == self.scanned_disk(sequence_hashes@, g2_blocks@, g3_blocks@),
            sorted_by_position(result.sorted_matches@),
            host_first(result.sorted_matches@),
            result.sorted_matches@.to_multiset() == tagged(
                result.g2_blocks@,
                LogicalLayoutHandle::G2,
            ).to_multiset().add(
                tagged(result.g3_blocks@, LogicalLayoutHandle::G3).to_multiset(),
            ),
            self.scanned(sequence_hashes@, g2_blocks@, g3_blocks@, result),
    {
        let remaining: Vec<SequenceHash> = remaining_hashes(sequence_hashes, &g2_blocks);
        let g3_blocks: Vec<MatchedBlock> = if self.config.g3_manager.is_some() && remaining.len()
            > 0 {
            g3_blocks
        } else {
            Vec::new()
        };
        let mut sorted_matches: Vec<(SequenceHash, LogicalLayoutHandle)> = Vec::new();
        proof {
            sorted_matches@.to_multiset_ensures();
        }
        insert_tier(&mut sorted_matches, &g2_blocks, LogicalLayoutHandle::G2);
        insert_tier(&mut sorted_matches, &g3_blocks, LogicalLayoutHandle::G3);
        assert(sorted_matches@.to_multiset() =~= tagged(
            g2_blocks@,
            LogicalLayoutHandle::G2,
        ).to_multiset().add(tagged(g3_blocks@, LogicalLayoutHandle::G3).to_multiset()));
        ScanBlocksResult { g2_blocks, g3_blocks, sorted_matches }
    }
}

/// With a disk manager, every block that disk found is in the result whenever
/// host memory lacks any of the hashes, whatever else host memory holds. Disk
/// counts for nothing without a manager, or if host memory holds every hash.
pub proof fn law_scan_takes_what_disk_found(
    leader: InstanceLeader,
    sequence_hashes: Seq<SequenceHash>,
    g2_blocks: Seq<MatchedBlock>,
    g3_blocks: Seq<MatchedBlock>,
    result: ScanBlocksResult,
    missing: int,
)
    requires
        leader.scanned(sequence_hashes, g2_blocks, g3_blocks, result),
    ensures
        result.g2_blocks@ == g2_blocks,
        leader.config.g3_manager is Some && 0 <= missing < sequence_hashes.len() && (forall|j: int|
            0 <= j < g2_blocks.len() ==> (#[trigger] g2_blocks[j]).sequence_hash
                != sequence_hashes[missing]) ==> result.g3_blocks@ == g3_blocks,
        leader.config.g3_manager is None ==> result.g3_blocks@.len() == 0,
        (forall|i: int|
            0 <= i < sequence_hashes.len() ==> exists|j: int|
                0 <= j < g2_blocks.len() && (#[trigger] g2_blocks[j]).sequence_hash
                    == #[trigger] sequence_hashes[i]) ==> result.g3_blocks@.len() == 0,
{
    let rest = hashes_without(sequence_hashes, g2_blocks);
    if 0 <= missing < sequence_hashes.len() {
        let hash = sequence_hashes[missing];
        law_remaining_hashes_are_the_missing_ones(sequence_hashes, g2_blocks, hash);
        assert(sequence_hashes.contains(hash));
    }
    if rest.len() > 0 {
        let hash = rest[0];
        assert(rest.contains(hash));
        law_remaining_hashes_are_the_missing_ones(sequence_hashes, g2_blocks, hash);
        let i = choose|i: int| 0 <= i < sequence_hashes.len() && sequence_hashes[i] == hash;
        assert(sequence_hashes[i] == hash);
    }
}

/// The merged list of a scan holds every block found in either tier under that
/// tier, and nothing else; it is in the order of positions, and at one position
/// host memory comes first.
pub proof fn law_scan_lists_every_match(
    leader: InstanceLeader,
    sequence_hashes: Seq<SequenceHash>,
    g2_blocks: Seq<MatchedBlock>,
    g3_blocks: Seq<MatchedBlock>,
    result: ScanBlocksResult,
    index: int,
    entry: int,
)
    requires
        leader.scanned(sequence_hashes, g2_blocks, g3_blocks, result),
    ensures
        result.sorted_matches@.len() == result.g2_blocks@.len() + result.g3_blocks@.len(),
        0 <= index < result.g2_blocks@.len() ==> result.sorted_matches@.contains(
            (result.g2_blocks@[index].sequence_hash, LogicalLayoutHandle::G2),
        ),
        0 <= index < result.g3_blocks@.len() ==> result.sorted_matches@.contains(
            (result.g3_blocks@[index].sequence_hash, LogicalLayoutHandle::G3),
        ),
        0 <= entry < result.sorted_matches@.len() ==> (result.sorted_matches@[entry].1
            == LogicalLayoutHandle::G2 && exists|i: int|
            0 <= i < result.g2_blocks@.len() && (#[trigger] result.g2_blocks@[i]).sequence_hash
                == result.sorted_matches@[entry].0) || (result.sorted_matches@[entry].1
            == LogicalLayoutHandle::G3 && exists|i: int|
            0 <= i < result.g3_blocks@.len() && (#[trigger] result.g3_blocks@[i]).sequence_hash
                == result.sorted_matches@[entry].0),
        forall|i: int, j: int|
            0 <= i < j < result.sorted_matches@.len() ==> (
            #[trigger] result.sorted_matches@[i]).0.position <= (
            #[trigger] result.sorted_matches@[j]).0.position,
        forall|i: int, j: int|
            0 <= i < j < result.sorted_matches@.len() && (
            #[trigger] result.sorted_matches@[i]).0.position == (
            #[trigger] result.sorted_matches@[j]).0.position && result.sorted_matches@[j].1
                == LogicalLayoutHandle::G2 ==> result.sorted_matches@[i].1
                == LogicalLayoutHandle::G2,
{
    broadcast use vstd::multiset::group_multiset_axioms;

    let merged = result.sorted_matches@;
    let host = tagged(result.g2_blocks@, LogicalLayoutHandle::G2);
    let disk = tagged(result.g3_blocks@, LogicalLayoutHandle::G3);
    merged.to_multiset_ensures();
    host.to_multiset_ensures();
    disk.to_multiset_ensures();
    if 0 <= index < host.len() {
        assert(host.contains(host[index]));
        assert(merged.to_multiset().count(host[index]) > 0);
    }
    if 0 <= index < disk.len() {
        assert(disk.contains(disk[index]));
        assert(merged.to_multiset().count(disk[index]) > 0);
    }
    if 0 <= entry < merged.len() {
        let item = merged[entry];
        assert(merged.contains(item));
        assert(merged.to_multiset().count(item) > 0);
        if host.to_multiset().count(item) > 0 {
            assert(host.contains(item));
            let i = choose|i: int| 0 <= i < host.len() && host[i] == item;
            assert(result.g2_blocks@[i].sequence_hash == item.0);
        } else {
            assert(disk.to_multiset().count(item) > 0);
            assert(disk.contains(item));
            let i = choose|i: int| 0 <= i < disk.len() && disk[i] == item;
            assert(result.g3_blocks@[i].sequence_hash == item.0);
        }
    }
}

} // verus!
