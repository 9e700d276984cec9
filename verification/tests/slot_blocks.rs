//! Assigning block ids to the blocks of a request.

use kvbm::assignment::AssignedBlockId;
use kvbm::common::BlockId;
use kvbm::connector::request::Request;
use kvbm::connector::slot::RequestSlot;
use kvbm::tokens::SequenceHash;

const TEST_BLOCK_SIZE: usize = 4;

/// Helper to create a RequestSlot with a given number of complete blocks and optional partial.
fn create_test_slot(num_complete_blocks: usize, partial_tokens: usize) -> RequestSlot {
    let total_tokens = num_complete_blocks * TEST_BLOCK_SIZE + partial_tokens;
    let tokens: Vec<u32> = (0..total_tokens as u32).collect();

    let request = Request::new(String::from("test-request"), tokens, 0);

    RequestSlot::new(request, TEST_BLOCK_SIZE)
}

/// Helper to get the expected sequence hashes from a slot.
fn get_expected_hashes(slot: &RequestSlot) -> Vec<SequenceHash> {
    slot.all_sequence_hashes()
}

#[test]
fn test_aligned_0_blocks_0_block_ids() {
    // 0 complete blocks, 0 block_ids
    let mut slot = create_test_slot(0, 0);
    let block_ids: Vec<BlockId> = vec![];

    let range = slot.apply_new_blocks(block_ids);

    assert_eq!(range, 0..0);
    assert!(slot.block_matches().assigned_blocks.is_empty());
    assert!(slot.block_matches().unassigned_blocks.is_empty());
}

#[test]
fn test_aligned_1_block_0_block_ids() {
    // 1 complete block, 0 block_ids
    let mut slot = create_test_slot(1, 0);
    let block_ids: Vec<BlockId> = vec![];

    let range = slot.apply_new_blocks(block_ids);

    assert_eq!(range, 0..0);
    assert!(slot.block_matches().assigned_blocks.is_empty());
    assert!(slot.block_matches().unassigned_blocks.is_empty());
}

#[test]
fn test_aligned_1_block_1_block_id() {
    // 1 complete block, 1 block_id - exact match
    let mut slot = create_test_slot(1, 0);
    let expected_hashes = get_expected_hashes(&slot);
    let block_ids: Vec<BlockId> = vec![100];

    let range = slot.apply_new_blocks(block_ids);

    assert_eq!(range, 0..1);
    assert_eq!(slot.block_matches().assigned_blocks.len(), 1);
    assert_eq!(
        slot.block_matches().assigned_blocks[0],
        AssignedBlockId::new(expected_hashes[0], 100)
    );
    assert!(slot.block_matches().unassigned_blocks.is_empty());
}

#[test]
fn test_aligned_1_block_2_block_ids() {
    // 1 complete block, 2 block_ids - excess goes to unassigned
    let mut slot = create_test_slot(1, 0);
    let expected_hashes = get_expected_hashes(&slot);
    let block_ids: Vec<BlockId> = vec![100, 200];

    let range = slot.apply_new_blocks(block_ids);

    assert_eq!(range, 0..1);
    assert_eq!(slot.block_matches().assigned_blocks.len(), 1);
    assert_eq!(
        slot.block_matches().assigned_blocks[0],
        AssignedBlockId::new(expected_hashes[0], 100)
    );
    assert_eq!(slot.block_matches().unassigned_blocks, vec![200]);
}

#[test]
fn test_aligned_3_blocks_3_block_ids() {
    // 3 complete blocks, 3 block_ids - exact match
    let mut slot = create_test_slot(3, 0);
    let expected_hashes = get_expected_hashes(&slot);
    let block_ids: Vec<BlockId> = vec![100, 200, 300];

    let range = slot.apply_new_blocks(block_ids);

    assert_eq!(range, 0..3);
    assert_eq!(slot.block_matches().assigned_blocks.len(), 3);
    assert_eq!(
        slot.block_matches().assigned_blocks[0],
        AssignedBlockId::new(expected_hashes[0], 100)
    );
    assert_eq!(
        slot.block_matches().assigned_blocks[1],
        AssignedBlockId::new(expected_hashes[1], 200)
    );
    assert_eq!(
        slot.block_matches().assigned_blocks[2],
        AssignedBlockId::new(expected_hashes[2], 300)
    );
    assert!(slot.block_matches().unassigned_blocks.is_empty());
}

#[test]
fn test_aligned_3_blocks_1_block_id() {
    // 3 complete blocks, 1 block_id - partial assignment
    let mut slot = create_test_slot(3, 0);
    let expected_hashes = get_expected_hashes(&slot);
    let block_ids: Vec<BlockId> = vec![100];

    let range = slot.apply_new_blocks(block_ids);

    assert_eq!(range, 0..1);
    assert_eq!(slot.block_matches().assigned_blocks.len(), 1);
    assert_eq!(
        slot.block_matches().assigned_blocks[0],
        AssignedBlockId::new(expected_hashes[0], 100)
    );
    assert!(slot.block_matches().unassigned_blocks.is_empty());
}

#[test]
fn test_aligned_3_blocks_5_block_ids() {
    // 3 complete blocks, 5 block_ids - excess goes to unassigned
    let mut slot = create_test_slot(3, 0);
    let expected_hashes = get_expected_hashes(&slot);
    let block_ids: Vec<BlockId> = vec![100, 200, 300, 400, 500];

    let range = slot.apply_new_blocks(block_ids);

    assert_eq!(range, 0..3);
    assert_eq!(slot.block_matches().assigned_blocks.len(), 3);
    assert_eq!(
        slot.block_matches().assigned_blocks[0],
        AssignedBlockId::new(expected_hashes[0], 100)
    );
    assert_eq!(
        slot.block_matches().assigned_blocks[1],
        AssignedBlockId::new(expected_hashes[1], 200)
    );
    assert_eq!(
        slot.block_matches().assigned_blocks[2],
        AssignedBlockId::new(expected_hashes[2], 300)
    );
    assert_eq!(slot.block_matches().unassigned_blocks, vec![400, 500]);
}

#[test]
fn test_partial_0_complete_2_partial_0_block_ids() {
    // 0 complete blocks + 2 partial tokens, 0 block_ids
    // TokenBlockSequence only counts complete blocks
    let mut slot = create_test_slot(0, 2);
    let block_ids: Vec<BlockId> = vec![];

    let range = slot.apply_new_blocks(block_ids);

    assert_eq!(range, 0..0);
    assert!(slot.block_matches().assigned_blocks.is_empty());
    assert!(slot.block_matches().unassigned_blocks.is_empty());
}

#[test]
fn test_partial_2_complete_1_partial_2_block_ids() {
    // 2 complete blocks + 1 partial token, 2 block_ids - exact match for complete blocks
    let mut slot = create_test_slot(2, 1);
    let expected_hashes = get_expected_hashes(&slot);
    assert_eq!(expected_hashes.len(), 2); // Only complete blocks have hashes
    let block_ids: Vec<BlockId> = vec![100, 200];

    let range = slot.apply_new_blocks(block_ids);

    assert_eq!(range, 0..2);
    assert_eq!(slot.block_matches().assigned_blocks.len(), 2);
    assert_eq!(
        slot.block_matches().assigned_blocks[0],
        AssignedBlockId::new(expected_hashes[0], 100)
    );
    assert_eq!(
        slot.block_matches().assigned_blocks[1],
        AssignedBlockId::new(expected_hashes[1], 200)
    );
    assert!(slot.block_matches().unassigned_blocks.is_empty());
}

#[test]
fn test_partial_2_complete_3_partial_4_block_ids() {
    // 2 complete blocks + 3 partial tokens, 4 block_ids - excess goes to unassigned
    let mut slot = create_test_slot(2, 3);
    let expected_hashes = get_expected_hashes(&slot);
    assert_eq!(expected_hashes.len(), 2);
    let block_ids: Vec<BlockId> = vec![100, 200, 300, 400];

    let range = slot.apply_new_blocks(block_ids);

    assert_eq!(range, 0..2);
    assert_eq!(slot.block_matches().assigned_blocks.len(), 2);
    assert_eq!(
        slot.block_matches().assigned_blocks[0],
        AssignedBlockId::new(expected_hashes[0], 100)
    );
    assert_eq!(
        slot.block_matches().assigned_blocks[1],
        AssignedBlockId::new(expected_hashes[1], 200)
    );
    assert_eq!(slot.block_matches().unassigned_blocks, vec![300, 400]);
}

#[test]
fn test_partial_3_complete_2_partial_1_block_id() {
    // 3 complete blocks + 2 partial tokens, 1 block_id - partial assignment
    let mut slot = create_test_slot(3, 2);
    let expected_hashes = get_expected_hashes(&slot);
    assert_eq!(expected_hashes.len(), 3);
    let block_ids: Vec<BlockId> = vec![100];

    let range = slot.apply_new_blocks(block_ids);

    assert_eq!(range, 0..1);
    assert_eq!(slot.block_matches().assigned_blocks.len(), 1);
    assert_eq!(
        slot.block_matches().assigned_blocks[0],
        AssignedBlockId::new(expected_hashes[0], 100)
    );
    assert!(slot.block_matches().unassigned_blocks.is_empty());
}

#[test]
fn test_incremental_assignment_aligned() {
    // 4 complete blocks, apply 2 block_ids, then 2 more
    let mut slot = create_test_slot(4, 0);
    let expected_hashes = get_expected_hashes(&slot);

    // First call: assign first 2 blocks
    let block_ids_1: Vec<BlockId> = vec![100, 200];
    let range_1 = slot.apply_new_blocks(block_ids_1);

    assert_eq!(range_1, 0..2);
    assert_eq!(slot.block_matches().assigned_blocks.len(), 2);
    assert_eq!(
        slot.block_matches().assigned_blocks[0],
        AssignedBlockId::new(expected_hashes[0], 100)
    );
    assert_eq!(
        slot.block_matches().assigned_blocks[1],
        AssignedBlockId::new(expected_hashes[1], 200)
    );

    // Second call: assign next 2 blocks
    let block_ids_2: Vec<BlockId> = vec![300, 400];
    let range_2 = slot.apply_new_blocks(block_ids_2);

    assert_eq!(range_2, 2..4);
    assert_eq!(slot.block_matches().assigned_blocks.len(), 4);
    assert_eq!(
        slot.block_matches().assigned_blocks[2],
        AssignedBlockId::new(expected_hashes[2], 300)
    );
    assert_eq!(
        slot.block_matches().assigned_blocks[3],
        AssignedBlockId::new(expected_hashes[3], 400)
    );
    assert!(slot.block_matches().unassigned_blocks.is_empty());
}

#[test]
fn test_incremental_assignment_with_excess() {
    // 3 complete blocks, apply 2 block_ids, then 3 more (1 excess)
    let mut slot = create_test_slot(3, 0);
    let expected_hashes = get_expected_hashes(&slot);

    // First call: assign first 2 blocks
    let block_ids_1: Vec<BlockId> = vec![100, 200];
    let range_1 = slot.apply_new_blocks(block_ids_1);

    assert_eq!(range_1, 0..2);
    assert_eq!(slot.block_matches().assigned_blocks.len(), 2);

    // Second call: try to assign 3 more, but only 1 block remaining
    let block_ids_2: Vec<BlockId> = vec![300, 400, 500];
    let range_2 = slot.apply_new_blocks(block_ids_2);

    assert_eq!(range_2, 2..3);
    assert_eq!(slot.block_matches().assigned_blocks.len(), 3);
    assert_eq!(
        slot.block_matches().assigned_blocks[2],
        AssignedBlockId::new(expected_hashes[2], 300)
    );
    assert_eq!(slot.block_matches().unassigned_blocks, vec![400, 500]);
}

#[test]
fn test_incremental_assignment_partial_then_excess() {
    // 2 complete + 1 partial, apply 1, then 3 (2 excess)
    let mut slot = create_test_slot(2, 1);
    let expected_hashes = get_expected_hashes(&slot);
    assert_eq!(expected_hashes.len(), 2);

    // First call: assign 1 block
    let block_ids_1: Vec<BlockId> = vec![100];
    let range_1 = slot.apply_new_blocks(block_ids_1);

    assert_eq!(range_1, 0..1);
    assert_eq!(slot.block_matches().assigned_blocks.len(), 1);

    // Second call: assign 3 more, but only 1 complete block remaining
    let block_ids_2: Vec<BlockId> = vec![200, 300, 400];
    let range_2 = slot.apply_new_blocks(block_ids_2);

    assert_eq!(range_2, 1..2);
    assert_eq!(slot.block_matches().assigned_blocks.len(), 2);
    assert_eq!(
        slot.block_matches().assigned_blocks[1],
        AssignedBlockId::new(expected_hashes[1], 200)
    );
    assert_eq!(slot.block_matches().unassigned_blocks, vec![300, 400]);
}

#[test]
fn test_all_blocks_already_assigned_extra_goes_to_unassigned() {
    // 2 complete blocks, assign both, then try to add more
    let mut slot = create_test_slot(2, 0);
    let _expected_hashes = get_expected_hashes(&slot);

    // First call: assign all blocks
    let block_ids_1: Vec<BlockId> = vec![100, 200];
    let range_1 = slot.apply_new_blocks(block_ids_1);

    assert_eq!(range_1, 0..2);
    assert_eq!(slot.block_matches().assigned_blocks.len(), 2);

    // Second call: all go to unassigned since all blocks are assigned
    let block_ids_2: Vec<BlockId> = vec![300, 400];
    let range_2 = slot.apply_new_blocks(block_ids_2);

    assert_eq!(range_2, 2..2); // Empty range - no new assignments
    assert_eq!(slot.block_matches().assigned_blocks.len(), 2);
    assert_eq!(slot.block_matches().unassigned_blocks, vec![300, 400]);
}

#[test]
fn test_empty_slot_receives_block_ids() {
    // 0 blocks, but receive block_ids - all go to unassigned
    let mut slot = create_test_slot(0, 0);
    let block_ids: Vec<BlockId> = vec![100, 200, 300];

    let range = slot.apply_new_blocks(block_ids);

    assert_eq!(range, 0..0);
    assert!(slot.block_matches().assigned_blocks.is_empty());
    assert_eq!(slot.block_matches().unassigned_blocks, vec![100, 200, 300]);
}

#[test]
fn test_only_partial_tokens_receives_block_ids() {
    // Only partial tokens (no complete blocks), receive block_ids
    let mut slot = create_test_slot(0, 3); // 3 tokens, block_size=4, so no complete block
    let block_ids: Vec<BlockId> = vec![100, 200];

    let range = slot.apply_new_blocks(block_ids);

    assert_eq!(range, 0..0);
    assert!(slot.block_matches().assigned_blocks.is_empty());
    assert_eq!(slot.block_matches().unassigned_blocks, vec![100, 200]);
}

#[test]
fn test_large_sequence_exact_match() {
    // 10 complete blocks, 10 block_ids
    let mut slot = create_test_slot(10, 0);
    let expected_hashes = get_expected_hashes(&slot);
    let block_ids: Vec<BlockId> = (0..10).map(|i| (i + 1) * 100).collect();

    let range = slot.apply_new_blocks(block_ids);

    assert_eq!(range, 0..10);
    assert_eq!(slot.block_matches().assigned_blocks.len(), 10);
    for (i, expected_hash) in expected_hashes.iter().enumerate().take(10) {
        assert_eq!(
            slot.block_matches().assigned_blocks[i],
            AssignedBlockId::new(*expected_hash, (i + 1) * 100)
        );
    }
    assert!(slot.block_matches().unassigned_blocks.is_empty());
}

#[test]
fn test_verify_hash_block_id_pairing_order() {
    // Verify that hashes and block_ids are paired in correct order
    let mut slot = create_test_slot(5, 0);
    let expected_hashes = get_expected_hashes(&slot);
    let block_ids: Vec<BlockId> = vec![999, 888, 777, 666, 555];

    let range = slot.apply_new_blocks(block_ids);

    assert_eq!(range, 0..5);
    // Verify each (hash, block_id) pair is in the correct order
    assert_eq!(slot.block_matches().assigned_blocks[0].block_id(), 999);
    assert_eq!(slot.block_matches().assigned_blocks[1].block_id(), 888);
    assert_eq!(slot.block_matches().assigned_blocks[2].block_id(), 777);
    assert_eq!(slot.block_matches().assigned_blocks[3].block_id(), 666);
    assert_eq!(slot.block_matches().assigned_blocks[4].block_id(), 555);

    // And hashes match expected sequence order
    for (i, expected_hash) in expected_hashes.iter().enumerate().take(5) {
        assert_eq!(
            slot.block_matches().assigned_blocks[i].sequence_hash(),
            *expected_hash
        );
    }
}

#[test]
fn test_cartesian_product_combinations() {
    // Test matrix:
    // num_complete_blocks: [0, 1, 3, 5]
    // partial_tokens: [0, 1, 3] (3 is block_size-1)
    // num_block_ids: [0, fewer, exact, more]

    let num_blocks_options = [0, 1, 3, 5];
    let partial_options = [0, 1, 3];

    for &num_blocks in &num_blocks_options {
        for &partial in &partial_options {
            let slot = create_test_slot(num_blocks, partial);
            let expected_hashes = get_expected_hashes(&slot);
            let available_blocks = expected_hashes.len();

            // Test with 0 block_ids
            {
                let mut slot = create_test_slot(num_blocks, partial);
                let range = slot.apply_new_blocks(vec![]);
                assert_eq!(range, 0..0);
                assert!(slot.block_matches().assigned_blocks.is_empty());
                assert!(slot.block_matches().unassigned_blocks.is_empty());
            }

            // Test with fewer block_ids than available blocks (if available > 0)
            if available_blocks > 1 {
                let mut slot = create_test_slot(num_blocks, partial);
                let expected_hashes = get_expected_hashes(&slot);
                let fewer = available_blocks / 2;
                let block_ids: Vec<BlockId> = (0..fewer).collect();
                let range = slot.apply_new_blocks(block_ids);

                assert_eq!(range, 0..fewer);
                assert_eq!(slot.block_matches().assigned_blocks.len(), fewer);
                assert!(slot.block_matches().unassigned_blocks.is_empty());

                for (i, expected_hash) in expected_hashes.iter().enumerate().take(fewer) {
                    assert_eq!(
                        slot.block_matches().assigned_blocks[i].sequence_hash(),
                        *expected_hash
                    );
                    assert_eq!(slot.block_matches().assigned_blocks[i].block_id(), i);
                }
            }

            // Test with exact number of block_ids
            if available_blocks > 0 {
                let mut slot = create_test_slot(num_blocks, partial);
                let expected_hashes = get_expected_hashes(&slot);
                let block_ids: Vec<BlockId> = (0..available_blocks).collect();
                let range = slot.apply_new_blocks(block_ids);

                assert_eq!(range, 0..available_blocks);
                assert_eq!(slot.block_matches().assigned_blocks.len(), available_blocks);
                assert!(slot.block_matches().unassigned_blocks.is_empty());

                for (i, expected_hash) in
                    expected_hashes.iter().enumerate().take(available_blocks)
                {
                    assert_eq!(
                        slot.block_matches().assigned_blocks[i].sequence_hash(),
                        *expected_hash
                    );
                    assert_eq!(slot.block_matches().assigned_blocks[i].block_id(), i);
                }
            }

            // Test with more block_ids than available blocks
            {
                let mut slot = create_test_slot(num_blocks, partial);
                let expected_hashes = get_expected_hashes(&slot);
                let excess = 3;
                let total_ids = available_blocks + excess;
                let block_ids: Vec<BlockId> = (0..total_ids).collect();
                let range = slot.apply_new_blocks(block_ids);

                assert_eq!(range, 0..available_blocks);
                assert_eq!(slot.block_matches().assigned_blocks.len(), available_blocks);
                assert_eq!(slot.block_matches().unassigned_blocks.len(), excess);

                for (i, expected_hash) in
                    expected_hashes.iter().enumerate().take(available_blocks)
                {
                    assert_eq!(
                        slot.block_matches().assigned_blocks[i].sequence_hash(),
                        *expected_hash
                    );
                    assert_eq!(slot.block_matches().assigned_blocks[i].block_id(), i);
                }

                let expected_unassigned: Vec<BlockId> =
                    (available_blocks..total_ids).collect();
                assert_eq!(slot.block_matches().unassigned_blocks, expected_unassigned);
            }
        }
    }
}

#[test]
fn test_unassigned_blocks_applied_before_new_blocks() {
    // Create slot with 5 blocks, apply 7 block_ids (2 excess)
    let mut slot = create_test_slot(5, 0);
    let _expected_hashes = get_expected_hashes(&slot);
    let block_ids_1: Vec<BlockId> = vec![100, 200, 300, 400, 500, 600, 700];

    let range_1 = slot.apply_new_blocks(block_ids_1);

    // First 5 should be assigned, 2 unassigned
    assert_eq!(range_1, 0..5);
    assert_eq!(slot.block_matches().assigned_blocks.len(), 5);
    assert_eq!(slot.block_matches().unassigned_blocks, vec![600, 700]);

    // Now add more tokens to create 2 more complete blocks
    let new_tokens: Vec<u32> = (20..28).collect(); // 8 more tokens = 2 blocks
    for token in new_tokens {
        slot.extend_tokens(vec![token]).unwrap();
    }
    let expected_hashes_after = get_expected_hashes(&slot);
    assert_eq!(expected_hashes_after.len(), 7); // Now 7 blocks total

    // Apply new blocks - the unassigned blocks (600, 700) should be applied first
    let block_ids_2: Vec<BlockId> = vec![800, 900];
    let range_2 = slot.apply_new_blocks(block_ids_2);

    // Range should be 5..7 (the 2 new blocks that got assigned)
    assert_eq!(range_2, 5..7);
    assert_eq!(slot.block_matches().assigned_blocks.len(), 7);

    // Verify the previously unassigned blocks (600, 700) were assigned to blocks 5, 6
    assert_eq!(
        slot.block_matches().assigned_blocks[5],
        AssignedBlockId::new(expected_hashes_after[5], 600)
    );
    assert_eq!(
        slot.block_matches().assigned_blocks[6],
        AssignedBlockId::new(expected_hashes_after[6], 700)
    );

    // New blocks (800, 900) should be unassigned since there was no room
    assert_eq!(slot.block_matches().unassigned_blocks, vec![800, 900]);
}

#[test]
fn test_unassigned_blocks_with_new_blocks_all_assigned() {
    // Create slot with 3 blocks, apply 4 block_ids (1 excess)
    let mut slot = create_test_slot(3, 0);
    let block_ids_1: Vec<BlockId> = vec![100, 200, 300, 400];

    let range_1 = slot.apply_new_blocks(block_ids_1);

    assert_eq!(range_1, 0..3);
    assert_eq!(slot.block_matches().unassigned_blocks, vec![400]);

    // Add 3 more blocks worth of tokens
    for token in 12..24 {
        slot.extend_tokens(vec![token]).unwrap();
    }
    let expected_hashes_after = get_expected_hashes(&slot);
    assert_eq!(expected_hashes_after.len(), 6); // Now 6 blocks total

    // Apply 2 new blocks - unassigned block (400) + new blocks should all fit
    let block_ids_2: Vec<BlockId> = vec![500, 600];
    let range_2 = slot.apply_new_blocks(block_ids_2);

    // All 3 blocks (1 old unassigned + 2 new) should be assigned
    assert_eq!(range_2, 3..6);
    assert_eq!(slot.block_matches().assigned_blocks.len(), 6);

    // Verify unassigned block (400) was assigned to block 3
    assert_eq!(
        slot.block_matches().assigned_blocks[3],
        AssignedBlockId::new(expected_hashes_after[3], 400)
    );
    // Verify new blocks assigned to blocks 4, 5
    assert_eq!(
        slot.block_matches().assigned_blocks[4],
        AssignedBlockId::new(expected_hashes_after[4], 500)
    );
    assert_eq!(
        slot.block_matches().assigned_blocks[5],
        AssignedBlockId::new(expected_hashes_after[5], 600)
    );

    assert!(slot.block_matches().unassigned_blocks.is_empty());
}

#[test]
fn test_unassigned_blocks_no_new_space() {
    // Create slot with 2 blocks, apply 4 block_ids (2 excess)
    let mut slot = create_test_slot(2, 0);
    let block_ids_1: Vec<BlockId> = vec![100, 200, 300, 400];

    let range_1 = slot.apply_new_blocks(block_ids_1);

    assert_eq!(range_1, 0..2);
    assert_eq!(slot.block_matches().unassigned_blocks, vec![300, 400]);

    // Apply new blocks without adding more token blocks
    let block_ids_2: Vec<BlockId> = vec![500, 600];
    let range_2 = slot.apply_new_blocks(block_ids_2);

    // No new assignments since no new complete blocks
    assert_eq!(range_2, 2..2); // Empty range
    assert_eq!(slot.block_matches().assigned_blocks.len(), 2);

    // All blocks (old unassigned + new) should still be unassigned
    assert_eq!(
        slot.block_matches().unassigned_blocks,
        vec![300, 400, 500, 600]
    );
}

#[test]
fn test_unassigned_blocks_partial_space() {
    // Create slot with 3 blocks, apply 5 block_ids (2 excess)
    let mut slot = create_test_slot(3, 0);
    let block_ids_1: Vec<BlockId> = vec![100, 200, 300, 400, 500];

    let range_1 = slot.apply_new_blocks(block_ids_1);

    assert_eq!(range_1, 0..3);
    assert_eq!(slot.block_matches().unassigned_blocks, vec![400, 500]);

    // Add 1 more block worth of tokens
    for token in 12..16 {
        slot.extend_tokens(vec![token]).unwrap();
    }
    let expected_hashes_after = get_expected_hashes(&slot);
    assert_eq!(expected_hashes_after.len(), 4); // Now 4 blocks total

    // Apply 3 new blocks - only 1 spot available, should take first unassigned
    let block_ids_2: Vec<BlockId> = vec![600, 700, 800];
    let range_2 = slot.apply_new_blocks(block_ids_2);

    // Only 1 block can be assigned (from the 5 total: 2 old unassigned + 3 new)
    assert_eq!(range_2, 3..4);
    assert_eq!(slot.block_matches().assigned_blocks.len(), 4);

    // First old unassigned block (400) should get assigned
    assert_eq!(
        slot.block_matches().assigned_blocks[3],
        AssignedBlockId::new(expected_hashes_after[3], 400)
    );

    // Rest should be unassigned in order: second old unassigned, then new ones
    assert_eq!(
        slot.block_matches().unassigned_blocks,
        vec![500, 600, 700, 800]
    );
}

#[test]
fn test_multiple_rounds_of_unassigned_accumulation() {
    // Test that unassigned blocks accumulate correctly over multiple calls
    let mut slot = create_test_slot(2, 0);

    // Round 1: 2 blocks assigned, 2 unassigned
    let block_ids_1: Vec<BlockId> = vec![100, 200, 300, 400];
    let range_1 = slot.apply_new_blocks(block_ids_1);
    assert_eq!(range_1, 0..2);
    assert_eq!(slot.block_matches().unassigned_blocks, vec![300, 400]);

    // Round 2: No new space, add 2 more to unassigned
    let block_ids_2: Vec<BlockId> = vec![500, 600];
    let range_2 = slot.apply_new_blocks(block_ids_2);
    assert_eq!(range_2, 2..2); // Empty
    assert_eq!(
        slot.block_matches().unassigned_blocks,
        vec![300, 400, 500, 600]
    );

    // Round 3: Still no space, add 1 more
    let block_ids_3: Vec<BlockId> = vec![700];
    let range_3 = slot.apply_new_blocks(block_ids_3);
    assert_eq!(range_3, 2..2); // Empty
    assert_eq!(
        slot.block_matches().unassigned_blocks,
        vec![300, 400, 500, 600, 700]
    );

    // Now add space for 3 more blocks
    for token in 8..20 {
        slot.extend_tokens(vec![token]).unwrap();
    }
    let expected_hashes_after = get_expected_hashes(&slot);
    assert_eq!(expected_hashes_after.len(), 5); // Now 5 blocks total

    // Apply with no new blocks - should assign first 3 from unassigned
    let block_ids_4: Vec<BlockId> = vec![];
    let range_4 = slot.apply_new_blocks(block_ids_4);

    assert_eq!(range_4, 2..5);
    assert_eq!(slot.block_matches().assigned_blocks.len(), 5);

    // First 3 unassigned (300, 400, 500) should be assigned
    assert_eq!(slot.block_matches().assigned_blocks[2].block_id(), 300);
    assert_eq!(slot.block_matches().assigned_blocks[3].block_id(), 400);
    assert_eq!(slot.block_matches().assigned_blocks[4].block_id(), 500);

    // Last 2 should still be unassigned
    assert_eq!(slot.block_matches().unassigned_blocks, vec![600, 700]);
}

#[test]
fn test_unassigned_blocks_ordering_preserved() {
    // Verify that the order of unassigned blocks is preserved (FIFO)
    let mut slot = create_test_slot(1, 0);

    // Create 5 excess blocks
    let block_ids_1: Vec<BlockId> = vec![10, 20, 30, 40, 50, 60];
    slot.apply_new_blocks(block_ids_1);

    // 10 should be assigned, rest unassigned in order
    assert_eq!(slot.block_matches().assigned_blocks[0].block_id(), 10);
    assert_eq!(
        slot.block_matches().unassigned_blocks,
        vec![20, 30, 40, 50, 60]
    );

    // Add 2 more blocks of space
    for token in 4..12 {
        slot.extend_tokens(vec![token]).unwrap();
    }

    // Apply empty list - should assign first 2 from unassigned (20, 30)
    slot.apply_new_blocks(vec![]);
    assert_eq!(slot.block_matches().assigned_blocks[1].block_id(), 20);
    assert_eq!(slot.block_matches().assigned_blocks[2].block_id(), 30);
    assert_eq!(slot.block_matches().unassigned_blocks, vec![40, 50, 60]);

    // Add 1 new block ID
    for token in 12..16 {
        slot.extend_tokens(vec![token]).unwrap();
    }

    let block_ids_2: Vec<BlockId> = vec![70];
    slot.apply_new_blocks(block_ids_2);

    // Should assign 40 (first from old unassigned), not 70 (new)
    assert_eq!(slot.block_matches().assigned_blocks[3].block_id(), 40);
    assert_eq!(slot.block_matches().unassigned_blocks, vec![50, 60, 70]);
}

#[test]
fn test_unassigned_blocks_with_partial_token_block() {
    // Test with partial blocks to ensure logic still works
    let mut slot = create_test_slot(2, 2); // 2 complete + 2 partial tokens
    let expected_hashes = get_expected_hashes(&slot);
    assert_eq!(expected_hashes.len(), 2);

    // Apply 4 block_ids - 2 assigned, 2 unassigned
    let block_ids_1: Vec<BlockId> = vec![100, 200, 300, 400];
    let range_1 = slot.apply_new_blocks(block_ids_1);

    assert_eq!(range_1, 0..2);
    assert_eq!(slot.block_matches().unassigned_blocks, vec![300, 400]);

    // Add 2 more tokens to complete the partial block
    slot.extend_tokens(vec![10]).unwrap();
    slot.extend_tokens(vec![11]).unwrap();
    let expected_hashes_after = get_expected_hashes(&slot);
    assert_eq!(expected_hashes_after.len(), 3); // Now 3 complete blocks

    // Apply 1 new block - unassigned 300 should be applied first
    let block_ids_2: Vec<BlockId> = vec![500];
    let range_2 = slot.apply_new_blocks(block_ids_2);

    assert_eq!(range_2, 2..3);
    assert_eq!(slot.block_matches().assigned_blocks.len(), 3);
    assert_eq!(slot.block_matches().assigned_blocks[2].block_id(), 300);
    assert_eq!(slot.block_matches().unassigned_blocks, vec![400, 500]);
}

#[test]
fn test_unassigned_blocks_exactly_fill_new_space() {
    // Test when unassigned blocks exactly fill new available space
    let mut slot = create_test_slot(2, 0);

    // Apply 5 block_ids - 2 assigned, 3 unassigned
    let block_ids_1: Vec<BlockId> = vec![100, 200, 300, 400, 500];
    slot.apply_new_blocks(block_ids_1);
    assert_eq!(slot.block_matches().unassigned_blocks, vec![300, 400, 500]);

    // Add exactly 3 more blocks of space
    for token in 8..20 {
        slot.extend_tokens(vec![token]).unwrap();
    }
    let expected_hashes_after = get_expected_hashes(&slot);
    assert_eq!(expected_hashes_after.len(), 5);

    // Apply no new blocks - unassigned should exactly fill space
    let range = slot.apply_new_blocks(vec![]);

    assert_eq!(range, 2..5);
    assert_eq!(slot.block_matches().assigned_blocks.len(), 5);
    assert_eq!(slot.block_matches().assigned_blocks[2].block_id(), 300);
    assert_eq!(slot.block_matches().assigned_blocks[3].block_id(), 400);
    assert_eq!(slot.block_matches().assigned_blocks[4].block_id(), 500);
    assert!(slot.block_matches().unassigned_blocks.is_empty());
}

#[test]
fn test_empty_unassigned_with_new_blocks() {
    // Test that normal behavior works when there are no previous unassigned blocks
    let mut slot = create_test_slot(3, 0);
    let _expected_hashes = get_expected_hashes(&slot);

    // Apply exactly the right number of blocks
    let block_ids_1: Vec<BlockId> = vec![100, 200, 300];
    slot.apply_new_blocks(block_ids_1);
    assert!(slot.block_matches().unassigned_blocks.is_empty());

    // Add more space
    for token in 12..16 {
        slot.extend_tokens(vec![token]).unwrap();
    }
    let _expected_hashes_after = get_expected_hashes(&slot);

    // Apply new blocks with no previous unassigned
    let block_ids_2: Vec<BlockId> = vec![400];
    let range = slot.apply_new_blocks(block_ids_2);

    assert_eq!(range, 3..4);
    assert_eq!(slot.block_matches().assigned_blocks[3].block_id(), 400);
    assert!(slot.block_matches().unassigned_blocks.is_empty());
}

#[test]
fn test_filter_block_ids_no_assigned_blocks() {
    // No blocks assigned, should return all block_ids
    let slot = create_test_slot(3, 0);
    let all_block_ids: Vec<BlockId> = vec![100, 200, 300];

    let filtered = slot.filter_block_ids(all_block_ids.clone());

    assert_eq!(filtered, all_block_ids);
}

#[test]
fn test_filter_block_ids_all_already_assigned() {
    // All block_ids are already assigned, should return empty
    let mut slot = create_test_slot(3, 0);
    slot.apply_new_blocks(vec![100, 200, 300]);

    let all_block_ids: Vec<BlockId> = vec![100, 200, 300];
    let filtered = slot.filter_block_ids(all_block_ids);

    assert!(filtered.is_empty());
}

#[test]
fn test_filter_block_ids_partial_assigned() {
    // Some block_ids are assigned, should return the rest
    let mut slot = create_test_slot(5, 0);
    slot.apply_new_blocks(vec![100, 200]);

    let all_block_ids: Vec<BlockId> = vec![100, 200, 300, 400, 500];
    let filtered = slot.filter_block_ids(all_block_ids);

    assert_eq!(filtered, vec![300, 400, 500]);
}

#[test]
fn test_filter_block_ids_single_assigned() {
    // One block assigned, should return the rest
    let mut slot = create_test_slot(4, 0);
    slot.apply_new_blocks(vec![100]);

    let all_block_ids: Vec<BlockId> = vec![100, 200, 300, 400];
    let filtered = slot.filter_block_ids(all_block_ids);

    assert_eq!(filtered, vec![200, 300, 400]);
}

#[test]
fn test_filter_block_ids_exact_match() {
    // all_block_ids exactly matches assigned blocks
    let mut slot = create_test_slot(2, 0);
    slot.apply_new_blocks(vec![100, 200]);

    let all_block_ids: Vec<BlockId> = vec![100, 200];
    let filtered = slot.filter_block_ids(all_block_ids);

    assert!(filtered.is_empty());
}

#[test]
fn test_filter_block_ids_empty_input() {
    // Empty input with no assigned blocks
    let slot = create_test_slot(3, 0);
    let all_block_ids: Vec<BlockId> = vec![];

    let filtered = slot.filter_block_ids(all_block_ids);

    assert!(filtered.is_empty());
}

#[test]
fn test_filter_block_ids_many_new_blocks() {
    // Few assigned, many new
    let mut slot = create_test_slot(10, 0);
    slot.apply_new_blocks(vec![10, 20]);

    let all_block_ids: Vec<BlockId> = vec![10, 20, 30, 40, 50, 60, 70, 80, 90, 100];
    let filtered = slot.filter_block_ids(all_block_ids);

    assert_eq!(filtered, vec![30, 40, 50, 60, 70, 80, 90, 100]);
}

#[test]
fn test_filter_block_ids_with_unassigned_blocks() {
    // Test that unassigned_blocks ARE filtered out
    let mut slot = create_test_slot(2, 0);
    // This will assign 2 blocks and put 2 in unassigned
    slot.apply_new_blocks(vec![100, 200, 300, 400]);

    assert_eq!(slot.block_matches().assigned_blocks.len(), 2);
    assert_eq!(slot.block_matches().unassigned_blocks, vec![300, 400]);

    // Filter should consider both assigned AND unassigned blocks
    let all_block_ids: Vec<BlockId> = vec![100, 200, 300, 400, 500, 600];
    let filtered = slot.filter_block_ids(all_block_ids);

    // Should return everything after assigned (100, 200) AND unassigned (300, 400)
    assert_eq!(filtered, vec![500, 600]);
}

#[test]
fn test_filter_block_ids_only_unassigned() {
    // Test with only unassigned blocks (no assigned blocks can be assigned)
    let mut slot = create_test_slot(0, 0); // No token blocks
    // All will go to unassigned since there are no token blocks
    slot.apply_new_blocks(vec![100, 200, 300]);

    assert!(slot.block_matches().assigned_blocks.is_empty());
    assert_eq!(slot.block_matches().unassigned_blocks, vec![100, 200, 300]);

    let all_block_ids: Vec<BlockId> = vec![100, 200, 300, 400, 500];
    let filtered = slot.filter_block_ids(all_block_ids);

    // Should return everything after the unassigned blocks
    assert_eq!(filtered, vec![400, 500]);
}

#[test]
fn test_filter_block_ids_after_incremental_assignment() {
    // Test filtering after multiple apply_new_blocks calls
    let mut slot = create_test_slot(5, 0);

    // First assignment
    slot.apply_new_blocks(vec![100, 200]);

    // Verify filter works
    let filtered1 = slot.filter_block_ids(vec![100, 200, 300, 400, 500]);
    assert_eq!(filtered1, vec![300, 400, 500]);

    // Second assignment
    slot.apply_new_blocks(vec![300]);

    // Verify filter works again
    let filtered2 = slot.filter_block_ids(vec![100, 200, 300, 400, 500]);
    assert_eq!(filtered2, vec![400, 500]);
}

#[test]
fn test_filter_block_ids_after_incremental_with_unassigned() {
    // Test filtering after multiple calls where unassigned accumulate
    let mut slot = create_test_slot(2, 0);

    // First: 2 assigned, 2 unassigned
    slot.apply_new_blocks(vec![100, 200, 300, 400]);
    assert_eq!(slot.block_matches().assigned_blocks.len(), 2);
    assert_eq!(slot.block_matches().unassigned_blocks, vec![300, 400]);

    // Filter should skip all 4
    let filtered1 = slot.filter_block_ids(vec![100, 200, 300, 400, 500, 600]);
    assert_eq!(filtered1, vec![500, 600]);

    // Add more tokens to create space for 1 more block
    for token in 8..12 {
        slot.extend_tokens(vec![token]).unwrap();
    }

    // Second call: unassigned 300 gets assigned, 400 stays unassigned, 500 new unassigned
    slot.apply_new_blocks(vec![500]);
    assert_eq!(slot.block_matches().assigned_blocks.len(), 3);
    assert_eq!(slot.block_matches().assigned_blocks[2].block_id(), 300);
    assert_eq!(slot.block_matches().unassigned_blocks, vec![400, 500]);

    // Now filter should skip assigned (100, 200, 300) + unassigned (400, 500)
    let filtered2 = slot.filter_block_ids(vec![100, 200, 300, 400, 500, 600, 700]);
    assert_eq!(filtered2, vec![600, 700]);
}

#[test]
fn test_filter_block_ids_returns_owned_vec() {
    // Verify that the returned vec is independent
    let mut slot = create_test_slot(3, 0);
    slot.apply_new_blocks(vec![100]);

    let all_block_ids: Vec<BlockId> = vec![100, 200, 300];
    let filtered = slot.filter_block_ids(all_block_ids);

    assert_eq!(filtered.len(), 2);
    assert_eq!(filtered[0], 200);
    assert_eq!(filtered[1], 300);
}

#[test]
fn test_filter_block_ids_empty_unassigned() {
    // Verify behavior when unassigned is empty
    let mut slot = create_test_slot(3, 0);
    slot.apply_new_blocks(vec![100, 200, 300]); // Exactly fills, no unassigned

    assert_eq!(slot.block_matches().assigned_blocks.len(), 3);
    assert!(slot.block_matches().unassigned_blocks.is_empty());

    let all_block_ids: Vec<BlockId> = vec![100, 200, 300, 400, 500];
    let filtered = slot.filter_block_ids(all_block_ids);

    assert_eq!(filtered, vec![400, 500]);
}
