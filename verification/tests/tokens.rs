//! Token sequences and the hashes of their blocks.

use dynamo_tokens::{PositionalLineageHash, TokenBlockSequence, Tokens};
use kvbm::logical::{BlockAllocator, DequeBlockAllocator, InactiveBlock, KvbmSequenceHashProvider};
use kvbm::tokens::{SequenceHash, TokenBlock, TokenSequence};

const SALT: u64 = 1337;

fn outside_hashes(tokens: Vec<u32>, block_size: u32, salt: u64) -> Vec<(u128, u64)> {
    TokenBlockSequence::new(Tokens::from(tokens), block_size, Some(salt))
        .blocks()
        .iter()
        .map(|block| block.positional_lineage_hash())
        .map(|hash| (hash.as_u128(), hash.position()))
        .collect()
}

fn pairs(hashes: Vec<SequenceHash>) -> Vec<(u128, u64)> {
    hashes
        .iter()
        .map(|hash| (hash.as_u128(), hash.position()))
        .collect()
}

#[test]
fn packed_hash_matches_the_lineage_hash() {
    for (current, parent, position) in [(11, None, 0), (12, Some(11), 1), (13, Some(12), 70_000)] {
        let hash = SequenceHash::new(current, parent, position);
        let expected = PositionalLineageHash::new(current, parent, position);
        assert_eq!(hash.as_u128(), expected.as_u128());
        assert_eq!(hash.position(), position);
    }
}

#[test]
fn lineage_hash_is_packed_by_position() {
    // Mode and position on top, then the hash, then the parent's low bits.
    let parent = u64::MAX;
    assert_eq!(
        SequenceHash::new(7, Some(9), 3).as_u128(),
        (3u128 << 118) | (7u128 << 54) | 9
    );
    assert_eq!(
        SequenceHash::new(7, Some(parent), 255).as_u128(),
        (255u128 << 118) | (7u128 << 54) | ((1u128 << 54) - 1)
    );
    assert_eq!(
        SequenceHash::new(u64::MAX, Some(parent), 256).as_u128(),
        (1u128 << 126) | (256u128 << 110) | (u128::from(u64::MAX) << 46) | ((1u128 << 46) - 1)
    );
    assert_eq!(
        SequenceHash::new(7, None, 65_536).as_u128(),
        (2u128 << 126) | (65_536u128 << 102) | (7u128 << 38)
    );
    assert_ne!(
        SequenceHash::new(7, None, 1).as_u128(),
        SequenceHash::new(7, None, 2).as_u128()
    );
}

#[test]
fn sequence_hashes_its_complete_blocks() {
    let tokens: Vec<u32> = (0..14).collect();
    let sequence = TokenSequence::new(tokens.clone(), 4, SALT);
    assert_eq!(sequence.block_count(), 3);
    assert_eq!(sequence.total_tokens(), 14);
    assert_eq!(sequence.block_size(), 4);
    assert_eq!(pairs(sequence.hashes()), outside_hashes(tokens, 4, SALT));
    assert_eq!(sequence.hash_at(2).position(), 2);
}

#[test]
fn salt_and_block_size_enter_the_hash() {
    let tokens: Vec<u32> = (0..8).collect();
    let one = TokenSequence::new(tokens.clone(), 4, 1).hashes();
    let other = TokenSequence::new(tokens.clone(), 4, 2).hashes();
    let wider = TokenSequence::new(tokens, 8, 1).hashes();
    assert_ne!(one[0], other[0]);
    assert_ne!(one[0], wider[0]);
}

#[test]
fn growing_keeps_earlier_hashes() {
    let mut sequence = TokenSequence::new((0..9).collect(), 4, SALT);
    let before = sequence.hashes();
    assert!(sequence.extend((9..16).collect()).is_ok());
    let after = sequence.hashes();
    assert_eq!(after.len(), 4);
    assert_eq!(&after[..2], &before[..]);
    assert_eq!(
        pairs(after),
        outside_hashes((0..16).collect(), 4, SALT)
    );
}

#[test]
fn tokens_are_read_back() {
    let sequence = TokenSequence::new(vec![5, 6, 7, 8, 9], 2, 0);
    assert_eq!(sequence.tokens_at(1, 4), vec![6, 7, 8]);
    assert!(sequence.tokens_at(2, 2).is_empty());
}

#[test]
fn token_block_provides_its_hash() {
    let hash = SequenceHash::new(3, None, 0);
    let block = TokenBlock {
        tokens: vec![1, 2],
        hash,
    };
    assert_eq!(block.kvbm_sequence_hash(), hash);
}

#[test]
fn allocator_hands_out_in_order() {
    let block = |block_id: usize| InactiveBlock {
        block_id,
        seq_hash: SequenceHash::new(block_id as u64, None, 0),
    };
    let mut allocator: DequeBlockAllocator<InactiveBlock> = DequeBlockAllocator::new();
    assert!(allocator.is_empty());
    assert_eq!(allocator.pop(), None);
    allocator.insert(block(1));
    allocator.insert(block(2));
    assert_eq!(allocator.len(), 2);
    assert_eq!(allocator.pop(), Some(block(1)));
    allocator.insert(block(3));
    assert_eq!(allocator.pop(), Some(block(2)));
    assert_eq!(allocator.pop(), Some(block(3)));
    assert!(allocator.is_empty());
}
