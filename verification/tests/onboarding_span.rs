//! What a finished search matched, before and after its blocks are taken.

use kvbm::connector::onboarding::{
    shard_terminal_matched_count, OnboardingShard, OnboardingState,
};
use kvbm::engine::matches::{FindMatchesResult, MatchBreakdown, ReadyResult};

/// Ready shard with empty Vec (post-drain state) but breakdown=3 must
/// still report 3 matched blocks.
#[test]
fn shard_terminal_matched_count_reads_breakdown_not_vec() {
    let breakdown = MatchBreakdown {
        host_blocks: 3,
        disk_blocks: 0,
        object_blocks: 0,
    };
    // Empty blocks Vec: mirrors the state after `take_g2_blocks` ran.
    let ready = ReadyResult::new(vec![], breakdown);
    let shard = OnboardingShard {
        start_block: 0,
        num_queried_blocks: 3,
        find_session: FindMatchesResult::Ready(ready),
    };
    assert_eq!(shard_terminal_matched_count(&shard), 3);
}

/// Same invariant for a bypass-host Ready shard with disk_blocks > 0.
#[test]
fn shard_terminal_matched_count_bypass_sums_host_plus_disk() {
    let breakdown = MatchBreakdown {
        host_blocks: 2,
        disk_blocks: 4,
        object_blocks: 0,
    };
    let ready = ReadyResult::new(vec![], breakdown);
    let shard = OnboardingShard {
        start_block: 0,
        num_queried_blocks: 6,
        find_session: FindMatchesResult::Ready(ready),
    };
    assert_eq!(shard_terminal_matched_count(&shard), 6);
}

/// End-to-end: `matched_span` (and therefore `slot_match_split`'s
/// `local_match_blocks`) is unchanged when a Ready shard's G2 Vec
/// has been drained.
#[test]
fn matched_span_unchanged_after_ready_drain() {
    let block_size = 4;
    let pre_breakdown = MatchBreakdown {
        host_blocks: 5,
        disk_blocks: 0,
        object_blocks: 0,
    };
    let ready_pre = ReadyResult::new(vec![], pre_breakdown);
    let mut state = OnboardingState::new(
        0,
        5 * block_size,
        OnboardingShard {
            start_block: 0,
            num_queried_blocks: 5,
            find_session: FindMatchesResult::Ready(ready_pre),
        },
    );
    let (start_pre, end_pre) = state.matched_span(block_size);

    // Simulate drain (no-op for empty Vec, but exercises the path).
    let _ = state.shards[0].find_session.take_g2_blocks();

    let (start_post, end_post) = state.matched_span(block_size);
    assert_eq!(
        (start_pre, end_pre),
        (start_post, end_post),
        "matched_span must be drain-idempotent (was {:?}, became {:?})",
        (start_pre, end_pre),
        (start_post, end_post),
    );
    assert_eq!(end_pre - start_pre, 5);
}
