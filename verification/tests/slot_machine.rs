//! The transactions of a request slot.

use kvbm::connector::machine::{
    ActiveStateData, FinishedStatus, SlotState, SlotStateMachine, StateTransitionError,
    TransactionState,
};
use kvbm::connector::onboarding::{CdOnboardingPayload, OnboardingState};
use kvbm::connector::request::Request;
use kvbm::connector::slot::RequestSlot;
use kvbm::engine::matches::{FindMatchesResult, MatchBreakdown, ReadyResult};

const TEST_BLOCK_SIZE: usize = 4;

/// An idle slot with four complete blocks.
fn create_test_slot() -> RequestSlot {
    let tokens: Vec<u32> = (0..16).collect(); // 4 complete blocks
    let request = Request::new(String::from("test-request"), tokens, 0);
    RequestSlot::new(request, TEST_BLOCK_SIZE)
}

/// Computed tokens and a finished search without blocks.
fn create_mock_onboarding_state() -> (usize, FindMatchesResult) {
    // Create a Ready result with no blocks for testing purposes.
    let ready_result = ReadyResult::new(vec![], MatchBreakdown::default());
    (100, FindMatchesResult::Ready(ready_result))
}

#[test]
fn test_txn_prepare_to_onboard_from_inactive_succeeds() {
    let mut slot = create_test_slot();
    let (num_computed_tokens, find_session) = create_mock_onboarding_state();

    // Initial state should be Inactive
    assert!(slot.txn_state().is_inactive());

    // Transition to PreparingToOnboard should succeed
    let result = slot.txn_prepare_to_onboard_legacy(num_computed_tokens, find_session);
    assert!(result.is_ok());

    // Verify state changed
    assert!(matches!(
        slot.txn_state(),
        TransactionState::PreparingToOnboard(_)
    ));
}

#[test]
fn test_txn_prepare_to_onboard_from_non_inactive_fails() {
    let mut slot = create_test_slot();
    let (num_computed_tokens, find_session) = create_mock_onboarding_state();

    // First transition to PreparingToOnboard
    slot.txn_prepare_to_onboard_legacy(num_computed_tokens, find_session)
        .unwrap();

    // Try to prepare again - should fail
    let (num_computed_tokens2, find_session2) = create_mock_onboarding_state();
    let result = slot.txn_prepare_to_onboard_legacy(num_computed_tokens2, find_session2);

    assert!(result.is_err());
    assert!(matches!(
        result.err().unwrap(),
        StateTransitionError::InvalidTransition { .. }
    ));
}

#[test]
fn test_txn_prepare_to_onboard_when_marked_for_deletion_fails() {
    let mut slot = create_test_slot();

    // Mark slot for deletion
    let status = slot.slot_mark_finished();
    assert_eq!(status, FinishedStatus::Finished);

    // Try to prepare to onboard - should fail
    let (num_computed_tokens, find_session) = create_mock_onboarding_state();
    let result = slot.txn_prepare_to_onboard_legacy(num_computed_tokens, find_session);

    assert!(result.is_err());
    assert!(matches!(
        result.err().unwrap(),
        StateTransitionError::MarkedForDeletion
    ));
}

#[test]
fn test_txn_start_onboarding_from_preparing_succeeds() {
    let mut slot = create_test_slot();
    let (num_computed_tokens, find_session) = create_mock_onboarding_state();

    // First prepare to onboard
    slot.txn_prepare_to_onboard_legacy(num_computed_tokens, find_session)
        .unwrap();

    // Then start onboarding
    let result = slot.txn_start_onboarding();
    assert!(result.is_ok());

    // Verify state changed
    assert!(matches!(slot.txn_state(), TransactionState::Onboarding(_)));
}

#[test]
fn test_txn_start_onboarding_from_inactive_fails() {
    let mut slot = create_test_slot();

    // Try to start onboarding from Inactive - should fail
    let result = slot.txn_start_onboarding();

    assert!(result.is_err());
    assert!(matches!(
        result.err().unwrap(),
        StateTransitionError::InvalidTransition { .. }
    ));
}

#[test]
fn test_txn_start_onboarding_when_marked_for_deletion_fails() {
    let mut slot = create_test_slot();
    let (num_computed_tokens, find_session) = create_mock_onboarding_state();

    // Prepare to onboard
    slot.txn_prepare_to_onboard_legacy(num_computed_tokens, find_session)
        .unwrap();

    // Mark for deletion
    let _ = slot.slot_mark_finished();

    // Try to start onboarding - should fail
    let result = slot.txn_start_onboarding();

    assert!(result.is_err());
    assert!(matches!(
        result.err().unwrap(),
        StateTransitionError::MarkedForDeletion
    ));
}

/// A payload without contents.
#[derive(Debug)]
struct MockCdPayload;
impl CdOnboardingPayload for MockCdPayload {}

/// A payload installed while a search is prepared moves the slot on to
/// loading, so that the ordinary cleanup applies to it.
#[test]
fn test_txn_install_cd_payload_promotes_preparing_to_onboarding() {
    let mut slot = create_test_slot();
    let (num_computed_tokens, find_session) = create_mock_onboarding_state();

    // Inner gnmt path: matches found → PreparingToOnboard.
    slot.txn_prepare_to_onboard_legacy(num_computed_tokens, find_session)
        .unwrap();
    assert!(matches!(
        slot.txn_state(),
        TransactionState::PreparingToOnboard(_)
    ));

    // CD attach: must transition PreparingToOnboard → Onboarding.
    slot.txn_install_or_attach_cd_payload(Box::new(MockCdPayload))
        .unwrap();

    // Slot is now Onboarding with both shards and cd_payload set.
    match slot.txn_state() {
        TransactionState::Onboarding(state) => {
            assert!(!state.shards.is_empty(), "shards preserved across install");
            assert!(state.cd_payload.is_some(), "cd_payload installed");
            assert_eq!(state.num_computed_tokens, 100);
        }
        other => panic!(
            "expected Onboarding after CD install on PreparingToOnboard slot, got {:?}",
            other.name()
        ),
    }

    // Canonical cleanup: take_onboarding must now succeed.
    let onboarding = slot.txn_take_onboarding().unwrap();
    assert!(!onboarding.shards.is_empty());
    assert!(onboarding.cd_payload.is_some());
    assert!(matches!(slot.txn_state(), TransactionState::Inactive));
}

/// Without a local match an idle slot goes straight to loading.
#[test]
fn test_txn_install_cd_payload_inactive_to_onboarding() {
    let mut slot = create_test_slot();

    slot.txn_install_or_attach_cd_payload(Box::new(MockCdPayload))
        .unwrap();

    match slot.txn_state() {
        TransactionState::Onboarding(state) => {
            assert!(state.shards.is_empty());
            assert!(state.cd_payload.is_some());
        }
        other => panic!("expected Onboarding, got {:?}", other.name()),
    }
}

/// A slot takes one payload only.
#[test]
fn test_txn_install_cd_payload_twice_fails() {
    let mut slot = create_test_slot();
    let (num_computed_tokens, find_session) = create_mock_onboarding_state();
    slot.txn_prepare_to_onboard_legacy(num_computed_tokens, find_session)
        .unwrap();

    // First install promotes PreparingToOnboard → Onboarding.
    slot.txn_install_or_attach_cd_payload(Box::new(MockCdPayload))
        .unwrap();

    // Second install on Onboarding(cd_payload=Some) must fail.
    let result = slot.txn_install_or_attach_cd_payload(Box::new(MockCdPayload));
    assert!(matches!(
        result.err().unwrap(),
        StateTransitionError::InvalidTransition { .. }
    ));
}

#[test]
fn test_txn_take_onboarding_from_onboarding_succeeds() {
    let mut slot = create_test_slot();
    let (num_computed_tokens, find_session) = create_mock_onboarding_state();

    // Setup: Inactive -> PreparingToOnboard -> Onboarding
    slot.txn_prepare_to_onboard_legacy(num_computed_tokens, find_session)
        .unwrap();
    slot.txn_start_onboarding().unwrap();

    // Take onboarding state
    let result = slot.txn_take_onboarding();
    assert!(result.is_ok());

    let state = result.unwrap();
    assert_eq!(state.num_computed_tokens, 100);

    // Verify we're back to Inactive
    assert!(slot.txn_state().is_inactive());
}

#[test]
fn test_txn_take_onboarding_from_non_onboarding_fails() {
    let mut slot = create_test_slot();

    // Try to take onboarding from Inactive - should fail
    let result = slot.txn_take_onboarding();

    assert!(result.is_err());
    assert!(matches!(
        result.err().unwrap(),
        StateTransitionError::InvalidTransition { .. }
    ));
}

#[test]
fn test_txn_take_onboarding_from_preparing_fails() {
    let mut slot = create_test_slot();
    let (num_computed_tokens, find_session) = create_mock_onboarding_state();

    // Only prepare, don't start
    slot.txn_prepare_to_onboard_legacy(num_computed_tokens, find_session)
        .unwrap();

    // Try to take onboarding from PreparingToOnboard - should fail
    let result = slot.txn_take_onboarding();

    assert!(result.is_err());
    assert!(matches!(
        result.err().unwrap(),
        StateTransitionError::InvalidTransition { .. }
    ));
}

#[test]
fn test_txn_take_preparing_to_onboard_from_preparing_succeeds() {
    let mut slot = create_test_slot();
    let (num_computed_tokens, find_session) = create_mock_onboarding_state();

    // Setup: Inactive -> PreparingToOnboard
    slot.txn_prepare_to_onboard_legacy(num_computed_tokens, find_session)
        .unwrap();
    assert!(matches!(
        slot.txn_state(),
        TransactionState::PreparingToOnboard(_)
    ));

    // Take the PreparingToOnboard state
    let result = slot.txn_take_preparing_to_onboard();
    assert!(result.is_ok());

    let state = result.unwrap();
    assert_eq!(state.num_computed_tokens, 100);

    // Verify we're back to Inactive
    assert!(slot.txn_state().is_inactive());
}

#[test]
fn test_txn_take_preparing_to_onboard_from_inactive_fails() {
    let mut slot = create_test_slot();

    // Try from Inactive - should fail
    let result = slot.txn_take_preparing_to_onboard();

    assert!(result.is_err());
    assert!(matches!(
        result.err().unwrap(),
        StateTransitionError::InvalidTransition { .. }
    ));
}

#[test]
fn test_txn_take_preparing_to_onboard_from_onboarding_fails() {
    let mut slot = create_test_slot();
    let (num_computed_tokens, find_session) = create_mock_onboarding_state();

    // Setup: Inactive -> PreparingToOnboard -> Onboarding
    slot.txn_prepare_to_onboard_legacy(num_computed_tokens, find_session)
        .unwrap();
    slot.txn_start_onboarding().unwrap();

    // Try from Onboarding - should fail; Onboarding must go through
    // txn_take_onboarding, not txn_take_preparing_to_onboard.
    let result = slot.txn_take_preparing_to_onboard();

    assert!(result.is_err());
    assert!(matches!(
        result.err().unwrap(),
        StateTransitionError::InvalidTransition { .. }
    ));

    // State is preserved on failed transition
    assert!(matches!(slot.txn_state(), TransactionState::Onboarding(_)));
}

#[test]
fn test_txn_take_preparing_to_onboard_side_effect_when_marked() {
    let mut slot = create_test_slot();
    let (num_computed_tokens, find_session) = create_mock_onboarding_state();

    // Setup: Inactive -> PreparingToOnboard
    slot.txn_prepare_to_onboard_legacy(num_computed_tokens, find_session)
        .unwrap();

    // Mark for deletion — this is the cancel path in request_finished.
    let status = slot.slot_mark_finished();
    assert_eq!(status, FinishedStatus::Pending);

    // Take the state
    let _ = slot.txn_take_preparing_to_onboard().unwrap();

    // Slot stays marked for deletion; txn_to_inactive advanced the
    // slot_state to NotifyWorkersToFinish (same side effect as the
    // other take_* methods).
    assert!(slot.is_marked_for_deletion());
    assert!(slot.txn_state().is_inactive());
}

#[test]
fn test_txn_start_offloading_from_inactive_succeeds() {
    let mut slot = create_test_slot();

    // Initial state should be Inactive
    assert!(slot.txn_state().is_inactive());

    // Start offloading
    let result = slot.txn_start_offloading();
    assert!(result.is_ok());

    // Verify state changed
    assert!(matches!(slot.txn_state(), TransactionState::Offloading(_)));
}

#[test]
fn test_txn_start_offloading_from_non_inactive_fails() {
    let mut slot = create_test_slot();

    // Start offloading
    slot.txn_start_offloading().unwrap();

    // Try to start again - should fail
    let result = slot.txn_start_offloading();

    assert!(result.is_err());
    assert!(matches!(
        result.err().unwrap(),
        StateTransitionError::InvalidTransition { .. }
    ));
}

#[test]
fn test_txn_start_offloading_when_marked_for_deletion_fails() {
    let mut slot = create_test_slot();

    // Mark for deletion
    let _ = slot.slot_mark_finished();

    // Try to start offloading - should fail
    let result = slot.txn_start_offloading();

    assert!(result.is_err());
    assert!(matches!(
        result.err().unwrap(),
        StateTransitionError::MarkedForDeletion
    ));
}

#[test]
fn test_txn_take_offloading_from_offloading_succeeds() {
    let mut slot = create_test_slot();

    // Start offloading
    slot.txn_start_offloading().unwrap();

    // Take offloading state
    let result = slot.txn_take_offloading();
    assert!(result.is_ok());

    let state = result.unwrap();
    assert!(state.handles.is_empty());
    assert!(state.block_mappings.is_empty());

    // Verify we're back to Inactive
    assert!(slot.txn_state().is_inactive());
}

#[test]
fn test_txn_take_offloading_from_non_offloading_fails() {
    let mut slot = create_test_slot();

    // Try to take offloading from Inactive - should fail
    let result = slot.txn_take_offloading();

    assert!(result.is_err());
    assert!(matches!(
        result.err().unwrap(),
        StateTransitionError::InvalidTransition { .. }
    ));
}

#[test]
fn test_txn_to_error_from_onboarding_preserves_state() {
    let mut slot = create_test_slot();
    let (num_computed_tokens, find_session) = create_mock_onboarding_state();

    // Setup: Inactive -> PreparingToOnboard -> Onboarding
    slot.txn_prepare_to_onboard_legacy(num_computed_tokens, find_session)
        .unwrap();
    slot.txn_start_onboarding().unwrap();

    // Transition to error
    slot.txn_to_error();

    // Verify we're in Error state
    assert!(matches!(slot.txn_state(), TransactionState::Error(_)));
}

#[test]
fn test_txn_to_error_from_offloading_preserves_state() {
    let mut slot = create_test_slot();

    // Start offloading
    slot.txn_start_offloading().unwrap();

    // Transition to error
    slot.txn_to_error();

    // Verify we're in Error state
    assert!(matches!(slot.txn_state(), TransactionState::Error(_)));
}

#[test]
fn test_txn_to_error_from_inactive_stays_inactive() {
    let mut slot = create_test_slot();

    // Transition to error from Inactive (no-op)
    slot.txn_to_error();

    // Should stay Inactive since there's no data to preserve
    assert!(slot.txn_state().is_inactive());
}

#[test]
fn test_txn_take_error_transitions_to_inactive() {
    let mut slot = create_test_slot();
    let (num_computed_tokens, find_session) = create_mock_onboarding_state();

    // Setup: get to Error state
    slot.txn_prepare_to_onboard_legacy(num_computed_tokens, find_session)
        .unwrap();
    slot.txn_start_onboarding().unwrap();
    slot.txn_to_error();

    // Take error state
    let result = slot.txn_take_error();
    assert!(result.is_ok());

    let data = result.unwrap();
    assert!(matches!(data, ActiveStateData::Onboarding(_)));

    // Verify we're back to Inactive
    assert!(slot.txn_state().is_inactive());
}

#[test]
fn test_txn_take_error_from_non_error_fails() {
    let mut slot = create_test_slot();

    // Try to take error from Inactive - should fail
    let result = slot.txn_take_error();

    assert!(result.is_err());
    assert!(matches!(
        result.err().unwrap(),
        StateTransitionError::InvalidTransition { .. }
    ));
}

#[test]
fn test_slot_mark_finished_from_active_with_inactive_txn() {
    let mut slot = create_test_slot();

    // Slot is Active, transaction is Inactive
    assert!(!slot.is_marked_for_deletion());
    assert!(slot.txn_state().is_inactive());

    // Mark finished - should return Finished immediately
    let status = slot.slot_mark_finished();
    assert_eq!(status, FinishedStatus::Finished);

    // Verify marked for deletion
    assert!(slot.is_marked_for_deletion());
}

#[test]
fn test_slot_mark_finished_with_active_txn_returns_pending() {
    let mut slot = create_test_slot();

    // Start an offloading transaction
    slot.txn_start_offloading().unwrap();

    // Mark finished - should return Pending
    let status = slot.slot_mark_finished();
    assert_eq!(status, FinishedStatus::Pending);

    // Verify marked for deletion
    assert!(slot.is_marked_for_deletion());
}

#[test]
fn test_double_mark_finished_is_idempotent() {
    let mut slot = create_test_slot();

    // First mark
    let status1 = slot.slot_mark_finished();
    assert_eq!(status1, FinishedStatus::Finished);

    // Second mark - should still be Finished
    let status2 = slot.slot_mark_finished();
    assert_eq!(status2, FinishedStatus::Finished);
}

#[test]
fn test_txn_to_inactive_triggers_marked_to_notify_workers() {
    let mut slot = create_test_slot();

    // Start offloading
    slot.txn_start_offloading().unwrap();

    // Mark for deletion - still Pending because transaction is active
    let status = slot.slot_mark_finished();
    assert_eq!(status, FinishedStatus::Pending);

    // Take offloading (this calls txn_to_inactive internally)
    let _ = slot.txn_take_offloading().unwrap();

    // Now slot_state should have progressed to NotifyWorkersToFinish
    // We can verify this by checking is_marked_for_deletion is still true
    // and the slot is ready for cleanup
    assert!(slot.is_marked_for_deletion());
    assert!(slot.txn_state().is_inactive());
}

#[test]
fn test_txn_take_onboarding_side_effect_when_marked() {
    let mut slot = create_test_slot();
    let (num_computed_tokens, find_session) = create_mock_onboarding_state();

    // Setup onboarding
    slot.txn_prepare_to_onboard_legacy(num_computed_tokens, find_session)
        .unwrap();
    slot.txn_start_onboarding().unwrap();

    // Mark for deletion
    let status = slot.slot_mark_finished();
    assert_eq!(status, FinishedStatus::Pending);

    // Take onboarding
    let _ = slot.txn_take_onboarding().unwrap();

    // Verify side effects
    assert!(slot.is_marked_for_deletion());
    assert!(slot.txn_state().is_inactive());
}

#[test]
fn test_txn_take_error_side_effect_when_marked() {
    let mut slot = create_test_slot();
    let (num_computed_tokens, find_session) = create_mock_onboarding_state();

    // Setup and transition to error
    slot.txn_prepare_to_onboard_legacy(num_computed_tokens, find_session)
        .unwrap();
    slot.txn_to_error();

    // Mark for deletion
    let status = slot.slot_mark_finished();
    assert_eq!(status, FinishedStatus::Pending);

    // Take error
    let _ = slot.txn_take_error().unwrap();

    // Verify side effects
    assert!(slot.is_marked_for_deletion());
    assert!(slot.txn_state().is_inactive());
}

#[test]
fn test_full_onboard_lifecycle_happy_path() {
    let mut slot = create_test_slot();
    let (num_computed_tokens, find_session) = create_mock_onboarding_state();

    // 1. Start in Inactive
    assert!(slot.txn_state().is_inactive());

    // 2. Prepare to onboard
    slot.txn_prepare_to_onboard_legacy(num_computed_tokens, find_session)
        .unwrap();
    assert!(matches!(
        slot.txn_state(),
        TransactionState::PreparingToOnboard(_)
    ));

    // 3. Start onboarding
    slot.txn_start_onboarding().unwrap();
    assert!(matches!(slot.txn_state(), TransactionState::Onboarding(_)));

    // 4. Complete onboarding
    let state = slot.txn_take_onboarding().unwrap();
    assert_eq!(state.num_computed_tokens, 100);

    // 5. Back to Inactive
    assert!(slot.txn_state().is_inactive());

    // 6. Can be finished
    let status = slot.slot_mark_finished();
    assert_eq!(status, FinishedStatus::Finished);
}

#[test]
fn test_full_offload_lifecycle_happy_path() {
    let mut slot = create_test_slot();

    // 1. Start in Inactive
    assert!(slot.txn_state().is_inactive());

    // 2. Start offloading
    slot.txn_start_offloading().unwrap();
    assert!(matches!(slot.txn_state(), TransactionState::Offloading(_)));

    // 3. Complete offloading
    let state = slot.txn_take_offloading().unwrap();
    assert!(state.handles.is_empty());

    // 4. Back to Inactive
    assert!(slot.txn_state().is_inactive());

    // 5. Can be finished
    let status = slot.slot_mark_finished();
    assert_eq!(status, FinishedStatus::Finished);
}

#[test]
fn test_offload_with_request_finished_during_offloading() {
    let mut slot = create_test_slot();

    // 1. Start offloading
    slot.txn_start_offloading().unwrap();

    // 2. Request finished while offloading
    let status = slot.slot_mark_finished();
    assert_eq!(status, FinishedStatus::Pending);

    // 3. Offloading completes
    let _ = slot.txn_take_offloading().unwrap();

    // 4. Now slot is ready for removal
    assert!(slot.is_marked_for_deletion());
    assert!(slot.txn_state().is_inactive());
}

#[test]
fn test_onboard_with_request_finished_during_preparing() {
    let mut slot = create_test_slot();
    let (num_computed_tokens, find_session) = create_mock_onboarding_state();

    // 1. Prepare to onboard
    slot.txn_prepare_to_onboard_legacy(num_computed_tokens, find_session)
        .unwrap();

    // 2. Request finished while preparing
    let status = slot.slot_mark_finished();
    assert_eq!(status, FinishedStatus::Pending);

    // 3. Cannot proceed to onboarding (marked for deletion)
    let result = slot.txn_start_onboarding();
    assert!(result.is_err());

    // 4. Can transition to error and recover
    slot.txn_to_error();
    let _ = slot.txn_take_error().unwrap();

    // 5. Now slot is ready for removal
    assert!(slot.is_marked_for_deletion());
    assert!(slot.txn_state().is_inactive());
}

#[test]
fn test_error_recovery_path() {
    let mut slot = create_test_slot();
    let (num_computed_tokens, find_session) = create_mock_onboarding_state();

    // 1. Start onboarding
    slot.txn_prepare_to_onboard_legacy(num_computed_tokens, find_session)
        .unwrap();
    slot.txn_start_onboarding().unwrap();

    // 2. Error occurs
    slot.txn_to_error();
    assert!(matches!(slot.txn_state(), TransactionState::Error(_)));

    // 3. Recover from error
    let data = slot.txn_take_error().unwrap();
    assert!(matches!(data, ActiveStateData::Onboarding(_)));

    // 4. Back to Inactive, can start fresh
    assert!(slot.txn_state().is_inactive());

    // 5. Can start a new transaction
    slot.txn_start_offloading().unwrap();
    assert!(matches!(slot.txn_state(), TransactionState::Offloading(_)));
}

#[test]
fn test_reset_for_preemption_clears_state() {
    let mut slot = create_test_slot();
    let (num_computed_tokens, find_session) = create_mock_onboarding_state();

    // Setup some state
    slot.apply_new_blocks(vec![100, 200]);
    slot.txn_prepare_to_onboard_legacy(num_computed_tokens, find_session)
        .unwrap();
    slot.advance_evaluated_tokens(50);
    slot.set_match_requires_reset(true);

    // Reset
    slot.reset_for_preemption();

    // Verify cleared
    assert!(slot.block_matches().assigned_blocks.is_empty());
    assert!(slot.block_matches().unassigned_blocks.is_empty());
    assert_eq!(slot.evaluated_tokens(), 0);
    assert!(!slot.is_finished_evaluating());
    assert!(!slot.match_requires_reset());
    assert!(slot.txn_state().is_inactive());
}

#[test]
fn test_reset_for_preemption_from_offloading() {
    let mut slot = create_test_slot();

    // Start offloading
    slot.txn_start_offloading().unwrap();
    assert!(matches!(slot.txn_state(), TransactionState::Offloading(_)));

    // Reset
    slot.reset_for_preemption();

    // Verify back to Inactive
    assert!(slot.txn_state().is_inactive());
}

#[test]
fn test_has_onboarding_state_returns_true_when_onboarding() {
    let mut slot = create_test_slot();
    let (num_computed_tokens, find_session) = create_mock_onboarding_state();

    // Initially false
    assert!(!slot.has_onboarding_state());

    // True when preparing
    slot.txn_prepare_to_onboard_legacy(num_computed_tokens, find_session)
        .unwrap();
    assert!(slot.has_onboarding_state());

    // True when onboarding
    slot.txn_start_onboarding().unwrap();
    assert!(slot.has_onboarding_state());

    // False after taking
    let _ = slot.txn_take_onboarding().unwrap();
    assert!(!slot.has_onboarding_state());
}

#[test]
fn test_onboarding_state_accessor() {
    let mut slot = create_test_slot();
    let (num_computed_tokens, find_session) = create_mock_onboarding_state();

    // Initially None
    assert!(slot.onboarding_state().is_none());

    // Some when preparing
    slot.txn_prepare_to_onboard_legacy(num_computed_tokens, find_session)
        .unwrap();
    let state = slot.onboarding_state().unwrap();
    assert_eq!(state.num_computed_tokens, 100);
}

#[test]
fn test_offloading_state_accessor() {
    let mut slot = create_test_slot();

    // Initially None
    assert!(slot.offloading_state().is_none());

    // Some when offloading
    slot.txn_start_offloading().unwrap();
    let state = slot.offloading_state().unwrap();
    assert!(state.handles.is_empty());
}

#[test]
fn test_get_or_create_offloading_state() {
    let mut slot = create_test_slot();

    // Initially Inactive
    assert!(slot.txn_state().is_inactive());

    // Get or create should create
    let state = slot.get_or_create_offloading_state();
    assert!(state.handles.is_empty());

    // Now in Offloading state
    assert!(matches!(slot.txn_state(), TransactionState::Offloading(_)));

    // Get or create again should return same state
    let state2 = slot.get_or_create_offloading_state();
    assert!(state2.handles.is_empty());
}

#[test]
fn test_cannot_offload_while_onboarding() {
    let mut slot = create_test_slot();
    let (num_computed_tokens, find_session) = create_mock_onboarding_state();

    // Start onboarding
    slot.txn_prepare_to_onboard_legacy(num_computed_tokens, find_session)
        .unwrap();

    // Try to start offloading - should fail
    let result = slot.txn_start_offloading();
    assert!(result.is_err());
}

#[test]
fn test_cannot_onboard_while_offloading() {
    let mut slot = create_test_slot();
    let (num_computed_tokens, find_session) = create_mock_onboarding_state();

    // Start offloading
    slot.txn_start_offloading().unwrap();

    // Try to prepare onboard - should fail
    let result = slot.txn_prepare_to_onboard_legacy(num_computed_tokens, find_session);
    assert!(result.is_err());
}

#[test]
fn payload_alone_makes_an_onboarding() {
    let state = OnboardingState::new_cd_only(Box::new(MockCdPayload));
    assert!(state.shards.is_empty());
    assert!(state.cd_payload.is_some());
    assert_eq!(state.num_computed_tokens, 0);
    assert_eq!(state.total_tokens_at_start, 0);
}

#[test]
fn notified_workers_are_awaited() {
    let mut machine = SlotStateMachine::new();
    assert!(!machine.has_offloading_state());
    machine.slot_mark_workers_notified();
    assert_eq!(machine.slot_state, SlotState::AwaitCompletion);
    assert!(machine.is_marked_for_deletion());
}
