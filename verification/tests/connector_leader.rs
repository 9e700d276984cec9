//! The connector leader and the slots it owns.

use kvbm::common::InstanceId;
use kvbm::connector::leader::{
    collect_g2_blocks_from_shards, AllocAction, ConnectorError, ConnectorLeader, OnboardMode,
};
use kvbm::connector::machine::{
    ActiveStateData, FinishedStatus, SlotState, StateTransitionError, TransactionState,
    TransferHandle, TransferStatus,
};
use kvbm::connector::onboarding::{
    shard_is_terminal, shard_terminal_matched_count, CdOnboardingPayload, OnboardingShard,
    OnboardingState,
};
use kvbm::connector::request::{CachedRequestData, RemotePrefillParams, Request, TransferParams};
use kvbm::connector::slot::{MatchCheckOutcome, RecordOffloadError, RequestSlot};
use kvbm::engine::instance::InstanceLeader;
use kvbm::engine::matches::{
    AsyncSessionResult, FindMatchesResult, MatchBreakdown, MatchedBlock, OnboardingStatus,
    ReadyResult,
};
use kvbm::tokens::SequenceHash;

const BLOCK_SIZE: usize = 4;

fn leader(mode: OnboardMode) -> ConnectorLeader {
    ConnectorLeader::new(BLOCK_SIZE, mode, InstanceId { bits: 1 })
}

fn request(request_id: &str, tokens: u32) -> Request {
    Request::new(String::from(request_id), (0..tokens).collect(), 0)
}

fn leader_with(request_id: &str, tokens: u32) -> ConnectorLeader {
    let mut leader = leader(OnboardMode::Inter);
    leader.create_slot(request(request_id, tokens)).unwrap();
    leader
}

fn slot(tokens: u32) -> RequestSlot {
    RequestSlot::new(request("r", tokens), BLOCK_SIZE)
}

fn block(block_id: usize) -> MatchedBlock {
    MatchedBlock {
        block_id,
        sequence_hash: SequenceHash::new(block_id as u64, None, 0),
    }
}

fn breakdown(host_blocks: usize) -> MatchBreakdown {
    MatchBreakdown {
        host_blocks,
        disk_blocks: 0,
        object_blocks: 0,
    }
}

fn ready_shard(start_block: usize, num_queried_blocks: usize, blocks: Vec<usize>) -> OnboardingShard {
    let matched = blocks.len();
    OnboardingShard {
        start_block,
        num_queried_blocks,
        find_session: FindMatchesResult::Ready(ReadyResult::new(
            blocks.into_iter().map(block).collect(),
            breakdown(matched),
        )),
    }
}

fn session_shard(session_id: u128, status: OnboardingStatus) -> OnboardingShard {
    OnboardingShard {
        start_block: 0,
        num_queried_blocks: 4,
        find_session: FindMatchesResult::AsyncSession(AsyncSessionResult {
            session_id,
            status,
            blocks: None,
            breakdown: breakdown(0),
            control: None,
        }),
    }
}

fn found(blocks: Vec<usize>) -> FindMatchesResult {
    ready_shard(0, 0, blocks).find_session
}

fn active(transfer_id: u128) -> TransferHandle {
    TransferHandle {
        transfer_id,
        status: TransferStatus::Active,
    }
}

struct Cleanup;

impl CdOnboardingPayload for Cleanup {}

#[test]
fn slots_are_created_once() {
    let mut leader = leader_with("a", 8);
    assert!(leader.has_slot("a"));
    assert!(!leader.has_slot("b"));
    let error = leader.create_slot(request("a", 4)).err().unwrap();
    assert_eq!(error.message(), "Slot already exists for request ID: a");
    assert_eq!(leader.get_slot_total_tokens("a").unwrap(), 8);
    let error = leader.get_slot_total_tokens("b").err().unwrap();
    assert_eq!(error.message(), "Slot not found for request ID: b");
    assert_eq!(leader.get_slot("a").ok().unwrap().request_id(), "a");
}

#[test]
fn handles_are_set_once() {
    let mut leader = leader(OnboardMode::Intra);
    assert_eq!(leader.onboard_mode(), OnboardMode::Intra);
    assert_eq!(leader.block_size(), BLOCK_SIZE);
    assert_eq!(leader.local_instance_id(), InstanceId { bits: 1 });
    assert!(leader.set_cd_api(5).is_ok());
    assert!(leader.set_cd_api(6).is_err());
    assert_eq!(leader.cd_api(), Some(5));
    assert!(leader.set_instance_leader(7).is_ok());
    assert!(leader.set_instance_leader(8).is_err());
    assert_eq!(leader.instance_leader(), Some(7));
    assert_eq!(leader.offload_engine(), None);
    assert!(leader.set_offload_engine(9).is_ok());
    assert!(leader.set_offload_engine(10).is_err());
    assert_eq!(leader.offload_engine(), Some(9));
    assert_eq!(leader.disagg_client(), None);
    assert!(leader.set_disagg_client(11).is_ok());
    assert!(leader.set_disagg_client(12).is_err());
    assert_eq!(leader.disagg_client(), Some(11));
}

#[test]
fn match_check_answers_the_scheduler() {
    let mut leader = leader_with("a", 16);
    leader.begin_match_check("a");
    let answer =
        leader.get_num_new_matched_tokens::<String>("a", Ok(MatchCheckOutcome::InProgress), true);
    assert_eq!(answer.answer, Ok((None, false)));
    assert!(answer.cache_metrics.is_none());

    let answer = leader.get_num_new_matched_tokens::<String>(
        "a",
        Ok(MatchCheckOutcome::Found { matched_tokens: 8 }),
        true,
    );
    assert_eq!(answer.answer, Ok((Some(8), true)));
    assert_eq!(answer.report_matched_tokens, Some(8));
    // The count is reported once.
    let answer = leader.get_num_new_matched_tokens::<String>(
        "a",
        Ok(MatchCheckOutcome::Found { matched_tokens: 8 }),
        true,
    );
    assert_eq!(answer.report_matched_tokens, None);

    let answer =
        leader.get_num_new_matched_tokens::<String>("a", Ok(MatchCheckOutcome::NoMatch), true);
    assert_eq!(answer.answer, Ok((Some(0), false)));
}

#[test]
fn intra_mode_never_reports_async() {
    let mut leader = leader(OnboardMode::Intra);
    leader.create_slot(request("a", 16)).unwrap();
    let answer = leader.get_num_new_matched_tokens::<String>(
        "a",
        Ok(MatchCheckOutcome::Found { matched_tokens: 8 }),
        true,
    );
    assert_eq!(answer.answer, Ok((Some(8), false)));
}

#[test]
fn failed_search_is_reported_on_request() {
    let mut leader = leader_with("a", 16);
    let answer = leader.get_num_new_matched_tokens("a", Err(String::from("lost")), true);
    assert_eq!(answer.answer, Err(String::from("lost")));
    assert!(answer.recover);
    let answer = leader.get_num_new_matched_tokens("a", Err(String::from("lost")), false);
    assert_eq!(answer.answer, Ok((None, false)));
    assert!(answer.recover);
}

#[test]
fn allocation_decides_how_to_load() {
    let mut inter = leader_with("a", 16);
    assert!(matches!(
        inter.update_state_after_alloc("a", vec![1], 0),
        Ok(AllocAction::Nothing)
    ));
    match inter.update_state_after_alloc("a", vec![1, 2], 8) {
        Ok(AllocAction::StartOnboarding {
            block_ids,
            num_external_tokens,
        }) => {
            assert_eq!(block_ids, vec![1, 2]);
            assert_eq!(num_external_tokens, 8);
        }
        _ => panic!("expected an asynchronous load"),
    }
    let error = inter.update_state_after_alloc("a", vec![], 5).err().unwrap();
    assert_eq!(
        error.message(),
        "num_external_tokens 5 is not a multiple of block size 4"
    );
    assert!(matches!(
        inter.update_state_after_alloc("gone", vec![], 4),
        Err(ConnectorError::SlotNotFound { .. })
    ));
    assert!(inter.get_slot("a").ok().unwrap().match_requires_reset());

    let mut intra = leader(OnboardMode::Intra);
    intra.create_slot(request("a", 16)).unwrap();
    assert!(matches!(
        intra.update_state_after_alloc("a", vec![1], 4),
        Ok(AllocAction::PrepareIntraPass { .. })
    ));
}

#[test]
fn match_check_after_allocation_starts_over() {
    let mut leader = leader_with("a", 8);
    leader.apply_block_assignments("a", vec![5, 6]).unwrap();
    assert_eq!(leader.eviction_counts("a").unwrap().total_block_count, 2);
    leader.begin_match_check("a");
    assert_eq!(leader.eviction_counts("a").unwrap().total_block_count, 0);
    assert!(leader.apply_block_assignments("gone", vec![]).is_err());
}

#[test]
fn boundary_info_counts_the_partial_block() {
    let mut leader = leader_with("a", 6);
    let info = leader.get_block_boundary_info("a").unwrap();
    assert!(!info.is_at_boundary);
    assert_eq!(info.current_block_fill, 2);
    assert_eq!(info.tokens_until_boundary, 2);
    leader.extend_slot_tokens("a", vec![6, 7]).unwrap();
    let info = leader.get_block_boundary_info("a").unwrap();
    assert!(info.is_at_boundary);
    assert_eq!(info.tokens_until_boundary, 0);

    let empty = leader_with("e", 0);
    let info = empty.get_block_boundary_info("e").unwrap();
    assert!(!info.is_at_boundary);
    assert_eq!(info.tokens_until_boundary, 4);
}

#[test]
fn eviction_waits_for_offloads() {
    let mut leader = leader_with("a", 8);
    assert!(leader.can_evict("a"));
    assert!(leader.can_evict("gone"));
    for transfer_id in [21, 22] {
        leader
            .record_offload("a", vec![(7, block(7).sequence_hash)], active(transfer_id))
            .unwrap()
            .unwrap();
    }
    assert!(!leader.can_evict("a"));
    assert!(leader.update_transfer_status("a", 21, TransferStatus::Terminal).unwrap());
    assert!(!leader.can_evict("a"));
    assert!(!leader.update_transfer_status("a", 99, TransferStatus::Terminal).unwrap());
    assert!(leader.update_transfer_status("a", 22, TransferStatus::Terminal).unwrap());
    assert!(leader.can_evict("a"));
    assert!(leader.update_transfer_status("gone", 22, TransferStatus::Terminal).is_err());
    let offloaded = leader.take_offloading("a").unwrap().ok().unwrap();
    assert_eq!(offloaded.handles.len(), 2);
    assert_eq!(offloaded.block_mappings.len(), 1);
    assert_eq!(leader.eviction_counts("a").unwrap().g2_block_count, 0);
    assert_eq!(leader.request_priority_offload("a", &vec![1]).unwrap(), 0);
    assert!(leader.get_block_g2_status("a").unwrap().is_empty());
    assert!(leader.get_block_g2_status("gone").is_err());
}

#[test]
fn token_blocks_are_copied_by_range() {
    let leader = leader_with("a", 10);
    let blocks = leader.token_blocks_for_range("a", 1..2).unwrap();
    assert_eq!(blocks.len(), 1);
    assert_eq!(blocks[0].tokens, vec![4, 5, 6, 7]);
    assert_eq!(
        blocks[0].hash,
        leader.get_slot("a").ok().unwrap().all_sequence_hashes()[1]
    );
    let error = leader.token_blocks_for_range("a", 1..3).err().unwrap();
    assert_eq!(
        error.message(),
        "token_blocks_for_range out of bounds: range 1..3, len 2"
    );
    // Reversed ranges are refused like any other that leaves the sequence.
    let (high, low) = (5, 3);
    assert_eq!(
        leader.token_blocks_for_range("a", high..low).err().unwrap().message(),
        "token_blocks_for_range out of bounds: range 5..3, len 2"
    );
    assert_eq!(
        leader.token_blocks_for_range("gone", high..low).err().unwrap().message(),
        "Slot not found for request ID: gone"
    );
    assert_eq!(leader.slot_token_ids("a").unwrap(), (0..10).collect::<Vec<u32>>());
}

#[test]
fn transfer_params_are_read_from_the_slot() {
    let params = TransferParams {
        remote_prefill: Some(RemotePrefillParams {
            session_id: 3,
            initiator: InstanceId { bits: 4 },
        }),
    };
    let mut leader = leader_with("plain", 4);
    leader
        .create_slot(
            request("remote", 4)
                .with_transfer_params(serde_json::Value::Bool(true), Ok(Some(params))),
        )
        .unwrap();
    assert_eq!(leader.slot_transfer_params("plain").unwrap(), None);
    assert_eq!(leader.slot_transfer_params("remote").unwrap(), Some(params));
    assert_eq!(
        leader.get_slot("remote").ok().unwrap().kv_transfer_params(),
        Some(&serde_json::Value::Bool(true))
    );
    assert!(leader.slot_transfer_params("gone").is_err());
}

#[test]
fn split_of_an_idle_slot_is_all_remote() {
    let mut leader = leader_with("a", 16);
    let split = leader.slot_match_split("a").unwrap();
    assert_eq!(split.remote_blocks(), 4);
    assert!(leader.take_local_match_g2_blocks("a").unwrap().is_empty());
    assert!(leader.slot_match_split("gone").is_err());
    assert!(leader.take_local_match_g2_blocks("gone").is_err());
}

#[test]
fn split_and_take_follow_the_onboarding() {
    let mut leader = leader_with("a", 24);
    leader
        .prepare_to_onboard("a", 4, 24, 1, 4, found(vec![10, 11, 12]))
        .unwrap()
        .unwrap();
    let split = leader.slot_match_split("a").unwrap();
    assert_eq!(split.computed_blocks, 1);
    assert_eq!(split.local_match_blocks, 3);
    assert_eq!(split.remote_blocks(), 2);
    // A second search while one runs is refused.
    assert!(leader
        .prepare_to_onboard("a", 4, 24, 1, 4, found(vec![]))
        .unwrap()
        .is_err());
    leader.start_onboarding("a").unwrap().unwrap();
    let ids: Vec<usize> = leader
        .take_local_match_g2_blocks("a")
        .unwrap()
        .iter()
        .map(|b| b.block_id)
        .collect();
    assert_eq!(ids, vec![10, 11, 12]);
    let state = leader.take_onboarding("a").unwrap().ok().unwrap();
    assert_eq!(state.num_computed_tokens, 4);
    assert_eq!(state.total_tokens_at_start, 24);
    assert_eq!(state.shards.len(), 1);
    assert!(leader.take_onboarding("a").unwrap().is_err());
}

#[test]
fn match_check_counts_the_search() {
    let mut leader = leader_with("a", 16);
    leader.begin_match_check("a");
    leader
        .prepare_to_onboard("a", 0, 16, 0, 4, found(vec![10, 11]))
        .unwrap()
        .unwrap();
    let answer = leader.get_num_new_matched_tokens::<String>(
        "a",
        Ok(MatchCheckOutcome::Found { matched_tokens: 8 }),
        true,
    );
    assert_eq!(answer.cache_metrics, Some((breakdown(2), 4)));
    assert_eq!(answer.report_matched_tokens, Some(8));
    assert!(matches!(
        leader.get_slot("a").ok().unwrap().txn_state(),
        TransactionState::PreparingToOnboard(_)
    ));
    let state = leader.take_preparing_to_onboard("a").unwrap().ok().unwrap();
    assert_eq!(state.total_query_blocks(), 4);
}

#[test]
fn failed_search_keeps_its_shards_for_recovery() {
    let mut leader = leader_with("a", 16);
    leader
        .prepare_to_onboard("a", 0, 16, 0, 4, found(vec![10]))
        .unwrap()
        .unwrap();
    let answer = leader.get_num_new_matched_tokens("a", Err(String::from("lost")), false);
    assert!(answer.recover);
    match leader.take_error("a").unwrap().ok().unwrap() {
        ActiveStateData::Onboarding(state) => assert_eq!(state.shards.len(), 1),
        ActiveStateData::Offloading(_) => panic!("expected an onboarding"),
    }
    assert!(leader.take_error("a").unwrap().is_err());
    leader.start_offloading("a").unwrap().unwrap();
    leader.fail_transaction("a").unwrap();
    assert!(matches!(
        leader.take_error("a").unwrap().ok(),
        Some(ActiveStateData::Offloading(_))
    ));
}

#[test]
fn remote_prefill_rides_on_the_onboarding() {
    let mut leader = leader_with("a", 16);
    leader
        .prepare_to_onboard("a", 0, 16, 0, 4, found(vec![10, 11]))
        .unwrap()
        .unwrap();
    leader
        .install_or_attach_cd_payload("a", Box::new(Cleanup))
        .unwrap()
        .unwrap();
    assert!(leader
        .install_or_attach_cd_payload("a", Box::new(Cleanup))
        .unwrap()
        .is_err());
    // Taking the blocks leaves the hook in place.
    assert_eq!(leader.take_local_match_g2_blocks("a").unwrap().len(), 2);
    let state = leader.take_onboarding("a").unwrap().ok().unwrap();
    assert!(state.cd_payload.is_some());
    assert_eq!(state.total_tokens_at_start, 16);
}

#[test]
fn steps_need_a_slot() {
    let mut leader = leader_with("a", 16);
    let error = leader
        .prepare_to_onboard("b", 0, 16, 0, 4, found(vec![]))
        .err()
        .unwrap();
    assert_eq!(error.message(), "Slot not found for request ID: b");
    assert!(leader.start_onboarding("b").is_err());
    assert!(leader.take_onboarding("b").is_err());
    assert!(leader.take_preparing_to_onboard("b").is_err());
    assert!(leader.record_offload("b", vec![], active(1)).is_err());
    assert!(leader.fail_transaction("b").is_err());
    assert!(leader.take_pending_intra_pass("b").is_err());
    assert!(leader.get_slot_mut("b").is_err());
    assert_eq!(leader.mark_finished("b"), FinishedStatus::UntrackedRequest);
}

#[test]
fn finishing_waits_for_the_transaction() {
    let mut leader = leader_with("a", 16);
    leader.create_slot(request("idle", 4)).unwrap();
    leader
        .record_offload("a", vec![(3, block(3).sequence_hash)], active(1))
        .unwrap()
        .unwrap();
    assert_eq!(leader.mark_finished("a"), FinishedStatus::Pending);
    assert_eq!(leader.mark_finished("idle"), FinishedStatus::Finished);
    assert_eq!(
        leader.record_offload("a", vec![], active(2)).unwrap(),
        Err(RecordOffloadError::MarkedForDeletion)
    );
    assert!(matches!(
        leader.prepare_to_onboard("idle", 0, 4, 0, 1, found(vec![])).unwrap(),
        Err(StateTransitionError::MarkedForDeletion)
    ));
}

#[test]
fn intra_pass_blocks_are_collected_per_request() {
    let mut leader = leader(OnboardMode::Intra);
    leader.create_slot(request("a", 16)).unwrap();
    leader.extend_pending_intra_pass("a", vec![1], vec![5]).unwrap();
    leader.extend_pending_intra_pass("a", vec![2], vec![6]).unwrap();
    let pending = leader.take_pending_intra_pass("a").unwrap().unwrap();
    assert_eq!(pending.g2_block_ids, vec![1, 2]);
    assert_eq!(pending.g1_block_ids, vec![5, 6]);
    assert!(leader.take_pending_intra_pass("a").unwrap().is_none());
}

#[test]
fn lent_slot_changes_in_place() {
    let mut leader = leader_with("a", 16);
    leader.create_slot(request("b", 8)).unwrap();
    leader.get_slot_mut("a").ok().unwrap().mark_finished_evaluating();
    assert!(leader.get_slot("a").ok().unwrap().is_finished_evaluating());
    assert!(!leader.get_slot("b").ok().unwrap().is_finished_evaluating());
    assert_eq!(leader.get_slot("a").ok().unwrap().initial_isl_tokens(), 16);
}

#[test]
fn taken_blocks_fill_the_matched_span() {
    let mut state = OnboardingState::new(4, 24, ready_shard(0, 3, vec![10, 11, 12]));
    state.shards.push(ready_shard(3, 3, vec![13]));
    // One computed block is skipped; the second shard matched one of three.
    assert_eq!(state.matched_span(BLOCK_SIZE), (1, 4));
    let taken = collect_g2_blocks_from_shards(&mut state, BLOCK_SIZE).unwrap();
    let ids: Vec<usize> = taken.iter().map(|b| b.block_id).collect();
    assert_eq!(ids, vec![11, 12, 13]);
    assert_eq!(state.matched_span(BLOCK_SIZE), (1, 4));
}

#[test]
fn blocks_of_a_running_session_are_missing() {
    let mut state = OnboardingState::new(
        0,
        16,
        session_shard(5, OnboardingStatus::Complete { matched_blocks: 2 }),
    );
    assert!(collect_g2_blocks_from_shards(&mut state, BLOCK_SIZE).is_none());
}

#[test]
fn hole_in_the_first_shard_ends_the_span() {
    let mut state = OnboardingState::new(0, 24, ready_shard(0, 3, vec![10, 11]));
    state.shards.push(ready_shard(3, 3, vec![13, 14, 15]));
    assert_eq!(state.matched_span(BLOCK_SIZE), (0, 2));
    assert_eq!(state.total_query_blocks(), 6);
    assert_eq!(state.aggregate_breakdown().host_blocks, 5);
    assert!(state.debug_assert_contiguous());
    state.shards.push(ready_shard(9, 1, vec![]));
    assert!(!state.debug_assert_contiguous());
}

#[test]
fn terminal_statuses_end_a_shard() {
    for (status, terminal, matched) in [
        (OnboardingStatus::Searching, false, 0),
        (OnboardingStatus::Preparing { matched_blocks: 1 }, false, 0),
        (OnboardingStatus::Staging { matched_blocks: 1 }, false, 0),
        (OnboardingStatus::Complete { matched_blocks: 3 }, true, 3),
    ] {
        let shard = session_shard(1, status);
        assert_eq!(shard_is_terminal(&shard), terminal);
        if terminal {
            assert_eq!(shard_terminal_matched_count(&shard), matched);
        }
    }
    let state = OnboardingState::new(0, 16, session_shard(1, OnboardingStatus::Searching));
    assert!(!state.all_shards_terminal());
    let state = OnboardingState::new(0, 16, ready_shard(0, 4, vec![]));
    assert!(state.all_shards_terminal());
    assert_eq!(state.shards[0].end_block(), 4);
}

#[test]
fn releasing_an_onboarding_forgets_its_sessions() {
    let mut engine = InstanceLeader::builder()
        .messenger(InstanceId { bits: 1 })
        .registry(2)
        .g2_manager(3)
        .build(0)
        .ok()
        .unwrap();
    engine.insert_test_session_marker(5, 0);
    engine.insert_test_session_marker(6, 0);
    let state = OnboardingState::new(0, 16, session_shard(5, OnboardingStatus::Searching));
    state.release_all(&mut engine);
    assert!(!engine.has_session(5));
    assert!(engine.has_session(6));
}

#[test]
fn transition_errors_name_the_states() {
    let mut slot = slot(8);
    let error = slot.txn_start_onboarding().err().unwrap();
    match &error {
        StateTransitionError::InvalidTransition { .. } => {}
        StateTransitionError::MarkedForDeletion => panic!("expected an invalid transition"),
    }
    assert_eq!(
        error.message(),
        "Invalid transition from Inactive to Onboarding"
    );
    slot.slot_mark_finished();
    assert_eq!(
        slot.txn_start_offloading().err().unwrap().message(),
        "Slot is marked for deletion; no new transactions allowed"
    );
}

#[test]
fn settled_marked_slot_notifies_workers() {
    let mut slot = slot(8);
    slot.txn_start_offloading().unwrap();
    slot.slot_mark_finished();
    assert!(matches!(
        slot.state_machine().slot_state,
        SlotState::MarkedForDeletion
    ));
    slot.txn_take_offloading().ok().unwrap();
    assert!(matches!(
        slot.state_machine().slot_state,
        SlotState::NotifyWorkersToFinish
    ));
}

fn handle(transfer_id: u128, status: TransferStatus) -> TransferHandle {
    TransferHandle {
        transfer_id,
        status,
    }
}

#[test]
fn offloads_are_recorded_until_they_end() {
    let mut slot = slot(8);
    slot.apply_new_blocks(vec![5, 6]);
    let mappings = slot.get_next_block_mappings(8);
    assert_eq!(slot.mapped_block_count(), 0);
    slot.record_offload(mappings.clone(), handle(1, TransferStatus::Active))
        .unwrap();
    slot.record_offload(mappings, handle(2, TransferStatus::Terminal))
        .unwrap();
    assert_eq!(slot.mapped_block_count(), 2);
    assert!(slot.has_inflight_offloads());
    for handle in slot.offloading_state_mut().unwrap().handles.iter_mut() {
        handle.status = TransferStatus::Terminal;
    }
    assert!(!slot.has_inflight_offloads());
}

#[test]
fn offloads_are_refused_while_loading() {
    let mut loading = slot(8);
    loading
        .txn_prepare_to_onboard(
            0,
            8,
            0,
            2,
            FindMatchesResult::Ready(ReadyResult::new(vec![], breakdown(0))),
        )
        .unwrap();
    assert_eq!(
        loading.record_offload(vec![], handle(1, TransferStatus::Active)),
        Err(RecordOffloadError::InvalidTransactionState)
    );
    assert_eq!(loading.total_query_blocks(), 2);
    assert!(matches!(
        loading.txn_state(),
        TransactionState::PreparingToOnboard(_)
    ));

    let mut marked = slot(8);
    marked.slot_mark_finished();
    assert_eq!(
        marked.record_offload(vec![], handle(1, TransferStatus::Active)),
        Err(RecordOffloadError::MarkedForDeletion)
    );
}

#[test]
fn pending_intra_pass_accumulates() {
    let mut slot = slot(8);
    assert!(!slot.has_pending_intra_pass());
    slot.extend_pending_intra_pass(vec![1], vec![2]);
    slot.extend_pending_intra_pass(vec![3], vec![4]);
    // Preemption leaves it in place.
    slot.reset_for_preemption();
    assert!(slot.has_pending_intra_pass());
    let pending = slot.take_pending_intra_pass().unwrap();
    assert_eq!(pending.g2_block_ids, vec![1, 3]);
    assert_eq!(pending.g1_block_ids, vec![2, 4]);
    assert!(slot.take_pending_intra_pass().is_none());
}

#[test]
fn resumed_request_brings_missing_tokens() {
    let mut slot = slot(6);
    slot.update_from_resumed_request(&CachedRequestData {
        request_id: String::from("r"),
        all_token_ids: Some((0..9).collect()),
    })
    .unwrap();
    assert_eq!(slot.total_tokens(), 9);
    assert_eq!(slot.all_sequence_hashes().len(), 2);
    slot.update_from_resumed_request(&CachedRequestData {
        request_id: String::from("r"),
        all_token_ids: Some(vec![0]),
    })
    .unwrap();
    slot.update_from_resumed_request(&CachedRequestData {
        request_id: String::from("r"),
        all_token_ids: None,
    })
    .unwrap();
    assert_eq!(slot.total_tokens(), 9);
    assert_eq!(slot.initial_isl_tokens(), 6);
}

#[test]
fn slot_counters_move_as_told() {
    let mut slot = slot(8);
    assert_eq!(slot.block_size(), BLOCK_SIZE);
    slot.advance_evaluated_tokens(7);
    assert_eq!(slot.evaluated_tokens(), 7);
    assert_eq!(slot.evaluated_blocks(), 1);
    slot.advance_evaluated_tokens(usize::MAX);
    assert_eq!(slot.evaluated_tokens(), usize::MAX);
    assert!(!slot.is_finished_evaluating());
    slot.mark_finished_evaluating();
    assert!(slot.is_finished_evaluating());
    assert!(slot.mark_matched_tokens_reported());
    assert!(!slot.mark_matched_tokens_reported());
    slot.reset_matched_tokens_reported();
    assert!(slot.mark_matched_tokens_reported());
}

#[test]
fn failed_match_check_keeps_the_data() {
    let mut slot = slot(8);
    slot.txn_prepare_to_onboard_legacy(
        0,
        FindMatchesResult::Ready(ReadyResult::new(vec![], breakdown(0))),
    )
    .unwrap();
    let res: Result<(Option<usize>, bool), &str> = slot.finalize_match_check(Err("lost"));
    assert_eq!(res, Err("lost"));
    assert!(matches!(slot.txn_state(), TransactionState::Error(_)));
    let res: Result<(Option<usize>, bool), &str> =
        slot.finalize_match_check(Ok(MatchCheckOutcome::Found { matched_tokens: 0 }));
    assert_eq!(res, Ok((Some(0), false)));
    assert!(slot.txn_state().is_inactive());
}
