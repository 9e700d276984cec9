//! The feature registries of the hub.

use kvbm::common::InstanceId;
use kvbm::engine::describe::{KvBlockLayout, LayoutConfig};
use kvbm::engine::instance::BlockLayoutMode;
use kvbm::hub::conditional_disagg::ConditionalDisaggManager;
use kvbm::hub::dispatcher::{
    keep_decoded, prefill_dispatcher_step, DispatchOutcome, PumpAction, PumpEvent,
};
use kvbm::hub::features::FeatureError;
use kvbm::hub::p2p::{LayoutCheck, P2pManager};
use kvbm::hub::protocol::{
    CanonicalBlockShape, ConditionalDisaggConfig, ConditionalDisaggRole, Feature, FeatureKey,
    LayoutCompatPayload, P2pConfig, PrefillRequest,
};

fn id(bits: u128) -> InstanceId {
    InstanceId { bits }
}

fn cd(role: ConditionalDisaggRole) -> Feature {
    Feature::ConditionalDisagg(ConditionalDisaggConfig { role })
}

fn payload(mode: BlockLayoutMode) -> LayoutCompatPayload {
    LayoutCompatPayload {
        mode,
        canonical: Some(CanonicalBlockShape {
            num_layers_total: 32,
            outer_dim: 2,
            page_size: 16,
            num_heads_total: 64,
            head_dim: 128,
            dtype_width_bytes: 2,
        }),
        per_worker_layout: match mode {
            BlockLayoutMode::Operational => KvBlockLayout::OperationalNHD,
            BlockLayoutMode::Universal => KvBlockLayout::Universal,
        },
        per_worker_config: LayoutConfig {
            num_blocks: 1024,
            num_layers: 32,
            outer_dim: 2,
            page_size: 16,
            inner_dim: 32 * 128,
            alignment: 256,
            dtype_width_bytes: 2,
            num_heads: Some(32),
        },
        tp_size: 2,
        pp_size: 1,
    }
}

fn p2p_feature(layout: LayoutCompatPayload) -> Feature {
    Feature::P2P(P2pConfig {
        layout_compat: layout,
    })
}

#[test]
fn register_prefill_appears_in_snapshot() {
    let mut mgr = ConditionalDisaggManager::new();
    mgr.on_register(id(1), &cd(ConditionalDisaggRole::Prefill))
        .unwrap();
    let snap = mgr.snapshot();
    assert_eq!(snap.prefill, vec![id(1)]);
    assert!(snap.decode.is_empty());
}

#[test]
fn register_decode_appears_in_snapshot() {
    let mut mgr = ConditionalDisaggManager::new();
    mgr.on_register(id(1), &cd(ConditionalDisaggRole::Decode))
        .unwrap();
    let snap = mgr.snapshot();
    assert_eq!(snap.decode, vec![id(1)]);
    assert!(snap.prefill.is_empty());
}

#[test]
fn reregister_same_role_is_idempotent() {
    let mut mgr = ConditionalDisaggManager::new();
    mgr.on_register(id(1), &cd(ConditionalDisaggRole::Prefill))
        .unwrap();
    mgr.on_register(id(1), &cd(ConditionalDisaggRole::Prefill))
        .unwrap();
    assert_eq!(mgr.snapshot().prefill.len(), 1);
}

#[test]
fn reregister_different_role_rejected() {
    let mut mgr = ConditionalDisaggManager::new();
    mgr.on_register(id(1), &cd(ConditionalDisaggRole::Prefill))
        .unwrap();
    let err = mgr
        .on_register(id(1), &cd(ConditionalDisaggRole::Decode))
        .unwrap_err();
    assert!(matches!(err, FeatureError::InvalidConfig(_)));
    assert_eq!(
        err.message(),
        "feature config invalid: instance 00000000-0000-0000-0000-000000000001 already \
         registered as Prefill, cannot switch to Decode"
    );
    assert_eq!(mgr.snapshot().prefill, vec![id(1)]);
}

#[test]
fn unregister_removes_from_snapshot() {
    let mut mgr = ConditionalDisaggManager::new();
    mgr.on_register(id(1), &cd(ConditionalDisaggRole::Prefill))
        .unwrap();
    mgr.on_unregister(id(1));
    assert!(mgr.snapshot().prefill.is_empty());
    // The role is free again.
    mgr.on_register(id(1), &cd(ConditionalDisaggRole::Decode))
        .unwrap();
    assert_eq!(mgr.snapshot().decode, vec![id(1)]);
}

#[test]
fn unregister_unknown_is_noop() {
    let mut mgr = ConditionalDisaggManager::new();
    mgr.on_unregister(id(7));
    assert!(mgr.snapshot().prefill.is_empty());
    assert!(mgr.snapshot().decode.is_empty());
}

#[test]
fn snapshot_is_sorted() {
    let mut mgr = ConditionalDisaggManager::new();
    for bits in [9, 3, 7, 1, 5] {
        mgr.on_register(id(bits), &cd(ConditionalDisaggRole::Decode))
            .unwrap();
    }
    assert_eq!(
        mgr.snapshot().decode,
        vec![id(1), id(3), id(5), id(7), id(9)]
    );
}

#[test]
fn cd_registry_refuses_other_features() {
    let mut mgr = ConditionalDisaggManager::default();
    assert_eq!(mgr.key(), FeatureKey::ConditionalDisagg);
    let err = mgr
        .on_register(id(1), &p2p_feature(payload(BlockLayoutMode::Universal)))
        .unwrap_err();
    assert!(matches!(err, FeatureError::KeyMismatch { .. }));
    assert_eq!(
        err.message(),
        "feature key mismatch: manager=ConditionalDisagg payload=P2P"
    );
}

#[test]
fn attach_stores_the_first_handles() {
    let mut mgr = ConditionalDisaggManager::with_queue_capacity(Some(8)).with_dispatcher(5);
    // Without a messaging node there is no queue, whatever opening it came to.
    assert_eq!(mgr.attach(None, Err(String::from("x"))).unwrap(), None);
    assert_eq!(mgr.velo_handle(), None);

    let err = mgr.attach(Some(1), Err(String::from("closed"))).unwrap_err();
    assert_eq!(err.message(), "CD queue init: closed");
    assert_eq!(mgr.queue_backend(), None);

    assert_eq!(mgr.attach(Some(1), Ok(2)).unwrap(), Some(5));
    assert_eq!(mgr.velo_handle(), Some(1));
    assert_eq!(mgr.queue_backend(), Some(2));

    assert_eq!(mgr.attach(Some(3), Ok(4)).unwrap(), Some(5));
    assert_eq!(mgr.velo_handle(), Some(1));
    assert_eq!(mgr.queue_backend(), Some(2));
}

#[test]
fn same_shape_idempotent_on_manager() {
    let mut mgr = P2pManager::new();
    mgr.on_register(
        id(1),
        &p2p_feature(payload(BlockLayoutMode::Operational)),
        Ok(()),
    )
    .expect("baseline accepted");
    mgr.on_register(
        id(2),
        &p2p_feature(payload(BlockLayoutMode::Operational)),
        Ok(()),
    )
    .expect("matching shape on second registration accepted");
    assert_eq!(mgr.instance_count(), 2);
}

#[test]
fn baseline_cleared_when_population_zero() {
    let mut mgr = P2pManager::new();
    mgr.on_register(
        id(1),
        &p2p_feature(payload(BlockLayoutMode::Operational)),
        Ok(()),
    )
    .expect("first register accepted");
    assert!(mgr.has_baseline());

    mgr.on_unregister(id(1));
    assert!(!mgr.has_baseline(), "baseline must clear when empty");

    assert!(matches!(mgr.layout_check(id(2)), LayoutCheck::WithItself));
    mgr.on_register(
        id(2),
        &p2p_feature(payload(BlockLayoutMode::Universal)),
        Ok(()),
    )
    .expect("re-register with different mode after empty should accept");
}

#[test]
fn baseline_stays_while_an_instance_stays() {
    let mut mgr = P2pManager::new();
    let first = payload(BlockLayoutMode::Operational);
    mgr.on_register(id(1), &p2p_feature(first), Ok(())).unwrap();
    mgr.on_register(id(2), &p2p_feature(first), Ok(())).unwrap();
    mgr.on_unregister(id(1));
    assert!(mgr.has_baseline());
    match mgr.layout_check(id(3)) {
        LayoutCheck::WithBaseline(baseline) => assert_eq!(baseline, first),
        _ => panic!("a newcomer is compared with the baseline"),
    }
    mgr.on_unregister(id(9));
    assert_eq!(mgr.instance_count(), 1);
}

#[test]
fn inconsistent_first_payload_sets_no_baseline() {
    let mut mgr = P2pManager::new();
    let mut bad = payload(BlockLayoutMode::Universal);
    bad.canonical = None;
    let err = mgr
        .on_register(id(1), &p2p_feature(bad), Err(String::from("no canonical")))
        .unwrap_err();
    assert_eq!(
        err.message(),
        "feature config invalid: P2P layout_compat payload from instance \
         00000000-0000-0000-0000-000000000001 is internally inconsistent: no canonical"
    );
    assert!(!mgr.has_baseline());
    assert_eq!(mgr.instance_count(), 0);

    mgr.on_register(
        id(1),
        &p2p_feature(payload(BlockLayoutMode::Universal)),
        Ok(()),
    )
    .unwrap();
    assert!(mgr.has_baseline());
}

#[test]
fn incompatible_newcomer_is_refused() {
    let mut mgr = P2pManager::default();
    mgr.on_register(
        id(1),
        &p2p_feature(payload(BlockLayoutMode::Operational)),
        Ok(()),
    )
    .unwrap();
    let err = mgr
        .on_register(
            id(2),
            &p2p_feature(payload(BlockLayoutMode::Universal)),
            Err(String::from("mode")),
        )
        .unwrap_err();
    assert_eq!(
        err.message(),
        "feature config invalid: P2P layout_compat incompatibility for instance \
         00000000-0000-0000-0000-000000000002: mode"
    );
    assert_eq!(mgr.instance_count(), 1);
    // An accepted instance is not compared again.
    assert!(matches!(mgr.layout_check(id(1)), LayoutCheck::Accepted));
    mgr.on_register(
        id(1),
        &p2p_feature(payload(BlockLayoutMode::Universal)),
        Err(String::from("mode")),
    )
    .unwrap();
}

#[test]
fn p2p_registry_refuses_other_features() {
    let mut mgr = P2pManager::new();
    assert_eq!(mgr.key(), FeatureKey::P2P);
    let err = mgr
        .on_register(id(1), &cd(ConditionalDisaggRole::Prefill), Ok(()))
        .unwrap_err();
    assert_eq!(
        err.message(),
        "feature key mismatch: manager=P2P payload=ConditionalDisagg"
    );
}

#[test]
fn described_layout_needs_a_baseline() {
    let mut mgr = P2pManager::new();
    assert_eq!(mgr.describe_baseline(), None);
    let err = mgr.check_describe_layout(id(1), Ok(())).unwrap_err();
    assert_eq!(
        err.message(),
        "feature config invalid: describe for instance \
         00000000-0000-0000-0000-000000000001 carries layout_compat but this instance has no \
         P2P baseline (describe before register, or hub restarted without re-register?)"
    );
    mgr.on_register(
        id(1),
        &p2p_feature(payload(BlockLayoutMode::Operational)),
        Ok(()),
    )
    .unwrap();
    assert_eq!(
        mgr.describe_baseline(),
        Some(payload(BlockLayoutMode::Operational))
    );
    mgr.check_describe_layout(id(1), Ok(())).unwrap();
    let err = mgr
        .check_describe_layout(id(1), Err(String::from("head_dim")))
        .unwrap_err();
    assert_eq!(
        err.message(),
        "feature config invalid: describe-push layout_compat for \
         00000000-0000-0000-0000-000000000001 diverges from P2P baseline: head_dim"
    );
}

fn prefill(request_id: &str) -> PrefillRequest {
    PrefillRequest {
        protocol_version: 1,
        request_id: String::from(request_id),
        session_id: 5,
        initiator_instance_id: id(6),
        decode_endpoint: None,
        sequence_hashes: vec![],
        token_ids: vec![1, 2, 3],
        num_computed_tokens: 16,
    }
}

#[test]
fn pump_stops_only_without_a_receiver() {
    assert!(matches!(
        prefill_dispatcher_step(PumpEvent::Started),
        PumpAction::BuildReceiver
    ));
    assert!(matches!(
        prefill_dispatcher_step(PumpEvent::ReceiverBuilt(Ok(()))),
        PumpAction::Poll {
            batch_size: 1,
            timeout_secs: 30
        }
    ));
    assert!(matches!(
        prefill_dispatcher_step(PumpEvent::ReceiverBuilt(Err(String::from("down")))),
        PumpAction::Stop
    ));
    assert!(matches!(
        prefill_dispatcher_step(PumpEvent::Polled(Err(String::from("timeout")))),
        PumpAction::BuildReceiver
    ));
    assert!(matches!(
        prefill_dispatcher_step(PumpEvent::Polled(Ok(vec![]))),
        PumpAction::BuildReceiver
    ));
    assert!(matches!(
        prefill_dispatcher_step(PumpEvent::Polled(Ok(vec![Err(String::from("bad"))]))),
        PumpAction::BuildReceiver
    ));
    assert!(matches!(
        prefill_dispatcher_step(PumpEvent::Dispatched(vec![
            Ok(DispatchOutcome::Accepted),
            Ok(DispatchOutcome::Rejected {
                reason: String::from("full")
            }),
            Err(String::from("refused")),
        ])),
        PumpAction::BuildReceiver
    ));
}

#[test]
fn pump_hands_over_what_decodes() {
    let batch = vec![
        Ok(prefill("a")),
        Err(String::from("bad")),
        Ok(prefill("b")),
    ];
    match prefill_dispatcher_step(PumpEvent::Polled(Ok(batch))) {
        PumpAction::Dispatch(requests) => {
            assert_eq!(requests.len(), 2);
            assert_eq!(requests[0].request_id, "a");
            assert_eq!(requests[1].request_id, "b");
        }
        _ => panic!("decoded requests are handed over"),
    }
    assert!(keep_decoded(vec![]).is_empty());
}
