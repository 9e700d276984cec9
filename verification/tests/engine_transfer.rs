//! Pulling blocks from peers and receiving session messages.

use kvbm::common::{InstanceId, LogicalLayoutHandle};
use kvbm::engine::describe::KvDim;
use kvbm::engine::instance::{InstanceLeader, ParallelismTemplate, WorkerEntry};
use kvbm::engine::receiver::{
    receive, run_session_receiver, ReceiverAction, SessionMessage, SessionPhase,
};
use kvbm::engine::remote::{
    BlockCountMismatch, PullAction, PullError, PullEvent, PullRef, RemoteBlockSet, WirePullOptions,
};

const PEER: InstanceId = InstanceId { bits: 9 };

fn template(tp_size: usize) -> ParallelismTemplate {
    ParallelismTemplate {
        tp_size,
        pp_size: 1,
        shard_axis: KvDim::HeadCount,
        global_extents: vec![(KvDim::HeadCount, 16)],
        num_layers: 12,
        dtype_width_bytes: 2,
    }
}

fn leader(workers: usize, template: Option<ParallelismTemplate>) -> InstanceLeader {
    let mut builder = InstanceLeader::builder()
        .messenger(InstanceId { bits: 1 })
        .registry(2)
        .g2_manager(3);
    for worker in 0..workers {
        builder = builder.worker(WorkerEntry {
            worker: worker as u64,
            g2_handle: None,
        });
    }
    if let Some(template) = template {
        builder = builder.parallelism_template(template);
    }
    builder.build(0).ok().unwrap()
}

fn refs() -> Vec<PullRef> {
    vec![
        PullRef {
            src_block_id: 10,
            dst_block_id: 20,
        },
        PullRef {
            src_block_id: 11,
            dst_block_id: 21,
        },
    ]
}

#[test]
fn empty_pull_finishes_at_once() {
    assert!(matches!(
        leader(1, None).rdma_pull(PEER, &vec![], PullEvent::Begin { imported: false }),
        PullAction::Finish(Ok(()))
    ));
}

#[test]
fn pull_fetches_missing_metadata() {
    let leader = leader(1, None);
    assert!(matches!(
        leader.rdma_pull(PEER, &refs(), PullEvent::Begin { imported: false }),
        PullAction::RequestMetadata {
            remote_instance: PEER
        }
    ));
    assert!(matches!(
        leader.rdma_pull(PEER, &refs(), PullEvent::Begin { imported: true }),
        PullAction::ReadDescriptors {
            remote_instance: PEER
        }
    ));
    assert!(matches!(
        leader.rdma_pull(PEER, &refs(), PullEvent::MetadataReceived { imported: false }),
        PullAction::ConnectRemote {
            remote_instance: PEER
        }
    ));
    // Another caller imported it in the meantime.
    assert!(matches!(
        leader.rdma_pull(PEER, &refs(), PullEvent::MetadataReceived { imported: true }),
        PullAction::ReadDescriptors {
            remote_instance: PEER
        }
    ));
    assert!(matches!(
        leader.rdma_pull(PEER, &refs(), PullEvent::MetadataImported),
        PullAction::ReadDescriptors {
            remote_instance: PEER
        }
    ));
    assert!(leader.has_remote_metadata(true));
    assert!(!leader.has_remote_metadata(false));
}

#[test]
fn metadata_is_imported_once() {
    let leader = leader(1, None);
    assert!(matches!(
        leader.import_remote_metadata(PEER, false),
        PullAction::ConnectRemote {
            remote_instance: PEER
        }
    ));
    assert!(matches!(
        leader.import_remote_metadata(PEER, true),
        PullAction::Finish(Err(PullError::AlreadyImported))
    ));
    assert_eq!(
        PullError::AlreadyImported.message(PEER),
        "Metadata was already imported for this instance"
    );
    // Making sure of it again is no error.
    assert!(matches!(
        leader.ensure_remote_metadata(PEER, true),
        PullAction::ReadDescriptors {
            remote_instance: PEER
        }
    ));
    assert!(leader.has_remote_metadata(true));
}

#[test]
fn pull_goes_on_if_another_imported_first() {
    let leader = leader(1, None);
    assert!(matches!(
        leader.rdma_pull(PEER, &refs(), PullEvent::Begin { imported: false }),
        PullAction::RequestMetadata {
            remote_instance: PEER
        }
    ));
    assert!(matches!(
        leader.rdma_pull(PEER, &refs(), PullEvent::MetadataReceived { imported: true }),
        PullAction::ReadDescriptors {
            remote_instance: PEER
        }
    ));
}

#[test]
fn pull_without_workers_fails() {
    let leader = leader(0, None);
    assert!(!leader.has_remote_metadata(true));
    assert!(matches!(
        leader.rdma_pull(PEER, &refs(), PullEvent::MetadataReceived { imported: false }),
        PullAction::Finish(Err(PullError::NoParallelWorker))
    ));
    assert!(matches!(
        leader.rdma_pull(PEER, &refs(), PullEvent::DescriptorsRead { stamped: false }),
        PullAction::Finish(Err(PullError::NoWorkerToPull))
    ));
}

#[test]
fn unstamped_peer_is_pulled_by_fan_out() {
    let opts = WirePullOptions {
        nixl_write_notification: Some(1),
        metric_route: None,
    };
    match leader(2, None).rdma_pull_with_opts(
        PEER,
        &refs(),
        opts,
        PullEvent::DescriptorsRead { stamped: false },
    ) {
        PullAction::LegacyOnboard {
            remote_instance,
            src_layout,
            src_block_ids,
            dst_layout,
            dst_block_ids,
            opts: sent,
        } => {
            assert_eq!(remote_instance, PEER);
            assert_eq!(src_layout, LogicalLayoutHandle::G2);
            assert_eq!(dst_layout, LogicalLayoutHandle::G2);
            assert_eq!(src_block_ids, vec![10, 11]);
            assert_eq!(dst_block_ids, vec![20, 21]);
            assert_eq!(sent, opts);
        }
        _ => panic!("expected a fan-out"),
    }
}

#[test]
fn stamped_peer_needs_a_matching_template() {
    let stamped = || PullEvent::DescriptorsRead { stamped: true };
    assert!(matches!(
        leader(2, None).rdma_pull(PEER, &refs(), stamped()),
        PullAction::Finish(Err(PullError::TemplateRequired))
    ));
    assert!(matches!(
        leader(2, Some(template(4))).rdma_pull(PEER, &refs(), stamped()),
        PullAction::Finish(Err(PullError::TemplateMismatch {
            tp_size: 4,
            workers: 2
        }))
    ));
    match leader(2, Some(template(2))).rdma_pull(PEER, &refs(), stamped()) {
        PullAction::PlanPull {
            remote_instance,
            src_layout,
            dst_layout,
            refs: planned,
            opts,
        } => {
            assert_eq!(remote_instance, PEER);
            assert_eq!(src_layout, LogicalLayoutHandle::G2);
            assert_eq!(dst_layout, LogicalLayoutHandle::G2);
            assert_eq!(planned, refs());
            assert_eq!(opts, WirePullOptions::default());
        }
        _ => panic!("expected a plan"),
    }
}

#[test]
fn pull_errors_name_what_is_wrong() {
    let peer = "00000000-0000-0000-0000-000000000009";
    assert_eq!(
        PullError::NoParallelWorker.message(PEER),
        "No parallel worker configured"
    );
    assert_eq!(
        PullError::NoWorkerToPull.message(PEER),
        "rdma_pull: no parallel worker configured"
    );
    assert_eq!(
        PullError::TemplateRequired.message(PEER),
        format!(
            "rdma_pull: peer {peer} has stamped descriptors but no local ParallelismTemplate \
             is configured; cross-parallelism transfers require \
             InstanceLeaderBuilder::parallelism_template(...)"
        )
    );
    assert_eq!(
        PullError::TemplateMismatch { tp_size: 4, workers: 2 }.message(PEER),
        "rdma_pull: local ParallelismTemplate tp_size (4) disagrees with worker count (2); \
         template must describe the local worker grid"
    );
    assert_eq!(
        PullError::RankOutOfRange { rank: 2, workers: 2 }.message(PEER),
        "rdma_pull: plan_pull produced a plan for local_rank 2 but only 2 workers are registered"
    );
    assert_eq!(
        BlockCountMismatch { source: 2, destination: 1 }.message(),
        "Block count mismatch: source=2, destination=1"
    );
}

#[test]
fn plans_go_to_their_workers() {
    let leader = leader(2, Some(template(2)));
    assert!(matches!(
        leader.rdma_pull(PEER, &refs(), PullEvent::Planned { ranks: vec![] }),
        PullAction::Finish(Ok(()))
    ));
    assert!(matches!(
        leader.rdma_pull(PEER, &refs(), PullEvent::Planned { ranks: vec![0, 1] }),
        PullAction::Dispatch {
            plans: 2,
            failure: None
        }
    ));
    assert!(matches!(
        leader.rdma_pull(PEER, &refs(), PullEvent::Planned { ranks: vec![1, 2, 0] }),
        PullAction::Dispatch {
            plans: 1,
            failure: Some(PullError::RankOutOfRange {
                rank: 2,
                workers: 2
            })
        }
    ));
}

#[test]
fn block_sets_pair_with_destinations() {
    let leader = leader(1, None);
    let sets = vec![
        RemoteBlockSet { blocks: vec![10] },
        RemoteBlockSet { blocks: vec![] },
        RemoteBlockSet { blocks: vec![11] },
    ];
    let request = leader
        .pull_remote_block_sets(PEER, &sets, &vec![20, 21])
        .unwrap();
    assert_eq!(request.remote_instance, PEER);
    assert_eq!(request.refs, refs());
    assert_eq!(request.opts, WirePullOptions::default());
    assert_eq!(
        leader.pull_remote_block_sets(PEER, &sets, &vec![20]).err(),
        Some(BlockCountMismatch {
            source: 2,
            destination: 1
        })
    );
}

#[test]
fn receiver_translates_messages() {
    let (action, ended) = receive::<u32, Vec<usize>>(SessionMessage::StateResponse { state: 7 });
    assert!(matches!(action, ReceiverAction::Update(7)));
    assert!(!ended);
    let (action, ended) = receive::<u32, Vec<usize>>(SessionMessage::BlocksStaged {
        staged_blocks: vec![1, 2],
        remaining: 3,
        layer_range: Some((0, 4)),
    });
    match action {
        ReceiverAction::AddStagedBlocks {
            staged_blocks,
            remaining,
            layer_range,
        } => {
            assert_eq!(staged_blocks, vec![1, 2]);
            assert_eq!(remaining, 3);
            assert_eq!(layer_range, Some((0, 4)));
        }
        _ => panic!("expected staged blocks"),
    }
    assert!(!ended);
    let (action, ended) = receive::<u32, Vec<usize>>(SessionMessage::Command);
    assert!(matches!(action, ReceiverAction::Ignore));
    assert!(!ended);
}

#[test]
fn receiver_stops_at_the_end() {
    let actions = run_session_receiver::<u32, Vec<usize>>(vec![
        SessionMessage::StateResponse { state: 1 },
        SessionMessage::Close,
        SessionMessage::StateResponse { state: 2 },
    ]);
    assert_eq!(actions.len(), 2);
    assert!(matches!(
        actions[1],
        ReceiverAction::SetPhase(SessionPhase::Complete)
    ));
    let actions = run_session_receiver::<u32, Vec<usize>>(vec![SessionMessage::Error {
        message: String::from("lost"),
    }]);
    assert_eq!(actions.len(), 1);
    assert!(matches!(actions[0], ReceiverAction::SetFailed));
}
