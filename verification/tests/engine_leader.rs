//! The instance leader: searching, sessions and topology.

use kvbm::common::{InstanceId, LogicalLayoutHandle};
use kvbm::engine::describe::{
    block_dim_short_name, kv_block_layout_name, layout_type_name, BlockDim, ExportedLayout,
    ExportedWorker, KvBlockLayout, KvDim, LayerRange, LayoutConfig, LayoutTypeDetails,
    ParallelismDescription, StorageKind,
};
use kvbm::engine::instance::{
    remaining_hashes, BuildError, ControllableSessionOptions, DisaggregationRole,
    FindMatchesOptions, InstanceLeader, ModuleId, ParallelismTemplate, WorkerEntry,
};
use kvbm::engine::matches::{
    FindMatchesResult, MatchBreakdown, MatchedBlock, OnboardingStatus, StagingMode,
};
use kvbm::engine::snapshot::{
    read_hostname, ControlError, ExportSource, HostInfo, OnboardMessage,
};
use kvbm::tokens::SequenceHash;

fn id(bits: u128) -> InstanceId {
    InstanceId { bits }
}

fn hash(value: u64) -> SequenceHash {
    SequenceHash::new(value, None, value)
}

fn block(block_id: usize, value: u64) -> MatchedBlock {
    MatchedBlock {
        block_id,
        sequence_hash: hash(value),
    }
}

fn leader() -> InstanceLeader {
    InstanceLeader::builder()
        .messenger(id(1))
        .registry(2)
        .g2_manager(3)
        .build(100)
        .ok()
        .unwrap()
}

fn leader_with_disk() -> InstanceLeader {
    InstanceLeader::builder()
        .messenger(id(1))
        .registry(2)
        .g2_manager(3)
        .g3_manager(4)
        .build(100)
        .ok()
        .unwrap()
}

fn host() -> HostInfo {
    HostInfo {
        hostname: String::from("node"),
        pid: 4242,
    }
}

fn stub_worker(worker_id: u64) -> Result<ExportedWorker, String> {
    Ok(ExportedWorker {
        worker_id,
        nixl_agent_name: format!("agent-{worker_id}"),
        parallelism: None,
        layouts: vec![],
    })
}

fn template(tp_size: usize) -> ParallelismTemplate {
    ParallelismTemplate {
        tp_size,
        pp_size: 1,
        shard_axis: KvDim::HeadCount,
        global_extents: vec![(KvDim::HeadCount, 16)],
        num_layers: 12,
        dtype_width_bytes: 2,
    }
}

fn descriptor(rank: usize, start: usize, end: usize) -> ParallelismDescription {
    ParallelismDescription {
        rank,
        tp_size: 2,
        pp_size: 1,
        shard_axis: KvDim::HeadCount,
        layer_ownership: LayerRange { start, end },
        global_extents: vec![(KvDim::HeadCount, 16)],
    }
}

fn layout(tier: LogicalLayoutHandle, num_blocks: usize, page_size: usize) -> ExportedLayout {
    ExportedLayout {
        tier,
        config: LayoutConfig {
            num_blocks,
            num_layers: 2,
            outer_dim: 2,
            page_size,
            inner_dim: 64,
            alignment: 1,
            dtype_width_bytes: 2,
            num_heads: None,
        },
        location: StorageKind::System,
        details: LayoutTypeDetails::FullyContiguous(KvBlockLayout::Universal),
        bytes_per_block: 1000,
    }
}

fn stamped_worker(worker_id: u64, rank: usize, start: usize, end: usize) -> ExportedWorker {
    ExportedWorker {
        worker_id,
        nixl_agent_name: format!("agent-{worker_id}"),
        parallelism: Some(descriptor(rank, start, end)),
        layouts: vec![
            layout(LogicalLayoutHandle::G2, 10, 16),
            layout(LogicalLayoutHandle::G1, 5, 16),
        ],
    }
}

#[test]
fn builder_names_the_first_missing_part() {
    let missing = |error: BuildError| error.message();
    assert_eq!(
        missing(InstanceLeader::builder().build(0).err().unwrap()),
        "Velo instance required"
    );
    assert_eq!(
        missing(
            InstanceLeader::builder()
                .messenger(id(1))
                .build(0)
                .err()
                .unwrap()
        ),
        "block registry required"
    );
    assert_eq!(
        missing(
            InstanceLeader::builder()
                .messenger(id(1))
                .registry(2)
                .build(0)
                .err()
                .unwrap()
        ),
        "g2_manager required"
    );
}

#[test]
fn built_leader_shows_its_parts() {
    let leader = InstanceLeader::builder()
        .with_runtime(id(9), 8)
        .registry(2)
        .with_g2_manager(Some(3))
        .with_g3_manager(Some(4))
        .worker(WorkerEntry {
            worker: 5,
            g2_handle: None,
        })
        .object_client(6)
        .role(DisaggregationRole::Prefill)
        .build(7)
        .ok()
        .unwrap();
    assert_eq!(leader.messenger(), id(9));
    assert_eq!(leader.registry(), 2);
    assert_eq!(leader.g2_manager(), 3);
    assert_eq!(leader.g3_manager(), Some(4));
    assert_eq!(leader.object_client(), Some(6));
    assert_eq!(leader.observability(), Some(8));
    assert_eq!(leader.role(), Some(DisaggregationRole::Prefill));
    assert_eq!(leader.worker_count(), 1);
    assert!(leader.has_parallel_worker());
    assert!(leader.session_factory_cell().is_none());
}

#[test]
fn remote_leaders_are_kept_once() {
    let mut leader = leader();
    leader.add_remote_leader(id(5));
    leader.add_remote_leader(id(6));
    leader.add_remote_leader(id(5));
    assert_eq!(leader.remote_leaders(), vec![id(5), id(6)]);
    leader.set_remote_leaders(vec![id(7)]);
    assert_eq!(leader.remote_leaders(), vec![id(7)]);
}

#[test]
fn describe_setters_are_idempotent() {
    let mut leader = leader();
    let first = serde_json::Value::from(1);
    let second = serde_json::Value::from(2);
    assert!(leader.set_config_blob(first.clone()));
    assert!(!leader.set_config_blob(second));
    let d = leader.describe(Ok(vec![]), host()).ok().unwrap();
    assert_eq!(d.config.as_ref(), Some(&first));

    assert!(leader.set_modules(vec![ModuleId::Core]));
    assert!(!leader.set_modules(vec![ModuleId::Test]));
    let d2 = leader.describe(Ok(vec![]), host()).ok().unwrap();
    assert_eq!(d2.modules, vec![ModuleId::Core]);

    assert!(leader.set_hub_instance_id(id(0xab)));
    assert!(!leader.set_hub_instance_id(id(0xcd)));
    let d3 = leader.describe(Ok(vec![]), host()).ok().unwrap();
    assert_eq!(
        d3.hub_instance_id.unwrap(),
        "00000000-0000-0000-0000-0000000000ab"
    );

    assert!(leader.set_session_factory(1));
    assert!(!leader.set_session_factory(2));
    assert_eq!(leader.session_factory_cell(), Some(1));
}

#[test]
fn describe_pre_stamping_populates_identity_fields() {
    let leader = leader();
    let d = leader
        .describe(Ok(vec![stub_worker(7), stub_worker(8)]), host())
        .ok()
        .expect("describe ok");
    assert_eq!(d.worker_ids, vec![7, 8]);
    assert_eq!(d.workers.len(), 2);
    assert!(d.block_size.is_none());
    assert!(d.tier_capacity.is_empty());
    assert_eq!(d.instance_id, leader.messenger().to_text());
    assert!(d.hub_instance_id.is_none(), "no set_hub_instance_id call");
    assert!(d.config.is_none(), "no set_config_blob call");
    assert!(d.modules.is_empty(), "no set_modules call");
    assert!(d.role.is_none());
    assert_ne!(d.host.pid, 0);
    assert_eq!(d.started_at, 100);
}

#[test]
fn describe_does_not_invent_1x1_parallelism_when_unstamped() {
    let leader = leader();
    let d = leader
        .describe(Ok(vec![stub_worker(0), stub_worker(1)]), host())
        .ok()
        .expect("describe ok");
    assert_eq!(d.workers.len(), 2);
    for w in &d.workers {
        assert!(
            w.parallelism.is_none(),
            "worker {} reports parallelism without a stamped descriptor: {:?}",
            w.worker_id,
            w.parallelism
        );
    }
    assert!(
        d.parallelism.is_none(),
        "top-level parallelism synthesised without stamped descriptors: {:?}",
        d.parallelism
    );
}

#[test]
fn describe_aggregates_stamped_workers() {
    let leader = leader();
    let d = leader
        .describe(
            Ok(vec![
                Ok(stamped_worker(0, 0, 4, 8)),
                Ok(stamped_worker(1, 1, 0, 4)),
            ]),
            host(),
        )
        .ok()
        .unwrap();
    let group = d.parallelism.unwrap();
    assert_eq!(group.rank, 0);
    assert_eq!(group.tp_size, 2);
    assert_eq!(group.layer_ownership, LayerRange { start: 0, end: 8 });
    assert_eq!(d.block_size, Some(16));
    // Device memory comes before host memory.
    assert_eq!(d.tier_capacity.len(), 2);
    assert_eq!(d.tier_capacity[0].tier, LogicalLayoutHandle::G1);
    assert_eq!(d.tier_capacity[0].num_blocks, 10);
    assert_eq!(d.tier_capacity[0].total_bytes, 10_000);
    assert_eq!(d.tier_capacity[1].tier, LogicalLayoutHandle::G2);
    assert_eq!(d.tier_capacity[1].num_blocks, 20);
    assert_eq!(d.tier_capacity[1].bytes_per_block, 1000);
    assert_eq!(d.tier_capacity[1].total_bytes, 20_000);
    assert_eq!(d.workers[0].layouts[0].total_bytes, 10_000);
    assert_eq!(d.workers[0].layouts[0].layout_type, "fully_contiguous");
    assert_eq!(d.workers[0].layouts[0].block_layout, "universal");
}

#[test]
fn describe_hides_what_workers_disagree_on() {
    let leader = leader();
    let mut odd = stamped_worker(1, 1, 0, 4);
    odd.layouts = vec![layout(LogicalLayoutHandle::G2, 10, 32)];
    odd.parallelism = Some(ParallelismDescription {
        tp_size: 4,
        ..descriptor(1, 0, 4)
    });
    let d = leader
        .describe(Ok(vec![Ok(stamped_worker(0, 0, 0, 4)), Ok(odd)]), host())
        .ok()
        .unwrap();
    assert!(d.parallelism.is_none());
    assert!(d.block_size.is_none());
}

#[test]
fn describe_reports_failing_steps() {
    let leader = leader();
    match leader.describe(Err(String::from("rpc down")), host()).err() {
        Some(ControlError::Internal(message)) => {
            assert_eq!(message, "assemble_export_metadata: rpc down");
        }
        None => panic!("expected an error"),
    }
    match leader
        .describe(Ok(vec![stub_worker(1), Err(String::from("short read"))]), host())
        .err()
    {
        Some(ControlError::Internal(message)) => {
            assert_eq!(message, "unpack SerializedLayout: short read");
        }
        None => panic!("expected an error"),
    }
}

#[test]
fn layout_names_are_stable() {
    assert_eq!(
        layout_type_name(&LayoutTypeDetails::LayerSeparate(KvBlockLayout::Unknown)),
        "layer_separate"
    );
    assert_eq!(block_dim_short_name(&BlockDim::Page), "page");
    assert_eq!(
        kv_block_layout_name(&LayoutTypeDetails::FullyContiguous(KvBlockLayout::Custom([
            BlockDim::Outer,
            BlockDim::Layer,
            BlockDim::Page,
            BlockDim::Head,
        ]))),
        "custom[outer-layer-page-head]"
    );
    assert_eq!(
        kv_block_layout_name(&LayoutTypeDetails::LayerSeparate(
            KvBlockLayout::OperationalHND
        )),
        "operational_hnd"
    );
}

#[test]
fn plain_leader_answers_a_remote_search_at_once() {
    let mut leader = InstanceLeader::builder()
        .messenger(id(1))
        .registry(2)
        .g2_manager(3)
        .build(0)
        .ok()
        .unwrap();
    let (found, launch) = leader.find_matches_with_options(
        &vec![hash(1)],
        FindMatchesOptions {
            search_remote: true,
            staging_mode: StagingMode::Full,
        },
        vec![],
        vec![],
        0,
    );
    assert!(launch.is_none());
    match found {
        FindMatchesResult::Ready(ready) => {
            assert_eq!(ready.match_breakdown(), MatchBreakdown::default());
        }
        FindMatchesResult::AsyncSession(_) => panic!("expected an answer"),
    }
}

#[test]
fn fresh_builder_holds_nothing() {
    let builder = InstanceLeader::builder();
    assert_eq!(builder.messenger, None);
    assert_eq!(builder.g3_manager, None);
    assert!(builder.workers.is_empty());
    assert!(builder.remote_leaders.is_none());
    assert_eq!(builder.object_client, None);
    assert!(builder.parallelism_template.is_none());
    assert!(builder.role.is_none());
    assert!(!builder.bypass_host);
}

#[test]
fn host_hits_answer_at_once() {
    let mut leader = leader();
    let hashes = vec![hash(0), hash(1)];
    let options = FindMatchesOptions {
        search_remote: false,
        staging_mode: StagingMode::Hold,
    };
    let (found, launch) = leader.find_matches_with_options(
        &hashes,
        options,
        vec![block(10, 0), block(11, 1)],
        vec![],
        0,
    );
    assert!(launch.is_none());
    match found {
        FindMatchesResult::Ready(mut ready) => {
            assert_eq!(ready.match_breakdown().host_blocks, 2);
            assert_eq!(ready.take_g2_blocks().len(), 2);
            assert!(ready.take_g2_blocks().is_empty());
            assert_eq!(ready.match_breakdown().host_blocks, 2);
        }
        FindMatchesResult::AsyncSession(_) => panic!("expected an immediate answer"),
    }
}

#[test]
fn bypassed_host_memory_answers_with_disk_blocks() {
    let mut leader = InstanceLeader::builder()
        .messenger(id(1))
        .registry(2)
        .g2_manager(3)
        .g3_manager(4)
        .bypass_host(true)
        .build(0)
        .ok()
        .unwrap();
    let options = FindMatchesOptions {
        search_remote: true,
        staging_mode: StagingMode::Full,
    };
    let (found, launch) = leader.find_matches_in_session(
        &vec![hash(0), hash(1)],
        options,
        vec![block(10, 0)],
        vec![block(20, 1)],
        79,
        0,
    );
    assert!(launch.is_none());
    assert!(!leader.has_session(79));
    match found {
        FindMatchesResult::Ready(mut ready) => {
            assert_eq!(ready.match_breakdown().disk_blocks, 1);
            assert_eq!(ready.take_g3_blocks(), vec![block(20, 1)]);
            assert!(ready.take_g3_blocks().is_empty());
        }
        FindMatchesResult::AsyncSession(_) => panic!("expected an immediate answer"),
    }
}

#[test]
fn disk_hits_open_a_finished_session() {
    let mut leader = leader_with_disk();
    let options = FindMatchesOptions {
        search_remote: false,
        staging_mode: StagingMode::Hold,
    };
    let (found, launch) = leader.find_matches_in_session(
        &vec![hash(0), hash(1)],
        options,
        vec![block(10, 0)],
        vec![block(20, 1)],
        77,
        0,
    );
    assert!(launch.is_none());
    assert_eq!(found.session_id(), Some(77));
    assert_eq!(found.match_breakdown().disk_blocks, 1);
    match found {
        FindMatchesResult::AsyncSession(session) => {
            assert_eq!(
                session.status,
                OnboardingStatus::Complete { matched_blocks: 2 }
            );
        }
        FindMatchesResult::Ready(_) => panic!("expected a session"),
    }
    assert!(leader.has_session(77));
    leader.release_session(77);
    assert!(!leader.has_session(77));
}

#[test]
fn remote_search_starts_a_session() {
    let mut leader = leader();
    leader.add_remote_leader(id(5));
    let options = FindMatchesOptions {
        search_remote: true,
        staging_mode: StagingMode::Prepare,
    };
    let (found, launch) =
        leader.find_matches_in_session(&vec![hash(0)], options, vec![], vec![], 78, 3);
    let launch = launch.unwrap();
    assert_eq!(launch.session_id, 78);
    assert_eq!(launch.remote_leaders, vec![id(5)]);
    assert_eq!(launch.sequence_hashes, vec![hash(0)]);
    assert!(launch.controlled);
    match found {
        FindMatchesResult::AsyncSession(session) => {
            assert_eq!(session.status, OnboardingStatus::Searching);
            assert_eq!(session.control, Some(StagingMode::Prepare));
            assert!(session.blocks.is_none());
        }
        FindMatchesResult::Ready(_) => panic!("expected a session"),
    }
    assert!(leader.has_session(78));
}

#[test]
fn fresh_session_ids_differ() {
    let mut leader = leader();
    let (first, _) = leader.create_controllable_session(vec![], vec![], 0);
    let (second, _) = leader.create_controllable_session(vec![], vec![], 0);
    assert_ne!(first.session_id, second.session_id);
    assert!(leader.has_session(first.session_id));
    assert!(leader.has_session(second.session_id));
}

#[test]
fn controllable_session_counts_its_blocks() {
    let mut leader = leader_with_disk();
    let (result, launch) = leader.create_controllable_session_as(
        9,
        ControllableSessionOptions { auto_stage: false },
        vec![block(1, 0), block(2, 1)],
        vec![block(3, 2)],
        0,
    );
    assert_eq!(result.session_id, 9);
    assert_eq!(result.local_g2_count, 2);
    assert_eq!(result.local_g3_count, 1);
    assert!(!launch.auto_stage);
    assert_eq!(launch.sequence_hashes, vec![hash(0), hash(1)]);
    assert!(ControllableSessionOptions::default().auto_stage);
    leader.server_session_ended(9);
    assert!(!leader.has_session(9));
}

#[test]
fn endpoint_session_needs_a_host_layout() {
    let mut without = leader();
    assert!(without.create_endpoint_session(vec![block(1, 0)], 0).is_err());

    let mut with = InstanceLeader::builder()
        .messenger(id(1))
        .registry(2)
        .g2_manager(3)
        .workers(vec![
            WorkerEntry {
                worker: 5,
                g2_handle: None,
            },
            WorkerEntry {
                worker: 6,
                g2_handle: Some(60),
            },
        ])
        .build(0)
        .ok()
        .unwrap();
    let launch = with
        .create_endpoint_session_as(4, vec![block(1, 0), block(2, 1)], 0)
        .unwrap();
    assert_eq!(launch.g2_handles, vec![60, 60]);
    assert!(with.has_session(4));
    let launch =
        with.create_endpoint_session_for_blocks(vec![block(1, 0)], vec![hash(0)], vec![61], 0);
    assert_eq!(launch.g2_handles, vec![61]);
    assert!(with.has_session(launch.session_id));
}

#[test]
fn attaching_registers_the_session() {
    let mut leader = leader();
    let attached = leader.attach_session(id(5), 6, 7);
    assert_eq!(attached.remote_instance, id(5));
    assert_eq!(attached.local_instance, id(1));
    assert!(!attached.rdma);
    assert!(leader.has_session(6));
    leader.insert_test_session_marker(8, 0);
    assert!(leader.has_session(8));
}

#[test]
fn remaining_hashes_keep_their_order() {
    assert_eq!(
        remaining_hashes(&vec![hash(3), hash(1), hash(2)], &vec![block(0, 1)]),
        vec![hash(3), hash(2)]
    );
}

#[test]
fn scan_merges_tiers_by_position() {
    let leader = leader_with_disk();
    let hashes = vec![hash(0), hash(1), hash(2)];
    let result = leader.scan_blocks(
        &hashes,
        vec![block(10, 2), block(11, 0)],
        vec![block(20, 1)],
    );
    assert_eq!(
        result.sorted_matches,
        vec![
            (hash(0), LogicalLayoutHandle::G2),
            (hash(1), LogicalLayoutHandle::G3),
            (hash(2), LogicalLayoutHandle::G2),
        ]
    );
    // At one position host memory comes first.
    let shared = leader.scan_blocks(
        &vec![hash(0), hash(1)],
        vec![block(10, 1)],
        vec![block(20, 1), block(21, 0)],
    );
    assert_eq!(
        shared.sorted_matches,
        vec![
            (hash(0), LogicalLayoutHandle::G3),
            (hash(1), LogicalLayoutHandle::G2),
            (hash(1), LogicalLayoutHandle::G3),
        ]
    );
    // Host memory holds everything: disk is not looked at.
    let full = leader.scan_blocks(&vec![hash(0)], vec![block(10, 0)], vec![block(20, 0)]);
    assert!(full.g3_blocks.is_empty());
}

#[test]
fn exports_come_from_the_cache_if_there_is_one() {
    let leader = leader();
    assert_eq!(leader.export_worker_metadata(), ExportSource::QueryWorkers);
    assert_eq!(
        leader.assemble_export_metadata(),
        (ExportSource::QueryWorkers, false)
    );
    assert!(!leader.register_handlers());

    let cached = InstanceLeader::builder()
        .messenger(id(1))
        .registry(2)
        .g2_manager(3)
        .with_cached_worker_metadata(40)
        .parallelism_template(template(2))
        .build(0)
        .ok()
        .unwrap();
    assert_eq!(
        cached.assemble_export_metadata(),
        (ExportSource::Cached(40), true)
    );
    assert!(cached.register_handlers());
}

fn leader_with_cached_metadata(template: Option<ParallelismTemplate>) -> InstanceLeader {
    let mut builder = InstanceLeader::builder()
        .messenger(id(1))
        .registry(2)
        .g2_manager(3)
        .with_cached_worker_metadata(40);
    if let Some(template) = template {
        builder = builder.parallelism_template(template);
    }
    builder.build(0).ok().unwrap()
}

fn cached_exports() -> Vec<ExportedWorker> {
    vec![stub_worker(0).unwrap(), stub_worker(1).unwrap()]
}

#[test]
fn assemble_export_metadata_stamps_when_template_set() {
    let leader = leader_with_cached_metadata(Some(template(2)));
    assert_eq!(
        leader.assemble_export_metadata(),
        (ExportSource::Cached(40), true)
    );
    let exported = leader.stamp_exports(cached_exports()).unwrap();
    assert_eq!(exported.len(), 2);
    for (i, export) in exported.iter().enumerate() {
        let desc = export
            .stamp
            .expect("descriptor must be stamped when template is set");
        assert_eq!(desc.rank, i);
        assert_eq!(desc.tp_size, 2);
        assert_eq!(desc.shard_axis, KvDim::HeadCount);
        assert_eq!(export.layout.worker_id, i as u64);
    }
}

#[test]
fn assemble_export_metadata_passes_through_when_no_template() {
    let leader = leader_with_cached_metadata(None);
    assert_eq!(
        leader.assemble_export_metadata(),
        (ExportSource::Cached(40), false)
    );
    let exported = leader.stamp_exports(cached_exports()).unwrap();
    assert_eq!(exported.len(), 2);
    for (i, export) in exported.iter().enumerate() {
        assert!(
            export.stamp.is_none(),
            "no template configured, so no descriptor is stamped"
        );
        assert_eq!(export.layout.worker_id, i as u64);
        assert!(export.layout.parallelism.is_none());
    }
}

#[test]
fn assemble_export_metadata_errors_on_length_mismatch() {
    // Template says tp_size = 4 but there are only 2 exports.
    let leader = leader_with_cached_metadata(Some(template(4)));
    let err = leader.stamp_exports(cached_exports()).err().unwrap();
    assert!(
        err.message().contains("tp_size * pp_size"),
        "expected length-mismatch error, got: {}",
        err.message()
    );
    assert_eq!(
        err.message(),
        "template tp_size * pp_size (4 * 1) does not match the number of worker exports (2)"
    );
}

#[test]
fn stamps_count_pipeline_stages() {
    let mut grid = template(2);
    grid.pp_size = 3;
    let ranks: Vec<usize> = grid.stamps(6).unwrap().iter().map(|s| s.rank).collect();
    assert_eq!(ranks, vec![0, 1, 2, 3, 4, 5]);
    assert!(grid.stamps(2).is_err());
    grid.pp_size = usize::MAX;
    assert!(grid.stamps(6).is_err());
}

#[test]
fn only_create_session_starts_a_responder() {
    let mut leader = leader();
    let launch = leader
        .spawn_responder(
            OnboardMessage::CreateSession {
                requester: id(5),
                session_id: 6,
                sequence_hashes: vec![hash(0)],
            },
            0,
        )
        .unwrap();
    assert_eq!(launch.requester, id(5));
    assert_eq!(launch.instance_id, id(1));
    assert!(leader.has_session(6));
    assert!(leader
        .spawn_responder(OnboardMessage::Other { session_id: 7 }, 0)
        .is_err());
    assert!(!leader.has_session(7));
}

#[test]
fn control_modules_follow_the_request() {
    let bare = leader();
    assert_eq!(
        bare.register_control_plane(true, false, true),
        vec![ModuleId::Core, ModuleId::Transfer, ModuleId::Dev]
    );
    let observed = InstanceLeader::builder()
        .with_runtime(id(1), 8)
        .registry(2)
        .g2_manager(3)
        .build(0)
        .ok()
        .unwrap();
    assert_eq!(
        observed.register_control_plane(false, true, true),
        vec![
            ModuleId::Core,
            ModuleId::Transfer,
            ModuleId::Test,
            ModuleId::Metrics
        ]
    );
}

#[test]
fn hostname_falls_back() {
    let name = |text: &str| Some(String::from(text));
    assert_eq!(read_hostname(name("env"), name("system")), "system");
    assert_eq!(read_hostname(name("env"), name("")), "env");
    assert_eq!(read_hostname(name("env"), None), "env");
    assert_eq!(read_hostname(name(""), None), "unknown");
    // The kernel ends its name with a line break.
    assert_eq!(read_hostname(None, name("node-7\n")), "node-7");
    assert_eq!(read_hostname(None, name("\t\u{a0} a b \u{3000}")), "a b");
    assert_eq!(read_hostname(name(" env "), None), " env ");
    assert_eq!(read_hostname(None, name(" \n")), "unknown");
    assert_eq!(read_hostname(None, name("")), "unknown");
    assert_eq!(read_hostname(None, None), "unknown");
}
