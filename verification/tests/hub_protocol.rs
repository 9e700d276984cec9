//! Paths and messages of the hub.

use kvbm::common::InstanceId;
use kvbm::engine::describe::{KvBlockLayout, LayoutConfig};
use kvbm::engine::instance::BlockLayoutMode;
use kvbm::hub::builder::{create_client_builder, create_server_builder, MissingHost};
use kvbm::hub::paths;
use kvbm::hub::protocol::{
    instance_by_id, instance_describe, instance_heartbeat, instance_probe, peers_by_instance,
    peers_by_worker, CanonicalBlockShape, ConditionalDisaggConfig,
    ConditionalDisaggInstancesResponse, ConditionalDisaggRole, ErrorBody, ErrorCode, Feature,
    FeatureKey, HeartbeatResponse, LayoutCompatPayload, MetricsInstanceEntry, P2pConfig, PeerInfo,
    RegisterRequest, CD_PREFILL_QUEUE, DEFAULT_CONTROL_PORT, DEFAULT_DISCOVERY_PORT,
};

const ID: InstanceId = InstanceId {
    bits: 0x67e55044_10b1_426f_9247_bb680e5fe0c8,
};
const ID_TEXT: &str = "67e55044-10b1-426f-9247-bb680e5fe0c8";

fn p2p() -> Feature {
    Feature::P2P(P2pConfig {
        layout_compat: LayoutCompatPayload {
            mode: BlockLayoutMode::Operational,
            canonical: Some(CanonicalBlockShape {
                num_layers_total: 4,
                outer_dim: 2,
                page_size: 16,
                num_heads_total: 8,
                head_dim: 64,
                dtype_width_bytes: 2,
            }),
            per_worker_layout: KvBlockLayout::OperationalNHD,
            per_worker_config: LayoutConfig {
                num_blocks: 16,
                num_layers: 4,
                outer_dim: 2,
                page_size: 16,
                inner_dim: 8 * 64,
                alignment: 256,
                dtype_width_bytes: 2,
                num_heads: Some(8),
            },
            tp_size: 1,
            pp_size: 1,
        },
    })
}

fn cd(role: ConditionalDisaggRole) -> Feature {
    Feature::ConditionalDisagg(ConditionalDisaggConfig { role })
}

fn request(features: Vec<Feature>) -> RegisterRequest {
    RegisterRequest {
        peer_info: PeerInfo {
            instance_id: ID,
            worker_address: b"test".to_vec(),
        },
        features,
    }
}

#[test]
fn heartbeat_response_default_is_not_acknowledged() {
    assert!(!HeartbeatResponse::default().acknowledged);
}

#[test]
fn cd_prefill_queue_name_is_stable() {
    assert_eq!(CD_PREFILL_QUEUE, "kvbm.cd.prefill_requests");
}

#[test]
fn path_helpers_contain_id() {
    let outside = velo_ext::InstanceId::new_v4();
    let id = InstanceId {
        bits: outside.as_uuid().as_u128(),
    };
    let worker_id = outside.worker_id().as_u64();
    let id_str = outside.to_string();

    assert!(peers_by_instance(id).contains(&id_str));
    assert!(peers_by_worker(worker_id).contains(&worker_id.to_string()));
    assert!(instance_by_id(id).contains(&id_str));
    assert!(instance_heartbeat(id).contains(&id_str));
}

#[test]
fn path_helpers_have_expected_prefixes() {
    let outside = velo_ext::InstanceId::new_v4();
    let id = InstanceId {
        bits: outside.as_uuid().as_u128(),
    };
    let worker_id = outside.worker_id().as_u64();

    assert!(peers_by_instance(id).starts_with("/v1/peers/instance/"));
    assert!(peers_by_worker(worker_id).starts_with("/v1/peers/worker/"));
    assert!(instance_by_id(id).starts_with("/v1/instances/"));
    assert!(instance_heartbeat(id).starts_with("/v1/instances/"));
    assert!(instance_heartbeat(id).ends_with("/heartbeat"));
}

#[test]
fn paths_are_filled_templates() {
    let fill = |template: &str| template.replace("{instance_id}", ID_TEXT);
    assert_eq!(peers_by_instance(ID), fill(paths::PEERS_BY_INSTANCE));
    assert_eq!(instance_by_id(ID), fill(paths::INSTANCE_BY_ID));
    assert_eq!(instance_heartbeat(ID), fill(paths::INSTANCE_HEARTBEAT));
    assert_eq!(instance_probe(ID), fill(paths::INSTANCE_PROBE));
    assert_eq!(instance_describe(ID), fill(paths::INSTANCE_DESCRIBE));
    assert_eq!(
        peers_by_worker(u64::MAX),
        paths::PEERS_BY_WORKER.replace("{worker_id}", "18446744073709551615")
    );
    assert_eq!(peers_by_worker(0), "/v1/peers/worker/0");
}

#[test]
fn distinct_ids_have_distinct_paths() {
    let other = InstanceId { bits: ID.bits + 1 };
    assert_ne!(instance_by_id(ID), instance_by_id(other));
    assert_ne!(peers_by_instance(ID), peers_by_instance(other));
    assert_ne!(peers_by_worker(1), peers_by_worker(11));
}

#[test]
fn id_text_is_the_hyphenated_uuid() {
    assert_eq!(ID.to_text(), ID_TEXT);
    assert_eq!(
        InstanceId { bits: 0 }.to_text(),
        "00000000-0000-0000-0000-000000000000"
    );
}

#[test]
fn feature_keys_name_their_variants() {
    assert_eq!(p2p().key(), FeatureKey::P2P);
    assert_eq!(
        cd(ConditionalDisaggRole::Decode).key(),
        FeatureKey::ConditionalDisagg
    );
    assert_eq!(FeatureKey::ConnectorControl.name(), "ConnectorControl");
}

#[test]
fn cd_register_without_p2p_feature_is_rejected() {
    assert!(!request(vec![cd(ConditionalDisaggRole::Prefill)]).dependencies_met());
    assert!(request(vec![p2p(), cd(ConditionalDisaggRole::Prefill)]).dependencies_met());
    assert!(request(vec![cd(ConditionalDisaggRole::Decode), p2p()]).dependencies_met());
    assert!(request(vec![p2p()]).dependencies_met());
    assert!(request(vec![]).dependencies_met());
}

#[test]
fn metrics_entry_holds_one_side() {
    let good: MetricsInstanceEntry<u32> = MetricsInstanceEntry::from_outcome(Ok(3));
    assert_eq!(good.snapshot, Some(3));
    assert!(good.error.is_none());
    let bad: MetricsInstanceEntry<u32> =
        MetricsInstanceEntry::from_outcome(Err(String::from("slow")));
    assert!(bad.snapshot.is_none());
    assert_eq!(bad.error.unwrap(), "slow");
}

#[test]
fn error_body_reads_as_its_message() {
    let body = ErrorBody {
        code: ErrorCode::NotFound,
        message: String::from("instance abc not found"),
    };
    assert_eq!(body.code, ErrorCode::NotFound);
    assert_eq!(body.text(), "instance abc not found");
}

#[test]
fn default_listing_is_empty() {
    let listing = ConditionalDisaggInstancesResponse::default();
    assert!(listing.prefill.is_empty());
    assert!(listing.decode.is_empty());
}

#[test]
fn builders_start_on_the_default_ports() {
    assert_eq!(DEFAULT_DISCOVERY_PORT, 1337);
    assert_eq!(DEFAULT_CONTROL_PORT, 8337);
    let server = create_server_builder();
    assert_eq!(server.discovery_port, 1337);
    assert_eq!(server.control_port, 8337);
    let server = create_server_builder().discovery_port(0).control_port(9);
    assert_eq!((server.discovery_port, server.control_port), (0, 9));

    let client = create_client_builder()
        .host(String::from("name-or-ip"))
        .port(1400)
        .build()
        .unwrap();
    assert_eq!(client.host, "name-or-ip");
    assert_eq!(client.discovery_port, 1400);
    assert_eq!(client.control_port, 8337);
    assert_eq!(
        create_client_builder().build().err(),
        Some(MissingHost)
    );
}
