//! URL paths of the hub's HTTP surface.

use vstd::prelude::*;

verus! {

/// Peer lookup by instance id: `GET`, answered with a peer.
pub const PEERS_BY_INSTANCE: &'static str = "/v1/peers/instance/{instance_id}";

/// Peer lookup by worker id: `GET`, answered with a peer.
pub const PEERS_BY_WORKER: &'static str = "/v1/peers/worker/{worker_id}";

/// Registration: `POST` with a register request.
pub const INSTANCES: &'static str = "/v1/instances";

/// Unregistration: `DELETE`.
pub const INSTANCE_BY_ID: &'static str = "/v1/instances/{instance_id}";

/// Liveness heartbeat: `POST`.
pub const INSTANCE_HEARTBEAT: &'static str = "/v1/instances/{instance_id}/heartbeat";

/// Probe that the hub sends over active messaging: `POST`.
pub const INSTANCE_PROBE: &'static str = "/v1/instances/{instance_id}/probe";

/// Health of the hub itself: `GET`.
pub const HEALTH: &'static str = "/health";

/// Instances of the conditional-disaggregation feature, split by role: `GET`.
pub const CD_INSTANCES: &'static str = "/v1/features/conditional-disagg/instances";

/// Health of one connector: `GET`.
pub const CONNECTOR_HEALTH: &'static str = "/v1/instances/{instance_id}/health";

/// Register a remote leader: `POST`.
pub const CONTROL_CORE_REGISTER_LEADER: &'static str =
    "/v1/instances/{instance_id}/control/core/register_leader";

/// Pull a fresh description from the leader: `POST`.
pub const CONTROL_CORE_DESCRIBE_INSTANCE: &'static str =
    "/v1/instances/{instance_id}/control/core/describe_instance";

/// Reset the inactive pools of the requested tiers: `POST`.
pub const CONTROL_DEV_RESET: &'static str = "/v1/instances/{instance_id}/control/dev/reset";

/// Allocate and register one host block per requested hash: `POST`.
pub const CONTROL_TEST_REGISTER_TEST_BLOCKS: &'static str =
    "/v1/instances/{instance_id}/control/test/register_test_blocks";

/// Contiguous-prefix search of the leader's host blocks: `POST`.
pub const CONTROL_TRANSFER_SEARCH_PREFIX: &'static str =
    "/v1/instances/{instance_id}/control/transfer/search_prefix";

/// Gather-all search of the leader's host blocks: `POST`.
pub const CONTROL_TRANSFER_SEARCH_SCATTER: &'static str =
    "/v1/instances/{instance_id}/control/transfer/search_scatter";

/// Open a transfer session on the holder: `POST`.
pub const CONTROL_TRANSFER_OPEN_SESSION: &'static str =
    "/v1/instances/{instance_id}/control/transfer/open_session";

/// Drive a pull on the puller, until it is complete: `POST`.
pub const CONTROL_TRANSFER_PULL_FROM_SESSION: &'static str =
    "/v1/instances/{instance_id}/control/transfer/pull_from_session";

/// Close a transfer session on the holder: `POST`, idempotent.
pub const CONTROL_TRANSFER_CLOSE_SESSION: &'static str =
    "/v1/instances/{instance_id}/control/transfer/close_session";

/// Runtime snapshot of the leader: `POST`.
pub const CONTROL_METRICS_SNAPSHOT: &'static str =
    "/v1/instances/{instance_id}/control/metrics/snapshot";

/// Runtime snapshots of every leader with the metrics module: `GET`.
pub const METRICS_FANOUT: &'static str = "/v1/metrics";

/// Control-plane modules enabled on an instance: `GET`.
pub const INSTANCE_MODULES: &'static str = "/v1/instances/{instance_id}/modules";

/// Description of an instance: `GET` reads the cached one, `POST` stores one.
pub const INSTANCE_DESCRIBE: &'static str = "/v1/instances/{instance_id}/describe";

} // verus!
