//! Messages exchanged with the hub, and the paths they travel on.

use super::paths;
use crate::common::{InstanceId, SessionId, WorkerId};
use crate::engine::describe::{KvBlockLayout, LayoutConfig};
use crate::engine::instance::BlockLayoutMode;
use crate::identity::{append_decimal, decimal_text, law_instance_text_injective, uuid_text};
use crate::tokens::SequenceHash;
use std::collections::BTreeMap;
use vstd::prelude::*;

verus! {

/// Default port of the peer-discovery listener.
pub const DEFAULT_DISCOVERY_PORT: u16 = 1337;

/// Default port of the control-plane listener.
pub const DEFAULT_CONTROL_PORT: u16 = 8337;

/// Queue that carries prefill requests from decode to prefill instances.
pub const CD_PREFILL_QUEUE: &'static str = "kvbm.cd.prefill_requests";

/// A peer: its id and its opaque transport address.
#[derive(Debug, Clone)]
pub struct PeerInfo {
    pub instance_id: InstanceId,
    pub worker_address: Vec<u8>,
}

/// Aggregate shape of a block over all workers of a leader.
#[derive(Debug, Clone, Copy, PartialEq, Eq, Structural)]
pub struct CanonicalBlockShape {
    pub num_layers_total: usize,
    pub outer_dim: usize,
    pub page_size: usize,
    pub num_heads_total: usize,
    pub head_dim: usize,
    pub dtype_width_bytes: usize,
}

/// What two leaders compare before they exchange blocks.
#[derive(Debug, Clone, Copy, PartialEq, Eq)]
pub struct LayoutCompatPayload {
    pub mode: BlockLayoutMode,
    pub canonical: Option<CanonicalBlockShape>,
    pub per_worker_layout: KvBlockLayout,
    pub per_worker_config: LayoutConfig,
    pub tp_size: usize,
    pub pp_size: usize,
}

/// Configuration of the peer-to-peer feature.
#[derive(Debug, Clone, Copy, PartialEq, Eq)]
pub struct P2pConfig {
    pub layout_compat: LayoutCompatPayload,
}

/// Role of an instance in the conditional-disaggregation split.
#[derive(Debug, Clone, Copy, PartialEq, Eq, Hash, Structural)]
pub enum ConditionalDisaggRole {
    Prefill,
    Decode,
}

impl ConditionalDisaggRole {
    /// The name of the role.
    pub open spec fn text(self) -> Seq<char> {
        match self {
            ConditionalDisaggRole::Prefill => "Prefill"@,
            ConditionalDisaggRole::Decode => "Decode"@,
        }
    }

    /// The name of the role.
    pub fn name(&self) -> (name: &'static str)
        ensures
            name@ == self.text(),
    {
        match self {
            ConditionalDisaggRole::Prefill => "Prefill",
            ConditionalDisaggRole::Decode => "Decode",
        }
    }
}

/// Configuration of the conditional-disaggregation feature.
#[derive(Debug, Clone, Copy, PartialEq, Eq, Structural)]
pub struct ConditionalDisaggConfig {
    pub role: ConditionalDisaggRole,
}

/// A feature that a client declares when it registers.
///
/// Conditional disaggregation is a specialisation of the peer-to-peer
/// feature: a request that declares the first declares the second too.
#[derive(Debug, Clone, Copy, PartialEq, Eq)]
#[non_exhaustive]
pub enum Feature {
    P2P(P2pConfig),
    ConditionalDisagg(ConditionalDisaggConfig),
}

/// Kind of a feature, without its configuration.
#[derive(Debug, Clone, Copy, PartialEq, Eq, Hash, Structural)]
#[non_exhaustive]
pub enum FeatureKey {
    P2P,
    ConditionalDisagg,
    /// Proxy of the control plane: contributes routes only, no client
    /// declares it.
    ConnectorControl,
}

impl FeatureKey {
    /// The name of the key.
    pub open spec fn text(self) -> Seq<char> {
        match self {
            FeatureKey::P2P => "P2P"@,
            FeatureKey::ConditionalDisagg => "ConditionalDisagg"@,
            FeatureKey::ConnectorControl => "ConnectorControl"@,
        }
    }

    /// The name of the key.
    pub fn name(&self) -> (name: &'static str)
        ensures
            name@ == self.text(),
    {
        match self {
            FeatureKey::P2P => "P2P",
            FeatureKey::ConditionalDisagg => "ConditionalDisagg",
            FeatureKey::ConnectorControl => "ConnectorControl",
        }
    }
}

impl Feature {
    /// The kind of the feature.
    pub open spec fn kind(self) -> FeatureKey {
        match self {
            Feature::P2P(_) => FeatureKey::P2P,
            Feature::ConditionalDisagg(_) => FeatureKey::ConditionalDisagg,
        }
    }

    /// The kind of the feature.
    pub fn key(&self) -> (key: FeatureKey)
        ensures
            key == self.kind(),
    {
        match self {
            Feature::P2P(_) => FeatureKey::P2P,
            Feature::ConditionalDisagg(_) => FeatureKey::ConditionalDisagg,
        }
    }
}

/// Body of a registration.
#[derive(Debug, Clone)]
pub struct RegisterRequest {
    pub peer_info: PeerInfo,
    pub features: Vec<Feature>,
}

/// Some declared feature is of a kind.
pub open spec fn declares(features: Seq<Feature>, key: FeatureKey) -> bool {
    exists|i: int| 0 <= i < features.len() && (#[trigger] features[i]).kind() == key
}

/// The features come with what they build on.
pub open spec fn builds_on_p2p(features: Seq<Feature>) -> bool {
    declares(features, FeatureKey::ConditionalDisagg) ==> declares(features, FeatureKey::P2P)
}

/// Tests whether some declared feature is of a kind.
fn has_feature(features: &Vec<Feature>, key: FeatureKey) -> (found: bool)
    ensures
        found == declares(features@, key),
{
    let mut i: usize = 0;
    while i < features.len()
        invariant
            i <= features.len(),
            forall|j: int| 0 <= j < i ==> (#[trigger] features@[j]).kind() != key,
        decreases features.len() - i,
    {
        if features[i].key() == key {
            assert(features@[i as int].kind() == key);
            return true;
        }
        i += 1;
    }
    false
}

impl RegisterRequest {
    /// Whether every declared feature comes with the features it builds on.
    /// The hub refuses a request that does not, before any registry sees it.
    pub fn dependencies_met(&self) -> (met: bool)
        ensures
            met == builds_on_p2p(self.features@),
            met == (declares(self.features@, FeatureKey::ConditionalDisagg) ==> declares(
                self.features@,
                FeatureKey::P2P,
            )),
    {
        !has_feature(&self.features, FeatureKey::ConditionalDisagg) || has_feature(
            &self.features,
            FeatureKey::P2P,
        )
    }
}

/// A remote prefill, as the queue carries it.
#[derive(Debug)]
pub struct PrefillRequest {
    pub protocol_version: u32,
    pub request_id: String,
    pub session_id: SessionId,
    pub initiator_instance_id: InstanceId,
    pub decode_endpoint: Option<String>,
    pub sequence_hashes: Vec<SequenceHash>,
    pub token_ids: Vec<u32>,
    pub num_computed_tokens: usize,
}

/// Instances of the conditional-disaggregation feature, by role.
#[derive(Debug, Clone, PartialEq, Eq)]
pub struct ConditionalDisaggInstancesResponse {
    pub prefill: Vec<InstanceId>,
    pub decode: Vec<InstanceId>,
}

impl Default for ConditionalDisaggInstancesResponse {
    fn default() -> (response: Self)
        ensures
            response.prefill@ == Seq::<InstanceId>::empty(),
            response.decode@ == Seq::<InstanceId>::empty(),
    {
        ConditionalDisaggInstancesResponse { prefill: Vec::new(), decode: Vec::new() }
    }
}

/// Answer to a registration.
#[derive(Debug, Clone, Copy, PartialEq, Eq)]
pub struct RegisterResponse {
    /// The registered instance, echoed back.
    pub instance_id: InstanceId,
    /// The hub's own id, where the hub takes part in active messaging.
    pub hub_instance_id: Option<InstanceId>,
}

/// Answer to a peer lookup.
#[derive(Debug, Clone)]
pub struct PeerLookupResponse {
    pub peer_info: PeerInfo,
}

/// Answer to a heartbeat.
#[derive(Debug, Clone, Copy, PartialEq, Eq, Structural)]
pub struct HeartbeatResponse {
    /// Whether the hub considers the instance registered.
    pub acknowledged: bool,
}

impl Default for HeartbeatResponse {
    fn default() -> (response: Self)
        ensures
            !response.acknowledged,
    {
        HeartbeatResponse { acknowledged: false }
    }
}

/// Answer to a probe.
#[derive(Debug, Clone, Copy, PartialEq, Eq, Structural)]
pub struct ProbeResponse {
    /// Echoed sequence number.
    pub seq: u64,
    /// Whether the instance reported itself healthy.
    pub ok: bool,
}

/// All registered instances.
#[derive(Debug, Clone)]
pub struct ListInstancesResponse {
    pub instances: Vec<PeerInfo>,
}

/// One leader's part of a metrics fan-out: a snapshot or an error, never both
/// and never neither.
#[derive(Debug, Clone)]
pub struct MetricsInstanceEntry<S> {
    pub snapshot: Option<S>,
    pub error: Option<String>,
}

impl<S> MetricsInstanceEntry<S> {
    /// The entry for what a leader answered.
    pub fn from_outcome(outcome: Result<S, String>) -> (entry: Self)
        ensures
            match outcome {
                Ok(snapshot) => entry.snapshot == Some(snapshot) && entry.error is None,
                Err(error) => entry.snapshot is None && entry.error == Some(error),
            },
    {
        match outcome {
            Ok(snapshot) => MetricsInstanceEntry { snapshot: Some(snapshot), error: None },
            Err(error) => MetricsInstanceEntry { snapshot: None, error: Some(error) },
        }
    }
}

/// Answer to a metrics fan-out, keyed by the text of the instance id.
#[derive(Debug, Clone)]
pub struct MetricsFanoutResponse<S> {
    pub gathered_at_unix_ms: u64,
    pub instances: BTreeMap<String, MetricsInstanceEntry<S>>,
}

/// Machine-readable code of a refused request.
#[derive(Debug, Clone, Copy, PartialEq, Eq, Structural)]
pub enum ErrorCode {
    NotFound,
    Conflict,
    BadRequest,
    Internal,
}

/// Body of a refused request.
#[derive(Debug, Clone)]
pub struct ErrorBody {
    pub code: ErrorCode,
    pub message: String,
}

impl ErrorBody {
    /// What the error reads as.
    pub fn text(&self) -> (text: &String)
        ensures
            text@ == self.message@,
    {
        &self.message
    }
}

/// Path of an instance, with what follows its id.
pub open spec fn instance_path(id: InstanceId, suffix: Seq<char>) -> Seq<char> {
    "/v1/instances/"@ + uuid_text(id.bits) + suffix
}

/// Path of a peer looked up by instance id.
pub open spec fn peer_instance_path(id: InstanceId) -> Seq<char> {
    "/v1/peers/instance/"@ + uuid_text(id.bits)
}

/// Path of a peer looked up by worker id.
pub open spec fn peer_worker_path(id: WorkerId) -> Seq<char> {
    "/v1/peers/worker/"@ + decimal_text(id as nat)
}

/// Joins the path of an instance with what follows its id.
fn under_instance(id: InstanceId, suffix: &str) -> (path: String)
    ensures
        path@ == instance_path(id, suffix@),
{
    let mut path = String::from_str("/v1/instances/");
    path.append(id.to_text().as_str());
    path.append(suffix);
    path
}

/// The path of a peer looked up by instance id.
pub fn peers_by_instance(id: InstanceId) -> (path: String)
    ensures
        path@ == peer_instance_path(id),
{
    let mut path = String::from_str("/v1/peers/instance/");
    path.append(id.to_text().as_str());
    path
}

/// The path of a peer looked up by worker id.
pub fn peers_by_worker(id: WorkerId) -> (path: String)
    ensures
        path@ == peer_worker_path(id),
{
    let mut path = String::from_str("/v1/peers/worker/");
    append_decimal(&mut path, id);
    path
}

/// The path of an instance.
pub fn instance_by_id(id: InstanceId) -> (path: String)
    ensures
        path@ == instance_path(id, ""@),
{
    under_instance(id, "")
}

/// The path of an instance's heartbeat.
pub fn instance_heartbeat(id: InstanceId) -> (path: String)
    ensures
        path@ == instance_path(id, "/heartbeat"@),
{
    under_instance(id, "/heartbeat")
}

/// The path of an instance's probe.
pub fn instance_probe(id: InstanceId) -> (path: String)
    ensures
        path@ == instance_path(id, "/probe"@),
{
    under_instance(id, "/probe")
}

/// The path of an instance's description.
pub fn instance_describe(id: InstanceId) -> (path: String)
    ensures
        path@ == instance_path(id, "/describe"@),
{
    under_instance(id, "/describe")
}

/// A path is a template with its placeholder filled in.
pub open spec fn fills(
    path: Seq<char>,
    template: Seq<char>,
    placeholder: Seq<char>,
    value: Seq<char>,
) -> bool {
    exists|head: Seq<char>, tail: Seq<char>|
        #![trigger head + placeholder + tail]
        template == head + placeholder + tail && path == head + value + tail
}

/// Witness of a filled template.
proof fn lemma_fills(
    head: Seq<char>,
    tail: Seq<char>,
    template: Seq<char>,
    placeholder: Seq<char>,
    value: Seq<char>,
)
    requires
        template == head + placeholder + tail,
    ensures
        fills(head + value + tail, template, placeholder, value),
{
    assert(template == head + placeholder + tail && head + value + tail == head + value + tail);
}

/// Every path is the route's template with the id in place of the placeholder.
pub proof fn law_paths_fill_templates(id: InstanceId, worker: WorkerId)
    ensures
        fills(
            peer_instance_path(id),
            paths::PEERS_BY_INSTANCE@,
            "{instance_id}"@,
            uuid_text(id.bits),
        ),
        fills(
            peer_worker_path(worker),
            paths::PEERS_BY_WORKER@,
            "{worker_id}"@,
            decimal_text(worker as nat),
        ),
        fills(
            instance_path(id, ""@),
            paths::INSTANCE_BY_ID@,
            "{instance_id}"@,
            uuid_text(id.bits),
        ),
        fills(
            instance_path(id, "/heartbeat"@),
            paths::INSTANCE_HEARTBEAT@,
            "{instance_id}"@,
            uuid_text(id.bits),
        ),
        fills(
            instance_path(id, "/probe"@),
            paths::INSTANCE_PROBE@,
            "{instance_id}"@,
            uuid_text(id.bits),
        ),
        fills(
            instance_path(id, "/describe"@),
            paths::INSTANCE_DESCRIBE@,
            "{instance_id}"@,
            uuid_text(id.bits),
        ),
{
    reveal_strlit("");
    reveal_strlit("{instance_id}");
    reveal_strlit("{worker_id}");
    reveal_strlit("/v1/peers/instance/");
    reveal_strlit("/v1/peers/worker/");
    reveal_strlit("/v1/instances/");
    reveal_strlit("/heartbeat");
    reveal_strlit("/probe");
    reveal_strlit("/describe");
    reveal_strlit("/v1/peers/instance/{instance_id}");
    reveal_strlit("/v1/peers/worker/{worker_id}");
    reveal_strlit("/v1/instances/{instance_id}");
    reveal_strlit("/v1/instances/{instance_id}/heartbeat");
    reveal_strlit("/v1/instances/{instance_id}/probe");
    reveal_strlit("/v1/instances/{instance_id}/describe");
    let text = uuid_text(id.bits);
    let none = Seq::<char>::empty();
    assert(paths::PEERS_BY_INSTANCE@ =~= "/v1/peers/instance/"@ + "{instance_id}"@ + none);
    lemma_fills(
        "/v1/peers/instance/"@,
        none,
        paths::PEERS_BY_INSTANCE@,
        "{instance_id}"@,
        text,
    );
    assert(peer_instance_path(id) =~= "/v1/peers/instance/"@ + text + none);
    let number = decimal_text(worker as nat);
    assert(paths::PEERS_BY_WORKER@ =~= "/v1/peers/worker/"@ + "{worker_id}"@ + none);
    lemma_fills("/v1/peers/worker/"@, none, paths::PEERS_BY_WORKER@, "{worker_id}"@, number);
    assert(peer_worker_path(worker) =~= "/v1/peers/worker/"@ + number + none);
    assert(paths::INSTANCE_BY_ID@ =~= "/v1/instances/"@ + "{instance_id}"@ + ""@);
    lemma_fills("/v1/instances/"@, ""@, paths::INSTANCE_BY_ID@, "{instance_id}"@, text);
    assert(paths::INSTANCE_HEARTBEAT@ =~= "/v1/instances/"@ + "{instance_id}"@ + "/heartbeat"@);
    lemma_fills(
        "/v1/instances/"@,
        "/heartbeat"@,
        paths::INSTANCE_HEARTBEAT@,
        "{instance_id}"@,
        text,
    );
    assert(paths::INSTANCE_PROBE@ =~= "/v1/instances/"@ + "{instance_id}"@ + "/probe"@);
    lemma_fills("/v1/instances/"@, "/probe"@, paths::INSTANCE_PROBE@, "{instance_id}"@, text);
    assert(paths::INSTANCE_DESCRIBE@ =~= "/v1/instances/"@ + "{instance_id}"@ + "/describe"@);
    lemma_fills(
        "/v1/instances/"@,
        "/describe"@,
        paths::INSTANCE_DESCRIBE@,
        "{instance_id}"@,
        text,
    );
}

/// Decimal digits tell numbers apart.
proof fn lemma_decimal_injective(a: nat, b: nat)
    requires
        decimal_text(a) == decimal_text(b),
    ensures
        a == b,
    decreases a,
{
    if a >= 10 {
        assert(decimal_text(a).drop_last() =~= decimal_text(a / 10));
    }
    if b >= 10 {
        assert(decimal_text(b).drop_last() =~= decimal_text(b / 10));
    }
    lemma_decimal_nonempty(a / 10);
    lemma_decimal_nonempty(b / 10);
    assert(decimal_text(a).last() == (48 + a % 10) as char);
    assert(decimal_text(b).last() == (48 + b % 10) as char);
    assert(a % 10 == b % 10);
    if a >= 10 && b >= 10 {
        lemma_decimal_injective(a / 10, b / 10);
    } else if a >= 10 {
        assert(decimal_text(a).len() >= 2);
        assert(decimal_text(b).len() == 1);
    } else if b >= 10 {
        assert(decimal_text(b).len() >= 2);
        assert(decimal_text(a).len() == 1);
    }
}

/// A number has a digit.
proof fn lemma_decimal_nonempty(number: nat)
    ensures
        decimal_text(number).len() >= 1,
{
}

/// Distinct ids never share a path.
pub proof fn law_paths_tell_ids_apart(a: InstanceId, b: InstanceId, suffix: Seq<char>)
    requires
        instance_path(a, suffix) == instance_path(b, suffix) || peer_instance_path(a)
            == peer_instance_path(b),
    ensures
        a == b,
{
    let ta = uuid_text(a.bits);
    let tb = uuid_text(b.bits);
    if peer_instance_path(a) == peer_instance_path(b) {
        let head = "/v1/peers/instance/"@.len() as int;
        assert(ta =~= peer_instance_path(a).skip(head));
        assert(tb =~= peer_instance_path(b).skip(head));
    } else {
        let head = "/v1/instances/"@.len() as int;
        assert(ta =~= instance_path(a, suffix).subrange(head, head + 36));
        assert(tb =~= instance_path(b, suffix).subrange(head, head + 36));
    }
    law_instance_text_injective(a, b);
}

/// Distinct workers never share a path.
pub proof fn law_paths_tell_workers_apart(a: WorkerId, b: WorkerId)
    requires
        peer_worker_path(a) == peer_worker_path(b),
    ensures
        a == b,
{
    let head = "/v1/peers/worker/"@.len() as int;
    assert(decimal_text(a as nat) =~= peer_worker_path(a).skip(head));
    assert(decimal_text(b as nat) =~= peer_worker_path(b).skip(head));
    lemma_decimal_injective(a as nat, b as nat);
}

/// A request is refused exactly if it declares conditional disaggregation and
/// nowhere the peer-to-peer feature that it builds on.
pub proof fn law_disaggregation_builds_on_p2p(features: Seq<Feature>)
    ensures
        !builds_on_p2p(features) <==> (exists|i: int|
            0 <= i < features.len() && (#[trigger] features[i]) is ConditionalDisagg) && (forall|
            i: int,
        |
            0 <= i < features.len() ==> !((#[trigger] features[i]) is P2P)),
{
    if declares(features, FeatureKey::ConditionalDisagg) {
        let i = choose|i: int|
            0 <= i < features.len() && (#[trigger] features[i]).kind()
                == FeatureKey::ConditionalDisagg;
        assert(features[i] is ConditionalDisagg);
    }
    if declares(features, FeatureKey::P2P) {
        let i = choose|i: int|
            0 <= i < features.len() && (#[trigger] features[i]).kind() == FeatureKey::P2P;
        assert(features[i] is P2P);
    }
    if exists|i: int| 0 <= i < features.len() && (#[trigger] features[i]) is ConditionalDisagg {
        let i = choose|i: int|
            0 <= i < features.len() && (#[trigger] features[i]) is ConditionalDisagg;
        assert(features[i].kind() == FeatureKey::ConditionalDisagg);
    }
    if !declares(features, FeatureKey::P2P) {
        assert forall|i: int| 0 <= i < features.len() implies !((#[trigger] features[i]) is P2P) by {
            if features[i] is P2P {
                assert(features[i].kind() == FeatureKey::P2P);
            }
        }
    }
}

/// Roles, kinds and their names tell each other apart.
pub proof fn law_kinds_are_named(feature: Feature)
    ensures
        feature is P2P <==> feature.kind() == FeatureKey::P2P,
        feature is ConditionalDisagg <==> feature.kind() == FeatureKey::ConditionalDisagg,
        FeatureKey::P2P.text() == "P2P"@,
        FeatureKey::ConditionalDisagg.text() == "ConditionalDisagg"@,
        FeatureKey::ConnectorControl.text() == "ConnectorControl"@,
        ConditionalDisaggRole::Prefill.text() == "Prefill"@,
        ConditionalDisaggRole::Decode.text() == "Decode"@,
{
}

} // verus!
