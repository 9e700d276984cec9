//! The instance leader.
//!
//! The leader decides what a search returns, which sessions exist and what is
//! to be started for them. Resources that only the runtime can hold, such as
//! block managers and clients, appear as handle numbers; what the runtime read
//! from them comes in as arguments.

use crate::common::{InstanceId, SessionId};
use crate::engine::describe::KvDim;
use crate::engine::held::{HeldSessions, SessionState};
use crate::engine::matches::{
    AsyncSessionResult, FindMatchesResult, MatchBreakdown, MatchedBlock, OnboardingStatus,
    ReadyResult, ReadyView, StagingMode,
};
use crate::identity::{random_session_id, uuid_text};
use crate::table::SessionTable;
use crate::tokens::SequenceHash;
use vstd::prelude::*;

verus! {

/// Number under which the runtime keeps a resource.
pub type HandleId = u64;

/// Role of a leader in a prefill/decode split.
#[derive(Debug, Clone, Copy, PartialEq, Eq, Structural)]
pub enum DisaggregationRole {
    Prefill,
    Decode,
}

/// How strictly block layouts of two leaders have to agree.
#[derive(Debug, Clone, Copy, PartialEq, Eq, Structural)]
pub enum BlockLayoutMode {
    Operational,
    Universal,
}

/// Shape of the local worker grid.
#[derive(Debug)]
pub struct ParallelismTemplate {
    pub tp_size: usize,
    pub pp_size: usize,
    pub shard_axis: KvDim,
    pub global_extents: Vec<(KvDim, usize)>,
    pub num_layers: usize,
    pub dtype_width_bytes: usize,
}

/// One worker: its handle and the handle of its host layout, if registered.
#[derive(Debug, Clone, Copy, PartialEq, Eq, Structural)]
pub struct WorkerEntry {
    pub worker: HandleId,
    pub g2_handle: Option<HandleId>,
}

/// Module of the control plane.
#[derive(Debug, Clone, Copy, PartialEq, Eq, Structural)]
pub enum ModuleId {
    Core,
    Transfer,
    Dev,
    Test,
    Metrics,
}

/// Required part that a builder lacks.
#[derive(Debug, Clone, Copy, PartialEq, Eq, Structural)]
pub enum BuildError {
    /// "Velo instance required"
    MessengerRequired,
    /// "block registry required"
    RegistryRequired,
    /// "g2_manager required"
    G2ManagerRequired,
}

impl BuildError {
    /// The text of the error.
    pub open spec fn text(self) -> Seq<char> {
        match self {
            BuildError::MessengerRequired => "Velo instance required"@,
            BuildError::RegistryRequired => "block registry required"@,
            BuildError::G2ManagerRequired => "g2_manager required"@,
        }
    }

    /// Renders the error.
    pub fn message(&self) -> (message: &'static str)
        ensures
            message@ == self.text(),
    {
        match self {
            BuildError::MessengerRequired => "Velo instance required",
            BuildError::RegistryRequired => "block registry required",
            BuildError::G2ManagerRequired => "g2_manager required",
        }
    }
}

/// Parts of a leader that never change after it was built.
#[derive(Debug)]
pub struct LeaderConfig {
    pub instance_id: InstanceId,
    pub registry: HandleId,
    pub g2_manager: HandleId,
    pub g3_manager: Option<HandleId>,
    pub workers: Vec<WorkerEntry>,
    /// Worker exports collected before the leader was built.
    pub cached_worker_metadata: Option<HandleId>,
    pub object_client: Option<HandleId>,
    pub parallelism_template: Option<ParallelismTemplate>,
    pub block_layout_mode: BlockLayoutMode,
    pub role: Option<DisaggregationRole>,
    pub observability: Option<HandleId>,
    /// Disk hits go to the device directly instead of through host memory.
    pub bypass_host: bool,
    /// Start of the process, in seconds since the epoch.
    pub started_at: u64,
}

/// Collects the parts of a leader.
#[derive(Debug)]
pub struct InstanceLeaderBuilder {
    pub messenger: Option<InstanceId>,
    pub registry: Option<HandleId>,
    pub g2_manager: Option<HandleId>,
    pub g3_manager: Option<HandleId>,
    pub workers: Vec<WorkerEntry>,
    pub remote_leaders: Option<Vec<InstanceId>>,
    pub cached_worker_metadata: Option<HandleId>,
    pub object_client: Option<HandleId>,
    pub parallelism_template: Option<ParallelismTemplate>,
    pub role: Option<DisaggregationRole>,
    pub observability: Option<HandleId>,
    pub bypass_host: bool,
    pub block_layout_mode: BlockLayoutMode,
}

impl Default for InstanceLeaderBuilder {
    fn default() -> (builder: Self)
        ensures
            builder.is_fresh(),
    {
        InstanceLeaderBuilder {
            messenger: None,
            registry: None,
            g2_manager: None,
            g3_manager: None,
            workers: Vec::new(),
            remote_leaders: None,
            cached_worker_metadata: None,
            object_client: None,
            parallelism_template: None,
            role: None,
            observability: None,
            bypass_host: false,
            block_layout_mode: BlockLayoutMode::Operational,
        }
    }
}

impl InstanceLeaderBuilder {
    /// Nothing was set yet.
    pub open spec fn is_fresh(self) -> bool {
        &&& self.messenger is None
        &&& self.registry is None
        &&& self.g2_manager is None
        &&& self.g3_manager is None
        &&& self.workers@ == Seq::<WorkerEntry>::empty()
        &&& self.remote_leaders is None
        &&& self.cached_worker_metadata is None
        &&& self.object_client is None
        &&& self.parallelism_template is None
        &&& self.role is None
        &&& self.observability is None
        &&& !self.bypass_host
        &&& self.block_layout_mode == BlockLayoutMode::Operational
    }

    /// The first required part that is missing.
    pub open spec fn missing(self) -> Option<BuildError> {
        if self.messenger is None {
            Some(BuildError::MessengerRequired)
        } else if self.registry is None {
            Some(BuildError::RegistryRequired)
        } else if self.g2_manager is None {
            Some(BuildError::G2ManagerRequired)
        } else {
            None
        }
    }

    /// Takes messenger and observability from a runtime.
    pub fn with_runtime(self, messenger: InstanceId, observability: HandleId) -> (builder: Self)
        ensures
            builder == (InstanceLeaderBuilder {
                messenger: Some(messenger),
                observability: Some(observability),
                ..self
            }),
    {
        self.messenger(messenger).observability(observability)
    }

    /// Sets the messenger, known by its instance.
    pub fn messenger(self, messenger: InstanceId) -> (builder: Self)
        ensures
            builder == (InstanceLeaderBuilder { messenger: Some(messenger), ..self }),
    {
        let mut builder = self;
        builder.messenger = Some(messenger);
        builder
    }

    /// Sets the block registry.
    pub fn registry(self, registry: HandleId) -> (builder: Self)
        ensures
            builder == (InstanceLeaderBuilder { registry: Some(registry), ..self }),
    {
        let mut builder = self;
        builder.registry = Some(registry);
        builder
    }

    /// Sets or clears the host block manager.
    pub fn with_g2_manager(self, manager: Option<HandleId>) -> (builder: Self)
        ensures
            builder == (InstanceLeaderBuilder { g2_manager: manager, ..self }),
    {
        let mut builder = self;
        builder.g2_manager = manager;
        builder
    }

    /// Sets or clears the disk block manager.
    pub fn with_g3_manager(self, manager: Option<HandleId>) -> (builder: Self)
        ensures
            builder == (InstanceLeaderBuilder { g3_manager: manager, ..self }),
    {
        let mut builder = self;
        builder.g3_manager = manager;
        builder
    }

    /// Sets the host block manager.
    pub fn g2_manager(self, manager: HandleId) -> (builder: Self)
        ensures
            builder == (InstanceLeaderBuilder { g2_manager: Some(manager), ..self }),
    {
        self.with_g2_manager(Some(manager))
    }

    /// Sets the disk block manager.
    pub fn g3_manager(self, manager: HandleId) -> (builder: Self)
        ensures
            builder == (InstanceLeaderBuilder { g3_manager: Some(manager), ..self }),
    {
        self.with_g3_manager(Some(manager))
    }

    /// Adds a worker.
    pub fn worker(self, worker: WorkerEntry) -> (builder: Self)
        ensures
            builder.workers@ == self.workers@.push(worker),
            builder == (InstanceLeaderBuilder { workers: builder.workers, ..self }),
    {
        let mut builder = self;
        builder.workers.push(worker);
        builder
    }

    /// Sets all workers.
    pub fn workers(self, workers: Vec<WorkerEntry>) -> (builder: Self)
        ensures
            builder == (InstanceLeaderBuilder { workers, ..self }),
    {
        let mut builder = self;
        builder.workers = workers;
        builder
    }

    /// Sets the remote leaders.
    pub fn remote_leaders(self, leaders: Vec<InstanceId>) -> (builder: Self)
        ensures
            builder == (InstanceLeaderBuilder { remote_leaders: Some(leaders), ..self }),
    {
        let mut builder = self;
        builder.remote_leaders = Some(leaders);
        builder
    }

    /// Sets worker exports collected beforehand.
    pub fn with_cached_worker_metadata(self, metadata: HandleId) -> (builder: Self)
        ensures
            builder == (InstanceLeaderBuilder { cached_worker_metadata: Some(metadata), ..self }),
    {
        let mut builder = self;
        builder.cached_worker_metadata = Some(metadata);
        builder
    }

    /// Sends disk hits to the device directly.
    pub fn bypass_host(self, bypass: bool) -> (builder: Self)
        ensures
            builder == (InstanceLeaderBuilder { bypass_host: bypass, ..self }),
    {
        let mut builder = self;
        builder.bypass_host = bypass;
        builder
    }

    /// Sets the object storage client.
    pub fn object_client(self, client: HandleId) -> (builder: Self)
        ensures
            builder == (InstanceLeaderBuilder { object_client: Some(client), ..self }),
    {
        let mut builder = self;
        builder.object_client = Some(client);
        builder
    }

    /// Sets the shape of the worker grid.
    pub fn parallelism_template(self, template: ParallelismTemplate) -> (builder: Self)
        ensures
            builder == (InstanceLeaderBuilder { parallelism_template: Some(template), ..self }),
    {
        let mut builder = self;
        builder.parallelism_template = Some(template);
        builder
    }

    /// Sets the block-layout policy.
    pub fn block_layout_mode(self, mode: BlockLayoutMode) -> (builder: Self)
        ensures
            builder == (InstanceLeaderBuilder { block_layout_mode: mode, ..self }),
    {
        let mut builder = self;
        builder.block_layout_mode = mode;
        builder
    }

    /// Sets the role in a prefill/decode split.
    pub fn role(self, role: DisaggregationRole) -> (builder: Self)
        ensures
            builder == (InstanceLeaderBuilder { role: Some(role), ..self }),
    {
        let mut builder = self;
        builder.role = Some(role);
        builder
    }

    /// Sets the observability handle.
    pub fn observability(self, observability: HandleId) -> (builder: Self)
        ensures
            builder == (InstanceLeaderBuilder { observability: Some(observability), ..self }),
    {
        let mut builder = self;
        builder.observability = Some(observability);
        builder
    }

    /// Builds the leader, or names the first required part that is missing.
    pub fn build(self, started_at: u64) -> (res: Result<InstanceLeader, BuildError>)
        ensures
            match self.missing() {
                Some(error) => res == Err::<InstanceLeader, BuildError>(error),
                None => res matches Ok(leader) && {
                    &&& leader.wf()
                    &&& leader.config == (LeaderConfig {
                        instance_id: self.messenger->0,
                        registry: self.registry->0,
                        g2_manager: self.g2_manager->0,
                        g3_manager: self.g3_manager,
                        workers: self.workers,
                        cached_worker_metadata: self.cached_worker_metadata,
                        object_client: self.object_client,
                        parallelism_template: self.parallelism_template,
                        block_layout_mode: self.block_layout_mode,
                        role: self.role,
                        observability: self.observability,
                        bypass_host: self.bypass_host,
                        started_at,
                    })
                    &&& leader.remote_leaders@ == (match self.remote_leaders {
                        Some(leaders) => leaders@,
                        None => Seq::<InstanceId>::empty(),
                    })
                    &&& leader.session_view() == SessionsView::empty()
                    &&& leader.cells.unset()
                },
            },
    {
        let instance_id: InstanceId = match self.messenger {
            Some(messenger) => messenger,
            None => {
                return Err(BuildError::MessengerRequired);
            },
        };
        let registry: HandleId = match self.registry {
            Some(registry) => registry,
            None => {
                return Err(BuildError::RegistryRequired);
            },
        };
        let g2_manager: HandleId = match self.g2_manager {
            Some(manager) => manager,
            None => {
                return Err(BuildError::G2ManagerRequired);
            },
        };
        let remote_leaders: Vec<InstanceId> = match self.remote_leaders {
            Some(leaders) => leaders,
            None => Vec::new(),
        };
        Ok(
            InstanceLeader {
                config: LeaderConfig {
                    instance_id,
                    registry,
                    g2_manager,
                    g3_manager: self.g3_manager,
                    workers: self.workers,
                    cached_worker_metadata: self.cached_worker_metadata,
                    object_client: self.object_client,
                    parallelism_template: self.parallelism_template,
                    block_layout_mode: self.block_layout_mode,
                    role: self.role,
                    observability: self.observability,
                    bypass_host: self.bypass_host,
                    started_at,
                },
                remote_leaders,
                sessions: SessionTable::new(),
                session_states: HeldSessions::new(),
                session_sessions: SessionTable::new(),
                cells: DescribeCells {
                    session_factory: None,
                    hub_instance_id: None,
                    config_blob: None,
                    modules: None,
                },
            },
        )
    }
}

/// Values handed to a leader after it was built. The first value stays.
pub struct DescribeCells {
    pub session_factory: Option<HandleId>,
    pub hub_instance_id: Option<String>,
    pub config_blob: Option<serde_json::Value>,
    pub modules: Option<Vec<ModuleId>>,
}

impl DescribeCells {
    /// Nothing was handed over yet.
    pub open spec fn unset(self) -> bool {
        &&& self.session_factory is None
        &&& self.hub_instance_id is None
        &&& self.config_blob is None
        &&& self.modules is None
    }
}

/// The sessions of a leader: channels of searches, held blocks, and channels of
/// transfer sessions.
#[verifier::ext_equal]
pub struct SessionsView {
    pub channels: Map<SessionId, usize>,
    pub held: Map<SessionId, SessionState>,
    pub transfers: Map<SessionId, usize>,
}

impl SessionsView {
    /// No session.
    pub open spec fn empty() -> Self {
        SessionsView { channels: Map::empty(), held: Map::empty(), transfers: Map::empty() }
    }

    /// Some table knows the session.
    pub open spec fn knows(self, session_id: SessionId) -> bool {
        self.channels.contains_key(session_id) || self.held.contains_key(session_id)
            || self.transfers.contains_key(session_id)
    }

    /// The sessions without one of them.
    pub open spec fn released(self, session_id: SessionId) -> Self {
        SessionsView {
            channels: self.channels.remove(session_id),
            held: self.held.remove(session_id),
            transfers: self.transfers.remove(session_id),
        }
    }

    /// The sessions with a transfer channel added.
    pub open spec fn with_transfer(self, session_id: SessionId, channel: usize) -> Self {
        SessionsView { transfers: self.transfers.insert(session_id, channel), ..self }
    }

    /// The sessions with a search channel added.
    pub open spec fn with_channel(self, session_id: SessionId, channel: usize) -> Self {
        SessionsView { channels: self.channels.insert(session_id, channel), ..self }
    }
}

/// Coordinates block onboarding across local and remote instances.
pub struct InstanceLeader {
    pub config: LeaderConfig,
    pub remote_leaders: Vec<InstanceId>,
    /// Channels of search sessions.
    pub sessions: SessionTable,
    /// Blocks held by search sessions.
    pub session_states: HeldSessions,
    /// Channels of transfer sessions.
    pub session_sessions: SessionTable,
    pub cells: DescribeCells,
}

/// Options of a block search.
#[derive(Debug, Clone, Copy, PartialEq, Eq, Structural)]
pub struct FindMatchesOptions {
    pub search_remote: bool,
    pub staging_mode: StagingMode,
}

/// A remote search to be started.
#[derive(Debug)]
pub struct SearchLaunch {
    pub session_id: SessionId,
    pub staging_mode: StagingMode,
    /// Whether the caller commands the next staging step.
    pub controlled: bool,
    pub object_client: Option<HandleId>,
    pub remote_leaders: Vec<InstanceId>,
    pub sequence_hashes: Vec<SequenceHash>,
}

/// Options of a controllable session.
#[derive(Debug, Clone, Copy, PartialEq, Eq, Structural)]
pub struct ControllableSessionOptions {
    /// Stage disk blocks to host memory at once.
    pub auto_stage: bool,
}

impl Default for ControllableSessionOptions {
    fn default() -> (options: Self)
        ensures
            options.auto_stage,
    {
        ControllableSessionOptions { auto_stage: true }
    }
}

/// What a controllable session found.
#[derive(Debug, Clone, Copy, PartialEq, Eq, Structural)]
pub struct ControllableSessionResult {
    pub session_id: SessionId,
    pub local_g2_count: usize,
    pub local_g3_count: usize,
}

/// A server session to be started.
#[derive(Debug)]
pub struct ServerLaunch {
    pub session_id: SessionId,
    pub local_instance: InstanceId,
    pub g2_blocks: Vec<MatchedBlock>,
    pub g3_blocks: Vec<MatchedBlock>,
    pub g2_handles: Vec<HandleId>,
    pub sequence_hashes: Vec<SequenceHash>,
    pub auto_stage: bool,
}

/// No worker has registered a host layout.
#[derive(Debug, Clone, Copy, PartialEq, Eq, Structural)]
pub struct NoLayoutHandle;

/// A session attached to a remote instance.
#[derive(Debug, Clone, Copy, PartialEq, Eq, Structural)]
pub struct AttachedSession {
    pub session_id: SessionId,
    pub remote_instance: InstanceId,
    pub local_instance: InstanceId,
    /// Blocks can be pulled directly into worker memory.
    pub rdma: bool,
}

/// What a search returns, without the memory addresses of its lists.
#[verifier::ext_equal]
pub enum FoundView {
    Ready(ReadyView),
    Session {
        session_id: SessionId,
        status: OnboardingStatus,
        breakdown: MatchBreakdown,
        control: Option<StagingMode>,
    },
}

/// The view of a search result.
pub open spec fn found_view(result: FindMatchesResult) -> FoundView {
    match result {
        FindMatchesResult::Ready(ready) => FoundView::Ready(ready@),
        FindMatchesResult::AsyncSession(session) => FoundView::Session {
            session_id: session.session_id,
            status: session.status,
            breakdown: session.breakdown,
            control: session.control,
        },
    }
}

/// The hashes that none of the blocks has, in order.
pub open spec fn hashes_without(
    hashes: Seq<SequenceHash>,
    blocks: Seq<MatchedBlock>,
) -> Seq<SequenceHash> {
    hashes.filter(|h: SequenceHash| !holds_hash(blocks, h))
}

/// Some block has the hash.
pub open spec fn holds_hash(blocks: Seq<MatchedBlock>, hash: SequenceHash) -> bool {
    exists|i: int| 0 <= i < blocks.len() && (#[trigger] blocks[i]).sequence_hash == hash
}

/// Whether some block has the hash.
pub fn has_hash(blocks: &Vec<MatchedBlock>, hash: SequenceHash) -> (found: bool)
    ensures
        found == holds_hash(blocks@, hash),
{
    let mut index: usize = 0;
    while index < blocks.len()
        invariant
            index <= blocks@.len(),
            forall|i: int| 0 <= i < index ==> (#[trigger] blocks@[i]).sequence_hash != hash,
        decreases blocks@.len() - index,
    {
        if blocks[index].sequence_hash == hash {
            return true;
        }
        index = index + 1;
    }
    false
}

/// Remote leaders with one more, unless it is known already.
pub open spec fn leaders_with(leaders: Seq<InstanceId>, id: InstanceId) -> Seq<InstanceId> {
    if leaders.contains(id) {
        leaders
    } else {
        leaders.push(id)
    }
}

/// The hashes left to look for in the next tier.
pub fn remaining_hashes(hashes: &Vec<SequenceHash>, found: &Vec<MatchedBlock>) -> (rest: Vec<
    SequenceHash,
>)
    ensures
        rest@ == hashes_without(hashes@, found@),
{
    let mut rest: Vec<SequenceHash> = Vec::new();
    let mut index: usize = 0;
    proof {
        reveal(Seq::filter);
    }
    while index < hashes.len()
        invariant
            index <= hashes@.len(),
            rest@ == hashes_without(hashes@.take(index as int), found@),
        decreases hashes@.len() - index,
    {
        proof {
            reveal(Seq::filter);
            assert(hashes@.take(index + 1).drop_last() =~= hashes@.take(index as int));
            assert(hashes@.take(index + 1).last() == hashes@[index as int]);
        }
        if !has_hash(found, hashes[index]) {
            rest.push(hashes[index]);
        }
        index = index + 1;
    }
    assert(hashes@.take(index as int) =~= hashes@);
    rest
}

/// Copies hashes.
fn copy_hashes(hashes: &Vec<SequenceHash>) -> (copy: Vec<SequenceHash>)
    ensures
        copy@ == hashes@,
{
    let mut copy: Vec<SequenceHash> = Vec::with_capacity(hashes.len());
    let mut index: usize = 0;
    while index < hashes.len()
        invariant
            index <= hashes@.len(),
            copy@ == hashes@.take(index as int),
        decreases hashes@.len() - index,
    {
        copy.push(hashes[index]);
        index = index + 1;
    }
    assert(hashes@.take(index as int) =~= hashes@);
    copy
}

/// The hashes of blocks, in order.
fn hashes_of(blocks: &Vec<MatchedBlock>) -> (hashes: Vec<SequenceHash>)
    ensures
        hashes@ == blocks@.map_values(|b: MatchedBlock| b.sequence_hash),
{
    let mut hashes: Vec<SequenceHash> = Vec::with_capacity(blocks.len());
    let mut index: usize = 0;
    while index < blocks.len()
        invariant
            index <= blocks@.len(),
            hashes@ == blocks@.take(index as int).map_values(|b: MatchedBlock| b.sequence_hash),
        decreases blocks@.len() - index,
    {
        hashes.push(blocks[index].sequence_hash);
        index = index + 1;
        assert(hashes@ =~= blocks@.take(index as int).map_values(
            |b: MatchedBlock| b.sequence_hash,
        ));
    }
    assert(blocks@.take(index as int) =~= blocks@);
    hashes
}

/// Host layout handles of the workers that have one, in worker order.
pub open spec fn g2_handles_of(workers: Seq<WorkerEntry>) -> Seq<HandleId>
    decreases workers.len(),
{
    if workers.len() == 0 {
        Seq::empty()
    } else {
        match workers.last().g2_handle {
            Some(handle) => g2_handles_of(workers.drop_last()).push(handle),
            None => g2_handles_of(workers.drop_last()),
        }
    }
}

impl InstanceLeader {
    /// The sessions.
    pub open spec fn session_view(self) -> SessionsView {
        SessionsView {
            channels: self.sessions@,
            held: self.session_states@,
            transfers: self.session_sessions@,
        }
    }

    /// The invariant.
    pub open spec fn wf(self) -> bool {
        self.session_states.wf()
    }

    /// Only the sessions differ.
    pub open spec fn same_but_sessions(self, other: Self) -> bool {
        &&& self.config == other.config
        &&& self.remote_leaders == other.remote_leaders
        &&& self.cells == other.cells
    }

    /// Whether a search with these options has to ask beyond this instance.
    pub open spec fn needs_remote(self, options: FindMatchesOptions) -> bool {
        options.search_remote && (self.remote_leaders@.len() > 0
            || self.config.object_client is Some)
    }

    /// The search can answer at once.
    pub open spec fn answers_at_once(
        self,
        options: FindMatchesOptions,
        g3_blocks: Seq<MatchedBlock>,
    ) -> bool {
        !self.needs_remote(options) && (self.config.bypass_host || g3_blocks.len() == 0)
    }

    /// Disk blocks count only if there is a disk manager.
    pub open spec fn disk_blocks(self, g3_blocks: Seq<MatchedBlock>) -> Seq<MatchedBlock> {
        if self.config.g3_manager is Some {
            g3_blocks
        } else {
            Seq::empty()
        }
    }

    /// What a search returns.
    pub open spec fn found(
        self,
        options: FindMatchesOptions,
        g2_blocks: Seq<MatchedBlock>,
        g3_blocks: Seq<MatchedBlock>,
        session_id: SessionId,
    ) -> FoundView {
        let breakdown = MatchBreakdown {
            host_blocks: g2_blocks.len() as usize,
            disk_blocks: g3_blocks.len() as usize,
            object_blocks: 0,
        };
        if self.answers_at_once(options, g3_blocks) {
            FoundView::Ready(ReadyView { g2_blocks, g3_blocks, breakdown })
        } else if !options.search_remote {
            FoundView::Session {
                session_id,
                status: OnboardingStatus::Complete {
                    matched_blocks: (g2_blocks.len() + g3_blocks.len()) as usize,
                },
                breakdown,
                control: None,
            }
        } else {
            FoundView::Session {
                session_id,
                status: OnboardingStatus::Searching,
                breakdown,
                control: if options.staging_mode == StagingMode::Full {
                    None
                } else {
                    Some(options.staging_mode)
                },
            }
        }
    }

    /// A new builder.
    pub fn builder() -> (builder: InstanceLeaderBuilder)
        ensures
            builder.is_fresh(),
    {
        InstanceLeaderBuilder::default()
    }

    /// The host block manager.
    pub fn g2_manager(&self) -> (manager: HandleId)
        ensures
            manager == self.config.g2_manager,
    {
        self.config.g2_manager
    }

    /// The disk block manager, if there is one.
    pub fn g3_manager(&self) -> (manager: Option<HandleId>)
        ensures
            manager == self.config.g3_manager,
    {
        self.config.g3_manager
    }

    /// The block registry.
    pub fn registry(&self) -> (registry: HandleId)
        ensures
            registry == self.config.registry,
    {
        self.config.registry
    }

    /// The id under which the leader takes part in messaging.
    pub fn messenger(&self) -> (instance_id: InstanceId)
        ensures
            instance_id == self.config.instance_id,
    {
        self.config.instance_id
    }

    /// Workers exist, so transfers can be fanned out to them.
    pub fn has_parallel_worker(&self) -> (present: bool)
        ensures
            present == (self.config.workers@.len() > 0),
    {
        self.config.workers.len() > 0
    }

    /// The object storage client, if there is one.
    pub fn object_client(&self) -> (client: Option<HandleId>)
        ensures
            client == self.config.object_client,
    {
        self.config.object_client
    }

    /// The observability handle, if there is one.
    pub fn observability(&self) -> (handle: Option<HandleId>)
        ensures
            handle == self.config.observability,
    {
        self.config.observability
    }

    /// The role in a prefill/decode split.
    pub fn role(&self) -> (role: Option<DisaggregationRole>)
        ensures
            role == self.config.role,
    {
        self.config.role
    }

    /// Number of workers.
    pub fn worker_count(&self) -> (count: usize)
        ensures
            count == self.config.workers@.len(),
    {
        self.config.workers.len()
    }

    /// Adds a remote leader unless it is known already.
    pub fn add_remote_leader(&mut self, instance_id: InstanceId)
        ensures
            final(self).remote_leaders@ == leaders_with(old(self).remote_leaders@, instance_id),
            final(self).remote_leaders@ == (if old(self).remote_leaders@.contains(instance_id) {
                old(self).remote_leaders@
            } else {
                old(self).remote_leaders@.push(instance_id)
            }),
            *final(self) == (InstanceLeader {
                remote_leaders: final(self).remote_leaders,
                ..*old(self)
            }),
    {
        let mut index: usize = 0;
        while index < self.remote_leaders.len()
            invariant
                *self == *old(self),
                index <= self.remote_leaders@.len(),
                forall|i: int| 0 <= i < index ==> self.remote_leaders@[i] != instance_id,
            decreases self.remote_leaders@.len() - index,
        {
            if self.remote_leaders[index] == instance_id {
                assert(self.remote_leaders@.contains(instance_id));
                return;
            }
            index = index + 1;
        }
        self.remote_leaders.push(instance_id);
    }

    /// Replaces all remote leaders.
    pub fn set_remote_leaders(&mut self, instance_ids: Vec<InstanceId>)
        ensures
            *final(self) == (InstanceLeader { remote_leaders: instance_ids, ..*old(self) }),
    {
        self.remote_leaders = instance_ids;
    }

    /// A copy of the remote leaders.
    pub fn remote_leaders(&self) -> (leaders: Vec<InstanceId>)
        ensures
            leaders@ == self.remote_leaders@,
    {
        let mut leaders: Vec<InstanceId> = Vec::with_capacity(self.remote_leaders.len());
        let mut index: usize = 0;
        while index < self.remote_leaders.len()
            invariant
                index <= self.remote_leaders@.len(),
                leaders@ == self.remote_leaders@.take(index as int),
            decreases self.remote_leaders@.len() - index,
        {
            leaders.push(self.remote_leaders[index]);
            index = index + 1;
        }
        assert(self.remote_leaders@.take(index as int) =~= self.remote_leaders@);
        leaders
    }

    /// The session factory, once it was handed over.
    pub fn session_factory_cell(&self) -> (factory: Option<HandleId>)
        ensures
            factory == self.cells.session_factory,
    {
        self.cells.session_factory
    }

    /// Hands over the session factory. True for the first call.
    pub fn set_session_factory(&mut self, factory: HandleId) -> (stored: bool)
        ensures
            stored == (old(self).cells.session_factory is None),
            *final(self) == (InstanceLeader {
                cells: DescribeCells {
                    session_factory: if stored {
                        Some(factory)
                    } else {
                        old(self).cells.session_factory
                    },
                    ..old(self).cells
                },
                ..*old(self)
            }),
    {
        if self.cells.session_factory.is_some() {
            return false;
        }
        self.cells.session_factory = Some(factory);
        true
    }

    /// Hands over the leader's configuration. True for the first call.
    pub fn set_config_blob(&mut self, value: serde_json::Value) -> (stored: bool)
        ensures
            stored == (old(self).cells.config_blob is None),
            *final(self) == (InstanceLeader {
                cells: DescribeCells {
                    config_blob: if stored {
                        Some(value)
                    } else {
                        old(self).cells.config_blob
                    },
                    ..old(self).cells
                },
                ..*old(self)
            }),
    {
        if self.cells.config_blob.is_some() {
            return false;
        }
        self.cells.config_blob = Some(value);
        true
    }

    /// Hands over the hub's id. True for the first call.
    pub fn set_hub_instance_id(&mut self, id: InstanceId) -> (stored: bool)
        ensures
            stored == (old(self).cells.hub_instance_id is None),
            stored ==> (final(self).cells.hub_instance_id matches Some(text) && text@ == uuid_text(
                id.bits,
            )),
            *final(self) == (InstanceLeader {
                cells: DescribeCells {
                    hub_instance_id: if stored {
                        final(self).cells.hub_instance_id
                    } else {
                        old(self).cells.hub_instance_id
                    },
                    ..old(self).cells
                },
                ..*old(self)
            }),
    {
        if self.cells.hub_instance_id.is_some() {
            return false;
        }
        self.cells.hub_instance_id = Some(id.to_text());
        true
    }

    /// Hands over the enabled control-plane modules. True for the first call.
    pub fn set_modules(&mut self, modules: Vec<ModuleId>) -> (stored: bool)
        ensures
            stored == (old(self).cells.modules is None),
            *final(self) == (InstanceLeader {
                cells: DescribeCells {
                    modules: if stored {
                        Some(modules)
                    } else {
                        old(self).cells.modules
                    },
                    ..old(self).cells
                },
                ..*old(self)
            }),
    {
        if self.cells.modules.is_some() {
            return false;
        }
        self.cells.modules = Some(modules);
        true
    }

    /// Searches for blocks under a fresh session id. `g2_blocks` is what the
    /// host manager matched, `g3_blocks` what the disk manager matched among the
    /// remaining hashes.
    pub fn find_matches_with_options(
        &mut self,
        sequence_hashes: &Vec<SequenceHash>,
        options: FindMatchesOptions,
        g2_blocks: Vec<MatchedBlock>,
        g3_blocks: Vec<MatchedBlock>,
        channel: usize,
    ) -> (found: (FindMatchesResult, Option<SearchLaunch>))
        requires
            old(self).wf(),
            g2_blocks@.len() + g3_blocks@.len() <= usize::MAX,
        ensures
            final(self).wf(),
            final(self).same_but_sessions(*old(self)),
            found.0 matches FindMatchesResult::AsyncSession(session) ==> session.blocks is None,
            exists|session_id: SessionId|
                {
                    &&& found_view(found.0) == #[trigger] old(self).found(
                        options,
                        g2_blocks@,
                        old(self).disk_blocks(g3_blocks@),
                        session_id,
                    )
                    &&& old(self).search_started(
                        sequence_hashes@,
                        options,
                        g2_blocks@,
                        old(self).disk_blocks(g3_blocks@),
                        session_id,
                        channel,
                        found.1,
                        final(self).session_view(),
                    )
                },
    {
        let session_id: SessionId = random_session_id();
        self.find_matches_in_session(
            sequence_hashes,
            options,
            g2_blocks,
            g3_blocks,
            session_id,
            channel,
        )
    }

    /// What a search leaves behind: nothing if it answers at once, else the held
    /// blocks, and for a remote search its channel and the session to start.
    pub open spec fn search_started(
        self,
        sequence_hashes: Seq<SequenceHash>,
        options: FindMatchesOptions,
        g2_blocks: Seq<MatchedBlock>,
        g3_blocks: Seq<MatchedBlock>,
        session_id: SessionId,
        channel: usize,
        launch: Option<SearchLaunch>,
        after: SessionsView,
    ) -> bool {
        let before = self.session_view();
        if self.answers_at_once(options, g3_blocks) {
            launch is None && after == before
        } else {
            &&& after.held.dom() == before.held.dom().insert(session_id)
            &&& forall|id: SessionId| #[trigger]
                before.held.contains_key(id) && id != session_id ==> after.held[id]
                    == before.held[id]
            &&& after.held[session_id].session_id == session_id
            &&& after.held[session_id].matched_g2_blocks@ == g2_blocks
            &&& after.held[session_id].matched_g3_blocks@ == g3_blocks
            &&& after.transfers == before.transfers
            &&& if !options.search_remote {
                launch is None && after.channels == before.channels
            } else {
                &&& after.channels == before.channels.insert(session_id, channel)
                &&& launch matches Some(started) && {
                    &&& started.session_id == session_id
                    &&& started.staging_mode == options.staging_mode
                    &&& started.controlled == (options.staging_mode != StagingMode::Full)
                    &&& started.object_client == self.config.object_client
                    &&& started.remote_leaders@ == self.remote_leaders@
                    &&& started.sequence_hashes@ == sequence_hashes
                }
            }
        }
    }

    /// Searches for blocks under a given session id.
    pub fn find_matches_in_session(
        &mut self,
        sequence_hashes: &Vec<SequenceHash>,
        options: FindMatchesOptions,
        g2_blocks: Vec<MatchedBlock>,
        g3_blocks: Vec<MatchedBlock>,
        session_id: SessionId,
        channel: usize,
    ) -> (found: (FindMatchesResult, Option<SearchLaunch>))
        requires
            old(self).wf(),
            g2_blocks@.len() + g3_blocks@.len() <= usize::MAX,
        ensures
            final(self).wf(),
            final(self).same_but_sessions(*old(self)),
            found_view(found.0) == old(self).found(
                options,
                g2_blocks@,
                old(self).disk_blocks(g3_blocks@),
                session_id,
            ),
            found.0 matches FindMatchesResult::AsyncSession(session) ==> session.blocks is None,
            old(self).search_started(
                sequence_hashes@,
                options,
                g2_blocks@,
                old(self).disk_blocks(g3_blocks@),
                session_id,
                channel,
                found.1,
                final(self).session_view(),
            ),
    {
        let g3_blocks: Vec<MatchedBlock> = if self.config.g3_manager.is_some() {
            g3_blocks
        } else {
            Vec::new()
        };
        let ghost host = g2_blocks@;
        let ghost disk = g3_blocks@;
        assert(disk =~= old(self).disk_blocks(disk));
        let has_remote_leaders: bool = self.remote_leaders.len() > 0;
        let has_object_client: bool = self.config.object_client.is_some();
        let needs_remote_search: bool = options.search_remote && (has_remote_leaders
            || has_object_client);
        let local_g2_count: usize = g2_blocks.len();
        let local_g3_count: usize = g3_blocks.len();
        if self.config.bypass_host && !needs_remote_search {
            let ready = ReadyResult::new_with_g3(
                g2_blocks,
                g3_blocks,
                MatchBreakdown {
                    host_blocks: local_g2_count,
                    disk_blocks: local_g3_count,
                    object_blocks: 0,
                },
            );
            return (FindMatchesResult::Ready(ready), None);
        }
        if g3_blocks.len() == 0 && !needs_remote_search {
            let ready = ReadyResult::new(
                g2_blocks,
                MatchBreakdown { host_blocks: local_g2_count, disk_blocks: 0, object_blocks: 0 },
            );
            assert(disk =~= Seq::<MatchedBlock>::empty());
            return (FindMatchesResult::Ready(ready), None);
        }
        let breakdown: MatchBreakdown = MatchBreakdown {
            host_blocks: local_g2_count,
            disk_blocks: local_g3_count,
            object_blocks: 0,
        };
        let state = SessionState {
            session_id,
            matched_g2_blocks: g2_blocks,
            matched_g3_blocks: g3_blocks,
        };
        self.session_states.store(state);
        assert(self.session_states@.dom() =~= old(self).session_states@.dom().insert(session_id));
        if !options.search_remote {
            let session = AsyncSessionResult {
                session_id,
                status: OnboardingStatus::Complete {
                    matched_blocks: local_g2_count + local_g3_count,
                },
                blocks: None,
                breakdown,
                control: None,
            };
            return (FindMatchesResult::AsyncSession(session), None);
        }
        self.sessions.insert(session_id, channel);
        let controlled: bool = match options.staging_mode {
            StagingMode::Hold => true,
            StagingMode::Prepare => true,
            StagingMode::Full => false,
        };
        let control: Option<StagingMode> = if controlled {
            Some(options.staging_mode)
        } else {
            None
        };
        let launch = SearchLaunch {
            session_id,
            staging_mode: options.staging_mode,
            controlled,
            object_client: self.config.object_client,
            remote_leaders: self.remote_leaders(),
            sequence_hashes: copy_hashes(sequence_hashes),
        };
        let session = AsyncSessionResult {
            session_id,
            status: OnboardingStatus::Searching,
            blocks: None,
            breakdown,
            control,
        };
        (FindMatchesResult::AsyncSession(session), Some(launch))
    }

    /// Releases a session: its held blocks are dropped and no table knows it.
    pub fn release_session(&mut self, session_id: SessionId)
        requires
            old(self).wf(),
        ensures
            final(self).wf(),
            final(self).same_but_sessions(*old(self)),
            final(self).session_view() == old(self).session_view().released(session_id),
    {
        let _held = self.session_states.take(session_id);
        let _channel = self.sessions.remove(session_id);
        let _transfer = self.session_sessions.remove(session_id);
    }

    /// Whether some table knows the session.
    pub fn has_session(&self, session_id: SessionId) -> (found: bool)
        ensures
            found == self.session_view().knows(session_id),
    {
        self.sessions.get(session_id).is_some() || self.session_states.contains(session_id)
            || self.session_sessions.get(session_id).is_some()
    }

    /// Registers a search channel.
    pub fn insert_test_session_marker(&mut self, session_id: SessionId, channel: usize)
        requires
            old(self).wf(),
        ensures
            final(self).wf(),
            final(self).same_but_sessions(*old(self)),
            final(self).session_view() == old(self).session_view().with_channel(
                session_id,
                channel,
            ),
    {
        self.sessions.insert(session_id, channel);
    }

    /// Host layout handles of the workers that have one.
    pub fn worker_g2_handles(&self) -> (handles: Vec<HandleId>)
        ensures
            handles@ == g2_handles_of(self.config.workers@),
    {
        let mut handles: Vec<HandleId> = Vec::new();
        let mut index: usize = 0;
        while index < self.config.workers.len()
            invariant
                index <= self.config.workers@.len(),
                handles@ == g2_handles_of(self.config.workers@.take(index as int)),
            decreases self.config.workers@.len() - index,
        {
            assert(self.config.workers@.take(index + 1).drop_last() =~= self.config.workers@.take(
                index as int,
            ));
            if let Some(handle) = self.config.workers[index].g2_handle {
                handles.push(handle);
            }
            index = index + 1;
        }
        assert(self.config.workers@.take(index as int) =~= self.config.workers@);
        handles
    }

    /// Opens a session that a remote peer drives, with default options.
    pub fn create_controllable_session(
        &mut self,
        g2_blocks: Vec<MatchedBlock>,
        g3_blocks: Vec<MatchedBlock>,
        channel: usize,
    ) -> (created: (ControllableSessionResult, ServerLaunch))
        requires
            old(self).wf(),
        ensures
            final(self).wf(),
            final(self).same_but_sessions(*old(self)),
            old(self).controllable_created(
                ControllableSessionOptions { auto_stage: true },
                g2_blocks@,
                g3_blocks@,
                created.0.session_id,
                channel,
                created,
                final(self).session_view(),
            ),
    {
        let options = ControllableSessionOptions::default();
        self.create_controllable_session_with_options(options, g2_blocks, g3_blocks, channel)
    }

    /// What opening a controllable session comes to.
    pub open spec fn controllable_created(
        self,
        options: ControllableSessionOptions,
        g2_blocks: Seq<MatchedBlock>,
        g3_blocks: Seq<MatchedBlock>,
        session_id: SessionId,
        channel: usize,
        created: (ControllableSessionResult, ServerLaunch),
        after: SessionsView,
    ) -> bool {
        let disk = self.disk_blocks(g3_blocks);
        &&& created.0.session_id == session_id
        &&& created.0.local_g2_count == g2_blocks.len()
        &&& created.0.local_g3_count == disk.len()
        &&& created.1.session_id == session_id
        &&& created.1.local_instance == self.config.instance_id
        &&& created.1.g2_blocks@ == g2_blocks
        &&& created.1.g3_blocks@ == disk
        &&& created.1.g2_handles@ == g2_handles_of(self.config.workers@)
        &&& created.1.sequence_hashes@ == g2_blocks.map_values(
            |b: MatchedBlock| b.sequence_hash,
        )
        &&& created.1.auto_stage == options.auto_stage
        &&& after == self.session_view().with_transfer(session_id, channel)
    }

    /// Opens a session that a remote peer drives.
    pub fn create_controllable_session_with_options(
        &mut self,
        options: ControllableSessionOptions,
        g2_blocks: Vec<MatchedBlock>,
        g3_blocks: Vec<MatchedBlock>,
        channel: usize,
    ) -> (created: (ControllableSessionResult, ServerLaunch))
        requires
            old(self).wf(),
        ensures
            final(self).wf(),
            final(self).same_but_sessions(*old(self)),
            old(self).controllable_created(
                options,
                g2_blocks@,
                g3_blocks@,
                created.0.session_id,
                channel,
                created,
                final(self).session_view(),
            ),
    {
        let session_id: SessionId = random_session_id();
        self.create_controllable_session_as(session_id, options, g2_blocks, g3_blocks, channel)
    }

    /// Opens a session that a remote peer drives, under a given id.
    pub fn create_controllable_session_as(
        &mut self,
        session_id: SessionId,
        options: ControllableSessionOptions,
        g2_blocks: Vec<MatchedBlock>,
        g3_blocks: Vec<MatchedBlock>,
        channel: usize,
    ) -> (created: (ControllableSessionResult, ServerLaunch))
        requires
            old(self).wf(),
        ensures
            final(self).wf(),
            final(self).same_but_sessions(*old(self)),
            old(self).controllable_created(
                options,
                g2_blocks@,
                g3_blocks@,
                session_id,
                channel,
                created,
                final(self).session_view(),
            ),
    {
        let g3_blocks: Vec<MatchedBlock> = if self.config.g3_manager.is_some() {
            g3_blocks
        } else {
            Vec::new()
        };
        let local_g2_count: usize = g2_blocks.len();
        let local_g3_count: usize = g3_blocks.len();
        self.session_sessions.insert(session_id, channel);
        let sequence_hashes: Vec<SequenceHash> = hashes_of(&g2_blocks);
        let launch = ServerLaunch {
            session_id,
            local_instance: self.config.instance_id,
            g2_blocks,
            g3_blocks,
            g2_handles: self.worker_g2_handles(),
            sequence_hashes,
            auto_stage: options.auto_stage,
        };
        (ControllableSessionResult { session_id, local_g2_count, local_g3_count }, launch)
    }

    /// What opening an endpoint session over given blocks comes to.
    pub open spec fn endpoint_created(
        self,
        blocks: Seq<MatchedBlock>,
        sequence_hashes: Seq<SequenceHash>,
        layout_handles: Seq<HandleId>,
        session_id: SessionId,
        channel: usize,
        launch: ServerLaunch,
        after: SessionsView,
    ) -> bool {
        &&& launch.session_id == session_id
        &&& launch.local_instance == self.config.instance_id
        &&& launch.g2_blocks@ == blocks
        &&& launch.g3_blocks@ == Seq::<MatchedBlock>::empty()
        &&& launch.g2_handles@ == layout_handles
        &&& launch.sequence_hashes@ == sequence_hashes
        &&& !launch.auto_stage
        &&& after == self.session_view().with_transfer(session_id, channel)
    }

    /// Opens a session that exposes matched host blocks for remote pulls. All
    /// blocks use the layout of the first worker that has one.
    pub fn create_endpoint_session(&mut self, g2_blocks: Vec<MatchedBlock>, channel: usize) -> (res:
        Result<ServerLaunch, NoLayoutHandle>)
        requires
            old(self).wf(),
        ensures
            final(self).wf(),
            final(self).same_but_sessions(*old(self)),
            old(self).endpoint_opened(g2_blocks@, channel, res, final(self).session_view()),
    {
        let session_id: SessionId = random_session_id();
        self.create_endpoint_session_as(session_id, g2_blocks, channel)
    }

    /// What opening an endpoint session over a search comes to.
    pub open spec fn endpoint_opened(
        self,
        g2_blocks: Seq<MatchedBlock>,
        channel: usize,
        res: Result<ServerLaunch, NoLayoutHandle>,
        after: SessionsView,
    ) -> bool {
        let handles = g2_handles_of(self.config.workers@);
        if handles.len() == 0 {
            res is Err && after == self.session_view()
        } else {
            res matches Ok(launch) && self.endpoint_created(
                g2_blocks,
                g2_blocks.map_values(|b: MatchedBlock| b.sequence_hash),
                Seq::new(g2_blocks.len(), |i: int| handles[0]),
                launch.session_id,
                channel,
                launch,
                after,
            )
        }
    }

    /// Opens an endpoint session under a given id.
    pub fn create_endpoint_session_as(
        &mut self,
        session_id: SessionId,
        g2_blocks: Vec<MatchedBlock>,
        channel: usize,
    ) -> (res: Result<ServerLaunch, NoLayoutHandle>)
        requires
            old(self).wf(),
        ensures
            final(self).wf(),
            final(self).same_but_sessions(*old(self)),
            old(self).endpoint_opened(g2_blocks@, channel, res, final(self).session_view()),
            res matches Ok(launch) ==> launch.session_id == session_id,
    {
        let handles: Vec<HandleId> = self.worker_g2_handles();
        if handles.len() == 0 {
            return Err(NoLayoutHandle);
        }
        let layout_handle: HandleId = handles[0];
        let mut layout_handles: Vec<HandleId> = Vec::with_capacity(g2_blocks.len());
        let mut index: usize = 0;
        while index < g2_blocks.len()
            invariant
                index <= g2_blocks@.len(),
                layout_handles@ == Seq::new(index as nat, |i: int| layout_handle),
            decreases g2_blocks@.len() - index,
        {
            layout_handles.push(layout_handle);
            index = index + 1;
            assert(layout_handles@ =~= Seq::new(index as nat, |i: int| layout_handle));
        }
        assert(layout_handles@ =~= Seq::new(
            g2_blocks@.len(),
            |i: int| g2_handles_of(self.config.workers@)[0],
        ));
        let sequence_hashes: Vec<SequenceHash> = hashes_of(&g2_blocks);
        Ok(
            self.create_endpoint_session_for_blocks_as(
                session_id,
                g2_blocks,
                sequence_hashes,
                layout_handles,
                channel,
            ),
        )
    }

    /// Opens a session that exposes the given blocks for remote pulls.
    pub fn create_endpoint_session_for_blocks(
        &mut self,
        blocks: Vec<MatchedBlock>,
        sequence_hashes: Vec<SequenceHash>,
        layout_handles: Vec<HandleId>,
        channel: usize,
    ) -> (launch: ServerLaunch)
        requires
            old(self).wf(),
        ensures
            final(self).wf(),
            final(self).same_but_sessions(*old(self)),
            old(self).endpoint_created(
                blocks@,
                sequence_hashes@,
                layout_handles@,
                launch.session_id,
                channel,
                launch,
                final(self).session_view(),
            ),
    {
        let session_id: SessionId = random_session_id();
        self.create_endpoint_session_for_blocks_as(
            session_id,
            blocks,
            sequence_hashes,
            layout_handles,
            channel,
        )
    }

    /// Opens a session over the given blocks under a given id.
    pub fn create_endpoint_session_for_blocks_as(
        &mut self,
        session_id: SessionId,
        blocks: Vec<MatchedBlock>,
        sequence_hashes: Vec<SequenceHash>,
        layout_handles: Vec<HandleId>,
        channel: usize,
    ) -> (launch: ServerLaunch)
        requires
            old(self).wf(),
        ensures
            final(self).wf(),
            final(self).same_but_sessions(*old(self)),
            old(self).endpoint_created(
                blocks@,
                sequence_hashes@,
                layout_handles@,
                session_id,
                channel,
                launch,
                final(self).session_view(),
            ),
    {
        self.session_sessions.insert(session_id, channel);
        ServerLaunch {
            session_id,
            local_instance: self.config.instance_id,
            g2_blocks: blocks,
            g3_blocks: Vec::new(),
            g2_handles: layout_handles,
            sequence_hashes,
            auto_stage: false,
        }
    }

    /// Records that a server session has ended.
    pub fn server_session_ended(&mut self, session_id: SessionId)
        requires
            old(self).wf(),
        ensures
            final(self).wf(),
            final(self).same_but_sessions(*old(self)),
            final(self).session_view() == (SessionsView {
                transfers: old(self).session_view().transfers.remove(session_id),
                ..old(self).session_view()
            }),
    {
        let _channel = self.session_sessions.remove(session_id);
    }

    /// An attached session as its handle shows it.
    pub open spec fn attached_to(
        self,
        remote_instance: InstanceId,
        session_id: SessionId,
    ) -> AttachedSession {
        AttachedSession {
            session_id,
            remote_instance,
            local_instance: self.config.instance_id,
            rdma: self.config.workers@.len() > 0,
        }
    }

    /// Attaches to a session of a remote instance. The attach message goes to
    /// that instance under this one's id, in the controller role.
    pub fn attach_session(
        &mut self,
        remote_instance: InstanceId,
        session_id: SessionId,
        channel: usize,
    ) -> (attached: AttachedSession)
        requires
            old(self).wf(),
        ensures
            final(self).wf(),
            final(self).same_but_sessions(*old(self)),
            final(self).session_view() == old(self).session_view().with_transfer(
                session_id,
                channel,
            ),
            attached == old(self).attached_to(remote_instance, session_id),
            attached == (AttachedSession {
                session_id,
                remote_instance,
                local_instance: old(self).config.instance_id,
                rdma: old(self).config.workers@.len() > 0,
            }),
    {
        self.session_sessions.insert(session_id, channel);
        AttachedSession {
            session_id,
            remote_instance,
            local_instance: self.config.instance_id,
            rdma: self.has_parallel_worker(),
        }
    }

    /// The modules of the control plane: core and transfer always, the others
    /// on request, metrics only with an observability handle.
    pub open spec fn control_modules(self, dev: bool, test: bool, metrics: bool) -> Seq<ModuleId> {
        seq![ModuleId::Core, ModuleId::Transfer] + (if dev {
            seq![ModuleId::Dev]
        } else {
            Seq::empty()
        }) + (if test {
            seq![ModuleId::Test]
        } else {
            Seq::empty()
        }) + (if metrics && self.config.observability is Some {
            seq![ModuleId::Metrics]
        } else {
            Seq::empty()
        })
    }

    /// Chooses the modules of the control plane.
    pub fn register_control_plane(&self, dev: bool, test: bool, metrics: bool) -> (modules: Vec<
        ModuleId,
    >)
        ensures
            modules@ == self.control_modules(dev, test, metrics),
    {
        let mut modules: Vec<ModuleId> = Vec::new();
        modules.push(ModuleId::Core);
        modules.push(ModuleId::Transfer);
        if dev {
            modules.push(ModuleId::Dev);
        }
        if test {
            modules.push(ModuleId::Test);
        }
        if metrics && self.config.observability.is_some() {
            modules.push(ModuleId::Metrics);
        }
        assert(modules@ =~= self.control_modules(dev, test, metrics));
        modules
    }
}

/// Releasing a session forgets it everywhere and keeps every other session.
pub proof fn law_release_forgets_session(before: SessionsView, session_id: SessionId, other: SessionId)
    ensures
        !before.released(session_id).knows(session_id),
        other != session_id ==> before.released(session_id).knows(other) == before.knows(other),
        before.released(session_id).released(session_id) == before.released(session_id),
{
    assert(before.released(session_id).released(session_id) =~= before.released(session_id));
}

/// Every block found is counted once: a ready result and a session report as
/// many matches as blocks were found.
pub proof fn law_search_counts_every_block(
    leader: InstanceLeader,
    options: FindMatchesOptions,
    g2_blocks: Seq<MatchedBlock>,
    g3_blocks: Seq<MatchedBlock>,
    session_id: SessionId,
)
    requires
        g2_blocks.len() + g3_blocks.len() <= usize::MAX,
    ensures
        match leader.found(options, g2_blocks, g3_blocks, session_id) {
            FoundView::Ready(ready) => ready.breakdown.total() == ready.g2_blocks.len()
                + ready.g3_blocks.len(),
            FoundView::Session { breakdown, status, .. } => {
                &&& breakdown.total() == g2_blocks.len() + g3_blocks.len()
                &&& status matches OnboardingStatus::Complete { matched_blocks } ==> matched_blocks
                    == breakdown.total()
            },
        },
{
}

/// Host bypass without a remote search never opens a session.
pub proof fn law_bypass_opens_no_session(
    leader: InstanceLeader,
    options: FindMatchesOptions,
    g2_blocks: Seq<MatchedBlock>,
    g3_blocks: Seq<MatchedBlock>,
    session_id: SessionId,
)
    requires
        leader.config.bypass_host,
        !leader.needs_remote(options),
    ensures
        leader.found(options, g2_blocks, g3_blocks, session_id) is Ready,
{
}

/// A search that may look beyond this instance does so whenever there is anyone
/// to ask, another leader or an object store: it is answered by a session that
/// searches, and a search over all the given hashes is started that reaches
/// every remote leader and the store.
pub proof fn law_search_asks_everyone(
    leader: InstanceLeader,
    sequence_hashes: Seq<SequenceHash>,
    options: FindMatchesOptions,
    g2_blocks: Seq<MatchedBlock>,
    g3_blocks: Seq<MatchedBlock>,
    session_id: SessionId,
    channel: usize,
    launch: Option<SearchLaunch>,
    after: SessionsView,
)
    requires
        options.search_remote,
        leader.config.object_client is Some || leader.remote_leaders@.len() > 0,
        leader.search_started(
            sequence_hashes,
            options,
            g2_blocks,
            g3_blocks,
            session_id,
            channel,
            launch,
            after,
        ),
    ensures
        leader.found(options, g2_blocks, g3_blocks, session_id) matches FoundView::Session {
            session_id: opened,
            status,
            control,
            ..
        } && {
            &&& opened == session_id
            &&& status == OnboardingStatus::Searching
            &&& options.staging_mode == StagingMode::Full ==> control is None
            &&& options.staging_mode != StagingMode::Full ==> control == Some(options.staging_mode)
        },
        launch matches Some(search) && {
            &&& search.session_id == session_id
            &&& search.sequence_hashes@ == sequence_hashes
            &&& search.remote_leaders@ == leader.remote_leaders@
            &&& search.object_client == leader.config.object_client
            &&& search.staging_mode == options.staging_mode
            &&& search.controlled <==> options.staging_mode != StagingMode::Full
        },
        after.channels.contains_pair(session_id, channel),
        after.held.contains_key(session_id),
        after.held[session_id].matched_g2_blocks@ == g2_blocks,
        after.held[session_id].matched_g3_blocks@ == g3_blocks,
{
}

/// A search answers at once exactly if nobody beyond this instance is to be
/// asked and nothing found on disk has to be staged. The answer holds every
/// block that was found, counted by tier, and leaves no session behind.
pub proof fn law_local_answer_is_complete(
    leader: InstanceLeader,
    sequence_hashes: Seq<SequenceHash>,
    options: FindMatchesOptions,
    g2_blocks: Seq<MatchedBlock>,
    g3_blocks: Seq<MatchedBlock>,
    session_id: SessionId,
    channel: usize,
    launch: Option<SearchLaunch>,
    after: SessionsView,
)
    requires
        g2_blocks.len() + g3_blocks.len() <= usize::MAX,
        leader.search_started(
            sequence_hashes,
            options,
            g2_blocks,
            g3_blocks,
            session_id,
            channel,
            launch,
            after,
        ),
    ensures
        leader.found(options, g2_blocks, g3_blocks, session_id) is Ready <==> !(
        options.search_remote && (leader.config.object_client is Some
            || leader.remote_leaders@.len() > 0)) && (leader.config.bypass_host || g3_blocks.len()
            == 0),
        leader.found(options, g2_blocks, g3_blocks, session_id) matches FoundView::Ready(ready)
            ==> {
            &&& ready.g2_blocks == g2_blocks
            &&& ready.g3_blocks == g3_blocks
            &&& ready.breakdown.host_blocks == g2_blocks.len()
            &&& ready.breakdown.disk_blocks == g3_blocks.len()
            &&& ready.breakdown.object_blocks == 0
            &&& launch is None
            &&& after.channels == leader.sessions@
            &&& after.held == leader.session_states@
            &&& after.transfers == leader.session_sessions@
        },
{
}

/// A search that has to stage disk blocks keeps everything it found under its
/// session, and tells at once how much that is. Without a remote search the
/// session has ended with all of it; no other session is touched.
pub proof fn law_staged_search_holds_its_blocks(
    leader: InstanceLeader,
    sequence_hashes: Seq<SequenceHash>,
    options: FindMatchesOptions,
    g2_blocks: Seq<MatchedBlock>,
    g3_blocks: Seq<MatchedBlock>,
    session_id: SessionId,
    channel: usize,
    launch: Option<SearchLaunch>,
    after: SessionsView,
    other: SessionId,
)
    requires
        g2_blocks.len() + g3_blocks.len() <= usize::MAX,
        !leader.config.bypass_host,
        g3_blocks.len() > 0,
        leader.search_started(
            sequence_hashes,
            options,
            g2_blocks,
            g3_blocks,
            session_id,
            channel,
            launch,
            after,
        ),
    ensures
        leader.found(options, g2_blocks, g3_blocks, session_id) matches FoundView::Session {
            session_id: opened,
            status,
            breakdown,
            ..
        } && {
            &&& opened == session_id
            &&& breakdown.host_blocks == g2_blocks.len()
            &&& breakdown.disk_blocks == g3_blocks.len()
            &&& breakdown.object_blocks == 0
            &&& !options.search_remote ==> (status matches OnboardingStatus::Complete {
                matched_blocks,
            } && matched_blocks == g2_blocks.len() + g3_blocks.len())
            &&& options.search_remote ==> status == OnboardingStatus::Searching
        },
        after.held.contains_key(session_id),
        after.held[session_id].session_id == session_id,
        after.held[session_id].matched_g2_blocks@ == g2_blocks,
        after.held[session_id].matched_g3_blocks@ == g3_blocks,
        launch is Some <==> options.search_remote,
        other != session_id && leader.session_states@.contains_key(other) ==> after.held.contains_key(
            other,
        ) && after.held[other] == leader.session_states@[other],
        after.transfers == leader.session_sessions@,
{
    if other != session_id && leader.session_states@.contains_key(other) {
        assert(leader.session_view().held.contains_key(other));
        assert(after.held.dom().contains(other));
    }
}

/// What is on disk counts exactly if there is a disk manager.
pub proof fn law_disk_blocks_count_with_a_manager(
    leader: InstanceLeader,
    g3_blocks: Seq<MatchedBlock>,
)
    ensures
        leader.config.g3_manager is Some ==> leader.disk_blocks(g3_blocks) == g3_blocks,
        leader.config.g3_manager is None ==> leader.disk_blocks(g3_blocks).len() == 0,
{
}

/// A result is seen as it is: a ready one by its lists and counts, a session by
/// its id, status, counts and control.
pub proof fn law_result_is_seen_as_it_is(result: FindMatchesResult)
    ensures
        match result {
            FindMatchesResult::Ready(ready) => found_view(result) == FoundView::Ready(ready@),
            FindMatchesResult::AsyncSession(session) => found_view(result) == (FoundView::Session {
                session_id: session.session_id,
                status: session.status,
                breakdown: session.breakdown,
                control: session.control,
            }),
        },
{
}

/// The hashes left for the next tier are exactly the given ones that no found
/// block carries.
pub proof fn law_remaining_hashes_are_the_missing_ones(
    hashes: Seq<SequenceHash>,
    blocks: Seq<MatchedBlock>,
    hash: SequenceHash,
)
    ensures
        hashes_without(hashes, blocks).contains(hash) <==> hashes.contains(hash) && forall|i: int|
            0 <= i < blocks.len() ==> (#[trigger] blocks[i]).sequence_hash != hash,
    decreases hashes.len(),
{
    reveal(Seq::filter);
    let rest = hashes_without(hashes, blocks);
    if hashes.len() > 0 {
        let shorter = hashes.drop_last();
        law_remaining_hashes_are_the_missing_ones(shorter, blocks, hash);
        let known = hashes_without(shorter, blocks);
        assert(hashes.contains(hash) <==> shorter.contains(hash) || hashes.last() == hash) by {
            if hashes.contains(hash) {
                let i = choose|i: int| 0 <= i < hashes.len() && hashes[i] == hash;
                if i < shorter.len() {
                    assert(shorter[i] == hash);
                }
            }
            if shorter.contains(hash) {
                let i = choose|i: int| 0 <= i < shorter.len() && shorter[i] == hash;
                assert(hashes[i] == hash);
            }
            if hashes.last() == hash {
                assert(hashes[hashes.len() - 1] == hash);
            }
        }
        if rest.contains(hash) {
            let i = choose|i: int| 0 <= i < rest.len() && rest[i] == hash;
            if i < known.len() {
                assert(known[i] == hash);
            }
        }
        if known.contains(hash) {
            let i = choose|i: int| 0 <= i < known.len() && known[i] == hash;
            assert(rest[i] == hash);
        }
        if !holds_hash(blocks, hashes.last()) {
            assert(rest[rest.len() - 1] == hashes.last());
        }
    }
}

/// What is left of two lists in a row is what is left of each, in order.
pub proof fn law_remaining_hashes_keep_order(
    first: Seq<SequenceHash>,
    second: Seq<SequenceHash>,
    blocks: Seq<MatchedBlock>,
)
    ensures
        hashes_without(first + second, blocks) == hashes_without(first, blocks) + hashes_without(
            second,
            blocks,
        ),
    decreases second.len(),
{
    reveal(Seq::filter);
    if second.len() == 0 {
        assert(first + second =~= first);
        assert(hashes_without(first, blocks) + hashes_without(second, blocks) =~= hashes_without(
            first,
            blocks,
        ));
    } else {
        assert((first + second).drop_last() =~= first + second.drop_last());
        law_remaining_hashes_keep_order(first, second.drop_last(), blocks);
        assert(hashes_without(first + second, blocks) =~= hashes_without(first, blocks)
            + hashes_without(second, blocks));
    }
}

/// Releasing a session removes it from every table, and leaves the entries of
/// other sessions as they were.
pub proof fn law_release_leaves_other_sessions(
    before: SessionsView,
    session_id: SessionId,
    other: SessionId,
)
    requires
        other != session_id,
    ensures
        !before.released(session_id).channels.contains_key(session_id),
        !before.released(session_id).held.contains_key(session_id),
        !before.released(session_id).transfers.contains_key(session_id),
        before.released(session_id).channels.contains_key(other)
            == before.channels.contains_key(other),
        before.released(session_id).held.contains_key(other) == before.held.contains_key(other),
        before.released(session_id).transfers.contains_key(other)
            == before.transfers.contains_key(other),
        before.held.contains_key(other) ==> before.released(session_id).held[other]
            == before.held[other],
        before.knows(session_id) <==> before.channels.contains_key(session_id)
            || before.held.contains_key(session_id) || before.transfers.contains_key(session_id),
{
}

/// A controllable session serves exactly the blocks that were found here, over
/// the layouts of this instance's workers, and is reachable on its channel.
pub proof fn law_controllable_session_serves_its_blocks(
    leader: InstanceLeader,
    options: ControllableSessionOptions,
    g2_blocks: Seq<MatchedBlock>,
    g3_blocks: Seq<MatchedBlock>,
    session_id: SessionId,
    channel: usize,
    created: (ControllableSessionResult, ServerLaunch),
    after: SessionsView,
    index: int,
)
    requires
        leader.controllable_created(
            options,
            g2_blocks,
            g3_blocks,
            session_id,
            channel,
            created,
            after,
        ),
        0 <= index < g2_blocks.len(),
    ensures
        created.0.session_id == session_id,
        created.1.session_id == session_id,
        created.0.local_g2_count == g2_blocks.len(),
        leader.config.g3_manager is Some ==> created.0.local_g3_count == g3_blocks.len()
            && created.1.g3_blocks@ == g3_blocks,
        leader.config.g3_manager is None ==> created.0.local_g3_count == 0
            && created.1.g3_blocks@.len() == 0,
        created.1.g2_blocks@ == g2_blocks,
        created.1.sequence_hashes@.len() == g2_blocks.len(),
        created.1.sequence_hashes@[index] == g2_blocks[index].sequence_hash,
        created.1.local_instance == leader.config.instance_id,
        created.1.auto_stage == options.auto_stage,
        after.transfers.contains_pair(session_id, channel),
        after.channels == leader.sessions@,
        after.held == leader.session_states@,
{
}

/// The host layouts that a session serves are those of the workers that have
/// one, each once and in worker order.
pub proof fn law_layout_handles_follow_workers(
    workers: Seq<WorkerEntry>,
    worker: WorkerEntry,
)
    ensures
        g2_handles_of(Seq::<WorkerEntry>::empty()).len() == 0,
        worker.g2_handle matches Some(handle) ==> g2_handles_of(workers.push(worker))
            == g2_handles_of(workers).push(handle),
        worker.g2_handle is None ==> g2_handles_of(workers.push(worker)) == g2_handles_of(workers),
{
    assert(workers.push(worker).drop_last() =~= workers);
}

/// An endpoint session opens exactly if some worker has a host layout. It then
/// exposes every matched block under its hash, each in the layout of the first
/// such worker.
pub proof fn law_endpoint_session_exposes_matches(
    leader: InstanceLeader,
    g2_blocks: Seq<MatchedBlock>,
    channel: usize,
    res: Result<ServerLaunch, NoLayoutHandle>,
    after: SessionsView,
    index: int,
)
    requires
        leader.endpoint_opened(g2_blocks, channel, res, after),
        0 <= index < g2_blocks.len(),
    ensures
        res is Ok <==> g2_handles_of(leader.config.workers@).len() > 0,
        res is Err ==> after.transfers == leader.session_sessions@,
        res matches Ok(launch) ==> {
            &&& launch.g2_blocks@ == g2_blocks
            &&& launch.g3_blocks@.len() == 0
            &&& launch.sequence_hashes@.len() == g2_blocks.len()
            &&& launch.sequence_hashes@[index] == g2_blocks[index].sequence_hash
            &&& launch.g2_handles@.len() == g2_blocks.len()
            &&& launch.g2_handles@[index] == g2_handles_of(leader.config.workers@)[0]
            &&& launch.local_instance == leader.config.instance_id
            &&& !launch.auto_stage
            &&& after.transfers.contains_pair(launch.session_id, channel)
            &&& after.held == leader.session_states@
        },
{
}

/// The control plane always has its core and transfer modules, once each; the
/// others are there exactly if asked for, and metrics only with something to
/// measure.
pub proof fn law_control_modules_as_asked(
    leader: InstanceLeader,
    dev: bool,
    test: bool,
    metrics: bool,
)
    ensures
        ({
            let modules = leader.control_modules(dev, test, metrics);
            &&& modules.len() >= 2
            &&& modules[0] == ModuleId::Core
            &&& modules[1] == ModuleId::Transfer
            &&& modules.contains(ModuleId::Dev) <==> dev
            &&& modules.contains(ModuleId::Test) <==> test
            &&& modules.contains(ModuleId::Metrics) <==> metrics
                && leader.config.observability is Some
            &&& modules.no_duplicates()
        }),
{
    let modules = leader.control_modules(dev, test, metrics);
    let at_test = if dev {
        3int
    } else {
        2int
    };
    let at_metrics = if test {
        at_test + 1
    } else {
        at_test
    };
    if dev {
        assert(modules[2] == ModuleId::Dev);
    }
    if test {
        assert(modules[at_test] == ModuleId::Test);
    }
    if metrics && leader.config.observability is Some {
        assert(modules[at_metrics] == ModuleId::Metrics);
    }
}

/// A leader cannot be built without a messenger, a registry and a host manager,
/// and the first of them that is missing is named.
pub proof fn law_builder_names_missing_part(builder: InstanceLeaderBuilder)
    ensures
        builder.missing() is None <==> builder.messenger is Some && builder.registry is Some
            && builder.g2_manager is Some,
        builder.missing() == Some(BuildError::MessengerRequired) <==> builder.messenger is None,
        builder.missing() == Some(BuildError::RegistryRequired) <==> builder.messenger is Some
            && builder.registry is None,
        builder.missing() == Some(BuildError::G2ManagerRequired) <==> builder.messenger is Some
            && builder.registry is Some && builder.g2_manager is None,
{
}

/// A remote leader is known once it was added, however often; the leaders known
/// before stay, in their order, and nobody is known twice.
pub proof fn law_remote_leader_is_known_once(leaders: Seq<InstanceId>, id: InstanceId)
    ensures
        leaders_with(leaders, id).contains(id),
        leaders.is_prefix_of(leaders_with(leaders, id)),
        leaders_with(leaders_with(leaders, id), id) == leaders_with(leaders, id),
        leaders.contains(id) ==> leaders_with(leaders, id) == leaders,
        !leaders.contains(id) ==> leaders_with(leaders, id).len() == leaders.len() + 1,
        leaders.no_duplicates() ==> leaders_with(leaders, id).no_duplicates(),
{
    let known = leaders_with(leaders, id);
    if !leaders.contains(id) {
        assert(known[known.len() - 1] == id);
        assert(leaders =~= known.take(leaders.len() as int));
        if leaders.no_duplicates() {
            assert forall|i: int, j: int|
                0 <= i < known.len() && 0 <= j < known.len() && i != j implies known[i]
                != known[j] by {
                if i < leaders.len() && j < leaders.len() {
                    assert(leaders[i] != leaders[j]);
                } else if i < leaders.len() {
                    assert(leaders.contains(leaders[i]));
                } else {
                    assert(leaders.contains(leaders[j]));
                }
            }
        }
    } else {
        assert(leaders =~= known.take(leaders.len() as int));
    }
}

/// A session that gets a channel is reachable on it; other sessions keep theirs,
/// and held blocks are not touched.
pub proof fn law_channel_reaches_its_session(
    before: SessionsView,
    session_id: SessionId,
    channel: usize,
    other: SessionId,
)
    ensures
        before.with_channel(session_id, channel).channels.contains_pair(session_id, channel),
        before.with_transfer(session_id, channel).transfers.contains_pair(session_id, channel),
        before.with_channel(session_id, channel).transfers == before.transfers,
        before.with_channel(session_id, channel).held == before.held,
        before.with_transfer(session_id, channel).channels == before.channels,
        before.with_transfer(session_id, channel).held == before.held,
        other != session_id && before.channels.contains_key(other) ==> before.with_channel(
            session_id,
            channel,
        ).channels.contains_pair(other, before.channels[other]),
        other != session_id && before.transfers.contains_key(other) ==> before.with_transfer(
            session_id,
            channel,
        ).transfers.contains_pair(other, before.transfers[other]),
{
}

/// The sessions of a leader are those of its three tables.
pub proof fn law_sessions_are_those_of_the_tables(leader: InstanceLeader)
    ensures
        leader.session_view().channels == leader.sessions@,
        leader.session_view().held == leader.session_states@,
        leader.session_view().transfers == leader.session_sessions@,
        SessionsView::empty().channels.dom().len() == 0,
        SessionsView::empty().held.dom().len() == 0,
        SessionsView::empty().transfers.dom().len() == 0,
{
}

/// An attached session is the peer's own, driven from this instance, and pulls
/// directly exactly if there are workers to pull with.
pub proof fn law_attached_session_is_the_peers(
    leader: InstanceLeader,
    peer: InstanceId,
    session_id: SessionId,
)
    ensures
        leader.attached_to(peer, session_id).session_id == session_id,
        leader.attached_to(peer, session_id).remote_instance == peer,
        leader.attached_to(peer, session_id).local_instance == leader.config.instance_id,
        leader.attached_to(peer, session_id).rdma <==> leader.config.workers@.len() > 0,
{
}

/// Whatever a search finds is told by tier from the start: host matches as host,
/// disk matches as disk, and nothing yet from an object store.
pub proof fn law_search_tells_tiers_apart(
    leader: InstanceLeader,
    options: FindMatchesOptions,
    g2_blocks: Seq<MatchedBlock>,
    g3_blocks: Seq<MatchedBlock>,
    session_id: SessionId,
)
    requires
        g2_blocks.len() + g3_blocks.len() <= usize::MAX,
    ensures
        ({
            let breakdown = match leader.found(options, g2_blocks, g3_blocks, session_id) {
                FoundView::Ready(ready) => ready.breakdown,
                FoundView::Session { breakdown, .. } => breakdown,
            };
            &&& breakdown.host_blocks == g2_blocks.len()
            &&& breakdown.disk_blocks == g3_blocks.len()
            &&& breakdown.object_blocks == 0
        }),
{
}

/// A search leaves every other session as it was, in all tables.
pub proof fn law_search_leaves_other_sessions(
    leader: InstanceLeader,
    sequence_hashes: Seq<SequenceHash>,
    options: FindMatchesOptions,
    g2_blocks: Seq<MatchedBlock>,
    g3_blocks: Seq<MatchedBlock>,
    session_id: SessionId,
    channel: usize,
    launch: Option<SearchLaunch>,
    after: SessionsView,
    other: SessionId,
)
    requires
        other != session_id,
        leader.search_started(
            sequence_hashes,
            options,
            g2_blocks,
            g3_blocks,
            session_id,
            channel,
            launch,
            after,
        ),
    ensures
        after.held.contains_key(other) == leader.session_states@.contains_key(other),
        leader.session_states@.contains_key(other) ==> after.held[other]
            == leader.session_states@[other],
        after.channels.contains_key(other) == leader.sessions@.contains_key(other),
        leader.sessions@.contains_key(other) ==> after.channels[other] == leader.sessions@[other],
        after.transfers == leader.session_sessions@,
{
    let before = leader.session_view();
    assert(after.held.dom().contains(other) == before.held.dom().contains(other));
    if before.held.contains_key(other) {
        assert(after.held[other] == before.held[other]);
    }
}

} // verus!
