//! Pulling blocks from a remote instance.

use crate::common::{BlockId, InstanceId, LogicalLayoutHandle};
use crate::engine::instance::{HandleId, InstanceLeader};
use crate::identity::{append_decimal, decimal_text, uuid_text};
use vstd::prelude::*;

verus! {

/// One block to pull: its id at the remote leader and its id here.
#[derive(Debug, Clone, Copy, PartialEq, Eq, Structural)]
pub struct PullRef {
    pub src_block_id: BlockId,
    pub dst_block_id: BlockId,
}

/// Blocks of a remote instance, by id.
#[derive(Debug)]
pub struct RemoteBlockSet {
    pub blocks: Vec<BlockId>,
}

/// Source and destination lists differ in length.
#[derive(Debug, Clone, Copy, PartialEq, Eq, Structural)]
pub struct BlockCountMismatch {
    pub source: usize,
    pub destination: usize,
}

impl BlockCountMismatch {
    /// The text of the error.
    pub open spec fn text(self) -> Seq<char> {
        "Block count mismatch: source="@ + decimal_text(self.source as nat) + ", destination="@
            + decimal_text(self.destination as nat)
    }

    /// Renders the error.
    pub fn message(&self) -> (message: String)
        ensures
            message@ == self.text(),
    {
        let mut message = String::from_str("Block count mismatch: source=");
        append_decimal(&mut message, self.source as u64);
        message.append(", destination=");
        append_decimal(&mut message, self.destination as u64);
        message
    }
}

/// The block ids of all sets, in order.
pub open spec fn sources_of(block_sets: Seq<RemoteBlockSet>) -> Seq<BlockId>
    decreases block_sets.len(),
{
    if block_sets.len() == 0 {
        Seq::empty()
    } else {
        sources_of(block_sets.drop_last()) + block_sets.last().blocks@
    }
}

/// Sources paired with destinations, position by position.
pub open spec fn paired(sources: Seq<BlockId>, destinations: Seq<BlockId>) -> Seq<PullRef> {
    Seq::new(
        sources.len(),
        |i: int| PullRef { src_block_id: sources[i], dst_block_id: destinations[i] },
    )
}

/// Number of blocks in all sets.
fn count_sources(block_sets: &Vec<RemoteBlockSet>) -> (count: usize)
    requires
        sources_of(block_sets@).len() <= usize::MAX,
    ensures
        count == sources_of(block_sets@).len(),
{
    let mut count: usize = 0;
    let mut index: usize = 0;
    while index < block_sets.len()
        invariant
            index <= block_sets@.len(),
            sources_of(block_sets@).len() <= usize::MAX,
            count == sources_of(block_sets@.take(index as int)).len(),
        decreases block_sets@.len() - index,
    {
        proof {
            lemma_sources_prefix(block_sets@, index + 1);
            assert(block_sets@.take(index + 1).drop_last() =~= block_sets@.take(index as int));
        }
        count = count + block_sets[index].blocks.len();
        index = index + 1;
    }
    assert(block_sets@.take(index as int) =~= block_sets@);
    count
}

/// The blocks of the first sets come first.
proof fn lemma_sources_prefix(block_sets: Seq<RemoteBlockSet>, count: int)
    requires
        0 <= count <= block_sets.len(),
    ensures
        sources_of(block_sets.take(count)).is_prefix_of(sources_of(block_sets)),
    decreases block_sets.len() - count,
{
    if count == block_sets.len() {
        assert(block_sets.take(count) =~= block_sets);
    } else {
        lemma_sources_prefix(block_sets, count + 1);
        assert(block_sets.take(count + 1).drop_last() =~= block_sets.take(count));
        let next = sources_of(block_sets.take(count + 1));
        assert(sources_of(block_sets.take(count)) =~= next.take(
            sources_of(block_sets.take(count)).len() as int,
        ));
    }
}

/// Flattens block sets into one list of pulls, in the order of the destinations.
pub fn flatten_block_sets(
    block_sets: &Vec<RemoteBlockSet>,
    local_dst_block_ids: &Vec<BlockId>,
) -> (res: Result<Vec<PullRef>, BlockCountMismatch>)
    requires
        sources_of(block_sets@).len() <= usize::MAX,
    ensures
        if sources_of(block_sets@).len() == local_dst_block_ids@.len() {
            res matches Ok(refs) && refs@ == paired(sources_of(block_sets@), local_dst_block_ids@)
        } else {
            res == Err::<Vec<PullRef>, BlockCountMismatch>(
                BlockCountMismatch {
                    source: sources_of(block_sets@).len() as usize,
                    destination: local_dst_block_ids.len(),
                },
            )
        },
{
    let source_count: usize = count_sources(block_sets);
    if source_count != local_dst_block_ids.len() {
        return Err(
            BlockCountMismatch { source: source_count, destination: local_dst_block_ids.len() },
        );
    }
    let ghost all = sources_of(block_sets@);
    let mut refs: Vec<PullRef> = Vec::with_capacity(source_count);
    let mut offset: usize = 0;
    let mut sindex: usize = 0;
    while sindex < block_sets.len()
        invariant
            sindex <= block_sets@.len(),
            all == sources_of(block_sets@),
            all.len() == local_dst_block_ids@.len(),
            offset == sources_of(block_sets@.take(sindex as int)).len(),
            refs@ == paired(all, local_dst_block_ids@).take(offset as int),
            sources_of(block_sets@.take(sindex as int)).is_prefix_of(all),
        decreases block_sets@.len() - sindex,
    {
        let blocks = &block_sets[sindex].blocks;
        let ghost before = sources_of(block_sets@.take(sindex as int));
        let ghost next = sources_of(block_sets@.take(sindex + 1));
        proof {
            lemma_sources_prefix(block_sets@, sindex + 1);
            assert(block_sets@.take(sindex + 1).drop_last() =~= block_sets@.take(sindex as int));
            assert(next =~= before + blocks@);
        }
        let mut bindex: usize = 0;
        while bindex < blocks.len()
            invariant
                bindex <= blocks@.len(),
                all.len() == local_dst_block_ids@.len(),
                next == before + blocks@,
                next.is_prefix_of(all),
                offset == before.len() + bindex,
                refs@ == paired(all, local_dst_block_ids@).take(offset as int),
            decreases blocks@.len() - bindex,
        {
            assert(next[offset as int] == blocks@[bindex as int]);
            assert(all[offset as int] == next[offset as int]);
            assert(offset < local_dst_block_ids.len());
            refs.push(
                PullRef {
                    src_block_id: blocks[bindex],
                    dst_block_id: local_dst_block_ids[offset],
                },
            );
            offset = offset + 1;
            bindex = bindex + 1;
            assert(refs@ =~= paired(all, local_dst_block_ids@).take(offset as int));
        }
        sindex = sindex + 1;
    }
    assert(block_sets@.take(sindex as int) =~= block_sets@);
    assert(refs@ =~= paired(all, local_dst_block_ids@));
    Ok(refs)
}

/// Splits pulls into source and destination lists.
pub fn unzip_refs(refs: &Vec<PullRef>) -> (lists: (Vec<BlockId>, Vec<BlockId>))
    ensures
        lists.0@ == refs@.map_values(|r: PullRef| r.src_block_id),
        lists.1@ == refs@.map_values(|r: PullRef| r.dst_block_id),
{
    let mut sources: Vec<BlockId> = Vec::with_capacity(refs.len());
    let mut destinations: Vec<BlockId> = Vec::with_capacity(refs.len());
    let mut index: usize = 0;
    while index < refs.len()
        invariant
            index <= refs@.len(),
            sources@ == refs@.take(index as int).map_values(|r: PullRef| r.src_block_id),
            destinations@ == refs@.take(index as int).map_values(|r: PullRef| r.dst_block_id),
        decreases refs@.len() - index,
    {
        sources.push(refs[index].src_block_id);
        destinations.push(refs[index].dst_block_id);
        index = index + 1;
        assert(sources@ =~= refs@.take(index as int).map_values(|r: PullRef| r.src_block_id));
        assert(destinations@ =~= refs@.take(index as int).map_values(
            |r: PullRef| r.dst_block_id,
        ));
    }
    assert(refs@.take(index as int) =~= refs@);
    (sources, destinations)
}

/// Copies pulls.
fn copy_refs(refs: &Vec<PullRef>) -> (copy: Vec<PullRef>)
    ensures
        copy@ == refs@,
{
    let mut copy: Vec<PullRef> = Vec::with_capacity(refs.len());
    let mut index: usize = 0;
    while index < refs.len()
        invariant
            index <= refs@.len(),
            copy@ == refs@.take(index as int),
        decreases refs@.len() - index,
    {
        copy.push(refs[index]);
        index = index + 1;
    }
    assert(refs@.take(index as int) =~= refs@);
    copy
}

/// Options that travel with a pull: a notification and a metric route.
#[derive(Debug, Clone, Copy, PartialEq, Eq, Structural)]
pub struct WirePullOptions {
    pub nixl_write_notification: Option<HandleId>,
    pub metric_route: Option<HandleId>,
}

impl Default for WirePullOptions {
    fn default() -> (opts: Self)
        ensures
            opts == (WirePullOptions { nixl_write_notification: None, metric_route: None }),
    {
        WirePullOptions { nixl_write_notification: None, metric_route: None }
    }
}

/// A pull to be run: its peer, its blocks and its options.
#[derive(Debug)]
pub struct PullRequest {
    pub remote_instance: InstanceId,
    pub refs: Vec<PullRef>,
    pub opts: WirePullOptions,
}

/// What happened since the last step of a pull.
#[derive(Debug)]
pub enum PullEvent {
    /// The pull was requested; the peer's metadata is imported or not.
    Begin { imported: bool },
    /// The peer's metadata arrived; it was imported meanwhile or not.
    MetadataReceived { imported: bool },
    /// The peer's metadata is in place.
    MetadataImported,
    /// The peer's descriptors were looked up; they are stamped or missing.
    DescriptorsRead { stamped: bool },
    /// The pull was planned; each plan names the local rank it is for.
    Planned { ranks: Vec<usize> },
}

/// Why a pull failed.
#[derive(Debug, Clone, Copy, PartialEq, Eq, Structural)]
pub enum PullError {
    /// There are no workers to import metadata into.
    NoParallelWorker,
    /// The peer's metadata was imported before.
    AlreadyImported,
    /// There are no workers to pull with.
    NoWorkerToPull,
    /// The peer is stamped, but no local template is configured.
    TemplateRequired,
    /// The template does not describe the local worker grid.
    TemplateMismatch { tp_size: usize, workers: usize },
    /// A plan names a rank without a worker.
    RankOutOfRange { rank: usize, workers: usize },
}

impl PullError {
    /// The text of the error of a pull from the given peer.
    pub open spec fn text(self, remote_instance: InstanceId) -> Seq<char> {
        match self {
            PullError::NoParallelWorker => "No parallel worker configured"@,
            PullError::AlreadyImported => "Metadata was already imported for this instance"@,
            PullError::NoWorkerToPull => "rdma_pull: no parallel worker configured"@,
            PullError::TemplateRequired => "rdma_pull: peer "@ + uuid_text(remote_instance.bits)
                + " has stamped descriptors but no local ParallelismTemplate is configured; cross-parallelism transfers require InstanceLeaderBuilder::parallelism_template(...)"@,
            PullError::TemplateMismatch { tp_size, workers } =>
                "rdma_pull: local ParallelismTemplate tp_size ("@ + decimal_text(tp_size as nat)
                + ") disagrees with worker count ("@ + decimal_text(workers as nat)
                + "); template must describe the local worker grid"@,
            PullError::RankOutOfRange { rank, workers } =>
                "rdma_pull: plan_pull produced a plan for local_rank "@ + decimal_text(rank as nat)
                + " but only "@ + decimal_text(workers as nat) + " workers are registered"@,
        }
    }

    /// Renders the error of a pull from the given peer.
    pub fn message(&self, remote_instance: InstanceId) -> (message: String)
        ensures
            message@ == self.text(remote_instance),
    {
        match self {
            PullError::NoParallelWorker => String::from_str("No parallel worker configured"),
            PullError::AlreadyImported => String::from_str(
                "Metadata was already imported for this instance",
            ),
            PullError::NoWorkerToPull => String::from_str(
                "rdma_pull: no parallel worker configured",
            ),
            PullError::TemplateRequired => {
                let mut message = String::from_str("rdma_pull: peer ");
                message.append(remote_instance.to_text().as_str());
                message.append(
                    " has stamped descriptors but no local ParallelismTemplate is configured; cross-parallelism transfers require InstanceLeaderBuilder::parallelism_template(...)",
                );
                message
            },
            PullError::TemplateMismatch { tp_size, workers } => {
                let mut message = String::from_str("rdma_pull: local ParallelismTemplate tp_size (");
                append_decimal(&mut message, *tp_size as u64);
                message.append(") disagrees with worker count (");
                append_decimal(&mut message, *workers as u64);
                message.append("); template must describe the local worker grid");
                message
            },
            PullError::RankOutOfRange { rank, workers } => {
                let mut message = String::from_str(
                    "rdma_pull: plan_pull produced a plan for local_rank ",
                );
                append_decimal(&mut message, *rank as u64);
                message.append(" but only ");
                append_decimal(&mut message, *workers as u64);
                message.append(" workers are registered");
                message
            },
        }
    }
}

/// What is to be done next for a pull.
#[derive(Debug)]
pub enum PullAction {
    /// The pull has ended.
    Finish(Result<(), PullError>),
    /// Ask the peer for its metadata.
    RequestMetadata { remote_instance: InstanceId },
    /// Import the received metadata of the peer.
    ConnectRemote { remote_instance: InstanceId },
    /// Look the peer's descriptors up.
    ReadDescriptors { remote_instance: InstanceId },
    /// Fan one transfer from the peer out to every worker.
    LegacyOnboard {
        remote_instance: InstanceId,
        src_layout: LogicalLayoutHandle,
        src_block_ids: Vec<BlockId>,
        dst_layout: LogicalLayoutHandle,
        dst_block_ids: Vec<BlockId>,
        opts: WirePullOptions,
    },
    /// Plan the pull from the peer across ranks, with the leader's template.
    PlanPull {
        remote_instance: InstanceId,
        src_layout: LogicalLayoutHandle,
        dst_layout: LogicalLayoutHandle,
        refs: Vec<PullRef>,
        opts: WirePullOptions,
    },
    /// Hand the first plans to their workers; then await them, or fail.
    Dispatch { plans: usize, failure: Option<PullError> },
}

/// The leading plans whose rank has a worker.
pub open spec fn plans_in_range(ranks: Seq<usize>, workers: int) -> int
    decreases ranks.len(),
{
    if ranks.len() == 0 {
        0
    } else if ranks[0] >= workers {
        0
    } else {
        1 + plans_in_range(ranks.skip(1), workers)
    }
}

/// Counts the leading plans whose rank has a worker.
fn count_plans_in_range(ranks: &Vec<usize>, workers: usize) -> (count: usize)
    ensures
        count == plans_in_range(ranks@, workers as int),
        count <= ranks@.len(),
        count < ranks@.len() ==> ranks@[count as int] >= workers,
{
    let mut count: usize = 0;
    assert(ranks@.skip(0) =~= ranks@);
    while count < ranks.len() && ranks[count] < workers
        invariant
            count <= ranks@.len(),
            plans_in_range(ranks@, workers as int) == count + plans_in_range(
                ranks@.skip(count as int),
                workers as int,
            ),
        decreases ranks@.len() - count,
    {
        assert(ranks@.skip(count as int).skip(1) =~= ranks@.skip(count + 1));
        assert(ranks@.skip(count as int)[0] == ranks@[count as int]);
        count = count + 1;
    }
    proof {
        let rest = ranks@.skip(count as int);
        if count < ranks@.len() {
            assert(rest[0] == ranks@[count as int]);
        }
    }
    count
}

impl InstanceLeader {
    /// Whether the peer's metadata is usable: it is imported and there are
    /// workers to use it.
    pub fn has_remote_metadata(&self, imported: bool) -> (usable: bool)
        ensures
            usable == (self.config.workers@.len() > 0 && imported),
    {
        self.config.workers.len() > 0 && imported
    }

    /// What importing a peer's metadata comes to.
    pub open spec fn imports(
        self,
        remote_instance: InstanceId,
        imported: bool,
        action: PullAction,
    ) -> bool {
        if self.config.workers@.len() > 0 && !imported {
            action == (PullAction::ConnectRemote { remote_instance })
        } else if self.config.workers@.len() > 0 {
            action == PullAction::Finish(Err(PullError::AlreadyImported))
        } else {
            action == PullAction::Finish(Err(PullError::NoParallelWorker))
        }
    }

    /// What making sure of a peer's metadata comes to.
    pub open spec fn makes_sure(
        self,
        remote_instance: InstanceId,
        imported: bool,
        action: PullAction,
    ) -> bool {
        if imported && self.config.workers@.len() > 0 {
            action == (PullAction::ReadDescriptors { remote_instance })
        } else {
            action == (PullAction::RequestMetadata { remote_instance })
        }
    }

    /// What importing a peer's metadata takes. It is imported once; a second
    /// import is an error and leaves the first in place.
    pub fn import_remote_metadata(&self, remote_instance: InstanceId, imported: bool) -> (action:
        PullAction)
        ensures
            self.imports(remote_instance, imported, action),
            action == (if self.config.workers@.len() == 0 {
                PullAction::Finish(Err(PullError::NoParallelWorker))
            } else if imported {
                PullAction::Finish(Err(PullError::AlreadyImported))
            } else {
                PullAction::ConnectRemote { remote_instance }
            }),
    {
        if self.config.workers.len() == 0 {
            PullAction::Finish(Err(PullError::NoParallelWorker))
        } else if imported {
            PullAction::Finish(Err(PullError::AlreadyImported))
        } else {
            PullAction::ConnectRemote { remote_instance }
        }
    }

    /// What making sure of the peer's metadata takes: nothing once it is
    /// imported.
    pub fn ensure_remote_metadata(&self, remote_instance: InstanceId, imported: bool) -> (action:
        PullAction)
        ensures
            self.makes_sure(remote_instance, imported, action),
            action == (if self.config.workers@.len() > 0 && imported {
                PullAction::ReadDescriptors { remote_instance }
            } else {
                PullAction::RequestMetadata { remote_instance }
            }),
    {
        if self.has_remote_metadata(imported) {
            PullAction::ReadDescriptors { remote_instance }
        } else {
            PullAction::RequestMetadata { remote_instance }
        }
    }

    /// What reading the peer's descriptors leads to.
    pub open spec fn route_of(
        self,
        peer: InstanceId,
        refs: Seq<PullRef>,
        requested: WirePullOptions,
        stamped: bool,
        action: PullAction,
    ) -> bool {
        let workers = self.config.workers@.len();
        if workers == 0 {
            action == PullAction::Finish(Err(PullError::NoWorkerToPull))
        } else if !stamped {
            &&& action matches PullAction::LegacyOnboard {
                remote_instance,
                src_layout,
                src_block_ids,
                dst_layout,
                dst_block_ids,
                opts,
            }
            &&& remote_instance == peer
            &&& src_layout == LogicalLayoutHandle::G2
            &&& dst_layout == LogicalLayoutHandle::G2
            &&& opts == requested
            &&& src_block_ids@ == refs.map_values(|r: PullRef| r.src_block_id)
            &&& dst_block_ids@ == refs.map_values(|r: PullRef| r.dst_block_id)
        } else {
            match self.config.parallelism_template {
                None => action == PullAction::Finish(Err(PullError::TemplateRequired)),
                Some(template) => if template.tp_size != workers {
                    action == PullAction::Finish(
                        Err(
                            PullError::TemplateMismatch {
                                tp_size: template.tp_size,
                                workers: workers as usize,
                            },
                        ),
                    )
                } else {
                    &&& action matches PullAction::PlanPull {
                        remote_instance,
                        src_layout,
                        dst_layout,
                        refs: planned,
                        opts,
                    }
                    &&& remote_instance == peer
                    &&& src_layout == LogicalLayoutHandle::G2
                    &&& dst_layout == LogicalLayoutHandle::G2
                    &&& planned@ == refs
                    &&& opts == requested
                },
            }
        }
    }

    /// What a finished plan leads to.
    pub open spec fn dispatch_of(self, ranks: Seq<usize>) -> PullAction {
        let workers = self.config.workers@.len() as int;
        let plans = plans_in_range(ranks, workers);
        if ranks.len() == 0 {
            PullAction::Finish(Ok(()))
        } else if plans == ranks.len() {
            PullAction::Dispatch { plans: plans as usize, failure: None }
        } else {
            PullAction::Dispatch {
                plans: plans as usize,
                failure: Some(
                    PullError::RankOutOfRange { rank: ranks[plans], workers: workers as usize },
                ),
            }
        }
    }

    /// The next step of a pull.
    pub fn rdma_pull_with_opts(
        &self,
        remote_instance: InstanceId,
        refs: &Vec<PullRef>,
        opts: WirePullOptions,
        event: PullEvent,
    ) -> (action: PullAction)
        ensures
            self.pull_step(remote_instance, refs@, opts, event, action),
    {
        match event {
            PullEvent::Begin { imported } => {
                if refs.len() == 0 {
                    PullAction::Finish(Ok(()))
                } else {
                    self.ensure_remote_metadata(remote_instance, imported)
                }
            },
            PullEvent::MetadataReceived { imported } => {
                // A concurrent pull may have imported it while this one waited.
                if self.has_remote_metadata(imported) {
                    PullAction::ReadDescriptors { remote_instance }
                } else {
                    self.import_remote_metadata(remote_instance, imported)
                }
            },
            PullEvent::MetadataImported => PullAction::ReadDescriptors { remote_instance },
            PullEvent::DescriptorsRead { stamped } => self.route_pull(
                remote_instance,
                refs,
                opts,
                stamped,
            ),
            PullEvent::Planned { ranks } => {
                if ranks.len() == 0 {
                    return PullAction::Finish(Ok(()));
                }
                let workers: usize = self.config.workers.len();
                let plans: usize = count_plans_in_range(&ranks, workers);
                let failure: Option<PullError> = if plans == ranks.len() {
                    None
                } else {
                    Some(PullError::RankOutOfRange { rank: ranks[plans], workers })
                };
                PullAction::Dispatch { plans, failure }
            },
        }
    }

    /// The next step of a pull without options.
    pub fn rdma_pull(
        &self,
        remote_instance: InstanceId,
        refs: &Vec<PullRef>,
        event: PullEvent,
    ) -> (action: PullAction)
        ensures
            self.pull_step(
                remote_instance,
                refs@,
                WirePullOptions { nixl_write_notification: None, metric_route: None },
                event,
                action,
            ),
    {
        self.rdma_pull_with_opts(remote_instance, refs, WirePullOptions::default(), event)
    }

    /// The pull that fetches the blocks of a peer's block sets into local block
    /// ids, without options.
    pub fn pull_remote_block_sets(
        &self,
        remote_instance: InstanceId,
        block_sets: &Vec<RemoteBlockSet>,
        local_dst_block_ids: &Vec<BlockId>,
    ) -> (res: Result<PullRequest, BlockCountMismatch>)
        requires
            sources_of(block_sets@).len() <= usize::MAX,
        ensures
            if sources_of(block_sets@).len() == local_dst_block_ids@.len() {
                &&& res matches Ok(request)
                &&& request.remote_instance == remote_instance
                &&& request.refs@ == paired(sources_of(block_sets@), local_dst_block_ids@)
                &&& request.opts == (WirePullOptions {
                    nixl_write_notification: None,
                    metric_route: None,
                })
            } else {
                res == Err::<PullRequest, BlockCountMismatch>(
                    BlockCountMismatch {
                        source: sources_of(block_sets@).len() as usize,
                        destination: local_dst_block_ids.len(),
                    },
                )
            },
    {
        match flatten_block_sets(block_sets, local_dst_block_ids) {
            Ok(refs) => Ok(
                PullRequest { remote_instance, refs, opts: WirePullOptions::default() },
            ),
            Err(error) => Err(error),
        }
    }

    /// What each event of a pull leads to.
    pub open spec fn pull_step(
        self,
        remote_instance: InstanceId,
        refs: Seq<PullRef>,
        opts: WirePullOptions,
        event: PullEvent,
        action: PullAction,
    ) -> bool {
        match event {
            PullEvent::Begin { imported } => action == (if refs.len() == 0 {
                PullAction::Finish(Ok(()))
            } else if self.config.workers@.len() > 0 && imported {
                PullAction::ReadDescriptors { remote_instance }
            } else {
                PullAction::RequestMetadata { remote_instance }
            }),
            PullEvent::MetadataReceived { imported } => action == (
            if self.config.workers@.len() == 0 {
                PullAction::Finish(Err(PullError::NoParallelWorker))
            } else if imported {
                PullAction::ReadDescriptors { remote_instance }
            } else {
                PullAction::ConnectRemote { remote_instance }
            }),
            PullEvent::MetadataImported => action == PullAction::ReadDescriptors { remote_instance },
            PullEvent::DescriptorsRead { stamped } => self.route_of(
                remote_instance,
                refs,
                opts,
                stamped,
                action,
            ),
            PullEvent::Planned { ranks } => action == self.dispatch_of(ranks@),
        }
    }

    /// Chooses between the planned pull and the fan-out for unstamped peers.
    fn route_pull(
        &self,
        remote_instance: InstanceId,
        refs: &Vec<PullRef>,
        opts: WirePullOptions,
        stamped: bool,
    ) -> (action: PullAction)
        ensures
            self.route_of(remote_instance, refs@, opts, stamped, action),
    {
        let workers: usize = self.config.workers.len();
        if workers == 0 {
            return PullAction::Finish(Err(PullError::NoWorkerToPull));
        }
        if !stamped {
            let (src_block_ids, dst_block_ids): (Vec<BlockId>, Vec<BlockId>) = unzip_refs(refs);
            return PullAction::LegacyOnboard {
                remote_instance,
                src_layout: LogicalLayoutHandle::G2,
                src_block_ids,
                dst_layout: LogicalLayoutHandle::G2,
                dst_block_ids,
                opts,
            };
        }
        match &self.config.parallelism_template {
            None => PullAction::Finish(Err(PullError::TemplateRequired)),
            Some(template) => {
                if template.tp_size != workers {
                    PullAction::Finish(
                        Err(PullError::TemplateMismatch { tp_size: template.tp_size, workers }),
                    )
                } else {
                    PullAction::PlanPull {
                        remote_instance,
                        src_layout: LogicalLayoutHandle::G2,
                        dst_layout: LogicalLayoutHandle::G2,
                        refs: copy_refs(refs),
                        opts,
                    }
                }
            },
        }
    }
}

/// Splitting the pulls of flattened block sets gives the sources and the
/// destinations back.
pub proof fn law_unzip_inverts_pairing(sources: Seq<BlockId>, destinations: Seq<BlockId>)
    requires
        sources.len() == destinations.len(),
    ensures
        paired(sources, destinations).map_values(|r: PullRef| r.src_block_id) == sources,
        paired(sources, destinations).map_values(|r: PullRef| r.dst_block_id) == destinations,
{
    assert(paired(sources, destinations).map_values(|r: PullRef| r.src_block_id) =~= sources);
    assert(paired(sources, destinations).map_values(|r: PullRef| r.dst_block_id) =~= destinations);
}

/// Every plan handed to a worker names a rank that has one.
pub proof fn law_dispatched_ranks_have_workers(ranks: Seq<usize>, workers: int, index: int)
    requires
        0 <= index < plans_in_range(ranks, workers),
    ensures
        index < ranks.len(),
        ranks[index] < workers,
    decreases ranks.len(),
{
    if index > 0 {
        law_dispatched_ranks_have_workers(ranks.skip(1), workers, index - 1);
    }
}

/// A peer with stamped descriptors is never pulled by the fan-out: whatever the
/// number of workers, it is planned over exactly the blocks that were asked
/// for, or the pull fails because there is no worker, no template, or one of
/// another size. The fan-out serves exactly the unstamped peers of a leader
/// with workers, block by block.
pub proof fn law_stamped_peer_is_planned(
    leader: InstanceLeader,
    peer: InstanceId,
    refs: Seq<PullRef>,
    opts: WirePullOptions,
    stamped: bool,
    action: PullAction,
    index: int,
)
    requires
        leader.pull_step(peer, refs, opts, PullEvent::DescriptorsRead { stamped }, action),
    ensures
        action is LegacyOnboard <==> leader.config.workers@.len() > 0 && !stamped,
        action is PlanPull <==> leader.config.workers@.len() > 0 && stamped && (
        leader.config.parallelism_template matches Some(template) && template.tp_size
            == leader.config.workers@.len()),
        leader.config.workers@.len() == 0 ==> action == PullAction::Finish(
            Err(PullError::NoWorkerToPull),
        ),
        leader.config.workers@.len() > 0 && stamped && leader.config.parallelism_template is None
            ==> action == PullAction::Finish(Err(PullError::TemplateRequired)),
        leader.config.workers@.len() > 0 && stamped && (
        leader.config.parallelism_template matches Some(template) && template.tp_size
            != leader.config.workers@.len()) ==> (action matches PullAction::Finish(
            Err(PullError::TemplateMismatch { tp_size, workers }),
        ) && workers == leader.config.workers@.len() && tp_size
            == leader.config.parallelism_template->0.tp_size),
        action matches PullAction::PlanPull {
            remote_instance,
            src_layout,
            dst_layout,
            refs: planned,
            opts: sent,
        } ==> {
            &&& remote_instance == peer
            &&& src_layout == LogicalLayoutHandle::G2
            &&& dst_layout == LogicalLayoutHandle::G2
            &&& planned@ == refs
            &&& sent == opts
        },
        action matches PullAction::LegacyOnboard {
            remote_instance,
            src_layout,
            src_block_ids,
            dst_layout,
            dst_block_ids,
            opts: sent,
        } ==> {
            &&& remote_instance == peer
            &&& src_layout == LogicalLayoutHandle::G2
            &&& dst_layout == LogicalLayoutHandle::G2
            &&& sent == opts
            &&& src_block_ids@.len() == refs.len()
            &&& dst_block_ids@.len() == refs.len()
            &&& 0 <= index < refs.len() ==> src_block_ids@[index] == refs[index].src_block_id
                && dst_block_ids@[index] == refs[index].dst_block_id
        },
{
    assert(leader.config.workers.len() == leader.config.workers@.len());
}

/// A pull of nothing ends at once. Any other pull makes sure of the peer's
/// metadata first: it is asked for exactly if it is not usable yet, and the
/// peer's descriptors are read only once it is.
pub proof fn law_pull_needs_the_peers_metadata(
    leader: InstanceLeader,
    peer: InstanceId,
    refs: Seq<PullRef>,
    opts: WirePullOptions,
    imported: bool,
    begun: PullAction,
    received: PullAction,
    connected: PullAction,
)
    requires
        leader.pull_step(peer, refs, opts, PullEvent::Begin { imported }, begun),
        leader.pull_step(peer, refs, opts, PullEvent::MetadataReceived { imported }, received),
        leader.pull_step(peer, refs, opts, PullEvent::MetadataImported, connected),
    ensures
        refs.len() == 0 ==> begun == PullAction::Finish(Ok(())),
        begun is Finish <==> refs.len() == 0,
        refs.len() > 0 && leader.config.workers@.len() > 0 && imported ==> begun
            == (PullAction::ReadDescriptors { remote_instance: peer }),
        refs.len() > 0 && !(leader.config.workers@.len() > 0 && imported) ==> begun
            == (PullAction::RequestMetadata { remote_instance: peer }),
        leader.config.workers@.len() == 0 ==> received == PullAction::Finish(
            Err(PullError::NoParallelWorker),
        ),
        leader.config.workers@.len() > 0 && imported ==> received == (PullAction::ReadDescriptors {
            remote_instance: peer,
        }),
        leader.config.workers@.len() > 0 && !imported ==> received == (PullAction::ConnectRemote {
            remote_instance: peer,
        }),
        connected == (PullAction::ReadDescriptors { remote_instance: peer }),
{
}

/// Plans are handed out in order, all of them if every rank has a worker. A pull
/// without plans has succeeded; a plan for a rank without a worker fails the
/// pull, naming the first such rank, and nothing from it on is handed out.
pub proof fn law_plans_go_out_until_a_rank_is_missing(
    leader: InstanceLeader,
    peer: InstanceId,
    refs: Seq<PullRef>,
    opts: WirePullOptions,
    ranks: Vec<usize>,
    action: PullAction,
    bad: int,
)
    requires
        leader.pull_step(peer, refs, opts, PullEvent::Planned { ranks }, action),
    ensures
        ranks@.len() == 0 ==> action == PullAction::Finish(Ok(())),
        ranks@.len() > 0 && (forall|i: int|
            0 <= i < ranks@.len() ==> #[trigger] ranks@[i] < leader.config.workers@.len()) ==> (
        action matches PullAction::Dispatch { plans, failure } && plans == ranks@.len()
            && failure is None),
        0 <= bad < ranks@.len() && ranks@[bad] >= leader.config.workers@.len() && (forall|i: int|
            0 <= i < bad ==> #[trigger] ranks@[i] < leader.config.workers@.len()) ==> (
        action matches PullAction::Dispatch {
            plans,
            failure: Some(PullError::RankOutOfRange { rank, workers }),
        } && plans == bad && rank == ranks@[bad] && workers == leader.config.workers@.len()),
{
    let workers = leader.config.workers@.len() as int;
    lemma_plans_stop_at_bad_rank(ranks@, workers, bad);
    assert(leader.config.workers.len() == leader.config.workers@.len());
    assert(ranks.len() == ranks@.len());
}

/// Where the leading plans end.
proof fn lemma_plans_stop_at_bad_rank(ranks: Seq<usize>, workers: int, bad: int)
    ensures
        (forall|i: int| 0 <= i < ranks.len() ==> #[trigger] ranks[i] < workers) ==> plans_in_range(
            ranks,
            workers,
        ) == ranks.len(),
        0 <= bad < ranks.len() && ranks[bad] >= workers && (forall|i: int|
            0 <= i < bad ==> #[trigger] ranks[i] < workers) ==> plans_in_range(ranks, workers)
            == bad,
    decreases ranks.len(),
{
    if ranks.len() > 0 && ranks[0] < workers {
        let rest = ranks.skip(1);
        assert forall|i: int| 0 <= i < rest.len() implies #[trigger] rest[i] == ranks[i + 1] by {}
        lemma_plans_stop_at_bad_rank(rest, workers, bad - 1);
    }
}

/// The blocks of remote sets are pulled one by one into the given ids: the sets
/// follow each other, and the block at a position goes to the id at that
/// position.
pub proof fn law_block_sets_pull_in_order(
    block_sets: Seq<RemoteBlockSet>,
    last: RemoteBlockSet,
    destinations: Seq<BlockId>,
    index: int,
)
    requires
        0 <= index < sources_of(block_sets).len(),
        sources_of(block_sets).len() <= destinations.len(),
    ensures
        sources_of(Seq::<RemoteBlockSet>::empty()).len() == 0,
        sources_of(block_sets.push(last)) == sources_of(block_sets) + last.blocks@,
        paired(sources_of(block_sets), destinations).len() == sources_of(block_sets).len(),
        paired(sources_of(block_sets), destinations)[index].src_block_id == sources_of(
            block_sets,
        )[index],
        paired(sources_of(block_sets), destinations)[index].dst_block_id == destinations[index],
{
    assert(block_sets.push(last).drop_last() =~= block_sets);
}

/// A peer's metadata is imported exactly once, and only into workers; asking for
/// it again is an error, while making sure of it again asks nobody.
pub proof fn law_metadata_is_imported_once(
    leader: InstanceLeader,
    peer: InstanceId,
    imported: bool,
    import: PullAction,
    check: PullAction,
)
    requires
        leader.imports(peer, imported, import),
        leader.makes_sure(peer, imported, check),
    ensures
        import is ConnectRemote <==> leader.config.workers@.len() > 0 && !imported,
        import matches PullAction::ConnectRemote { remote_instance } ==> remote_instance == peer,
        leader.config.workers@.len() == 0 ==> import == PullAction::Finish(
            Err(PullError::NoParallelWorker),
        ),
        leader.config.workers@.len() > 0 && imported ==> import == PullAction::Finish(
            Err(PullError::AlreadyImported),
        ),
        check is RequestMetadata <==> !(leader.config.workers@.len() > 0 && imported),
        check matches PullAction::RequestMetadata { remote_instance } ==> remote_instance == peer,
        check is RequestMetadata || check is ReadDescriptors,
{
}

} // verus!
