//! Assembling the topology snapshot, and the handlers a leader offers.

use crate::common::{InstanceId, SessionId};
use crate::engine::describe::{
    aggregate_parallelism, common_page_size, describe_worker, describes_worker, first_layer,
    last_layer, layouts_of, one_group, shared_page_size, sum_tier_capacity, tier_capacities,
    ExportedWorker, KvDim, ParallelismDescription, TierCapacity, WorkerInfo,
};
use crate::engine::instance::{
    DisaggregationRole, HandleId, InstanceLeader, ModuleId, ParallelismTemplate, SessionsView,
};
use crate::identity::{append_decimal, decimal_text, uuid_text};
use crate::json::copy_json;
use crate::tokens::SequenceHash;
use vstd::prelude::*;

verus! {

/// The process a leader runs in.
#[derive(Debug)]
pub struct HostInfo {
    pub hostname: String,
    pub pid: u32,
}

/// A name that was given and is not empty.
pub open spec fn usable_name(name: Option<String>) -> bool {
    name is Some && name->0@.len() > 0
}

/// A character that Unicode counts as white space.
pub open spec fn is_space(c: char) -> bool {
    let code = c as u32;
    ||| 0x09 <= code <= 0x0d
    ||| code == 0x20
    ||| code == 0x85
    ||| code == 0xa0
    ||| code == 0x1680
    ||| 0x2000 <= code <= 0x200a
    ||| code == 0x2028
    ||| code == 0x2029
    ||| code == 0x202f
    ||| code == 0x205f
    ||| code == 0x3000
}

/// A text without the white space around it.
pub open spec fn trimmed(text: Seq<char>) -> Seq<char>
    decreases text.len(),
{
    if text.len() == 0 {
        text
    } else if is_space(text[0]) {
        trimmed(text.skip(1))
    } else if is_space(text.last()) {
        trimmed(text.drop_last())
    } else {
        text
    }
}

/// Tells white space from other characters.
fn char_is_space(c: char) -> (space: bool)
    ensures
        space == is_space(c),
{
    let code: u32 = c as u32;
    (0x09 <= code && code <= 0x0d) || code == 0x20 || code == 0x85 || code == 0xa0 || code == 0x1680
        || (0x2000 <= code && code <= 0x200a) || code == 0x2028 || code == 0x2029 || code == 0x202f
        || code == 0x205f || code == 0x3000
}

/// Cuts the white space around a text off.
fn trim_text(text: &str) -> (rest: String)
    ensures
        rest@ == trimmed(text@),
{
    let mut end: usize = text.unicode_len();
    let mut start: usize = 0;
    assert(text@.subrange(0, end as int) =~= text@);
    while start < end && char_is_space(text.get_char(start))
        invariant
            start <= end == text@.len(),
            trimmed(text@) == trimmed(text@.subrange(start as int, end as int)),
        decreases end - start,
    {
        assert(text@.subrange(start as int, end as int).skip(1) =~= text@.subrange(
            start + 1,
            end as int,
        ));
        start = start + 1;
    }
    while start < end && char_is_space(text.get_char(end - 1))
        invariant
            start <= end <= text@.len(),
            start < end ==> !is_space(text@[start as int]),
            trimmed(text@) == trimmed(text@.subrange(start as int, end as int)),
        decreases end - start,
    {
        assert(text@.subrange(start as int, end as int).drop_last() =~= text@.subrange(
            start as int,
            end - 1,
        ));
        end = end - 1;
    }
    String::from_str(text.substring_char(start, end))
}

/// A host is called by a name.
pub open spec fn names_host(
    environment: Option<String>,
    system: Option<String>,
    name: Seq<char>,
) -> bool {
    match system {
        Some(text) if trimmed(text@).len() > 0 => name == trimmed(text@),
        _ => if usable_name(environment) {
            name == environment->0@
        } else {
            name == "unknown"@
        },
    }
}

/// The name of the host: the trimmed one from the system, else the one from the
/// environment, else "unknown". An empty name does not count.
pub fn read_hostname(environment: Option<String>, system: Option<String>) -> (name: String)
    ensures
        names_host(environment, system, name@),
        name@ == (if system is Some && trimmed(system->0@).len() > 0 {
            trimmed(system->0@)
        } else if usable_name(environment) {
            environment->0@
        } else {
            "unknown"@
        }),
{
    if let Some(text) = system {
        let name: String = trim_text(text.as_str());
        if name.as_str().unicode_len() > 0 {
            return name;
        }
    }
    if let Some(name) = environment {
        if name.as_str().unicode_len() > 0 {
            return name;
        }
    }
    String::from_str("unknown")
}

/// Failure of a control-plane call.
#[derive(Debug)]
pub enum ControlError {
    Internal(String),
}

impl ControlError {
    /// An internal error that names the failing step and its cause.
    pub open spec fn is_internal(self, step: Seq<char>, cause: Seq<char>) -> bool {
        self matches ControlError::Internal(message) && message@ == step + cause
    }
}

/// Topology snapshot of a leader.
pub struct InstanceDescription {
    pub instance_id: String,
    pub worker_ids: Vec<u64>,
    pub hub_instance_id: Option<String>,
    pub block_size: Option<usize>,
    pub parallelism: Option<ParallelismDescription>,
    pub tier_capacity: Vec<TierCapacity>,
    pub workers: Vec<WorkerInfo>,
    pub modules: Vec<ModuleId>,
    pub role: Option<DisaggregationRole>,
    pub config: Option<serde_json::Value>,
    pub host: HostInfo,
    pub started_at: u64,
}

/// What the leader-wide view shows of its workers' parallelism.
pub open spec fn shows_group(
    aggregate: Option<ParallelismDescription>,
    workers: Seq<WorkerInfo>,
) -> bool {
    &&& aggregate is Some <==> one_group(workers)
    &&& aggregate matches Some(p) ==> {
        &&& p.rank == 0
        &&& p.agrees(workers[0].parallelism->0)
        &&& p.layer_ownership.start == first_layer(workers)
        &&& p.layer_ownership.end == last_layer(workers)
    }
}

/// Every export could be unpacked.
pub open spec fn all_unpacked(exports: Seq<Result<ExportedWorker, String>>) -> bool {
    forall|i: int| 0 <= i < exports.len() ==> (#[trigger] exports[i]) is Ok
}

/// The workers shown are the exported ones, in order.
pub open spec fn describes_all(
    workers: Seq<WorkerInfo>,
    exports: Seq<Result<ExportedWorker, String>>,
) -> bool {
    &&& workers.len() == exports.len()
    &&& forall|i: int|
        #![trigger workers[i]]
        0 <= i < workers.len() ==> describes_worker(workers[i], exports[i]->Ok_0)
}

/// Ids of workers, in order.
fn ids_of(workers: &Vec<WorkerInfo>) -> (ids: Vec<u64>)
    ensures
        ids@ == workers@.map_values(|w: WorkerInfo| w.worker_id),
{
    let mut ids: Vec<u64> = Vec::with_capacity(workers.len());
    let mut index: usize = 0;
    while index < workers.len()
        invariant
            index <= workers@.len(),
            ids@ == workers@.take(index as int).map_values(|w: WorkerInfo| w.worker_id),
        decreases workers@.len() - index,
    {
        ids.push(workers[index].worker_id);
        index = index + 1;
        assert(ids@ =~= workers@.take(index as int).map_values(|w: WorkerInfo| w.worker_id));
    }
    assert(workers@.take(index as int) =~= workers@);
    ids
}

/// Copies modules.
fn copy_modules(modules: &Vec<ModuleId>) -> (copy: Vec<ModuleId>)
    ensures
        copy@ == modules@,
{
    let mut copy: Vec<ModuleId> = Vec::with_capacity(modules.len());
    let mut index: usize = 0;
    while index < modules.len()
        invariant
            index <= modules@.len(),
            copy@ == modules@.take(index as int),
        decreases modules@.len() - index,
    {
        copy.push(modules[index]);
        index = index + 1;
    }
    assert(modules@.take(index as int) =~= modules@);
    copy
}

/// Renders a failing step and its cause.
fn internal_error(step: &str, cause: &str) -> (error: ControlError)
    ensures
        error.is_internal(step@, cause@),
{
    let mut message = String::from_str(step);
    message.append(cause);
    ControlError::Internal(message)
}

/// Shows every exported worker, or the first that could not be unpacked.
fn describe_workers(exports: Vec<Result<ExportedWorker, String>>) -> (res: Result<
    Vec<WorkerInfo>,
    ControlError,
>)
    ensures
        match res {
            Ok(workers) => {
                &&& all_unpacked(exports@)
                &&& describes_all(workers@, exports@)
            },
            Err(error) => exists|i: int|
                {
                    &&& 0 <= i < exports@.len()
                    &&& (#[trigger] exports@[i]) is Err
                    &&& forall|j: int| 0 <= j < i ==> (#[trigger] exports@[j]) is Ok
                    &&& error.is_internal("unpack SerializedLayout: "@, exports@[i]->Err_0@)
                },
        },
{
    let mut workers: Vec<WorkerInfo> = Vec::with_capacity(exports.len());
    let ghost all = exports@;
    for exported in iter: exports
        invariant
            iter.seq() == all,
            workers@.len() == iter.index(),
            all_unpacked(all.take(iter.index() as int)),
            describes_all(workers@, all.take(iter.index() as int)),
    {
        let ghost done = all.take(iter.index() as int);
        let ghost next = all.take(iter.index() + 1);
        assert(exported == all[iter.index() as int]);
        match exported {
            Ok(worker) => {
                workers.push(describe_worker(worker));
                assert forall|i: int| 0 <= i < next.len() implies (#[trigger] next[i]) is Ok by {
                    if i < done.len() {
                        assert(done[i] is Ok);
                    }
                }
                assert forall|i: int|
                    #![trigger workers@[i]]
                    0 <= i < workers@.len() implies describes_worker(workers@[i], next[i]->Ok_0) by {
                    if i < done.len() {
                        assert(next[i] == done[i]);
                    }
                }
            },
            Err(cause) => {
                assert forall|j: int| 0 <= j < iter.index() implies (#[trigger] all[j]) is Ok by {
                    assert(done[j] is Ok);
                }
                return Err(internal_error("unpack SerializedLayout: ", cause.as_str()));
            },
        }
    }
    assert(all.take(all.len() as int) =~= all);
    Ok(workers)
}

/// First message of a session between two leaders.
#[derive(Debug)]
pub enum OnboardMessage {
    /// Asks the receiver to search its blocks.
    CreateSession {
        requester: InstanceId,
        session_id: SessionId,
        sequence_hashes: Vec<SequenceHash>,
    },
    /// Any message that belongs to a running session.
    Other { session_id: SessionId },
}

/// A responder to be started.
#[derive(Debug)]
pub struct ResponderLaunch {
    pub session_id: SessionId,
    pub instance_id: InstanceId,
    pub requester: InstanceId,
    pub g2_manager: HandleId,
    pub g3_manager: Option<HandleId>,
    pub sequence_hashes: Vec<SequenceHash>,
}

/// Only a message that creates a session starts a responder.
#[derive(Debug, Clone, Copy, PartialEq, Eq, Structural)]
pub struct NotACreateSession;

/// Where the worker exports of a leader come from.
#[derive(Debug, Clone, Copy, PartialEq, Eq, Structural)]
pub enum ExportSource {
    /// The exports collected beforehand.
    Cached(HandleId),
    /// Each worker is asked in rank order.
    QueryWorkers,
}

/// Place of one export in the worker grid.
#[derive(Debug, Clone, Copy, PartialEq, Eq, Structural)]
pub struct ExportStamp {
    pub rank: usize,
    pub tp_size: usize,
    pub shard_axis: KvDim,
}

/// An export as it leaves for a peer: the layout, and its stamp if a template
/// is configured.
#[derive(Debug)]
pub struct StampedExport<L> {
    pub layout: L,
    pub stamp: Option<ExportStamp>,
}

/// The template describes another number of workers than there are exports.
#[derive(Debug, Clone, Copy, PartialEq, Eq, Structural)]
pub struct StampCountMismatch {
    pub tp_size: usize,
    pub pp_size: usize,
    pub exports: usize,
}

impl StampCountMismatch {
    /// The text of the error.
    pub open spec fn text(self) -> Seq<char> {
        "template tp_size * pp_size ("@ + decimal_text(self.tp_size as nat) + " * "@ + decimal_text(
            self.pp_size as nat,
        ) + ") does not match the number of worker exports ("@ + decimal_text(self.exports as nat)
            + ")"@
    }

    /// Renders the error.
    pub fn message(&self) -> (message: String)
        ensures
            message@ == self.text(),
    {
        let mut message = String::from_str("template tp_size * pp_size (");
        append_decimal(&mut message, self.tp_size as u64);
        message.append(" * ");
        append_decimal(&mut message, self.pp_size as u64);
        message.append(") does not match the number of worker exports (");
        append_decimal(&mut message, self.exports as u64);
        message.append(")");
        message
    }
}

impl ParallelismTemplate {
    /// The stamp of the export at a rank.
    pub open spec fn stamp_of(self, rank: int) -> ExportStamp {
        ExportStamp { rank: rank as usize, tp_size: self.tp_size, shard_axis: self.shard_axis }
    }

    /// The stamps of so many exports, in rank order. The template has to
    /// describe exactly that many workers.
    pub fn stamps(&self, exports: usize) -> (res: Result<Vec<ExportStamp>, StampCountMismatch>)
        ensures
            if self.tp_size * self.pp_size != exports {
                res == Err::<Vec<ExportStamp>, StampCountMismatch>(
                    StampCountMismatch { tp_size: self.tp_size, pp_size: self.pp_size, exports },
                )
            } else {
                res matches Ok(stamps) && stamps@ == Seq::new(
                    exports as nat,
                    |i: int| self.stamp_of(i),
                )
            },
    {
        if self.tp_size.checked_mul(self.pp_size) != Some(exports) {
            return Err(
                StampCountMismatch { tp_size: self.tp_size, pp_size: self.pp_size, exports },
            );
        }
        let mut stamps: Vec<ExportStamp> = Vec::with_capacity(exports);
        let mut rank: usize = 0;
        while rank < exports
            invariant
                rank <= exports,
                stamps@ == Seq::new(rank as nat, |i: int| self.stamp_of(i)),
            decreases exports - rank,
        {
            stamps.push(
                ExportStamp { rank, tp_size: self.tp_size, shard_axis: self.shard_axis },
            );
            rank = rank + 1;
            assert(stamps@ =~= Seq::new(rank as nat, |i: int| self.stamp_of(i)));
        }
        Ok(stamps)
    }
}

impl InstanceLeader {
    /// Everything the snapshot shows besides the workers themselves.
    pub open spec fn described(self, host: HostInfo, shown: InstanceDescription) -> bool {
        &&& shown.instance_id@ == uuid_text(self.config.instance_id.bits)
        &&& shown.worker_ids@ == shown.workers@.map_values(|w: WorkerInfo| w.worker_id)
        &&& match self.cells.hub_instance_id {
            Some(text) => shown.hub_instance_id matches Some(copy) && copy@ == text@,
            None => shown.hub_instance_id is None,
        }
        &&& shown.block_size == shared_page_size(layouts_of(shown.workers@))
        &&& shows_group(shown.parallelism, shown.workers@)
        &&& shown.tier_capacity@ == tier_capacities(layouts_of(shown.workers@))
        &&& shown.modules@ == (match self.cells.modules {
            Some(modules) => modules@,
            None => Seq::<ModuleId>::empty(),
        })
        &&& shown.role == self.config.role
        &&& shown.config == self.cells.config_blob
        &&& shown.host == host
        &&& shown.started_at == self.config.started_at
    }

    /// Builds the topology snapshot from what the workers exported.
    pub fn describe(
        &self,
        exports: Result<Vec<Result<ExportedWorker, String>>, String>,
        host: HostInfo,
    ) -> (res: Result<InstanceDescription, ControlError>)
        ensures
            match exports {
                Err(cause) => res matches Err(error) && error.is_internal(
                    "assemble_export_metadata: "@,
                    cause@,
                ),
                Ok(list) => match res {
                    Ok(shown) => {
                        &&& self.described(host, shown)
                        &&& all_unpacked(list@)
                        &&& describes_all(shown.workers@, list@)
                    },
                    Err(error) => exists|i: int|
                        {
                            &&& 0 <= i < list@.len()
                            &&& (#[trigger] list@[i]) is Err
                            &&& forall|j: int| 0 <= j < i ==> (#[trigger] list@[j]) is Ok
                            &&& error.is_internal("unpack SerializedLayout: "@, list@[i]->Err_0@)
                        },
                },
            },
    {
        let list = match exports {
            Ok(list) => list,
            Err(cause) => {
                return Err(internal_error("assemble_export_metadata: ", cause.as_str()));
            },
        };
        let workers: Vec<WorkerInfo> = match describe_workers(list) {
            Ok(workers) => workers,
            Err(error) => {
                return Err(error);
            },
        };
        let block_size: Option<usize> = common_page_size(&workers);
        let parallelism = aggregate_parallelism(&workers);
        let tier_capacity: Vec<TierCapacity> = sum_tier_capacity(&workers);
        let worker_ids: Vec<u64> = ids_of(&workers);
        let modules: Vec<ModuleId> = match &self.cells.modules {
            Some(modules) => copy_modules(modules),
            None => Vec::new(),
        };
        let hub_instance_id: Option<String> = match &self.cells.hub_instance_id {
            Some(text) => Some(text.clone()),
            None => None,
        };
        let config = match &self.cells.config_blob {
            Some(value) => Some(copy_json(value)),
            None => None,
        };
        Ok(
            InstanceDescription {
                instance_id: self.config.instance_id.to_text(),
                worker_ids,
                hub_instance_id,
                block_size,
                parallelism,
                tier_capacity,
                workers,
                modules,
                role: self.config.role,
                config,
                host,
                started_at: self.config.started_at,
            },
        )
    }

    /// Where the worker exports come from: the cache if there is one.
    pub fn export_worker_metadata(&self) -> (source: ExportSource)
        ensures
            source == (match self.config.cached_worker_metadata {
                Some(cached) => ExportSource::Cached(cached),
                None => ExportSource::QueryWorkers,
            }),
    {
        match self.config.cached_worker_metadata {
            Some(cached) => ExportSource::Cached(cached),
            None => ExportSource::QueryWorkers,
        }
    }

    /// Where the exports for a peer come from, and whether they are stamped
    /// with the parallelism template before they leave.
    pub fn assemble_export_metadata(&self) -> (plan: (ExportSource, bool))
        ensures
            plan.0 == (match self.config.cached_worker_metadata {
                Some(cached) => ExportSource::Cached(cached),
                None => ExportSource::QueryWorkers,
            }),
            plan.1 == (self.config.parallelism_template is Some),
    {
        (self.export_worker_metadata(), self.config.parallelism_template.is_some())
    }

    /// What stamping the collected exports comes to.
    pub open spec fn stamps_exports<L>(
        self,
        raw: Seq<L>,
        res: Result<Vec<StampedExport<L>>, StampCountMismatch>,
    ) -> bool {
        match self.config.parallelism_template {
            Some(template) => if template.tp_size * template.pp_size == raw.len() {
                res matches Ok(stamped) && stamped@ == Seq::new(
                    raw.len(),
                    |i: int| StampedExport { layout: raw[i], stamp: Some(template.stamp_of(i)) },
                )
            } else {
                res is Err
            },
            None => res matches Ok(stamped) && stamped@ == Seq::new(
                raw.len(),
                |i: int| StampedExport { layout: raw[i], stamp: None::<ExportStamp> },
            ),
        }
    }

    /// What answering the first message of a session comes to.
    pub open spec fn responds(
        self,
        message: OnboardMessage,
        channel: usize,
        res: Result<ResponderLaunch, NotACreateSession>,
        after: SessionsView,
    ) -> bool {
        match message {
            OnboardMessage::CreateSession { requester, session_id, sequence_hashes } => {
                &&& res matches Ok(launch)
                &&& launch.session_id == session_id
                &&& launch.requester == requester
                &&& launch.sequence_hashes == sequence_hashes
                &&& launch.instance_id == self.config.instance_id
                &&& launch.g2_manager == self.config.g2_manager
                &&& launch.g3_manager == self.config.g3_manager
                &&& after == self.session_view().with_channel(session_id, channel)
            },
            OnboardMessage::Other { .. } => res is Err && after == self.session_view(),
        }
    }

    /// The collected exports as they leave for a peer: each with its stamp if a
    /// template is configured, else as they are.
    pub fn stamp_exports<L>(&self, raw: Vec<L>) -> (res: Result<
        Vec<StampedExport<L>>,
        StampCountMismatch,
    >)
        ensures
            self.stamps_exports(raw@, res),
            match self.config.parallelism_template {
                Some(template) => if template.tp_size * template.pp_size != raw@.len() {
                    res == Err::<Vec<StampedExport<L>>, StampCountMismatch>(
                        StampCountMismatch {
                            tp_size: template.tp_size,
                            pp_size: template.pp_size,
                            exports: raw.len(),
                        },
                    )
                } else {
                    res matches Ok(stamped) && stamped@ == Seq::new(
                        raw@.len(),
                        |i: int|
                            StampedExport { layout: raw@[i], stamp: Some(template.stamp_of(i)) },
                    )
                },
                None => res matches Ok(stamped) && stamped@ == Seq::new(
                    raw@.len(),
                    |i: int| StampedExport { layout: raw@[i], stamp: None::<ExportStamp> },
                ),
            },
    {
        let stamps: Option<Vec<ExportStamp>> = match &self.config.parallelism_template {
            Some(template) => match template.stamps(raw.len()) {
                Ok(stamps) => Some(stamps),
                Err(error) => {
                    return Err(error);
                },
            },
            None => None,
        };
        let ghost all = raw@;
        let mut stamped: Vec<StampedExport<L>> = Vec::with_capacity(raw.len());
        for layout in iter: raw
            invariant
                iter.seq() == all,
                stamps matches Some(list) ==> list@.len() == all.len(),
                stamped@.len() == iter.index(),
                forall|i: int|
                    0 <= i < iter.index() ==> {
                        &&& (#[trigger] stamped@[i]).layout == all[i]
                        &&& stamped@[i].stamp == (match stamps {
                            Some(list) => Some(list@[i]),
                            None => None,
                        })
                    },
        {
            let rank: usize = stamped.len();
            let stamp: Option<ExportStamp> = match &stamps {
                Some(list) => Some(list[rank]),
                None => None,
            };
            stamped.push(StampedExport { layout, stamp });
        }
        proof {
            match &self.config.parallelism_template {
                Some(template) => {
                    assert(stamped@ =~= Seq::new(
                        all.len(),
                        |i: int|
                            StampedExport { layout: all[i], stamp: Some(template.stamp_of(i)) },
                    ));
                },
                None => {
                    assert(stamped@ =~= Seq::new(
                        all.len(),
                        |i: int| StampedExport { layout: all[i], stamp: None::<ExportStamp> },
                    ));
                },
            }
        }
        Ok(stamped)
    }

    /// Whether peers can ask for exports: there are workers or cached exports.
    pub fn register_handlers(&self) -> (exports_offered: bool)
        ensures
            exports_offered == (self.config.workers@.len() > 0
                || self.config.cached_worker_metadata is Some),
    {
        self.config.workers.len() > 0 || self.config.cached_worker_metadata.is_some()
    }

    /// Answers the first message of a session: registers its channel and starts
    /// a responder over the local tiers. Other messages are refused.
    pub fn spawn_responder(&mut self, message: OnboardMessage, channel: usize) -> (res: Result<
        ResponderLaunch,
        NotACreateSession,
    >)
        requires
            old(self).wf(),
        ensures
            final(self).wf(),
            final(self).same_but_sessions(*old(self)),
            old(self).responds(message, channel, res, final(self).session_view()),
            match message {
                OnboardMessage::CreateSession { requester, session_id, sequence_hashes } => {
                    &&& res == Ok::<ResponderLaunch, NotACreateSession>(
                        ResponderLaunch {
                            session_id,
                            instance_id: old(self).config.instance_id,
                            requester,
                            g2_manager: old(self).config.g2_manager,
                            g3_manager: old(self).config.g3_manager,
                            sequence_hashes,
                        },
                    )
                    &&& final(self).session_view() == old(self).session_view().with_channel(
                        session_id,
                        channel,
                    )
                },
                OnboardMessage::Other { .. } => {
                    &&& res == Err::<ResponderLaunch, NotACreateSession>(NotACreateSession)
                    &&& final(self).session_view() == old(self).session_view()
                },
            },
    {
        match message {
            OnboardMessage::CreateSession { requester, session_id, sequence_hashes } => {
                self.sessions.insert(session_id, channel);
                Ok(
                    ResponderLaunch {
                        session_id,
                        instance_id: self.config.instance_id,
                        requester,
                        g2_manager: self.config.g2_manager,
                        g3_manager: self.config.g3_manager,
                        sequence_hashes,
                    },
                )
            },
            OnboardMessage::Other { .. } => Err(NotACreateSession),
        }
    }
}

/// Trimming cuts white space off both ends and nothing else: what is left is a
/// piece of the text that neither starts nor ends with white space, and
/// everything around it is white space.
#[verifier::spinoff_prover]
#[verifier::rlimit(40)]
pub proof fn law_trimming_cuts_only_space(text: Seq<char>) -> (start: int)
    ensures
        0 <= start,
        start + trimmed(text).len() <= text.len(),
        trimmed(text) == text.subrange(start, start + trimmed(text).len()),
        forall|i: int| 0 <= i < start ==> is_space(#[trigger] text[i]),
        forall|i: int|
            start + trimmed(text).len() <= i < text.len() ==> is_space(#[trigger] text[i]),
        trimmed(text).len() > 0 ==> !is_space(trimmed(text)[0]) && !is_space(trimmed(text).last()),
    decreases text.len(),
{
    let kept = trimmed(text).len() as int;
    if text.len() == 0 {
        assert(text =~= text.subrange(0, 0));
        0
    } else if is_space(text[0]) {
        let rest = text.skip(1);
        let at = law_trimming_cuts_only_space(rest);
        assert(trimmed(text) == trimmed(rest));
        assert(rest.subrange(at, at + kept) =~= text.subrange(at + 1, at + 1 + kept));
        assert forall|i: int| 0 <= i < at + 1 implies is_space(#[trigger] text[i]) by {
            if i > 0 {
                assert(is_space(rest[i - 1]));
            }
        }
        assert forall|i: int| at + 1 + kept <= i < text.len() implies is_space(
            #[trigger] text[i],
        ) by {
            assert(is_space(rest[i - 1]));
        }
        at + 1
    } else if is_space(text.last()) {
        let rest = text.drop_last();
        let at = law_trimming_cuts_only_space(rest);
        assert(trimmed(text) == trimmed(rest));
        assert(rest.subrange(at, at + kept) =~= text.subrange(at, at + kept));
        assert forall|i: int| 0 <= i < at implies is_space(#[trigger] text[i]) by {
            assert(is_space(rest[i]));
        }
        assert forall|i: int| at + kept <= i < text.len() implies is_space(#[trigger] text[i]) by {
            if i < rest.len() {
                assert(is_space(rest[i]));
            }
        }
        at
    } else {
        assert(trimmed(text) == text);
        assert(text =~= text.subrange(0, text.len() as int));
        0
    }
}

/// Blanks and line ends are white space; printable ASCII characters are not.
pub proof fn law_printable_is_no_space(c: char)
    ensures
        is_space(' '),
        is_space('\n'),
        is_space('\t'),
        is_space('\r'),
        0x21 <= c as u32 <= 0x7e ==> !is_space(c),
{
}

/// Ranks, sizes and axis of a stamp are those of the template and of the
/// export's place.
pub proof fn law_stamp_tells_the_place(template: ParallelismTemplate, rank: usize)
    ensures
        template.stamp_of(rank as int).rank == rank,
        template.stamp_of(rank as int).tp_size == template.tp_size,
        template.stamp_of(rank as int).shard_axis == template.shard_axis,
{
}

/// A description shows the leader as it is: its own id, role, start, modules and
/// configuration, the hub it was told of, and one entry for each worker.
pub proof fn law_description_shows_the_leader(
    leader: InstanceLeader,
    host: HostInfo,
    shown: InstanceDescription,
    index: int,
)
    requires
        leader.described(host, shown),
        0 <= index < shown.workers@.len(),
    ensures
        shown.instance_id@ == uuid_text(leader.config.instance_id.bits),
        shown.role == leader.config.role,
        shown.started_at == leader.config.started_at,
        shown.host == host,
        shown.config == leader.cells.config_blob,
        shown.worker_ids@.len() == shown.workers@.len(),
        shown.worker_ids@[index] == shown.workers@[index].worker_id,
        leader.cells.modules is None ==> shown.modules@.len() == 0,
        leader.cells.modules matches Some(modules) ==> shown.modules@ == modules@,
        shown.hub_instance_id is Some <==> leader.cells.hub_instance_id is Some,
        leader.cells.hub_instance_id matches Some(text) ==> shown.hub_instance_id->0@ == text@,
        shown.parallelism is Some ==> shown.workers@[index].parallelism is Some,
        shown.workers@[index].parallelism is None ==> shown.parallelism is None,
        shown.parallelism matches Some(group) ==> {
            &&& group.rank == 0
            &&& group.tp_size == shown.workers@[index].parallelism->0.tp_size
            &&& group.pp_size == shown.workers@[index].parallelism->0.pp_size
            &&& group.shard_axis == shown.workers@[index].parallelism->0.shard_axis
            &&& group.layer_ownership.start
                <= shown.workers@[index].parallelism->0.layer_ownership.start
            &&& shown.workers@[index].parallelism->0.layer_ownership.end
                <= group.layer_ownership.end
        },
{
    if one_group(shown.workers@) {
        crate::engine::describe::law_aggregate_covers_layers(shown.workers@, index);
    }
}

/// A host always has a name: the system's if it has one to give, else the
/// environment's, and "unknown" exactly if neither has any.
pub proof fn law_host_is_always_named(
    environment: Option<String>,
    system: Option<String>,
    name: Seq<char>,
)
    requires
        names_host(environment, system, name),
    ensures
        name.len() > 0,
        (system matches Some(text) && trimmed(text@).len() > 0) ==> name == trimmed(system->0@),
        !(system matches Some(text) && trimmed(text@).len() > 0) && (environment matches Some(
            given,
        ) && given@.len() > 0) ==> name == environment->0@,
        !(system matches Some(text) && trimmed(text@).len() > 0) && !(environment matches Some(
            given,
        ) && given@.len() > 0) ==> name == "unknown"@,
{
    reveal_strlit("unknown");
}

/// Exports leave in the order they were collected, each with its own layout. With
/// a template each carries its rank and the template's size and axis, and their
/// number has to be that of the template's workers; without one none is stamped.
pub proof fn law_exports_are_stamped_by_rank<L>(
    leader: InstanceLeader,
    raw: Seq<L>,
    res: Result<Vec<StampedExport<L>>, StampCountMismatch>,
    index: int,
)
    requires
        leader.stamps_exports(raw, res),
        0 <= index < raw.len() <= usize::MAX,
    ensures
        res is Err <==> (leader.config.parallelism_template matches Some(template)
            && template.tp_size * template.pp_size != raw.len()),
        res matches Ok(stamped) ==> {
            &&& stamped@.len() == raw.len()
            &&& stamped@[index].layout == raw[index]
            &&& stamped@[index].stamp is Some <==> leader.config.parallelism_template is Some
            &&& leader.config.parallelism_template matches Some(template) ==> (
            stamped@[index].stamp matches Some(stamp) && stamp.rank == index && stamp.tp_size
                == template.tp_size && stamp.shard_axis == template.shard_axis)
        },
{
}

/// A session is answered exactly when it is created: the responder searches for
/// all hashes that were asked for, over this leader's own tiers, answers the
/// one who asked, and is reachable on its channel.
pub proof fn law_created_session_is_answered(
    leader: InstanceLeader,
    message: OnboardMessage,
    channel: usize,
    res: Result<ResponderLaunch, NotACreateSession>,
    after: SessionsView,
)
    requires
        leader.responds(message, channel, res, after),
    ensures
        res is Ok <==> message is CreateSession,
        message matches OnboardMessage::CreateSession { requester, session_id, sequence_hashes }
            ==> {
            &&& res matches Ok(launch)
            &&& launch.session_id == session_id
            &&& launch.requester == requester
            &&& launch.sequence_hashes == sequence_hashes
            &&& launch.instance_id == leader.config.instance_id
            &&& launch.g2_manager == leader.config.g2_manager
            &&& launch.g3_manager == leader.config.g3_manager
            &&& after.channels.contains_pair(session_id, channel)
        },
        res is Err ==> after.channels == leader.sessions@,
        after.held == leader.session_states@,
        after.transfers == leader.session_sessions@,
{
}

/// The workers of a description are the exported ones, in the order of the
/// exports.
pub proof fn law_workers_shown_in_order(
    workers: Seq<WorkerInfo>,
    exports: Seq<Result<ExportedWorker, String>>,
    index: int,
)
    requires
        describes_all(workers, exports),
        all_unpacked(exports),
        0 <= index < exports.len(),
    ensures
        workers.len() == exports.len(),
        exports[index] matches Ok(exported) && workers[index].worker_id == exported.worker_id
            && workers[index].parallelism == exported.parallelism
            && workers[index].layouts@.len() == exported.layouts@.len(),
{
    assert(exports[index] is Ok);
    assert(describes_worker(workers[index], exports[index]->Ok_0));
}

} // verus!
