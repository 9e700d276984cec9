//! The connector leader: the slots of all requests, and what the scheduler asks
//! about them.

use crate::common::{min_int, BlockId, InstanceId};
use crate::connector::machine::{
    ActiveStateData, FinishedStatus, OffloadingState, StateTransitionError, TransferHandle,
    TransferStatus,
};
use crate::connector::onboarding::{
    breakdown_sums, first_hole, shards_wf, CdOnboardingPayload, OnboardingShard, OnboardingState,
};
use crate::connector::request::{Request, TransferParams};
use crate::connector::slot::{
    IntraPassPending, MatchCheckOutcome, RecordOffloadError, RequestSlot, SlotView,
};
use crate::connector::split::{compute_slot_match_split, SlotMatchSplit};
use crate::engine::instance::HandleId;
use crate::engine::matches::{FindMatchesResult, MatchBreakdown, MatchedBlock};
use crate::identity::{append_decimal, decimal_text};
use crate::table::RequestTable;
use crate::tokens::{SequenceHash, TokenBlock, TokenSequenceView};
use std::collections::HashMap;
use std::ops::Range;
use vstd::prelude::*;

verus! {

broadcast use vstd::std_specs::hash::group_hash_axioms;

/// Marker of types that serve as a connector leader.
pub trait ConnectorLeaderInterface: Send + Sync {

}

/// When matched blocks are loaded.
#[derive(Debug, Clone, Copy, PartialEq, Eq, Structural)]
pub enum OnboardMode {
    /// Between forward passes, asynchronously.
    Inter,
    /// During the forward pass, layer by layer.
    Intra,
}

/// Why the leader refused a call.
#[derive(Debug)]
pub enum ConnectorError {
    SlotNotFound { request_id: String },
    SlotExists { request_id: String },
    NotAMultiple { num_external_tokens: usize, block_size: usize },
    RangeOutOfBounds { start: usize, end: usize, len: usize },
    DecodeParams { request_id: String, cause: String },
    BlocksMissing { request_id: String },
}

impl ConnectorError {
    /// The error is about a slot that does not exist.
    pub open spec fn is_slot_not_found(self, id: Seq<char>) -> bool {
        self matches ConnectorError::SlotNotFound { request_id } && request_id@ == id
    }

    /// The text of the error.
    pub open spec fn text(self) -> Seq<char> {
        match self {
            ConnectorError::SlotNotFound { request_id } => "Slot not found for request ID: "@
                + request_id@,
            ConnectorError::SlotExists { request_id } => "Slot already exists for request ID: "@
                + request_id@,
            ConnectorError::NotAMultiple { num_external_tokens, block_size } =>
                "num_external_tokens "@ + decimal_text(num_external_tokens as nat)
                + " is not a multiple of block size "@ + decimal_text(block_size as nat),
            ConnectorError::RangeOutOfBounds { start, end, len } =>
                "token_blocks_for_range out of bounds: range "@ + decimal_text(start as nat)
                + ".."@ + decimal_text(end as nat) + ", len "@ + decimal_text(len as nat),
            ConnectorError::DecodeParams { request_id, cause } => "decode kv_transfer_params for "@
                + request_id@ + ": "@ + cause@,
            ConnectorError::BlocksMissing { request_id } => "slot "@ + request_id@
                + " G2 collection failed"@,
        }
    }

    /// Renders the error.
    pub fn message(&self) -> (message: String)
        ensures
            message@ == self.text(),
    {
        match self {
            ConnectorError::SlotNotFound { request_id } => {
                let mut message = String::from_str("Slot not found for request ID: ");
                message.append(request_id.as_str());
                message
            },
            ConnectorError::SlotExists { request_id } => {
                let mut message = String::from_str("Slot already exists for request ID: ");
                message.append(request_id.as_str());
                message
            },
            ConnectorError::NotAMultiple { num_external_tokens, block_size } => {
                let mut message = String::from_str("num_external_tokens ");
                append_decimal(&mut message, *num_external_tokens as u64);
                message.append(" is not a multiple of block size ");
                append_decimal(&mut message, *block_size as u64);
                message
            },
            ConnectorError::RangeOutOfBounds { start, end, len } => {
                let mut message = String::from_str("token_blocks_for_range out of bounds: range ");
                append_decimal(&mut message, *start as u64);
                message.append("..");
                append_decimal(&mut message, *end as u64);
                message.append(", len ");
                append_decimal(&mut message, *len as u64);
                message
            },
            ConnectorError::DecodeParams { request_id, cause } => {
                let mut message = String::from_str("decode kv_transfer_params for ");
                message.append(request_id.as_str());
                message.append(": ");
                message.append(cause.as_str());
                message
            },
            ConnectorError::BlocksMissing { request_id } => {
                let mut message = String::from_str("slot ");
                message.append(request_id.as_str());
                message.append(" G2 collection failed");
                message
            },
        }
    }
}

/// Where a request stands relative to block boundaries.
#[derive(Debug, Clone, Copy, PartialEq, Eq, Structural)]
pub struct BlockBoundaryInfo {
    /// The last block is full.
    pub is_at_boundary: bool,
    /// Tokens until the next boundary; 0 at a boundary.
    pub tokens_until_boundary: usize,
    /// Tokens in the partial block.
    pub current_block_fill: usize,
}

/// Where a token count stands relative to block boundaries.
pub open spec fn boundary_of(total_tokens: int, block_size: int) -> BlockBoundaryInfo {
    let fill = total_tokens % block_size;
    let at_boundary = fill == 0 && total_tokens > 0;
    BlockBoundaryInfo {
        is_at_boundary: at_boundary,
        tokens_until_boundary: if at_boundary {
            0
        } else {
            (block_size - fill) as usize
        },
        current_block_fill: fill as usize,
    }
}

/// Blocks of a request by where they are.
#[derive(Debug, Clone, Copy, PartialEq, Eq, Structural)]
pub struct EvictionCounts {
    /// Blocks known to be in host memory.
    pub g2_block_count: usize,
    /// Blocks assigned to the request.
    pub total_block_count: usize,
}

/// What the loading of external blocks takes after the scheduler's allocation.
#[derive(Debug)]
pub enum AllocAction {
    /// Nothing to load.
    Nothing,
    /// Load asynchronously.
    StartOnboarding { block_ids: Vec<BlockId>, num_external_tokens: usize },
    /// Keep the pairs for the forward pass.
    PrepareIntraPass { block_ids: Vec<BlockId>, num_external_tokens: usize },
}

/// The answer to a match check, and what is to be recorded for it.
#[derive(Debug)]
pub struct MatchAnswer<E> {
    /// What the scheduler is told.
    pub answer: Result<(Option<usize>, bool), E>,
    /// Matches by tier and blocks queried, if the check settled.
    pub cache_metrics: Option<(MatchBreakdown, usize)>,
    /// Matched tokens to be counted, at most once per search.
    pub report_matched_tokens: Option<usize>,
    /// The slot is in its error state and has to be recovered.
    pub recover: bool,
}

/// The value was set before.
#[derive(Debug, Clone, Copy, PartialEq, Eq, Structural)]
pub struct AlreadySet;

/// Owns the slots of all requests.
pub struct ConnectorLeader {
    block_size: usize,
    onboard_mode: OnboardMode,
    local_instance: InstanceId,
    /// Place of each request's slot in the list.
    places: RequestTable,
    slots: Vec<RequestSlot>,
    instance_leader: Option<HandleId>,
    offload_engine: Option<HandleId>,
    disagg_client: Option<HandleId>,
    cd_api: Option<HandleId>,
}

/// What a [`ConnectorLeader`] stands for.
#[verifier::ext_equal]
pub struct ConnectorView {
    pub block_size: usize,
    pub onboard_mode: OnboardMode,
    pub local_instance: InstanceId,
    pub slots: Map<Seq<char>, SlotView>,
    pub instance_leader: Option<HandleId>,
    pub offload_engine: Option<HandleId>,
    pub disagg_client: Option<HandleId>,
    pub cd_api: Option<HandleId>,
}

impl ConnectorView {
    /// The slot of one request exists, and nothing but it differs.
    pub open spec fn slot_only(self, id: Seq<char>, after: Self) -> bool {
        &&& self.slots.contains_key(id)
        &&& after.slots.contains_key(id)
        &&& after == self.with_slot(id, after.slots[id])
    }

    /// A call was refused because the request has no slot.
    pub open spec fn untracked(self, id: Seq<char>, after: Self, error: ConnectorError) -> bool {
        &&& !self.slots.contains_key(id)
        &&& after == self
        &&& error.is_slot_not_found(id)
    }

    /// The leader with one slot changed.
    pub open spec fn with_slot(self, id: Seq<char>, slot: SlotView) -> Self {
        ConnectorView { slots: self.slots.insert(id, slot), ..self }
    }

    /// The async flag as the onboard mode lets it through.
    pub open spec fn reported_async(self, asynchronous: bool) -> bool {
        self.onboard_mode == OnboardMode::Inter && asynchronous
    }
}

impl View for ConnectorLeader {
    type V = ConnectorView;

    closed spec fn view(&self) -> ConnectorView {
        ConnectorView {
            block_size: self.block_size,
            onboard_mode: self.onboard_mode,
            local_instance: self.local_instance,
            slots: Map::new(
                |id: Seq<char>| self.places@.contains_key(id),
                |id: Seq<char>| self.slots@[self.places@[id] as int]@,
            ),
            instance_leader: self.instance_leader,
            offload_engine: self.offload_engine,
            disagg_client: self.disagg_client,
            cd_api: self.cd_api,
        }
    }
}

/// The local match of a running onboarding and its computed tokens, as the
/// split takes them.
pub open spec fn onboarding_split(
    onboarding: Option<OnboardingState>,
    block_size: int,
) -> Option<(int, int)> {
    match onboarding {
        Some(state) => Some(
            (
                if state.shards@.len() == 0 {
                    0
                } else {
                    state.span(block_size).1 - state.span(block_size).0
                },
                state.num_computed_tokens as int,
            ),
        ),
        None => None,
    }
}

/// The span of a running onboarding can be read: its shards are terminal, and
/// the computed tokens do not reach past the match.
pub open spec fn span_readable(onboarding: Option<OnboardingState>, block_size: int) -> bool {
    match onboarding {
        Some(state) => state.shards@.len() > 0 ==> {
            &&& state.terminal()
            &&& state.counts_fit()
            &&& state.span(block_size).0 <= state.span(block_size).1
        },
        None => true,
    }
}

/// Host blocks that the shards hold, in order.
pub open spec fn held_blocks(shards: Seq<OnboardingShard>) -> Seq<MatchedBlock>
    decreases shards.len(),
{
    if shards.len() == 0 {
        Seq::empty()
    } else {
        held_blocks(shards.drop_last()) + shard_blocks(shards.last())
    }
}

/// Host blocks that one shard holds.
pub open spec fn shard_blocks(shard: OnboardingShard) -> Seq<MatchedBlock> {
    match shard.find_session {
        FindMatchesResult::Ready(ready) => ready@.g2_blocks,
        FindMatchesResult::AsyncSession(session) => match session.blocks {
            Some(blocks) => blocks@,
            None => Seq::empty(),
        },
    }
}

/// Every shard has its list of host blocks.
pub open spec fn blocks_published(shards: Seq<OnboardingShard>) -> bool {
    forall|i: int|
        0 <= i < shards.len() ==> ((#[trigger] shards[i]).find_session
            matches FindMatchesResult::AsyncSession(session) ==> session.blocks is Some)
}

/// The part of a list from `skip` on, at most `count` long.
pub open spec fn window(blocks: Seq<MatchedBlock>, skip: int, count: int) -> Seq<MatchedBlock> {
    let start = min_int(skip, blocks.len() as int);
    blocks.subrange(start, min_int(start + count, blocks.len() as int))
}

/// The shards after their host blocks were handed out.
pub open spec fn shards_drained(
    before: Seq<OnboardingShard>,
    after: Seq<OnboardingShard>,
) -> bool {
    &&& before.len() == after.len()
    &&& forall|i: int|
        #![trigger before[i]]
        #![trigger after[i]]
        0 <= i < before.len() ==> {
            &&& before[i].start_block == after[i].start_block
            &&& before[i].num_queried_blocks == after[i].num_queried_blocks
            &&& crate::connector::onboarding::drained(
                before[i].find_session,
                after[i].find_session,
            )
        }
}

/// Takes the host blocks of the matched span out of an onboarding: blocks that
/// were computed meanwhile are skipped, blocks past the first hole dropped.
/// Nothing is taken unless every shard has its list.
pub fn collect_g2_blocks_from_shards(state: &mut OnboardingState, block_size: usize) -> (res: Option<
    Vec<MatchedBlock>,
>)
    requires
        block_size > 0,
        old(state).shards@.len() > 0,
        old(state).terminal(),
        old(state).counts_fit(),
        old(state).wf(),
        old(state).span(block_size as int).0 <= old(state).span(block_size as int).1,
    ensures
        final(state).num_computed_tokens == old(state).num_computed_tokens,
        final(state).total_tokens_at_start == old(state).total_tokens_at_start,
        final(state).cd_payload == old(state).cd_payload,
        final(state).wf(),
        if blocks_published(old(state).shards@) {
            &&& shards_drained(old(state).shards@, final(state).shards@)
            &&& res matches Some(blocks) && blocks@ == window(
                held_blocks(old(state).shards@),
                old(state).span(block_size as int).0 - old(state).shards@[0].start_block,
                old(state).span(block_size as int).1 - old(state).span(block_size as int).0,
            )
        } else {
            res is None && *final(state) == *old(state)
        },
{
    let mut check: usize = 0;
    while check < state.shards.len()
        invariant
            *state == *old(state),
            old(state).wf(),
            check <= state.shards@.len(),
            forall|i: int|
                0 <= i < check ==> ((#[trigger] state.shards@[i]).find_session
                    matches FindMatchesResult::AsyncSession(session) ==> session.blocks is Some),
        decreases state.shards@.len() - check,
    {
        let published: bool = match &state.shards[check].find_session {
            FindMatchesResult::Ready(_) => true,
            FindMatchesResult::AsyncSession(session) => session.blocks.is_some(),
        };
        if !published {
            assert(!blocks_published(state.shards@));
            return None;
        }
        check = check + 1;
    }
    let (effective_start, final_end): (usize, usize) = state.matched_span(block_size);
    let skip: usize = effective_start - state.shards[0].start_block;
    let count: usize = final_end - effective_start;
    let mut blocks: Vec<MatchedBlock> = Vec::new();
    let ghost before = state.shards@;
    let mut index: usize = 0;
    assert(blocks@ =~= held_blocks(before.take(0)));
    while index < state.shards.len()
        invariant
            state.num_computed_tokens == old(state).num_computed_tokens,
            state.total_tokens_at_start == old(state).total_tokens_at_start,
            state.cd_payload == old(state).cd_payload,
            before == old(state).shards@,
            blocks_published(before),
            index <= before.len(),
            state.shards@.len() == before.len(),
            blocks@ == held_blocks(before.take(index as int)),
            forall|i: int| index <= i < before.len() ==> #[trigger] state.shards@[i] == before[i],
            forall|i: int|
                #![trigger state.shards@[i]]
                #![trigger before[i]]
                0 <= i < index ==> {
                    &&& before[i].start_block == state.shards@[i].start_block
                    &&& before[i].num_queried_blocks == state.shards@[i].num_queried_blocks
                    &&& crate::connector::onboarding::drained(
                        before[i].find_session,
                        state.shards@[i].find_session,
                    )
                },
        decreases before.len() - index,
    {
        assert(before.take(index + 1).drop_last() =~= before.take(index as int));
        assert(before.take(index + 1).last() == before[index as int]);
        assert(state.shards@[index as int] == before[index as int]);
        let taken = state.shards[index].find_session.take_g2_blocks();
        match taken {
            Some(mut list) => {
                blocks.append(&mut list);
            },
            None => {},
        }
        index = index + 1;
    }
    assert(before.take(index as int) =~= before);
    let ghost held = blocks@;
    let start: usize = if skip < blocks.len() {
        skip
    } else {
        blocks.len()
    };
    let mut kept: Vec<MatchedBlock> = blocks.split_off(start);
    if count < kept.len() {
        kept.truncate(count);
    }
    proof {
        assert(kept@ =~= window(held, skip as int, count as int));
        let after = state.shards@;
        assert(shards_drained(before, after));
        assert forall|i: int| #![trigger after[i]] 0 < i < after.len() implies after[i].start_block
            == after[i - 1].end() by {
            assert(before[i].start_block == before[i - 1].end());
        }
        assert forall|i: int| 0 <= i < after.len() implies (#[trigger] after[i]).end()
            <= usize::MAX by {
            assert(before[i].end() <= usize::MAX);
        }
    }
    Some(kept)
}

impl ConnectorLeader {
    /// Every place in the table holds the well-formed slot of its request.
    pub closed spec fn wf(self) -> bool {
        &&& self.block_size as u32 > 0
        &&& forall|id: Seq<char>| #[trigger]
            self.places@.contains_key(id) ==> {
                let slot = self.slots@[self.places@[id] as int];
                &&& self.places@[id] < self.slots@.len()
                &&& slot.wf()
                &&& slot@.request.request_id@ == id
                &&& slot@.sequence.block_size == (self.block_size as u32) as nat
            }
    }

    /// Every slot of a leader is sound, is filed under its own request id and
    /// has the leader's block size.
    pub proof fn law_slots_are_sound(&self, id: Seq<char>)
        requires
            self.wf(),
        ensures
            self@.block_size as u32 > 0,
            self@.slots.contains_key(id) ==> {
                &&& self@.slots[id].wf()
                &&& self@.slots[id].request.request_id@ == id
                &&& self@.slots[id].sequence.block_size == (self@.block_size as u32) as nat
            },
    {
        if self@.slots.contains_key(id) {
            assert(self.places@.contains_key(id));
        }
    }

    /// A leader without slots.
    pub fn new(block_size: usize, onboard_mode: OnboardMode, local_instance: InstanceId) -> (leader:
        Self)
        requires
            block_size as u32 > 0,
        ensures
            leader.wf(),
            leader@ == (ConnectorView {
                block_size,
                onboard_mode,
                local_instance,
                slots: Map::empty(),
                instance_leader: None,
                offload_engine: None,
                disagg_client: None,
                cd_api: None,
            }),
    {
        let leader = ConnectorLeader {
            block_size,
            onboard_mode,
            local_instance,
            places: RequestTable::new(),
            slots: Vec::new(),
            instance_leader: None,
            offload_engine: None,
            disagg_client: None,
            cd_api: None,
        };
        assert(leader@.slots =~= Map::<Seq<char>, SlotView>::empty());
        leader
    }

    /// The conditional-disaggregation dispatcher, once set.
    pub fn cd_api(&self) -> (api: Option<HandleId>)
        ensures
            api == self@.cd_api,
    {
        self.cd_api
    }

    /// Sets the dispatcher. Only the first call succeeds.
    pub fn set_cd_api(&mut self, api: HandleId) -> (res: Result<(), AlreadySet>)
        requires
            old(self).wf(),
        ensures
            final(self).wf(),
            res is Ok <==> old(self)@.cd_api is None,
            final(self)@ == (ConnectorView {
                cd_api: if res is Ok {
                    Some(api)
                } else {
                    old(self)@.cd_api
                },
                ..old(self)@
            }),
    {
        if self.cd_api.is_some() {
            return Err(AlreadySet);
        }
        self.cd_api = Some(api);
        assert(self@.slots =~= old(self)@.slots);
        Ok(())
    }

    /// The hub client, once registered.
    pub fn disagg_client(&self) -> (client: Option<HandleId>)
        ensures
            client == self@.disagg_client,
    {
        self.disagg_client
    }

    /// Sets the hub client. Only the first call succeeds.
    pub fn set_disagg_client(&mut self, client: HandleId) -> (res: Result<(), AlreadySet>)
        requires
            old(self).wf(),
        ensures
            final(self).wf(),
            res is Ok <==> old(self)@.disagg_client is None,
            final(self)@ == (ConnectorView {
                disagg_client: if res is Ok {
                    Some(client)
                } else {
                    old(self)@.disagg_client
                },
                ..old(self)@
            }),
    {
        if self.disagg_client.is_some() {
            return Err(AlreadySet);
        }
        self.disagg_client = Some(client);
        assert(self@.slots =~= old(self)@.slots);
        Ok(())
    }

    /// The instance leader, once set.
    pub fn instance_leader(&self) -> (leader: Option<HandleId>)
        ensures
            leader == self@.instance_leader,
    {
        self.instance_leader
    }

    /// Sets the instance leader. Only the first call succeeds.
    pub fn set_instance_leader(&mut self, leader: HandleId) -> (res: Result<(), AlreadySet>)
        requires
            old(self).wf(),
        ensures
            final(self).wf(),
            res is Ok <==> old(self)@.instance_leader is None,
            final(self)@ == (ConnectorView {
                instance_leader: if res is Ok {
                    Some(leader)
                } else {
                    old(self)@.instance_leader
                },
                ..old(self)@
            }),
    {
        if self.instance_leader.is_some() {
            return Err(AlreadySet);
        }
        self.instance_leader = Some(leader);
        assert(self@.slots =~= old(self)@.slots);
        Ok(())
    }

    /// The offload engine, once initialised.
    pub fn offload_engine(&self) -> (engine: Option<HandleId>)
        ensures
            engine == self@.offload_engine,
    {
        self.offload_engine
    }

    /// Sets the offload engine. Only the first call succeeds.
    pub fn set_offload_engine(&mut self, engine: HandleId) -> (res: Result<(), AlreadySet>)
        requires
            old(self).wf(),
        ensures
            final(self).wf(),
            res is Ok <==> old(self)@.offload_engine is None,
            final(self)@ == (ConnectorView {
                offload_engine: if res is Ok {
                    Some(engine)
                } else {
                    old(self)@.offload_engine
                },
                ..old(self)@
            }),
    {
        if self.offload_engine.is_some() {
            return Err(AlreadySet);
        }
        self.offload_engine = Some(engine);
        assert(self@.slots =~= old(self)@.slots);
        Ok(())
    }

    /// The onboard mode.
    pub fn onboard_mode(&self) -> (mode: OnboardMode)
        ensures
            mode == self@.onboard_mode,
    {
        self.onboard_mode
    }

    /// The block size.
    pub fn block_size(&self) -> (size: usize)
        ensures
            size == self@.block_size,
    {
        self.block_size
    }

    /// The id of this instance.
    pub fn local_instance_id(&self) -> (id: InstanceId)
        ensures
            id == self@.local_instance,
    {
        self.local_instance
    }

    /// Whether the request has a slot.
    pub fn has_slot(&self, request_id: &str) -> (found: bool)
        ensures
            found == self@.slots.contains_key(request_id@),
    {
        self.places.contains(request_id)
    }

    /// The place of a request's slot.
    fn place_of(&self, request_id: &str) -> (res: Result<usize, ConnectorError>)
        requires
            self.wf(),
        ensures
            match res {
                Ok(place) => {
                    &&& self.places@.contains_key(request_id@)
                    &&& self.places@[request_id@] == place
                    &&& place < self.slots@.len()
                    &&& self.slots@[place as int].wf()
                    &&& self.slots@[place as int]@ == self@.slots[request_id@]
                    &&& self.slots@[place as int]@.sequence.block_size == (
                    self.block_size as u32) as nat
                    &&& self@.slots.contains_key(request_id@)
                },
                Err(error) => !self@.slots.contains_key(request_id@) && error.is_slot_not_found(
                    request_id@,
                ),
            },
    {
        match self.places.get(request_id) {
            Some(place) => Ok(place),
            None => Err(
                ConnectorError::SlotNotFound { request_id: String::from_str(request_id) },
            ),
        }
    }

    /// The leaders differ in one slot at most.
    spec fn lent(self, after: Self, id: Seq<char>) -> bool {
        let place = self.places@[id] as int;
        &&& after.places == self.places
        &&& after.block_size == self.block_size
        &&& after.onboard_mode == self.onboard_mode
        &&& after.local_instance == self.local_instance
        &&& after.instance_leader == self.instance_leader
        &&& after.offload_engine == self.offload_engine
        &&& after.disagg_client == self.disagg_client
        &&& after.cd_api == self.cd_api
        &&& after.slots@.len() == self.slots@.len()
        &&& forall|i: int|
            0 <= i < self.slots@.len() && i != place ==> #[trigger] after.slots@[i] == self.slots@[i]
    }

    /// The slot of a request is sound and still that of the request.
    spec fn returned(self, after: Self, id: Seq<char>) -> bool {
        let place = self.places@[id] as int;
        after.slots@[place].wf() && self.slots@[place]@.same_request(after.slots@[place]@)
    }

    /// Changing one slot changes one entry of the leader, and keeps the leader
    /// sound if the slot stays sound and is not renamed.
    proof fn lemma_slot_changed(before: Self, after: Self, id: Seq<char>)
        requires
            before.wf(),
            before.places@.contains_key(id),
            before.lent(after, id),
        ensures
            before.returned(after, id) ==> after.wf(),
            after@ == before@.with_slot(id, after.slots@[before.places@[id] as int]@),
    {
        let place = before.places@[id] as int;
        if before.returned(after, id) {
            assert forall|other: Seq<char>| #[trigger] after.places@.contains_key(other) implies {
                let slot = after.slots@[after.places@[other] as int];
                &&& after.places@[other] < after.slots@.len()
                &&& slot.wf()
                &&& slot@.request.request_id@ == other
                &&& slot@.sequence.block_size == (after.block_size as u32) as nat
            } by {
                assert(before.places@.contains_key(other));
            }
        }
        let expected = before@.with_slot(id, after.slots@[place]@);
        assert forall|other: Seq<char>| #[trigger] after@.slots.contains_key(other) implies after@.slots[other]
            == expected.slots[other] by {
            assert(before.places@.contains_key(other));
            assert(before.slots@[before.places@[other] as int]@.request.request_id@ == other);
            if other != id {
                assert(before.places@[other] != place);
            }
        }
        assert(after@.slots =~= expected.slots);
    }

    /// The slot of a request.
    pub fn get_slot(&self, request_id: &str) -> (res: Result<&RequestSlot, ConnectorError>)
        requires
            self.wf(),
        ensures
            match res {
                Ok(slot) => {
                    &&& self@.slots.contains_key(request_id@)
                    &&& slot@ == self@.slots[request_id@]
                    &&& slot.wf()
                },
                Err(error) => !self@.slots.contains_key(request_id@) && error.is_slot_not_found(
                    request_id@,
                ),
            },
    {
        match self.place_of(request_id) {
            Ok(place) => Ok(&self.slots[place]),
            Err(error) => Err(error),
        }
    }

    /// The slot of a request, for modification. The leader keeps its invariant
    /// if the slot keeps its own, its request and its block size.
    pub fn get_slot_mut(&mut self, request_id: &str) -> (res: Result<
        &mut RequestSlot,
        ConnectorError,
    >)
        requires
            old(self).wf(),
        ensures
            match res {
                Ok(slot) => {
                    &&& old(self)@.slots.contains_key(request_id@)
                    &&& slot@ == old(self)@.slots[request_id@]
                    &&& slot.wf()
                    &&& final(self)@ == old(self)@.with_slot(request_id@, final(slot)@)
                    &&& final(slot).wf() && slot@.same_request(final(slot)@) ==> final(self).wf()
                },
                Err(error) => final(self).wf() && old(self)@.untracked(
                    request_id@,
                    final(self)@,
                    error,
                ),
            },
    {
        let place: usize = match self.place_of(request_id) {
            Ok(place) => place,
            Err(error) => {
                return Err(error);
            },
        };
        proof {
            let before = *self;
            assert forall|after: Self|
                #![trigger after.wf()]
                #![trigger after@]
                before.lent(after, request_id@) implies (before.returned(after, request_id@)
                ==> after.wf()) && after@ == before@.with_slot(
                request_id@,
                after.slots@[place as int]@,
            ) by {
                Self::lemma_slot_changed(before, after, request_id@);
            }
        }
        Ok(&mut self.slots[place])
    }

    /// Starts the search transaction of a request over one initial shard. The
    /// outer result tells whether the request has a slot, the inner one is the
    /// slot's own answer; so it is for every step below.
    pub fn prepare_to_onboard(
        &mut self,
        request_id: &str,
        num_computed_tokens: usize,
        total_tokens_at_start: usize,
        start_block: usize,
        num_queried_blocks: usize,
        find_session: FindMatchesResult,
    ) -> (res: Result<Result<(), StateTransitionError>, ConnectorError>)
        requires
            old(self).wf(),
            start_block + num_queried_blocks <= usize::MAX,
        ensures
            final(self).wf(),
            match res {
                Ok(outcome) => {
                    &&& old(self)@.slot_only(request_id@, final(self)@)
                    &&& {
                        let before = old(self)@.slots[request_id@];
                        let after = final(self)@.slots[request_id@];
                        before.onboarding_prepared(
                            num_computed_tokens,
                            total_tokens_at_start,
                            (OnboardingShard { start_block, num_queried_blocks, find_session }),
                            after,
                            outcome,
                        )
                    }
                },
                Err(error) => old(self)@.untracked(request_id@, final(self)@, error),
            },
    {
        match self.get_slot_mut(request_id) {
            Ok(slot) => Ok(
                slot.txn_prepare_to_onboard(
                    num_computed_tokens,
                    total_tokens_at_start,
                    start_block,
                    num_queried_blocks,
                    find_session,
                ),
            ),
            Err(error) => Err(error),
        }
    }

    /// Moves a request from preparing to loading.
    pub fn start_onboarding(
        &mut self,
        request_id: &str,
    ) -> (res: Result<Result<(), StateTransitionError>, ConnectorError>)
        requires
            old(self).wf(),
        ensures
            final(self).wf(),
            match res {
                Ok(outcome) => {
                    &&& old(self)@.slot_only(request_id@, final(self)@)
                    &&& {
                        let before = old(self)@.slots[request_id@];
                        let after = final(self)@.slots[request_id@];
                        before.machine_moved(after) && before.machine.promoted(
                            after.machine,
                            outcome,
                        )
                    }
                },
                Err(error) => old(self)@.untracked(request_id@, final(self)@, error),
            },
    {
        match self.get_slot_mut(request_id) {
            Ok(slot) => Ok(slot.txn_start_onboarding()),
            Err(error) => Err(error),
        }
    }

    /// Installs or attaches the cleanup hook of a remote prefill.
    pub fn install_or_attach_cd_payload(
        &mut self,
        request_id: &str,
        cd_payload: Box<dyn CdOnboardingPayload>,
    ) -> (res: Result<Result<(), StateTransitionError>, ConnectorError>)
        requires
            old(self).wf(),
        ensures
            final(self).wf(),
            match res {
                Ok(outcome) => {
                    &&& old(self)@.slot_only(request_id@, final(self)@)
                    &&& {
                        let before = old(self)@.slots[request_id@];
                        let after = final(self)@.slots[request_id@];
                        before.machine_moved(after) && before.machine.attached(
                            Some(cd_payload),
                            after.machine,
                            outcome,
                        )
                    }
                },
                Err(error) => old(self)@.untracked(request_id@, final(self)@, error),
            },
    {
        match self.get_slot_mut(request_id) {
            Ok(slot) => Ok(slot.attach_cd_payload(Some(cd_payload))),
            Err(error) => Err(error),
        }
    }

    /// Ends the loading of a request and hands its data out.
    pub fn take_onboarding(
        &mut self,
        request_id: &str,
    ) -> (res: Result<Result<OnboardingState, StateTransitionError>, ConnectorError>)
        requires
            old(self).wf(),
        ensures
            final(self).wf(),
            match res {
                Ok(outcome) => {
                    &&& old(self)@.slot_only(request_id@, final(self)@)
                    &&& {
                        let before = old(self)@.slots[request_id@];
                        let after = final(self)@.slots[request_id@];
                        &&& before.machine_moved(after)
                        &&& before.machine.taken(
                            before.machine.loading(),
                            "Inactive (via take_onboarding)"@,
                            after.machine,
                            outcome,
                        )
                    }
                },
                Err(error) => old(self)@.untracked(request_id@, final(self)@, error),
            },
    {
        match self.get_slot_mut(request_id) {
            Ok(slot) => Ok(slot.txn_take_onboarding()),
            Err(error) => Err(error),
        }
    }

    /// Ends the preparation of a request and hands its data out.
    pub fn take_preparing_to_onboard(
        &mut self,
        request_id: &str,
    ) -> (res: Result<Result<OnboardingState, StateTransitionError>, ConnectorError>)
        requires
            old(self).wf(),
        ensures
            final(self).wf(),
            match res {
                Ok(outcome) => {
                    &&& old(self)@.slot_only(request_id@, final(self)@)
                    &&& {
                        let before = old(self)@.slots[request_id@];
                        let after = final(self)@.slots[request_id@];
                        &&& before.machine_moved(after)
                        &&& before.machine.taken(
                            before.machine.preparing(),
                            "Inactive (via take_preparing_to_onboard)"@,
                            after.machine,
                            outcome,
                        )
                    }
                },
                Err(error) => old(self)@.untracked(request_id@, final(self)@, error),
            },
    {
        match self.get_slot_mut(request_id) {
            Ok(slot) => Ok(slot.txn_take_preparing_to_onboard()),
            Err(error) => Err(error),
        }
    }

    /// Starts offloading the blocks of a request.
    pub fn start_offloading(
        &mut self,
        request_id: &str,
    ) -> (res: Result<Result<(), StateTransitionError>, ConnectorError>)
        requires
            old(self).wf(),
        ensures
            final(self).wf(),
            match res {
                Ok(outcome) => {
                    &&& old(self)@.slot_only(request_id@, final(self)@)
                    &&& {
                        let before = old(self)@.slots[request_id@];
                        let after = final(self)@.slots[request_id@];
                        before.offloading_started(after, outcome)
                    }
                },
                Err(error) => old(self)@.untracked(request_id@, final(self)@, error),
            },
    {
        match self.get_slot_mut(request_id) {
            Ok(slot) => Ok(slot.txn_start_offloading()),
            Err(error) => Err(error),
        }
    }

    /// Records blocks of a request that were handed to the offload engine.
    pub fn record_offload(
        &mut self,
        request_id: &str,
        block_mappings: Vec<(BlockId, SequenceHash)>,
        handle: TransferHandle,
    ) -> (res: Result<Result<(), RecordOffloadError>, ConnectorError>)
        requires
            old(self).wf(),
        ensures
            final(self).wf(),
            match res {
                Ok(outcome) => {
                    &&& old(self)@.slot_only(request_id@, final(self)@)
                    &&& {
                        let before = old(self)@.slots[request_id@];
                        let after = final(self)@.slots[request_id@];
                        before.offload_recorded(block_mappings@, handle, after, outcome)
                    }
                },
                Err(error) => old(self)@.untracked(request_id@, final(self)@, error),
            },
    {
        match self.get_slot_mut(request_id) {
            Ok(slot) => Ok(slot.record_offload(block_mappings, handle)),
            Err(error) => Err(error),
        }
    }

    /// Takes in how far an offload transfer of a request has come. Answers
    /// whether the slot holds a handle of it.
    pub fn update_transfer_status(
        &mut self,
        request_id: &str,
        transfer_id: u128,
        status: TransferStatus,
    ) -> (res: Result<bool, ConnectorError>)
        requires
            old(self).wf(),
        ensures
            final(self).wf(),
            match res {
                Ok(found) => {
                    &&& old(self)@.slot_only(request_id@, final(self)@)
                    &&& {
                        let before = old(self)@.slots[request_id@];
                        let after = final(self)@.slots[request_id@];
                        before.transfer_updated(transfer_id, status, after, found)
                    }
                },
                Err(error) => old(self)@.untracked(request_id@, final(self)@, error),
            },
    {
        match self.get_slot_mut(request_id) {
            Ok(slot) => Ok(slot.update_transfer_status(transfer_id, status)),
            Err(error) => Err(error),
        }
    }

    /// Ends the offloading of a request and hands its data out.
    pub fn take_offloading(
        &mut self,
        request_id: &str,
    ) -> (res: Result<Result<OffloadingState, StateTransitionError>, ConnectorError>)
        requires
            old(self).wf(),
        ensures
            final(self).wf(),
            match res {
                Ok(outcome) => {
                    &&& old(self)@.slot_only(request_id@, final(self)@)
                    &&& {
                        let before = old(self)@.slots[request_id@];
                        let after = final(self)@.slots[request_id@];
                        &&& before.machine_moved(after)
                        &&& before.machine.taken(
                            before.machine.txn_state.offloading(),
                            "Inactive (via take_offloading)"@,
                            after.machine,
                            outcome,
                        )
                    }
                },
                Err(error) => old(self)@.untracked(request_id@, final(self)@, error),
            },
    {
        match self.get_slot_mut(request_id) {
            Ok(slot) => Ok(slot.txn_take_offloading()),
            Err(error) => Err(error),
        }
    }

    /// Records a failure of the transaction of a request.
    pub fn fail_transaction(
        &mut self,
        request_id: &str,
    ) -> (res: Result<(), ConnectorError>)
        requires
            old(self).wf(),
        ensures
            final(self).wf(),
            match res {
                Ok(()) => {
                    &&& old(self)@.slot_only(request_id@, final(self)@)
                    &&& {
                        let before = old(self)@.slots[request_id@];
                        let after = final(self)@.slots[request_id@];
                        after == (SlotView {
                            machine: before.machine.with_txn(before.machine.txn_state.failed()),
                            ..before
                        })
                    }
                },
                Err(error) => old(self)@.untracked(request_id@, final(self)@, error),
            },
    {
        match self.get_slot_mut(request_id) {
            Ok(slot) => Ok(slot.txn_to_error()),
            Err(error) => Err(error),
        }
    }

    /// Ends the error state of a request and hands the kept data out.
    pub fn take_error(
        &mut self,
        request_id: &str,
    ) -> (res: Result<Result<ActiveStateData, StateTransitionError>, ConnectorError>)
        requires
            old(self).wf(),
        ensures
            final(self).wf(),
            match res {
                Ok(outcome) => {
                    &&& old(self)@.slot_only(request_id@, final(self)@)
                    &&& {
                        let before = old(self)@.slots[request_id@];
                        let after = final(self)@.slots[request_id@];
                        &&& before.machine_moved(after)
                        &&& before.machine.taken(
                            before.machine.error_data(),
                            "Inactive (via take_error)"@,
                            after.machine,
                            outcome,
                        )
                    }
                },
                Err(error) => old(self)@.untracked(request_id@, final(self)@, error),
            },
    {
        match self.get_slot_mut(request_id) {
            Ok(slot) => Ok(slot.txn_take_error()),
            Err(error) => Err(error),
        }
    }

    /// Appends blocks of a request to those to be loaded during the forward pass.
    pub fn extend_pending_intra_pass(
        &mut self,
        request_id: &str,
        g2_block_ids: Vec<BlockId>,
        g1_block_ids: Vec<BlockId>,
    ) -> (res: Result<(), ConnectorError>)
        requires
            old(self).wf(),
        ensures
            final(self).wf(),
            match res {
                Ok(()) => {
                    &&& old(self)@.slot_only(request_id@, final(self)@)
                    &&& {
                        let before = old(self)@.slots[request_id@];
                        let after = final(self)@.slots[request_id@];
                        after == before.with_pending(g2_block_ids@, g1_block_ids@)
                    }
                },
                Err(error) => old(self)@.untracked(request_id@, final(self)@, error),
            },
    {
        match self.get_slot_mut(request_id) {
            Ok(slot) => Ok(slot.extend_pending_intra_pass(g2_block_ids, g1_block_ids)),
            Err(error) => Err(error),
        }
    }

    /// Hands out the blocks of a request to be loaded during the forward pass.
    pub fn take_pending_intra_pass(
        &mut self,
        request_id: &str,
    ) -> (res: Result<Option<IntraPassPending>, ConnectorError>)
        requires
            old(self).wf(),
        ensures
            final(self).wf(),
            match res {
                Ok(pending) => {
                    &&& old(self)@.slot_only(request_id@, final(self)@)
                    &&& {
                        let before = old(self)@.slots[request_id@];
                        let after = final(self)@.slots[request_id@];
                        &&& after == (SlotView { pending: None, ..before })
                        &&& match pending {
                            Some(p) => before.pending == Some(p@),
                            None => before.pending is None,
                        }
                    }
                },
                Err(error) => old(self)@.untracked(request_id@, final(self)@, error),
            },
    {
        match self.get_slot_mut(request_id) {
            Ok(slot) => Ok(slot.take_pending_intra_pass()),
            Err(error) => Err(error),
        }
    }

    /// Marks a request as finished. It is done at once if no transaction runs.
    pub fn mark_finished(&mut self, request_id: &str) -> (status: FinishedStatus)
        requires
            old(self).wf(),
        ensures
            final(self).wf(),
            if old(self)@.slots.contains_key(request_id@) {
                let before = old(self)@.slots[request_id@];
                &&& final(self)@ == old(self)@.with_slot(
                    request_id@,
                    (SlotView { machine: before.machine.finished(), ..before }),
                )
                &&& status == (if before.machine.txn_state is Inactive {
                    FinishedStatus::Finished
                } else {
                    FinishedStatus::Pending
                })
            } else {
                final(self)@ == old(self)@ && status == FinishedStatus::UntrackedRequest
            },
    {
        match self.get_slot_mut(request_id) {
            Ok(slot) => slot.slot_mark_finished(),
            Err(_) => FinishedStatus::UntrackedRequest,
        }
    }

    /// Creates a slot for a request that has none.
    pub fn create_slot(&mut self, request: Request) -> (res: Result<(), ConnectorError>)
        requires
            old(self).wf(),
            request.tokens@.len() / (old(self)@.block_size as u32) as nat
                <= crate::tokens::MAX_BLOCK_POSITIONS,
        ensures
            final(self).wf(),
            if old(self)@.slots.contains_key(request.request_id@) {
                &&& final(self)@ == old(self)@
                &&& res matches Err(ConnectorError::SlotExists { request_id }) && request_id@
                    == request.request_id@
            } else {
                &&& res is Ok
                &&& final(self)@.slots.contains_key(request.request_id@)
                &&& final(self)@ == old(self)@.with_slot(
                    request.request_id@,
                    final(self)@.slots[request.request_id@],
                )
                &&& fresh_slot(
                    final(self)@.slots[request.request_id@],
                    request,
                    old(self)@.block_size,
                )
            },
    {
        let request_id: String = request.request_id.clone();
        if self.has_slot(request_id.as_str()) {
            return Err(ConnectorError::SlotExists { request_id });
        }
        let slot = RequestSlot::new(request, self.block_size);
        let place: usize = self.slots.len();
        self.slots.push(slot);
        self.places.insert(request_id, place);
        proof {
            assert forall|id: Seq<char>| #[trigger] self.places@.contains_key(id) implies {
                let slot = self.slots@[self.places@[id] as int];
                &&& self.places@[id] < self.slots@.len()
                &&& slot.wf()
                &&& slot@.request.request_id@ == id
                &&& slot@.sequence.block_size == (self.block_size as u32) as nat
            } by {
                if id != request.request_id@ {
                    assert(old(self).places@.contains_key(id));
                }
            }
            let expected = old(self)@.with_slot(
                request.request_id@,
                self@.slots[request.request_id@],
            );
            assert forall|id: Seq<char>| #[trigger] self@.slots.contains_key(id) implies self@.slots[id]
                == expected.slots[id] by {
                if id != request.request_id@ {
                    assert(old(self).places@.contains_key(id));
                }
            }
            assert(self@.slots =~= expected.slots);
        }
        Ok(())
    }

    /// Number of tokens of a request.
    pub fn get_slot_total_tokens(&self, request_id: &str) -> (res: Result<usize, ConnectorError>)
        requires
            self.wf(),
        ensures
            match res {
                Ok(count) => self@.slots.contains_key(request_id@) && count
                    == self@.slots[request_id@].sequence.tokens.len(),
                Err(error) => !self@.slots.contains_key(request_id@) && error.is_slot_not_found(
                    request_id@,
                ),
            },
    {
        match self.get_slot(request_id) {
            Ok(slot) => Ok(slot.total_tokens()),
            Err(error) => Err(error),
        }
    }

    /// Aligns block ids with a request's token blocks without loading anything.
    pub fn apply_block_assignments(&mut self, request_id: &str, block_ids: Vec<BlockId>) -> (res:
        Result<(), ConnectorError>)
        requires
            old(self).wf(),
        ensures
            final(self).wf(),
            final(self)@ == old(self)@.assigned(request_id@, block_ids@),
            if old(self)@.slots.contains_key(request_id@) {
                let slot = old(self)@.slots[request_id@];
                &&& res is Ok
                &&& final(self)@ == old(self)@.with_slot(
                    request_id@,
                    SlotView {
                        match_requires_reset: true,
                        blocks: slot.blocks.applied(block_ids@, slot.sequence.hashes()),
                        ..slot
                    },
                )
            } else {
                &&& res matches Err(error) && error.is_slot_not_found(request_id@)
                &&& final(self)@ == old(self)@
            },
    {
        let place: usize = match self.place_of(request_id) {
            Ok(place) => place,
            Err(error) => {
                return Err(error);
            },
        };
        self.slots[place].set_match_requires_reset(true);
        let _range: Range<usize> = self.slots[place].apply_new_blocks(block_ids);
        proof {
            Self::lemma_slot_changed(*old(self), *self, request_id@);
        }
        Ok(())
    }

    /// How a request's blocks divide in the middle of an onboarding.
    pub fn slot_match_split(&self, request_id: &str) -> (res: Result<SlotMatchSplit, ConnectorError>)
        requires
            self.wf(),
            self@.slots.contains_key(request_id@) ==> span_readable(
                self@.slots[request_id@].machine.txn_state.onboarding(),
                self@.slots[request_id@].sequence.block_size as int,
            ),
        ensures
            res matches Ok(split) ==> self@.splits(request_id@, split),
            match res {
                Ok(split) => {
                    let slot = self@.slots[request_id@];
                    let size = slot.sequence.block_size as int;
                    &&& self@.slots.contains_key(request_id@)
                    &&& split.block_size == size
                    &&& split.total_blocks == slot.sequence.block_count()
                    &&& split.all_sequence_hashes@ == slot.sequence.hashes()
                    &&& match onboarding_split(slot.machine.txn_state.onboarding(), size) {
                        Some((local, computed)) => {
                            &&& split.local_match_blocks == local
                            &&& split.computed_blocks == computed / size
                        },
                        None => split.local_match_blocks == 0 && split.computed_blocks == 0,
                    }
                },
                Err(error) => !self@.slots.contains_key(request_id@) && error.is_slot_not_found(
                    request_id@,
                ),
            },
    {
        let slot = match self.get_slot(request_id) {
            Ok(slot) => slot,
            Err(error) => {
                return Err(error);
            },
        };
        let block_size: usize = slot.block_size();
        let total_blocks: usize = slot.sequence().block_count();
        let all_sequence_hashes = slot.all_sequence_hashes();
        let onboarding: Option<(usize, usize)> = match slot.onboarding_state() {
            Some(state) => {
                let local: usize = if state.shards.len() == 0 {
                    0
                } else {
                    let (effective_start, final_end): (usize, usize) = state.matched_span(
                        block_size,
                    );
                    final_end - effective_start
                };
                Some((local, state.num_computed_tokens))
            },
            None => None,
        };
        Ok(compute_slot_match_split(block_size, total_blocks, all_sequence_hashes, onboarding))
    }

    /// Takes the host blocks of a request's local match. Without a running
    /// search there are none.
    pub fn take_local_match_g2_blocks(&mut self, request_id: &str) -> (res: Result<
        Vec<MatchedBlock>,
        ConnectorError,
    >)
        requires
            old(self).wf(),
            old(self)@.slots.contains_key(request_id@) ==> span_readable(
                old(self)@.slots[request_id@].machine.txn_state.onboarding(),
                old(self)@.slots[request_id@].sequence.block_size as int,
            ),
        ensures
            final(self).wf(),
            old(self)@.local_match_taken(request_id@, res, final(self)@),
    {
        let place: usize = match self.place_of(request_id) {
            Ok(place) => place,
            Err(error) => {
                return Err(error);
            },
        };
        let block_size: usize = self.slots[place].block_size();
        let ghost before_slot = self.slots@[place as int]@;
        match self.slots[place].onboarding_state() {
            None => {
                return Ok(Vec::new());
            },
            Some(state) => {
                if state.shards.len() == 0 {
                    return Ok(Vec::new());
                }
            },
        }
        let slot = &mut self.slots[place];
        let taken: Option<Vec<MatchedBlock>> = match slot.onboarding_state_mut() {
            Some(state) => collect_g2_blocks_from_shards(state, block_size),
            None => None,
        };
        proof {
            Self::lemma_slot_changed(*old(self), *self, request_id@);
            let after_slot = self.slots@[place as int]@;
            assert(self@.slots[request_id@] == after_slot);
            if taken is None {
                assert(after_slot.machine.txn_state == before_slot.machine.txn_state);
                assert(after_slot == before_slot);
                assert(self@.slots =~= old(self)@.slots);
            }
        }
        match taken {
            Some(blocks) => Ok(blocks),
            None => {
                Err(ConnectorError::BlocksMissing { request_id: String::from_str(request_id) })
            },
        }
    }

    /// Copies a range of a request's complete token blocks.
    pub fn token_blocks_for_range(&self, request_id: &str, range: Range<usize>) -> (res: Result<
        Vec<TokenBlock>,
        ConnectorError,
    >)
        requires
            self.wf(),
            self@.slots.contains_key(request_id@) && range.end
                <= self@.slots[request_id@].sequence.block_count() ==> range.start <= range.end,
        ensures
            if !self@.slots.contains_key(request_id@) {
                res matches Err(error) && error.is_slot_not_found(request_id@)
            } else {
                let sequence = self@.slots[request_id@].sequence;
                if range.end > sequence.block_count() {
                    res matches Err(ConnectorError::RangeOutOfBounds { start, end, len }) && start
                        == range.start && end == range.end && len == sequence.block_count()
                } else {
                    res matches Ok(blocks) && is_block_range(
                        blocks@,
                        sequence,
                        range.start as int,
                        range.end as int,
                    )
                }
            },
    {
        let slot = match self.get_slot(request_id) {
            Ok(slot) => slot,
            Err(error) => {
                return Err(error);
            },
        };
        let sequence = slot.sequence();
        let count: usize = sequence.block_count();
        if range.end > count {
            return Err(
                ConnectorError::RangeOutOfBounds {
                    start: range.start,
                    end: range.end,
                    len: count,
                },
            );
        }
        let size: usize = sequence.block_size();
        let total: usize = sequence.total_tokens();
        let mut blocks: Vec<TokenBlock> = Vec::new();
        let mut index: usize = range.start;
        while index < range.end
            invariant
                sequence.wf(),
                size == sequence@.block_size,
                total == sequence@.tokens.len(),
                range.start <= index <= range.end,
                range.end <= sequence@.block_count(),
                is_block_range(blocks@, sequence@, range.start as int, index as int),
            decreases range.end - index,
        {
            proof {
                let len = sequence@.tokens.len() as int;
                assert((index + 1) * size <= len) by (nonlinear_arith)
                    requires
                        0 <= index < len / (size as int),
                        size > 0,
                        len >= 0,
                ;
                assert((index + 1) * size == index * size + size) by (nonlinear_arith);
                assert(0 <= index * size) by (nonlinear_arith);
            }
            let start: usize = index * size;
            let tokens = sequence.tokens_at(start, start + size);
            let hash = sequence.hash_at(index);
            blocks.push(TokenBlock { tokens, hash });
            index = index + 1;
        }
        Ok(blocks)
    }

    /// All tokens of a request.
    pub fn slot_token_ids(&self, request_id: &str) -> (res: Result<Vec<u32>, ConnectorError>)
        requires
            self.wf(),
        ensures
            match res {
                Ok(tokens) => self@.slots.contains_key(request_id@) && tokens@
                    == self@.slots[request_id@].sequence.tokens,
                Err(error) => !self@.slots.contains_key(request_id@) && error.is_slot_not_found(
                    request_id@,
                ),
            },
    {
        match self.get_slot(request_id) {
            Ok(slot) => {
                let total: usize = slot.total_tokens();
                let tokens = slot.sequence().tokens_at(0, total);
                assert(tokens@ =~= slot@.sequence.tokens);
                Ok(tokens)
            },
            Err(error) => Err(error),
        }
    }

    /// The decoded transfer parameters of a request.
    pub fn slot_transfer_params(&self, request_id: &str) -> (res: Result<
        Option<TransferParams>,
        ConnectorError,
    >)
        requires
            self.wf(),
        ensures
            if !self@.slots.contains_key(request_id@) {
                res matches Err(error) && error.is_slot_not_found(request_id@)
            } else {
                match self@.slots[request_id@].request.transfer_params {
                    Ok(decoded) => res == Ok::<Option<TransferParams>, ConnectorError>(decoded),
                    Err(reason) => res matches Err(
                        ConnectorError::DecodeParams { request_id: id, cause },
                    ) && id@ == request_id@ && cause@ == reason@,
                }
            },
    {
        let slot = match self.get_slot(request_id) {
            Ok(slot) => slot,
            Err(error) => {
                return Err(error);
            },
        };
        match slot.transfer_params() {
            Ok(decoded) => Ok(decoded),
            Err(cause) => Err(
                ConnectorError::DecodeParams { request_id: String::from_str(request_id), cause },
            ),
        }
    }

    /// Appends decoded tokens to a request.
    pub fn extend_slot_tokens(&mut self, request_id: &str, tokens: Vec<u32>) -> (res: Result<
        (),
        ConnectorError,
    >)
        requires
            old(self).wf(),
            old(self)@.slots.contains_key(request_id@) ==> old(
                self,
            )@.slots[request_id@].sequence.extended(tokens@).wf(),
        ensures
            final(self).wf(),
            final(self)@ == old(self)@.grown(request_id@, tokens@),
            if old(self)@.slots.contains_key(request_id@) {
                let slot = old(self)@.slots[request_id@];
                &&& res is Ok
                &&& final(self)@ == old(self)@.with_slot(
                    request_id@,
                    SlotView { sequence: slot.sequence.extended(tokens@), ..slot },
                )
            } else {
                &&& res matches Err(error) && error.is_slot_not_found(request_id@)
                &&& final(self)@ == old(self)@
            },
    {
        let place: usize = match self.place_of(request_id) {
            Ok(place) => place,
            Err(error) => {
                return Err(error);
            },
        };
        let _extended = self.slots[place].extend_tokens(tokens);
        proof {
            Self::lemma_slot_changed(*old(self), *self, request_id@);
        }
        Ok(())
    }

    /// First half of a match check: a slot whose blocks were freed meanwhile
    /// starts over. The search itself comes next.
    pub fn begin_match_check(&mut self, request_id: &str)
        requires
            old(self).wf(),
            old(self)@.slots.contains_key(request_id@),
        ensures
            final(self).wf(),
            final(self)@ == old(self)@.check_begun(request_id@),
            final(self)@ == old(self)@.with_slot(
                request_id@,
                if old(self)@.slots[request_id@].match_requires_reset {
                    old(self)@.slots[request_id@].preempted()
                } else {
                    old(self)@.slots[request_id@]
                },
            ),
    {
        if let Ok(place) = self.place_of(request_id) {
            if self.slots[place].match_requires_reset() {
                self.slots[place].reset_for_preemption();
            }
            proof {
                Self::lemma_slot_changed(*old(self), *self, request_id@);
                assert(self@.slots =~= old(self)@.check_begun(request_id@).slots);
            }
        }
    }

    /// Second half of a match check: closes it with the outcome of the search
    /// and answers the scheduler. A failed search is reported only if
    /// `fail_on_error` is set; otherwise the request goes on without a match.
    pub fn get_num_new_matched_tokens<E>(
        &mut self,
        request_id: &str,
        outcome: Result<MatchCheckOutcome, E>,
        fail_on_error: bool,
    ) -> (answer: MatchAnswer<E>)
        requires
            old(self).wf(),
            old(self)@.slots.contains_key(request_id@),
            old(self)@.slots[request_id@].machine.txn_state.onboarding() matches Some(state)
                ==> state.sums_fit(),
        ensures
            final(self).wf(),
            old(self)@.match_answered(request_id@, outcome, fail_on_error, answer, final(self)@),
    {
        let place: usize = match self.place_of(request_id) {
            Ok(place) => place,
            Err(_) => {
                assert(false);
                0
            },
        };
        let breakdown: MatchBreakdown = match self.slots[place].onboarding_state() {
            Some(state) => state.aggregate_breakdown(),
            None => MatchBreakdown { host_blocks: 0, disk_blocks: 0, object_blocks: 0 },
        };
        let blocks_queried: usize = self.slots[place].total_query_blocks();
        let inter: bool = self.onboard_mode == OnboardMode::Inter;
        let ghost slot_before = self.slots@[place as int]@;
        let closed = self.slots[place].finalize_match_check(outcome);
        let ghost slot_closed = self.slots@[place as int]@;
        match closed {
            Ok((count, uses_async)) => {
                let mut cache_metrics: Option<(MatchBreakdown, usize)> = None;
                let mut report_matched_tokens: Option<usize> = None;
                if let Some(matched) = count {
                    cache_metrics = Some((breakdown, blocks_queried));
                    if matched > 0 && self.slots[place].mark_matched_tokens_reported() {
                        report_matched_tokens = Some(matched);
                    }
                }
                proof {
                    Self::lemma_slot_changed(*old(self), *self, request_id@);
                }
                MatchAnswer {
                    answer: Ok((count, inter && uses_async)),
                    cache_metrics,
                    report_matched_tokens,
                    recover: false,
                }
            },
            Err(error) => {
                proof {
                    Self::lemma_slot_changed(*old(self), *self, request_id@);
                }
                MatchAnswer {
                    answer: if fail_on_error {
                        Err(error)
                    } else {
                        Ok((None, false))
                    },
                    cache_metrics: None,
                    report_matched_tokens: None,
                    recover: true,
                }
            },
        }
    }

    /// Decides what an allocation takes: nothing without external tokens, else
    /// loading in the configured mode. External tokens come in whole blocks.
    pub fn update_state_after_alloc(
        &mut self,
        request_id: &str,
        block_ids: Vec<BlockId>,
        num_external_tokens: usize,
    ) -> (res: Result<AllocAction, ConnectorError>)
        requires
            old(self).wf(),
        ensures
            final(self).wf(),
            old(self)@.alloc_decided(
                request_id@,
                block_ids,
                num_external_tokens,
                res,
                final(self)@,
            ),
            if !old(self)@.slots.contains_key(request_id@) {
                &&& res matches Err(error) && error.is_slot_not_found(request_id@)
                &&& final(self)@ == old(self)@
            } else {
                &&& final(self)@ == old(self)@.with_slot(
                    request_id@,
                    SlotView {
                        match_requires_reset: true,
                        ..old(self)@.slots[request_id@]
                    },
                )
                &&& if num_external_tokens == 0 {
                    res == Ok::<AllocAction, ConnectorError>(AllocAction::Nothing)
                } else if num_external_tokens as int % old(self)@.block_size as int != 0 {
                    res == Err::<AllocAction, ConnectorError>(
                        ConnectorError::NotAMultiple {
                            num_external_tokens,
                            block_size: old(self)@.block_size,
                        },
                    )
                } else {
                    res == Ok::<AllocAction, ConnectorError>(
                        match old(self)@.onboard_mode {
                            OnboardMode::Inter => AllocAction::StartOnboarding {
                                block_ids,
                                num_external_tokens,
                            },
                            OnboardMode::Intra => AllocAction::PrepareIntraPass {
                                block_ids,
                                num_external_tokens,
                            },
                        },
                    )
                }
            },
    {
        let place: usize = match self.place_of(request_id) {
            Ok(place) => place,
            Err(error) => {
                return Err(error);
            },
        };
        self.slots[place].set_match_requires_reset(true);
        proof {
            Self::lemma_slot_changed(*old(self), *self, request_id@);
        }
        if num_external_tokens == 0 {
            return Ok(AllocAction::Nothing);
        }
        if num_external_tokens % self.block_size != 0 {
            return Err(
                ConnectorError::NotAMultiple { num_external_tokens, block_size: self.block_size },
            );
        }
        match self.onboard_mode {
            OnboardMode::Inter => Ok(
                AllocAction::StartOnboarding { block_ids, num_external_tokens },
            ),
            OnboardMode::Intra => Ok(
                AllocAction::PrepareIntraPass { block_ids, num_external_tokens },
            ),
        }
    }

    /// Whether a request can be evicted: none of its offloads is in flight.
    pub fn can_evict(&self, request_id: &str) -> (safe: bool)
        requires
            self.wf(),
        ensures
            safe == self@.evictable(request_id@),
            safe == (self@.slots.contains_key(request_id@)
                ==> !self@.slots[request_id@].inflight()),
    {
        match self.get_slot(request_id) {
            Ok(slot) => !slot.has_inflight_offloads(),
            Err(_) => true,
        }
    }

    /// Block counts for ranking eviction candidates. Host residence is not
    /// tracked, so its count is zero.
    pub fn eviction_counts(&self, request_id: &str) -> (res: Result<EvictionCounts, ConnectorError>)
        requires
            self.wf(),
        ensures
            match res {
                Ok(counts) => {
                    &&& self@.slots.contains_key(request_id@)
                    &&& counts.g2_block_count == 0
                    &&& counts.total_block_count
                        == self@.slots[request_id@].blocks.assigned.len()
                },
                Err(error) => !self@.slots.contains_key(request_id@) && error.is_slot_not_found(
                    request_id@,
                ),
            },
    {
        match self.get_slot(request_id) {
            Ok(slot) => Ok(
                EvictionCounts { g2_block_count: 0, total_block_count: slot.assigned_block_count() },
            ),
            Err(error) => Err(error),
        }
    }

    /// Where a request stands relative to block boundaries.
    pub fn get_block_boundary_info(&self, request_id: &str) -> (res: Result<
        BlockBoundaryInfo,
        ConnectorError,
    >)
        requires
            self.wf(),
        ensures
            match res {
                Ok(info) => self@.slots.contains_key(request_id@) && info == boundary_of(
                    self@.slots[request_id@].sequence.tokens.len() as int,
                    self@.block_size as int,
                ),
                Err(error) => !self@.slots.contains_key(request_id@) && error.is_slot_not_found(
                    request_id@,
                ),
            },
    {
        let slot = match self.get_slot(request_id) {
            Ok(slot) => slot,
            Err(error) => {
                return Err(error);
            },
        };
        let total_tokens: usize = slot.total_tokens();
        let block_size: usize = self.block_size;
        let current_block_fill: usize = total_tokens % block_size;
        let is_at_boundary: bool = current_block_fill == 0 && total_tokens > 0;
        let tokens_until_boundary: usize = if is_at_boundary {
            0
        } else {
            block_size - current_block_fill
        };
        Ok(BlockBoundaryInfo { is_at_boundary, tokens_until_boundary, current_block_fill })
    }

    /// Blocks of a request queued for priority offload. No queue exists, so
    /// none are.
    pub fn request_priority_offload(&self, request_id: &str, block_ids: &Vec<BlockId>) -> (res:
        Result<usize, ConnectorError>)
        requires
            self.wf(),
        ensures
            match res {
                Ok(queued) => self@.slots.contains_key(request_id@) && queued == 0,
                Err(error) => !self@.slots.contains_key(request_id@) && error.is_slot_not_found(
                    request_id@,
                ),
            },
    {
        match self.get_slot(request_id) {
            Ok(_) => Ok(0),
            Err(error) => Err(error),
        }
    }

    /// Host residence by block of a request. It is not tracked, so the map is
    /// empty.
    pub fn get_block_g2_status(&self, request_id: &str) -> (res: Result<
        HashMap<BlockId, bool>,
        ConnectorError,
    >)
        requires
            self.wf(),
        ensures
            match res {
                Ok(status) => self@.slots.contains_key(request_id@) && status@ == Map::<
                    BlockId,
                    bool,
                >::empty(),
                Err(error) => !self@.slots.contains_key(request_id@) && error.is_slot_not_found(
                    request_id@,
                ),
            },
    {
        match self.get_slot(request_id) {
            Ok(_) => Ok(HashMap::new()),
            Err(error) => Err(error),
        }
    }
}

/// The blocks are the sequence's complete blocks from `start` to `end`.
pub open spec fn is_block_range(
    blocks: Seq<TokenBlock>,
    sequence: TokenSequenceView,
    start: int,
    end: int,
) -> bool {
    &&& blocks.len() == end - start
    &&& forall|i: int|
        #![trigger blocks[i]]
        0 <= i < blocks.len() ==> {
            &&& blocks[i].tokens@ == sequence.tokens.subrange(
                (start + i) * sequence.block_size,
                (start + i) * sequence.block_size + sequence.block_size,
            )
            &&& blocks[i].hash == sequence.hash_at(start + i)
        }
}

/// A slot as it is created for a request.
pub open spec fn fresh_slot(slot: SlotView, request: Request, block_size: usize) -> bool {
    &&& slot.request == request
    &&& slot.sequence == (TokenSequenceView {
        tokens: request.tokens@,
        block_size: (block_size as u32) as nat,
        salt: request.salt_hash,
    })
    &&& slot.blocks == crate::assignment::AssignmentsView::empty()
    &&& slot.machine.txn_state is Inactive
    &&& !slot.machine.marked()
    &&& slot.initial_isl_tokens == request.tokens@.len()
    &&& slot.evaluated_tokens == 0
    &&& !slot.finished_evaluating
    &&& !slot.match_requires_reset
    &&& slot.pending is None
    &&& !slot.matched_tokens_reported
}

impl ConnectorView {
    /// What taking the host blocks of a local match comes to.
    pub open spec fn local_match_taken(
        self,
        id: Seq<char>,
        res: Result<Vec<MatchedBlock>, ConnectorError>,
        after: ConnectorView,
    ) -> bool {
        if !self.slots.contains_key(id) {
            &&& res matches Err(error) && error.is_slot_not_found(id)
            &&& after == self
        } else {
            let slot = self.slots[id];
            let size = slot.sequence.block_size as int;
            match slot.machine.txn_state.onboarding() {
                None => {
                    &&& res matches Ok(blocks) && blocks@ == Seq::<MatchedBlock>::empty()
                    &&& after == self
                },
                Some(state) => if state.shards@.len() == 0 {
                    &&& res matches Ok(blocks) && blocks@ == Seq::<MatchedBlock>::empty()
                    &&& after == self
                } else if !blocks_published(state.shards@) {
                    &&& res matches Err(ConnectorError::BlocksMissing { request_id })
                        && request_id@ == id
                    &&& after == self
                } else {
                    &&& res matches Ok(blocks) && blocks@ == window(
                        held_blocks(state.shards@),
                        state.span(size).0 - state.shards@[0].start_block,
                        state.span(size).1 - state.span(size).0,
                    )
                    &&& after.slots.contains_key(id)
                    &&& after == self.with_slot(id, after.slots[id])
                    &&& after.slots[id].machine.txn_state.onboarding() matches Some(drained) && {
                        &&& drained.num_computed_tokens == state.num_computed_tokens
                        &&& drained.total_tokens_at_start == state.total_tokens_at_start
                        &&& drained.cd_payload == state.cd_payload
                        &&& shards_drained(state.shards@, drained.shards@)
                        &&& after.slots[id] == (SlotView {
                            machine: slot.machine.with_txn(
                                crate::connector::machine::replace_onboarding(
                                    slot.machine.txn_state,
                                    drained,
                                ),
                            ),
                            ..slot
                        })
                    }
                },
            }
        }
    }

    /// What hearing of an allocation comes to.
    pub open spec fn alloc_decided(
        self,
        id: Seq<char>,
        block_ids: Vec<BlockId>,
        num_external_tokens: usize,
        res: Result<AllocAction, ConnectorError>,
        after: ConnectorView,
    ) -> bool {
        if !self.slots.contains_key(id) {
            &&& res matches Err(error) && error.is_slot_not_found(id)
            &&& after == self
        } else {
            &&& after == self.with_slot(
                id,
                SlotView { match_requires_reset: true, ..self.slots[id] },
            )
            &&& if num_external_tokens == 0 {
                res == Ok::<AllocAction, ConnectorError>(AllocAction::Nothing)
            } else if num_external_tokens as int % self.block_size as int != 0 {
                res is Err
            } else if self.onboard_mode == OnboardMode::Inter {
                res == Ok::<AllocAction, ConnectorError>(
                    AllocAction::StartOnboarding { block_ids, num_external_tokens },
                )
            } else {
                res == Ok::<AllocAction, ConnectorError>(
                    AllocAction::PrepareIntraPass { block_ids, num_external_tokens },
                )
            }
        }
    }

    /// A request can be evicted: no transfer reads its device blocks.
    pub open spec fn evictable(self, id: Seq<char>) -> bool {
        self.slots.contains_key(id) ==> !self.slots[id].inflight()
    }

    /// The leader after block ids were aligned with a request.
    pub open spec fn assigned(self, id: Seq<char>, block_ids: Seq<BlockId>) -> ConnectorView {
        if self.slots.contains_key(id) {
            let slot = self.slots[id];
            self.with_slot(
                id,
                SlotView {
                    match_requires_reset: true,
                    blocks: slot.blocks.applied(block_ids, slot.sequence.hashes()),
                    ..slot
                },
            )
        } else {
            self
        }
    }

    /// The leader after tokens were appended to a request.
    pub open spec fn grown(self, id: Seq<char>, tokens: Seq<u32>) -> ConnectorView {
        if self.slots.contains_key(id) {
            let slot = self.slots[id];
            self.with_slot(id, SlotView { sequence: slot.sequence.extended(tokens), ..slot })
        } else {
            self
        }
    }

    /// How the blocks of a request divide.
    pub open spec fn splits(self, id: Seq<char>, split: SlotMatchSplit) -> bool {
        let slot = self.slots[id];
        let size = slot.sequence.block_size as int;
        &&& split.block_size == size
        &&& split.total_blocks == slot.sequence.block_count()
        &&& split.all_sequence_hashes@ == slot.sequence.hashes()
        &&& match onboarding_split(slot.machine.txn_state.onboarding(), size) {
            Some((local, computed)) => {
                &&& split.local_match_blocks == local
                &&& split.computed_blocks == computed / size
            },
            None => split.local_match_blocks == 0 && split.computed_blocks == 0,
        }
    }

    /// The leader once a match check has begun.
    pub open spec fn check_begun(self, id: Seq<char>) -> ConnectorView {
        if self.slots[id].match_requires_reset {
            self.with_slot(id, self.slots[id].preempted())
        } else {
            self
        }
    }

    /// What closing a match check comes to.
    pub open spec fn match_answered<E>(
        self,
        id: Seq<char>,
        outcome: Result<MatchCheckOutcome, E>,
        fail_on_error: bool,
        answer: MatchAnswer<E>,
        after: ConnectorView,
    ) -> bool {
        let slot = self.slots[id];
        let (closed, told) = slot.match_checked(outcome);
        match told {
            Ok((count, asynchronous)) => {
                let reports = count matches Some(n) && n > 0 && !closed.matched_tokens_reported;
                &&& answer.answer == Ok::<(Option<usize>, bool), E>(
                    (count, self.reported_async(asynchronous)),
                )
                &&& !answer.recover
                &&& match answer.cache_metrics {
                    Some((breakdown, queried)) => {
                        &&& count is Some
                        &&& queried == slot.query_blocks()
                        &&& (
                            breakdown.host_blocks as int,
                            breakdown.disk_blocks as int,
                            breakdown.object_blocks as int,
                        ) == (match slot.machine.txn_state.onboarding() {
                            Some(state) => breakdown_sums(state.shards@),
                            None => (0int, 0int, 0int),
                        })
                    },
                    None => count is None,
                }
                &&& answer.report_matched_tokens == (if reports {
                    count
                } else {
                    None
                })
                &&& after == self.with_slot(
                    id,
                    if count matches Some(n) && n > 0 {
                        SlotView { matched_tokens_reported: true, ..closed }
                    } else {
                        closed
                    },
                )
            },
            Err(error) => {
                &&& answer.answer == (if fail_on_error {
                    Err::<(Option<usize>, bool), E>(error)
                } else {
                    Ok::<(Option<usize>, bool), E>((None, false))
                })
                &&& answer.recover
                &&& answer.cache_metrics is None
                &&& answer.report_matched_tokens is None
                &&& after == self.with_slot(id, closed)
            },
        }
    }
}

/// Blocks held by the first shard come first.
proof fn lemma_held_from_front(shards: Seq<OnboardingShard>)
    requires
        shards.len() > 0,
    ensures
        held_blocks(shards).len() == shard_blocks(shards[0]).len() + held_blocks(
            shards.skip(1),
        ).len(),
    decreases shards.len(),
{
    if shards.len() == 1 {
        assert(shards.drop_last() =~= Seq::<OnboardingShard>::empty());
        assert(shards.skip(1) =~= Seq::<OnboardingShard>::empty());
        assert(held_blocks(shards.drop_last()).len() == 0);
        assert(held_blocks(shards.skip(1)).len() == 0);
    } else {
        lemma_held_from_front(shards.drop_last());
        assert(shards.drop_last().skip(1) =~= shards.skip(1).drop_last());
        assert(shards.skip(1).last() == shards.last());
    }
}

/// Shards that hold what they matched hold every block up to the first hole.
proof fn lemma_held_reach_hole(shards: Seq<OnboardingShard>)
    requires
        shards.len() > 0,
        shards_wf(shards),
        forall|i: int|
            0 <= i < shards.len() ==> shard_blocks(#[trigger] shards[i]).len()
                == shards[i].matched(),
    ensures
        first_hole(shards) - shards[0].start_block <= held_blocks(shards).len(),
    decreases shards.len(),
{
    lemma_held_from_front(shards);
    if shards[0].full() && shards.len() > 1 {
        let rest = shards.skip(1);
        assert forall|i: int| #![trigger rest[i]] 0 < i < rest.len() implies rest[i].start_block
            == rest[i - 1].end() by {
            assert(shards[i + 1].start_block == shards[i].end());
        }
        assert(shards[1].start_block == shards[0].end());
        lemma_held_reach_hole(rest);
    }
}

/// The blocks taken for a local match are as many as the split counts: shards
/// that hold what they matched give a block for every position of the span.
pub proof fn law_local_match_is_complete(state: OnboardingState, block_size: int)
    requires
        state.wf(),
        state.shards@.len() > 0,
        block_size > 0,
        state.span(block_size).0 <= state.span(block_size).1,
        forall|i: int|
            0 <= i < state.shards@.len() ==> shard_blocks(#[trigger] state.shards@[i]).len()
                == state.shards@[i].matched(),
    ensures
        onboarding_split(Some(state), block_size) matches Some((local, _)) && local == window(
            held_blocks(state.shards@),
            state.span(block_size).0 - state.shards@[0].start_block,
            state.span(block_size).1 - state.span(block_size).0,
        ).len(),
{
    lemma_held_reach_hole(state.shards@);
}

/// What the scheduler hears of a search that did not fail: nothing yet while it
/// runs, no tokens without a match, and otherwise the matched tokens, to be
/// loaded asynchronously between passes and synchronously during one.
pub proof fn law_answer_follows_outcome<E>(
    before: ConnectorView,
    id: Seq<char>,
    outcome: MatchCheckOutcome,
    fail_on_error: bool,
    answer: MatchAnswer<E>,
    after: ConnectorView,
)
    requires
        before.match_answered(
            id,
            Ok::<MatchCheckOutcome, E>(outcome),
            fail_on_error,
            answer,
            after,
        ),
    ensures
        answer.answer == Ok::<(Option<usize>, bool), E>(
            match outcome {
                MatchCheckOutcome::InProgress => (None, false),
                MatchCheckOutcome::NoMatch => (Some(0usize), false),
                MatchCheckOutcome::Found { matched_tokens } => (
                    Some(matched_tokens),
                    matched_tokens > 0 && before.onboard_mode == OnboardMode::Inter,
                ),
            },
        ),
        answer.cache_metrics is Some <==> !(outcome is InProgress),
        !answer.recover,
{
}

/// A preempted slot has no offload in flight.
pub proof fn law_preempted_slot_has_no_inflight(slot: SlotView)
    ensures
        !slot.preempted().inflight(),
{
}

/// The distance to the next boundary completes the partial block.
pub proof fn law_boundary_completes_block(total_tokens: int, block_size: int)
    requires
        total_tokens >= 0,
        0 < block_size <= usize::MAX,
    ensures
        ({
            let info = boundary_of(total_tokens, block_size);
            &&& info.is_at_boundary ==> info.tokens_until_boundary == 0 && info.current_block_fill
                == 0
            &&& !info.is_at_boundary ==> info.current_block_fill + info.tokens_until_boundary
                == block_size
            &&& (total_tokens + info.tokens_until_boundary) % block_size == 0
        }),
{
    let fill = total_tokens % block_size;
    let info = boundary_of(total_tokens, block_size);
    if !info.is_at_boundary {
        vstd::arithmetic::div_mod::lemma_fundamental_div_mod(total_tokens, block_size);
        let q = total_tokens / block_size;
        assert(total_tokens + (block_size - fill) == block_size * (q + 1)) by (nonlinear_arith)
            requires
                total_tokens == block_size * q + fill,
        ;
        assert(block_size * (q + 1) == (q + 1) * block_size) by (nonlinear_arith);
        vstd::arithmetic::div_mod::lemma_mod_multiples_basic(q + 1, block_size);
    }
}

/// The blocks of the first shards come first.
proof fn lemma_held_prefix(shards: Seq<OnboardingShard>, count: int)
    requires
        0 <= count <= shards.len(),
    ensures
        held_blocks(shards.take(count)).is_prefix_of(held_blocks(shards)),
    decreases shards.len() - count,
{
    if count == shards.len() {
        assert(shards.take(count) =~= shards);
    } else {
        lemma_held_prefix(shards, count + 1);
        assert(shards.take(count + 1).drop_last() =~= shards.take(count));
        let next = held_blocks(shards.take(count + 1));
        let known = held_blocks(shards.take(count));
        assert(known =~= next.take(known.len() as int));
    }
}

/// Full shards that list their matches list one block for each that they
/// queried.
proof fn lemma_full_shards_hold_extent(shards: Seq<OnboardingShard>, count: int)
    requires
        0 < shards.len(),
        0 <= count < shards.len(),
        crate::connector::onboarding::contiguous(shards),
        forall|i: int|
            0 <= i < count ==> shard_blocks(#[trigger] shards[i]).len()
                == shards[i].num_queried_blocks,
    ensures
        held_blocks(shards.take(count)).len() == shards[count].start_block - shards[0].start_block,
    decreases count,
{
    if count > 0 {
        lemma_full_shards_hold_extent(shards, count - 1);
        assert(shards.take(count).drop_last() =~= shards.take(count - 1));
        assert(shards.take(count).last() == shards[count - 1]);
        assert(shards[count].start_block == shards[count - 1].end());
    } else {
        assert(held_blocks(shards.take(0)).len() == 0);
    }
}

/// Where a block of one shard stands among the blocks of all.
proof fn lemma_held_at_shard(shards: Seq<OnboardingShard>, shard: int, offset: int)
    requires
        0 <= shard < shards.len(),
        0 <= offset < shard_blocks(shards[shard]).len(),
    ensures
        held_blocks(shards.take(shard)).len() + offset < held_blocks(shards).len(),
        held_blocks(shards)[held_blocks(shards.take(shard)).len() + offset] == shard_blocks(
            shards[shard],
        )[offset],
{
    let known = held_blocks(shards.take(shard));
    let next = held_blocks(shards.take(shard + 1));
    assert(next =~= known + shard_blocks(shards[shard])) by {
        assert(shards.take(shard + 1).drop_last() =~= shards.take(shard));
        assert(shards.take(shard + 1).last() == shards[shard]);
    }
    lemma_held_prefix(shards, shard + 1);
    assert(next[known.len() + offset] == shard_blocks(shards[shard])[offset]);
}

/// The blocks taken for a local match are the matches of its positions, one for
/// one: if each shard lists its matches in order from its start block, the
/// block taken for a block index of the span is the one that the shard covering
/// this index lists for it, and nothing is taken beyond the span.
pub proof fn law_taken_blocks_stand_at_their_positions(
    state: OnboardingState,
    block_size: int,
    shard: int,
    block: int,
)
    requires
        state.wf(),
        state.shards@.len() > 0,
        block_size > 0,
        forall|i: int|
            0 <= i < state.shards@.len() ==> {
                &&& shard_blocks(#[trigger] state.shards@[i]).len() == state.shards@[i].matched()
                &&& state.shards@[i].matched() <= state.shards@[i].num_queried_blocks
            },
        state.span(block_size).0 <= block < state.span(block_size).1,
        0 <= shard < state.shards@.len(),
        state.shards@[shard].start_block <= block < state.shards@[shard].start_block
            + state.shards@[shard].num_queried_blocks,
    ensures
        ({
            let taken = window(
                held_blocks(state.shards@),
                state.span(block_size).0 - state.shards@[0].start_block,
                state.span(block_size).1 - state.span(block_size).0,
            );
            let listed = match state.shards@[shard].find_session {
                FindMatchesResult::Ready(ready) => ready@.g2_blocks,
                FindMatchesResult::AsyncSession(session) => session.blocks->0@,
            };
            &&& taken.len() == state.span(block_size).1 - state.span(block_size).0
            &&& block - state.shards@[shard].start_block < listed.len()
            &&& taken[block - state.span(block_size).0] == listed[block
                - state.shards@[shard].start_block]
        }),
{
    let shards = state.shards@;
    let start = state.span(block_size).0;
    let hole = state.span(block_size).1;
    let first = shards[0].start_block as int;
    let offset = block - shards[shard].start_block;
    let held = held_blocks(shards);
    crate::connector::onboarding::law_span_is_the_contiguous_match(state, block_size, shard, block);
    assert(offset < shard_blocks(shards[shard]).len());
    assert(held_blocks(shards.take(shard)).len() == shards[shard].start_block - first) by {
        assert forall|i: int| 0 <= i < shard implies shard_blocks(#[trigger] shards[i]).len()
            == shards[i].num_queried_blocks by {
            lemma_shards_before_match_fully(state, block_size, i, shard, block);
        }
        lemma_full_shards_hold_extent(shards, shard);
    }
    lemma_held_at_shard(shards, shard, offset);
    assert(hole - first <= held.len()) by {
        lemma_held_reach_hole(shards);
    }
    law_window_starts_behind_the_skip(held, start - first, hole - start, block - start);
}

/// Shards before one that reaches into the span matched fully.
proof fn lemma_shards_before_match_fully(
    state: OnboardingState,
    block_size: int,
    earlier: int,
    shard: int,
    block: int,
)
    requires
        state.wf(),
        block_size > 0,
        0 <= earlier < shard < state.shards@.len(),
        state.shards@[shard].start_block <= block < state.span(block_size).1,
        forall|i: int|
            0 <= i < state.shards@.len() ==> (#[trigger] state.shards@[i]).matched()
                <= state.shards@[i].num_queried_blocks,
    ensures
        state.shards@[earlier].matched() == state.shards@[earlier].num_queried_blocks,
{
    let shards = state.shards@;
    let stop = crate::connector::onboarding::law_first_hole(shards);
    if earlier >= stop {
        assert(!shards[stop].full());
        crate::connector::onboarding::lemma_shard_starts_ordered(shards, stop, shard);
        assert(shards[stop].matched() <= shards[stop].num_queried_blocks);
    }
}

/// Taking the local match of a request hands out the blocks of its positions,
/// leaves none of them behind, and changes nothing else of the leader.
pub proof fn law_taken_match_of_request(
    before: ConnectorView,
    id: Seq<char>,
    res: Result<Vec<MatchedBlock>, ConnectorError>,
    after: ConnectorView,
    state: OnboardingState,
    shard: int,
    block: int,
)
    requires
        before.slots.contains_key(id),
        before.slots[id].wf(),
        before.slots[id].machine.txn_state == crate::connector::machine::TransactionState::Onboarding(
            state,
        ) || before.slots[id].machine.txn_state
            == crate::connector::machine::TransactionState::PreparingToOnboard(state),
        before.local_match_taken(id, res, after),
        forall|i: int|
            0 <= i < state.shards@.len() ==> {
                &&& shard_blocks(#[trigger] state.shards@[i]).len() == state.shards@[i].matched()
                &&& state.shards@[i].matched() <= state.shards@[i].num_queried_blocks
                &&& state.shards@[i].find_session matches FindMatchesResult::AsyncSession(session)
                    ==> session.blocks is Some
            },
        state.span(before.slots[id].sequence.block_size as int).0 <= block < state.span(
            before.slots[id].sequence.block_size as int,
        ).1,
        0 <= shard < state.shards@.len(),
        state.shards@[shard].start_block <= block < state.shards@[shard].start_block
            + state.shards@[shard].num_queried_blocks,
    ensures
        res matches Ok(blocks) && {
            let size = before.slots[id].sequence.block_size as int;
            let listed = match state.shards@[shard].find_session {
                FindMatchesResult::Ready(ready) => ready@.g2_blocks,
                FindMatchesResult::AsyncSession(session) => session.blocks->0@,
            };
            &&& blocks@.len() == state.span(size).1 - state.span(size).0
            &&& blocks@[block - state.span(size).0] == listed[block
                - state.shards@[shard].start_block]
        },
        after.slots.dom() == before.slots.dom(),
        forall|other: Seq<char>|
            other != id && before.slots.contains_key(other) ==> #[trigger] after.slots[other]
                == before.slots[other],
        after.slots[id].sequence == before.slots[id].sequence,
        after.slots[id].blocks == before.slots[id].blocks,
        after.slots[id].machine.slot_state == before.slots[id].machine.slot_state,
{
    law_taken_blocks_stand_at_their_positions(
        state,
        before.slots[id].sequence.block_size as int,
        shard,
        block,
    );
    assert(after.slots.dom() =~= before.slots.dom());
}

/// Without an onboarding, or with one that only a remote prefill serves, there
/// is nothing to take; a request without a slot is an error, and so is a search
/// that has not published its blocks. None of these changes anything.
pub proof fn law_nothing_to_take(
    before: ConnectorView,
    id: Seq<char>,
    res: Result<Vec<MatchedBlock>, ConnectorError>,
    after: ConnectorView,
)
    requires
        before.local_match_taken(id, res, after),
    ensures
        !before.slots.contains_key(id) ==> (res matches Err(
            ConnectorError::SlotNotFound { request_id },
        ) && request_id@ == id) && after == before,
        before.slots.contains_key(id) && (match before.slots[id].machine.txn_state {
            crate::connector::machine::TransactionState::PreparingToOnboard(state) => state.shards@.len()
                == 0,
            crate::connector::machine::TransactionState::Onboarding(state) => state.shards@.len()
                == 0,
            _ => true,
        }) ==> (res matches Ok(blocks) && blocks@.len() == 0) && after == before,
        res is Err ==> after == before,
{
}

/// A slot's split counts as local exactly the blocks of its contiguous match,
/// and as computed the whole blocks among its computed tokens.
pub proof fn law_split_counts_the_match(state: OnboardingState, block_size: int)
    requires
        block_size > 0,
    ensures
        onboarding_split(None, block_size) is None,
        onboarding_split(Some(state), block_size) matches Some((local, computed)) && {
            &&& computed == state.num_computed_tokens
            &&& state.shards@.len() == 0 ==> local == 0
            &&& state.shards@.len() > 0 ==> local == state.span(block_size).1 - state.span(
                block_size,
            ).0
        },
{
}

/// A settled match check reports every tier's matches and the queried blocks,
/// and its token count once: only the first answer of a search is to be
/// counted.
pub proof fn law_answer_reports_once<E>(
    before: ConnectorView,
    id: Seq<char>,
    outcome: MatchCheckOutcome,
    fail_on_error: bool,
    answer: MatchAnswer<E>,
    after: ConnectorView,
)
    requires
        before.match_answered(
            id,
            Ok::<MatchCheckOutcome, E>(outcome),
            fail_on_error,
            answer,
            after,
        ),
    ensures
        answer.report_matched_tokens is Some <==> (outcome matches MatchCheckOutcome::Found {
            matched_tokens,
        } && matched_tokens > 0 && !before.slots[id].matched_tokens_reported),
        answer.report_matched_tokens matches Some(n) ==> (
        outcome matches MatchCheckOutcome::Found { matched_tokens } && n == matched_tokens),
        outcome matches MatchCheckOutcome::Found { matched_tokens } && matched_tokens > 0 ==> {
            &&& after.slots[id].matched_tokens_reported
            &&& after.slots[id].machine == before.slots[id].machine
        },
        !(outcome is InProgress) ==> (answer.cache_metrics matches Some((breakdown, queried)) && {
            &&& queried == before.slots[id].query_blocks()
            &&& match before.slots[id].machine.txn_state {
                crate::connector::machine::TransactionState::PreparingToOnboard(state) => {
                    let sums = breakdown_sums(state.shards@);
                    &&& breakdown.host_blocks == sums.0
                    &&& breakdown.disk_blocks == sums.1
                    &&& breakdown.object_blocks == sums.2
                },
                crate::connector::machine::TransactionState::Onboarding(state) => {
                    let sums = breakdown_sums(state.shards@);
                    &&& breakdown.host_blocks == sums.0
                    &&& breakdown.disk_blocks == sums.1
                    &&& breakdown.object_blocks == sums.2
                },
                _ => breakdown.host_blocks == 0 && breakdown.disk_blocks == 0
                    && breakdown.object_blocks == 0,
            }
        }),
        forall|other: Seq<char>|
            other != id && before.slots.contains_key(other) ==> #[trigger] after.slots[other]
                == before.slots[other],
{
}

/// A failed match check asks for recovery and counts nothing. The scheduler
/// hears of the failure only if that is wanted; otherwise the check goes on.
pub proof fn law_failed_check_recovers<E>(
    before: ConnectorView,
    id: Seq<char>,
    error: E,
    fail_on_error: bool,
    answer: MatchAnswer<E>,
    after: ConnectorView,
)
    requires
        before.match_answered(
            id,
            Err::<MatchCheckOutcome, E>(error),
            fail_on_error,
            answer,
            after,
        ),
    ensures
        answer.recover,
        answer.cache_metrics is None,
        answer.report_matched_tokens is None,
        fail_on_error ==> answer.answer == Err::<(Option<usize>, bool), E>(error),
        !fail_on_error ==> answer.answer == Ok::<(Option<usize>, bool), E>((None, false)),
        before.slots[id].machine.txn_state is PreparingToOnboard
            ==> after.slots[id].machine.txn_state is Error,
        forall|other: Seq<char>|
            other != id && before.slots.contains_key(other) ==> #[trigger] after.slots[other]
                == before.slots[other],
{
}

/// A request stands at a block boundary exactly if it has tokens and they fill
/// whole blocks; the current block holds the tokens past the last boundary.
pub proof fn law_boundary_is_a_full_block(total_tokens: int, block_size: int)
    requires
        0 <= total_tokens,
        0 < block_size <= usize::MAX,
    ensures
        boundary_of(total_tokens, block_size).is_at_boundary <==> total_tokens > 0 && total_tokens
            % block_size == 0,
        boundary_of(total_tokens, block_size).current_block_fill == total_tokens % block_size,
{
}

/// A slot is created for its request alone: over the request's own tokens, cut
/// into the leader's block size, with nothing assigned, evaluated or running.
pub proof fn law_new_slot_is_blank(slot: SlotView, request: Request, block_size: usize)
    requires
        fresh_slot(slot, request, block_size),
    ensures
        slot.request == request,
        slot.sequence.tokens == request.tokens@,
        slot.sequence.block_size == block_size as u32,
        slot.sequence.salt == request.salt_hash,
        slot.blocks.assigned.len() == 0,
        slot.blocks.unassigned.len() == 0,
        slot.machine.txn_state is Inactive,
        slot.machine.slot_state == crate::connector::machine::SlotState::Active,
        slot.initial_isl_tokens == request.tokens@.len(),
        slot.evaluated_tokens == 0,
        slot.pending is None,
{
}

/// Copied blocks are the request's own, token by token.
pub proof fn law_copied_blocks_are_the_tokens(
    blocks: Seq<TokenBlock>,
    sequence: TokenSequenceView,
    start: int,
    end: int,
    index: int,
    offset: int,
)
    requires
        is_block_range(blocks, sequence, start, end),
        0 <= start <= index < end <= sequence.block_count(),
        sequence.block_size > 0,
        0 <= offset < sequence.block_size,
    ensures
        blocks.len() == end - start,
        blocks[index - start].tokens@.len() == sequence.block_size,
        blocks[index - start].tokens@[offset] == sequence.tokens[index * sequence.block_size
            + offset],
        blocks[index - start].hash == sequence.hash_at(index),
{
    let size = sequence.block_size as int;
    let len = sequence.tokens.len() as int;
    assert((index + 1) * size <= len) by (nonlinear_arith)
        requires
            0 <= index < len / size,
            size > 0,
            len >= 0,
    ;
    assert((index + 1) * size == index * size + size) by (nonlinear_arith);
    assert(0 <= index * size) by (nonlinear_arith)
        requires
            0 <= index,
            size > 0,
    ;
    let copied = blocks[index - start];
    assert(copied.tokens@ == sequence.tokens.subrange(
        (start + (index - start)) * sequence.block_size,
        (start + (index - start)) * sequence.block_size + sequence.block_size,
    ));
}

/// Draining a shard takes its list of host blocks and leaves its counts, its
/// session and its place in the sequence.
pub proof fn law_drained_shard_keeps_its_counts(
    before: Seq<OnboardingShard>,
    after: Seq<OnboardingShard>,
    index: int,
)
    requires
        shards_drained(before, after),
        0 <= index < before.len(),
    ensures
        after.len() == before.len(),
        after[index].start_block == before[index].start_block,
        after[index].num_queried_blocks == before[index].num_queried_blocks,
        match (before[index].find_session, after[index].find_session) {
            (FindMatchesResult::Ready(b), FindMatchesResult::Ready(a)) => {
                &&& a@.g2_blocks.len() == 0
                &&& a@.g3_blocks == b@.g3_blocks
                &&& a@.breakdown == b@.breakdown
            },
            (FindMatchesResult::AsyncSession(b), FindMatchesResult::AsyncSession(a)) => {
                &&& a.blocks is None
                &&& a.session_id == b.session_id
                &&& a.status == b.status
                &&& a.breakdown == b.breakdown
                &&& a.control == b.control
            },
            _ => false,
        },
{
}

/// An allocation for external tokens is loaded exactly if they fill whole
/// blocks, in the leader's mode, into exactly the blocks that were allocated;
/// one without external tokens loads nothing. Either way the next match check
/// of the request starts over, and no other request hears of it.
pub proof fn law_allocation_is_loaded(
    before: ConnectorView,
    id: Seq<char>,
    block_ids: Vec<BlockId>,
    num_external_tokens: usize,
    res: Result<AllocAction, ConnectorError>,
    after: ConnectorView,
)
    requires
        before.alloc_decided(id, block_ids, num_external_tokens, res, after),
    ensures
        res is Ok <==> before.slots.contains_key(id) && (num_external_tokens == 0
            || num_external_tokens as int % before.block_size as int == 0),
        res matches Ok(AllocAction::Nothing) ==> num_external_tokens == 0,
        res matches Ok(AllocAction::StartOnboarding { block_ids: ids, num_external_tokens: n })
            ==> {
            &&& before.onboard_mode == OnboardMode::Inter
            &&& ids == block_ids
            &&& n == num_external_tokens
            &&& n > 0
        },
        res matches Ok(AllocAction::PrepareIntraPass { block_ids: ids, num_external_tokens: n })
            ==> {
            &&& before.onboard_mode == OnboardMode::Intra
            &&& ids == block_ids
            &&& n == num_external_tokens
            &&& n > 0
        },
        before.slots.contains_key(id) ==> after.slots[id].match_requires_reset
            && after.slots[id].machine == before.slots[id].machine && after.slots[id].blocks
            == before.slots[id].blocks,
        !before.slots.contains_key(id) ==> after == before,
        forall|other: Seq<char>|
            other != id && before.slots.contains_key(other) ==> #[trigger] after.slots[other]
                == before.slots[other],
{
}

/// A match check starts over exactly after an allocation: the assignments that
/// the scheduler may have freed are forgotten, and the flag is used up. A slot
/// without one keeps everything.
pub proof fn law_check_starts_over_after_allocation(before: ConnectorView, id: Seq<char>)
    requires
        before.slots.contains_key(id),
    ensures
        !before.slots[id].match_requires_reset ==> before.check_begun(id) == before,
        before.slots[id].match_requires_reset ==> {
            let slot = before.check_begun(id).slots[id];
            &&& slot.blocks.assigned.len() == 0
            &&& slot.evaluated_tokens == 0
            &&& slot.machine.txn_state is Inactive
            &&& slot.sequence == before.slots[id].sequence
        },
        !before.check_begun(id).slots[id].match_requires_reset,
        before.check_begun(id).check_begun(id) == before.check_begun(id),
        forall|other: Seq<char>|
            other != id && before.slots.contains_key(other) ==> #[trigger] before.check_begun(
                id,
            ).slots[other] == before.slots[other],
{
}

/// A window skips what it is told to skip and then takes what comes next, up to
/// its count and no further than the list.
pub proof fn law_window_starts_behind_the_skip(
    blocks: Seq<MatchedBlock>,
    skip: int,
    count: int,
    index: int,
)
    requires
        0 <= skip,
        0 <= count,
    ensures
        skip + count <= blocks.len() ==> window(blocks, skip, count).len() == count,
        skip <= blocks.len() < skip + count ==> window(blocks, skip, count).len() == blocks.len()
            - skip,
        skip > blocks.len() ==> window(blocks, skip, count).len() == 0,
        0 <= index < window(blocks, skip, count).len() ==> window(blocks, skip, count)[index]
            == blocks[skip + index],
{
}

/// The blocks that shards hold are listed shard after shard.
pub proof fn law_held_blocks_follow_shards(shards: Seq<OnboardingShard>, shard: OnboardingShard)
    ensures
        held_blocks(Seq::<OnboardingShard>::empty()).len() == 0,
        held_blocks(shards.push(shard)) == held_blocks(shards) + (match shard.find_session {
            FindMatchesResult::Ready(ready) => ready@.g2_blocks,
            FindMatchesResult::AsyncSession(session) => match session.blocks {
                Some(blocks) => blocks@,
                None => Seq::empty(),
            },
        }),
{
    assert(shards.push(shard).drop_last() =~= shards);
}

/// A request whose offload still runs is not evicted; every other one can be,
/// and so can one that the leader does not know.
pub proof fn law_running_offload_blocks_eviction(
    leader: ConnectorView,
    id: Seq<char>,
    state: crate::connector::machine::OffloadingState,
    index: int,
)
    requires
        leader.slots.contains_key(id),
    ensures
        leader.slots[id].machine.txn_state
            == crate::connector::machine::TransactionState::Offloading(state) && 0 <= index
            < state.handles@.len() && state.handles@[index].status == TransferStatus::Active
            ==> !leader.evictable(id),
        !(leader.slots[id].machine.txn_state is Offloading) ==> leader.evictable(id),
        leader.slots[id].machine.txn_state
            == crate::connector::machine::TransactionState::Offloading(state) && (forall|i: int|
            0 <= i < state.handles@.len() ==> (#[trigger] state.handles@[i]).status
                == TransferStatus::Terminal) ==> leader.evictable(id),
{
}

/// A request without a slot holds nothing that could keep it.
pub proof fn law_unknown_request_can_go(leader: ConnectorView, id: Seq<char>)
    requires
        !leader.slots.contains_key(id),
    ensures
        leader.evictable(id),
{
}

/// Assigned ids arrive at their request in order behind those that it knows, and
/// every entry carries the hash of its own block. No other request is touched.
pub proof fn law_assignment_reaches_its_request(
    before: ConnectorView,
    id: Seq<char>,
    block_ids: Seq<BlockId>,
    index: int,
)
    requires
        before.slots.contains_key(id),
        before.slots[id].wf(),
    ensures
        ({
            let slot = before.slots[id];
            let after = before.assigned(id, block_ids).slots[id];
            &&& after.blocks.known_ids() == slot.blocks.known_ids() + block_ids
            &&& 0 <= index < after.blocks.assigned.len()
                ==> after.blocks.assigned[index].sequence_hash == slot.sequence.hash_at(index)
            &&& after.match_requires_reset
            &&& after.sequence == slot.sequence
            &&& after.machine == slot.machine
        }),
        forall|other: Seq<char>|
            other != id && before.slots.contains_key(other) ==> #[trigger] before.assigned(
                id,
                block_ids,
            ).slots[other] == before.slots[other],
{
    let slot = before.slots[id];
    let hashes = slot.sequence.hashes();
    crate::assignment::law_apply_keeps_arrival_order(slot.blocks, block_ids, hashes);
    let after = slot.blocks.applied(block_ids, hashes);
    if 0 <= index < slot.blocks.assigned.len() {
        crate::assignment::law_apply_keeps_assigned(slot.blocks, block_ids, hashes, index);
    } else if slot.blocks.assigned.len() <= index < after.assigned.len() {
        crate::assignment::law_apply_pairs_by_index(slot.blocks, block_ids, hashes, index);
    }
}

/// Decoded tokens are appended to their own request, behind all that it has, and
/// its block ids stay where they are.
pub proof fn law_tokens_reach_their_request(
    before: ConnectorView,
    id: Seq<char>,
    tokens: Seq<u32>,
)
    requires
        before.slots.contains_key(id),
    ensures
        before.grown(id, tokens).slots[id].sequence.tokens == before.slots[id].sequence.tokens
            + tokens,
        before.grown(id, tokens).slots[id].sequence.block_size
            == before.slots[id].sequence.block_size,
        before.grown(id, tokens).slots[id].blocks == before.slots[id].blocks,
        before.grown(id, tokens).slots[id].machine == before.slots[id].machine,
        forall|other: Seq<char>|
            other != id && before.slots.contains_key(other) ==> #[trigger] before.grown(
                id,
                tokens,
            ).slots[other] == before.slots[other],
{
}

/// The split of a request counts all its complete blocks, the whole blocks among
/// its computed tokens and its contiguous local match. Without an onboarding
/// nothing is computed or local.
pub proof fn law_split_of_a_request(
    leader: ConnectorView,
    id: Seq<char>,
    split: SlotMatchSplit,
    state: OnboardingState,
    index: int,
)
    requires
        leader.splits(id, split),
        leader.slots[id].sequence.block_size > 0,
    ensures
        split.total_blocks * leader.slots[id].sequence.block_size
            <= leader.slots[id].sequence.tokens.len(),
        leader.slots[id].sequence.tokens.len() < (split.total_blocks + 1)
            * leader.slots[id].sequence.block_size,
        split.all_sequence_hashes@.len() == split.total_blocks,
        0 <= index < split.total_blocks ==> split.all_sequence_hashes@[index]
            == leader.slots[id].sequence.hash_at(index),
        (leader.slots[id].machine.txn_state
            == crate::connector::machine::TransactionState::Onboarding(state)
            || leader.slots[id].machine.txn_state
            == crate::connector::machine::TransactionState::PreparingToOnboard(state)) ==> {
            let size = leader.slots[id].sequence.block_size as int;
            &&& split.computed_blocks == state.num_computed_tokens as int / size
            &&& state.shards@.len() == 0 ==> split.local_match_blocks == 0
            &&& state.shards@.len() > 0 ==> split.local_match_blocks == state.span(size).1
                - state.span(size).0
        },
        !(leader.slots[id].machine.txn_state is Onboarding)
            && !(leader.slots[id].machine.txn_state is PreparingToOnboard)
            ==> split.local_match_blocks == 0 && split.computed_blocks == 0,
{
    crate::tokens::law_blocks_cover_the_tokens(leader.slots[id].sequence);
}

/// A local match is not handed out in part: while one of the searches behind it
/// has not published its blocks, taking it is an error that leaves everything in
/// place.
pub proof fn law_unpublished_match_is_not_taken(
    before: ConnectorView,
    id: Seq<char>,
    res: Result<Vec<MatchedBlock>, ConnectorError>,
    after: ConnectorView,
    state: OnboardingState,
    index: int,
)
    requires
        before.slots.contains_key(id),
        before.slots[id].machine.txn_state == crate::connector::machine::TransactionState::Onboarding(
            state,
        ) || before.slots[id].machine.txn_state
            == crate::connector::machine::TransactionState::PreparingToOnboard(state),
        before.local_match_taken(id, res, after),
        0 <= index < state.shards@.len(),
        state.shards@[index].find_session matches FindMatchesResult::AsyncSession(session)
            && session.blocks is None,
    ensures
        res matches Err(ConnectorError::BlocksMissing { request_id }) && request_id@ == id,
        after == before,
{
}

} // verus!
