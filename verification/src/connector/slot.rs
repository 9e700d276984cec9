//! Request slots.

use crate::assignment::{AssignmentsView, BlockAssignments};
use crate::common::{sat_add, BlockId};
use crate::connector::machine::{
    ActiveStateData, FinishedStatus, OffloadingState, SlotStateMachine, StateTransitionError,
    TransactionState, TransferHandle, TransferStatus,
};
use crate::connector::onboarding::{
    queried_sum, CdOnboardingPayload, OnboardingShard, OnboardingState,
};
use crate::connector::request::{CachedRequestData, Request, TransferParams};
use crate::engine::matches::FindMatchesResult;
use crate::tokens::{law_hashes_stable_under_extension, SequenceHash, TokenSequence, TokenSequenceView};
use std::ops::Range;
use vstd::prelude::*;

verus! {

broadcast use vstd::std_specs::hash::group_hash_axioms;

/// Outcome of checking for matched tokens.
pub enum MatchCheckOutcome {
    /// Still searching or staging.
    InProgress,
    /// No match is possible.
    NoMatch,
    /// This many tokens matched.
    Found { matched_tokens: usize },
}

/// Blocks to be loaded during the forward pass: host sources and device
/// destinations.
#[derive(Debug)]
pub struct IntraPassPending {
    pub g2_block_ids: Vec<BlockId>,
    pub g1_block_ids: Vec<BlockId>,
}

/// What [`IntraPassPending`] stands for.
#[verifier::ext_equal]
pub struct IntraPassView {
    pub g2: Seq<BlockId>,
    pub g1: Seq<BlockId>,
}

impl View for IntraPassPending {
    type V = IntraPassView;

    open spec fn view(&self) -> IntraPassView {
        IntraPassView { g2: self.g2_block_ids@, g1: self.g1_block_ids@ }
    }
}

/// Why an offload was not recorded.
#[derive(Debug, Clone, Copy, PartialEq, Eq, Structural)]
pub enum RecordOffloadError {
    /// The slot is marked for deletion.
    MarkedForDeletion,
    /// Another transaction runs.
    InvalidTransactionState,
}

/// Why tokens could not be appended to a slot.
#[derive(Debug, Clone, Copy, PartialEq, Eq, Structural)]
pub struct ExtendTokensError;

/// A slot representing an active request.
pub struct RequestSlot {
    request: Request,
    sequence: TokenSequence,
    block_matches: BlockAssignments,
    state: SlotStateMachine,
    initial_isl_tokens: usize,
    evaluated_tokens: usize,
    finished_evaluating: bool,
    match_requires_reset: bool,
    pending_intra_pass: Option<IntraPassPending>,
    matched_tokens_reported: bool,
}

/// What a [`RequestSlot`] stands for.
pub struct SlotView {
    pub request: Request,
    pub sequence: TokenSequenceView,
    pub blocks: AssignmentsView,
    pub machine: SlotStateMachine,
    pub initial_isl_tokens: usize,
    pub evaluated_tokens: usize,
    pub finished_evaluating: bool,
    pub match_requires_reset: bool,
    pub pending: Option<IntraPassView>,
    pub matched_tokens_reported: bool,
}

impl SlotView {
    /// Every assigned block carries the hash of the token block at its index.
    pub open spec fn aligned(self) -> bool {
        &&& self.blocks.assigned.len() <= self.sequence.block_count()
        &&& forall|i: int|
            #![trigger self.blocks.assigned[i]]
            0 <= i < self.blocks.assigned.len() ==> self.blocks.assigned[i].sequence_hash
                == self.sequence.hash_at(i)
    }

    /// The invariant of a slot.
    pub open spec fn wf(self) -> bool {
        self.sequence.wf() && self.machine.wf() && self.aligned()
    }

    /// The slot after the scheduler freed its device blocks: assignments,
    /// evaluation and transaction start over, tokens and pending intra-pass
    /// loads stay.
    pub open spec fn preempted(self) -> Self {
        SlotView {
            blocks: AssignmentsView::empty(),
            evaluated_tokens: 0,
            finished_evaluating: false,
            machine: self.machine.settled(),
            match_requires_reset: false,
            matched_tokens_reported: false,
            ..self
        }
    }

    /// Blocks that the running onboarding queried.
    pub open spec fn query_blocks(self) -> int {
        match self.machine.txn_state.onboarding() {
            Some(state) => queried_sum(state.shards@),
            None => 0,
        }
    }

    /// Some offload transfer may still read device blocks.
    pub open spec fn inflight(self) -> bool {
        self.machine.txn_state.offloading() matches Some(state) && state.inflight()
    }

    /// Tokens the slot has yet to learn from a full token list.
    pub open spec fn resumed(self, all: Option<Seq<u32>>) -> TokenSequenceView {
        match all {
            Some(tokens) if tokens.len() > self.sequence.tokens.len() => self.sequence.extended(
                tokens.skip(self.sequence.tokens.len() as int),
            ),
            _ => self.sequence,
        }
    }

    /// The two slots are of one request and cut it into blocks of one size.
    pub open spec fn same_request(self, after: SlotView) -> bool {
        self.request == after.request && self.sequence.block_size == after.sequence.block_size
    }

    /// Only the state machine differs.
    pub open spec fn machine_moved(self, after: SlotView) -> bool {
        after == (SlotView { machine: after.machine, ..self })
    }

    /// What preparing an onboarding over one initial shard does.
    pub open spec fn onboarding_prepared(
        self,
        num_computed_tokens: usize,
        total_tokens_at_start: usize,
        shard: OnboardingShard,
        after: SlotView,
        res: Result<(), StateTransitionError>,
    ) -> bool {
        &&& after == (SlotView {
            evaluated_tokens: 0,
            matched_tokens_reported: false,
            machine: after.machine,
            ..self
        })
        &&& exists|state: OnboardingState|
            {
                &&& #[trigger] state.is_single(num_computed_tokens, total_tokens_at_start, shard)
                &&& self.machine.started(
                    TransactionState::PreparingToOnboard(state),
                    "PreparingToOnboard"@,
                    after.machine,
                    res,
                )
            }
    }

    /// What starting an offload does.
    pub open spec fn offloading_started(
        self,
        after: SlotView,
        res: Result<(), StateTransitionError>,
    ) -> bool {
        &&& self.machine_moved(after)
        &&& exists|state: OffloadingState|
            {
                &&& #[trigger] state.is_fresh()
                &&& self.machine.started(
                    TransactionState::Offloading(state),
                    "Offloading"@,
                    after.machine,
                    res,
                )
            }
    }

    /// What recording an offload does.
    pub open spec fn offload_recorded(
        self,
        block_mappings: Seq<(BlockId, SequenceHash)>,
        handle: TransferHandle,
        after: SlotView,
        res: Result<(), RecordOffloadError>,
    ) -> bool {
        if self.machine.marked() {
            &&& res == Err::<(), RecordOffloadError>(RecordOffloadError::MarkedForDeletion)
            &&& after == self
        } else if !(self.machine.txn_state is Inactive || self.machine.txn_state is Offloading) {
            &&& res == Err::<(), RecordOffloadError>(RecordOffloadError::InvalidTransactionState)
            &&& after == self
        } else {
            &&& res is Ok
            &&& self.machine_moved(after)
            &&& after.machine.slot_state == self.machine.slot_state
            &&& after.machine.txn_state.offloading() matches Some(state) && {
                let before = self.machine.txn_state.offloading();
                let mappings = match before {
                    Some(s) => s.block_mappings@,
                    None => Map::<BlockId, SequenceHash>::empty(),
                };
                let handles = match before {
                    Some(s) => s.handles@,
                    None => Seq::<TransferHandle>::empty(),
                };
                &&& state.block_mappings@ == insert_all(mappings, block_mappings)
                &&& state.handles@ == handles.push(handle)
            }
        }
    }

    /// What a report on the progress of one transfer does: its handles take the
    /// status, everything else stays.
    pub open spec fn transfer_updated(
        self,
        transfer_id: u128,
        status: TransferStatus,
        after: SlotView,
        found: bool,
    ) -> bool {
        match self.machine.txn_state.offloading() {
            Some(before) => {
                &&& self.machine_moved(after)
                &&& after.machine.slot_state == self.machine.slot_state
                &&& after.machine.txn_state matches TransactionState::Offloading(state) && {
                    &&& state.block_mappings == before.block_mappings
                    &&& state.handles@ == with_status(before.handles@, transfer_id, status)
                }
                &&& found == has_transfer(before.handles@, transfer_id)
            },
            None => after == self && !found,
        }
    }

    /// The blocks that a step over so many scheduled tokens completes.
    pub open spec fn step_mappings(self, scheduled: int) -> Seq<(BlockId, SequenceHash)> {
        let size = self.sequence.block_size as int;
        self.blocks.mappings(
            self.evaluated_tokens as int / size,
            (self.evaluated_tokens + scheduled) / size,
        )
    }

    /// The slot after so many more tokens were evaluated.
    pub open spec fn advanced(self, tokens: int) -> Self {
        SlotView {
            evaluated_tokens: sat_add(
                self.evaluated_tokens as int,
                tokens,
                usize::MAX as int,
            ) as usize,
            ..self
        }
    }

    /// The slot with blocks appended to those to be loaded during the forward
    /// pass.
    pub open spec fn with_pending(self, g2: Seq<BlockId>, g1: Seq<BlockId>) -> Self {
        SlotView {
            pending: Some(
                match self.pending {
                    Some(pending) => IntraPassView { g2: pending.g2 + g2, g1: pending.g1 + g1 },
                    None => IntraPassView { g2, g1 },
                },
            ),
            ..self
        }
    }

    /// What closing a match check comes to: the slot afterwards and the answer
    /// to the scheduler.
    pub open spec fn match_checked<E>(
        self,
        outcome: Result<MatchCheckOutcome, E>,
    ) -> (SlotView, Result<(Option<usize>, bool), E>) {
        match outcome {
            Ok(MatchCheckOutcome::InProgress) => (self, Ok((None, false))),
            Ok(MatchCheckOutcome::NoMatch) => (
                SlotView { machine: self.machine.settled(), ..self },
                Ok((Some(0usize), false)),
            ),
            Ok(MatchCheckOutcome::Found { matched_tokens }) => if matched_tokens > 0 {
                (self, Ok((Some(matched_tokens), true)))
            } else {
                (
                    SlotView { machine: self.machine.settled(), ..self },
                    Ok((Some(0usize), false)),
                )
            },
            Err(e) => (
                SlotView {
                    machine: self.machine.with_txn(self.machine.txn_state.failed()),
                    ..self
                },
                Err(e),
            ),
        }
    }
}

/// Some handle is of the transfer.
pub open spec fn has_transfer(handles: Seq<TransferHandle>, transfer_id: u128) -> bool {
    exists|i: int| 0 <= i < handles.len() && (#[trigger] handles[i]).transfer_id == transfer_id
}

/// The handles after those of one transfer took a status.
pub open spec fn with_status(
    handles: Seq<TransferHandle>,
    transfer_id: u128,
    status: TransferStatus,
) -> Seq<TransferHandle> {
    Seq::new(
        handles.len(),
        |i: int|
            if handles[i].transfer_id == transfer_id {
                TransferHandle { transfer_id, status }
            } else {
                handles[i]
            },
    )
}

/// A map after pairs were inserted in order; later pairs win.
pub open spec fn insert_all(
    map: Map<BlockId, SequenceHash>,
    pairs: Seq<(BlockId, SequenceHash)>,
) -> Map<BlockId, SequenceHash>
    decreases pairs.len(),
{
    if pairs.len() == 0 {
        map
    } else {
        insert_all(map, pairs.drop_last()).insert(pairs.last().0, pairs.last().1)
    }
}

impl View for RequestSlot {
    type V = SlotView;

    closed spec fn view(&self) -> SlotView {
        SlotView {
            request: self.request,
            sequence: self.sequence@,
            blocks: self.block_matches@,
            machine: self.state,
            initial_isl_tokens: self.initial_isl_tokens,
            evaluated_tokens: self.evaluated_tokens,
            finished_evaluating: self.finished_evaluating,
            match_requires_reset: self.match_requires_reset,
            pending: match self.pending_intra_pass {
                Some(pending) => Some(pending@),
                None => None,
            },
            matched_tokens_reported: self.matched_tokens_reported,
        }
    }
}

impl RequestSlot {
    /// Holds for every slot this type hands out.
    pub closed spec fn valid(self) -> bool {
        self.sequence.valid()
    }

    /// The invariant of a slot.
    pub open spec fn wf(self) -> bool {
        self.valid() && self@.wf()
    }

    /// The block ids of the request.
    pub fn block_matches(&self) -> (blocks: &BlockAssignments)
        ensures
            blocks@ == self@.blocks,
    {
        &self.block_matches
    }

    /// The tokens of the request.
    pub fn sequence(&self) -> (sequence: &TokenSequence)
        requires
            self.wf(),
        ensures
            sequence.wf(),
            sequence@ == self@.sequence,
    {
        &self.sequence
    }

    /// Creates a slot for a request. Block sizes count in 32 bits.
    pub fn new(request: Request, block_size: usize) -> (slot: Self)
        requires
            block_size as u32 > 0,
            request.tokens@.len() / (block_size as u32) as nat
                <= crate::tokens::MAX_BLOCK_POSITIONS,
        ensures
            slot.wf(),
            slot@ == (SlotView {
                request,
                sequence: TokenSequenceView {
                    tokens: request.tokens@,
                    block_size: (block_size as u32) as nat,
                    salt: request.salt_hash,
                },
                blocks: AssignmentsView::empty(),
                machine: SlotStateMachine {
                    slot_state: crate::connector::machine::SlotState::Active,
                    txn_state: TransactionState::Inactive,
                },
                initial_isl_tokens: request.tokens.len(),
                evaluated_tokens: 0,
                finished_evaluating: false,
                match_requires_reset: false,
                pending: None,
                matched_tokens_reported: false,
            }),
    {
        let initial_isl_tokens: usize = request.tokens.len();
        let tokens = request.tokens.clone();
        assert(tokens@ =~= request.tokens@);
        let sequence = TokenSequence::new(tokens, block_size as u32, request.salt_hash);
        RequestSlot {
            request,
            sequence,
            block_matches: BlockAssignments::default(),
            state: SlotStateMachine::new(),
            initial_isl_tokens,
            evaluated_tokens: 0,
            finished_evaluating: false,
            match_requires_reset: false,
            pending_intra_pass: None,
            matched_tokens_reported: false,
        }
    }

    /// Assigns block ids to the token blocks that have none yet.
    ///
    /// Returns the index range of the newly assigned blocks.
    pub fn apply_new_blocks(&mut self, block_ids: Vec<BlockId>) -> (range: Range<usize>)
        requires
            old(self).wf(),
        ensures
            final(self).wf(),
            final(self)@ == (SlotView {
                blocks: old(self)@.blocks.applied(block_ids@, old(self)@.sequence.hashes()),
                ..old(self)@
            }),
            range.start == old(self)@.blocks.assigned.len(),
            range.end == final(self)@.blocks.assigned.len(),
    {
        let hashes = self.all_sequence_hashes();
        let range = self.block_matches.apply_new_blocks(block_ids, &hashes);
        proof {
            let before = old(self)@;
            let after = self@;
            assert(after.blocks == before.blocks.applied(block_ids@, hashes@));
            assert forall|i: int|
                #![trigger after.blocks.assigned[i]]
                0 <= i < after.blocks.assigned.len() implies after.blocks.assigned[i].sequence_hash
                == after.sequence.hash_at(i) by {
                if i < before.blocks.assigned.len() {
                    assert(after.blocks.assigned[i] == before.blocks.assigned[i]);
                } else {
                    assert(after.blocks.assigned[i].sequence_hash == hashes@[i]);
                }
            }
        }
        range
    }

    /// The block ids of a full list that the slot does not know yet.
    pub fn filter_block_ids(&self, all_block_ids: Vec<BlockId>) -> (rest: Vec<BlockId>)
        requires
            self@.blocks.known_ids().is_prefix_of(all_block_ids@),
        ensures
            rest@ == all_block_ids@.skip(self@.blocks.known_ids().len() as int),
    {
        self.block_matches.filter_block_ids(all_block_ids)
    }

    /// The blocks that the scheduled tokens complete, as (id, hash) pairs.
    pub fn get_next_block_mappings(&self, num_scheduled_tokens: usize) -> (mappings: Vec<
        (BlockId, SequenceHash),
    >)
        requires
            self.wf(),
            self@.evaluated_tokens + num_scheduled_tokens <= usize::MAX,
        ensures
            mappings@ == self@.blocks.mappings(
                self@.evaluated_tokens as int / self@.sequence.block_size as int,
                (self@.evaluated_tokens + num_scheduled_tokens) / self@.sequence.block_size as int,
            ),
            mappings@ == self@.step_mappings(num_scheduled_tokens as int),
    {
        let evaluated_blocks: usize = self.evaluated_blocks();
        self.block_matches.get_next_block_mappings(
            evaluated_blocks,
            self.evaluated_tokens,
            num_scheduled_tokens,
            self.block_size(),
        )
    }

    /// The id of the request.
    pub fn request_id(&self) -> (id: &str)
        ensures
            id@ == self@.request.request_id@,
    {
        self.request.request_id.as_str()
    }

    /// The raw transfer parameters of the request, if any.
    pub fn kv_transfer_params(&self) -> (params: Option<&serde_json::Value>)
        ensures
            match params {
                Some(value) => self@.request.kv_transfer_params == Some(*value),
                None => self@.request.kv_transfer_params is None,
            },
    {
        self.request.kv_transfer_params.as_ref()
    }

    /// The decoded transfer parameters of the request, or the decoding error.
    pub fn transfer_params(&self) -> (params: Result<Option<TransferParams>, String>)
        ensures
            match self@.request.transfer_params {
                Ok(decoded) => params == Ok::<Option<TransferParams>, String>(decoded),
                Err(error) => params matches Err(e) && e@ == error@,
            },
    {
        match &self.request.transfer_params {
            Ok(decoded) => Ok(*decoded),
            Err(error) => Err(error.clone()),
        }
    }

    /// The transaction state.
    pub fn txn_state(&self) -> (state: &TransactionState)
        ensures
            *state == self@.machine.txn_state,
    {
        self.state.txn_state()
    }

    /// The lifecycle and transaction state.
    pub fn state_machine(&self) -> (machine: &SlotStateMachine)
        ensures
            *machine == self@.machine,
    {
        &self.state
    }

    /// True unless the slot is active.
    pub fn is_marked_for_deletion(&self) -> (marked: bool)
        ensures
            marked == self@.machine.marked(),
    {
        self.state.is_marked_for_deletion()
    }

    /// The block size of the sequence.
    pub fn block_size(&self) -> (size: usize)
        ensures
            size == self@.sequence.block_size,
    {
        self.sequence.block_size()
    }

    /// Hashes of the complete token blocks.
    pub fn all_sequence_hashes(&self) -> (hashes: Vec<SequenceHash>)
        requires
            self.wf(),
        ensures
            hashes@ == self@.sequence.hashes(),
    {
        self.sequence.hashes()
    }

    /// The number of tokens the slot was created with.
    pub fn initial_isl_tokens(&self) -> (count: usize)
        ensures
            count == self@.initial_isl_tokens,
    {
        self.initial_isl_tokens
    }

    /// Whether the slot has stopped evaluating blocks for offload.
    pub fn is_finished_evaluating(&self) -> (finished: bool)
        ensures
            finished == self@.finished_evaluating,
    {
        self.finished_evaluating
    }

    /// Takes over the tokens that a resumed request has and the slot lacks.
    pub fn update_from_resumed_request(&mut self, req: &CachedRequestData) -> (res: Result<
        (),
        ExtendTokensError,
    >)
        requires
            old(self).wf(),
            old(self)@.resumed(
                match req.all_token_ids {
                    Some(tokens) => Some(tokens@),
                    None => None,
                },
            ).wf(),
        ensures
            res is Ok,
            final(self).wf(),
            final(self)@ == (SlotView {
                sequence: old(self)@.resumed(
                    match req.all_token_ids {
                        Some(tokens) => Some(tokens@),
                        None => None,
                    },
                ),
                ..old(self)@
            }),
    {
        if let Some(all_token_ids) = &req.all_token_ids {
            let known: usize = self.sequence.total_tokens();
            if all_token_ids.len() > known {
                let mut all = all_token_ids.clone();
                assert(all@ =~= all_token_ids@);
                let tail = all.split_off(known);
                assert(tail@ =~= all_token_ids@.skip(known as int));
                return self.extend_tokens(tail);
            }
        }
        Ok(())
    }

    /// Stops evaluating blocks for offload.
    pub fn mark_finished_evaluating(&mut self)
        ensures
            final(self)@ == (SlotView { finished_evaluating: true, ..old(self)@ }),
            final(self).valid() == old(self).valid(),
    {
        self.finished_evaluating = true;
    }

    /// Whether the next match check starts with a reset.
    pub fn match_requires_reset(&self) -> (required: bool)
        ensures
            required == self@.match_requires_reset,
    {
        self.match_requires_reset
    }

    /// Decides whether the next match check starts with a reset.
    pub fn set_match_requires_reset(&mut self, requires_reset: bool)
        ensures
            final(self)@ == (SlotView { match_requires_reset: requires_reset, ..old(self)@ }),
            final(self).valid() == old(self).valid(),
    {
        self.match_requires_reset = requires_reset;
    }

    /// Lets the next match count be reported.
    pub fn reset_matched_tokens_reported(&mut self)
        ensures
            final(self)@ == (SlotView { matched_tokens_reported: false, ..old(self)@ }),
            final(self).valid() == old(self).valid(),
    {
        self.matched_tokens_reported = false;
    }

    /// Blocks queried by the running onboarding, 0 if none runs.
    pub fn total_query_blocks(&self) -> (total: usize)
        requires
            self.wf(),
        ensures
            total == self@.query_blocks(),
    {
        match self.state.onboarding_state() {
            Some(state) => state.total_query_blocks(),
            None => 0,
        }
    }

    /// Claims the report of a match count; true for the first claim only.
    pub fn mark_matched_tokens_reported(&mut self) -> (first: bool)
        ensures
            first == !old(self)@.matched_tokens_reported,
            final(self)@ == (SlotView { matched_tokens_reported: true, ..old(self)@ }),
            final(self).valid() == old(self).valid(),
    {
        if self.matched_tokens_reported {
            false
        } else {
            self.matched_tokens_reported = true;
            true
        }
    }

    /// Counts tokens as evaluated.
    pub fn advance_evaluated_tokens(&mut self, num_tokens: usize)
        ensures
            final(self)@ == (SlotView {
                evaluated_tokens: sat_add(
                    old(self)@.evaluated_tokens as int,
                    num_tokens as int,
                    usize::MAX as int,
                ) as usize,
                ..old(self)@
            }),
            final(self)@ == old(self)@.advanced(num_tokens as int),
            final(self).valid() == old(self).valid(),
    {
        self.evaluated_tokens = self.evaluated_tokens.saturating_add(num_tokens);
    }

    /// Complete blocks among the evaluated tokens.
    pub fn evaluated_blocks(&self) -> (blocks: usize)
        requires
            self.wf(),
        ensures
            blocks == self@.evaluated_tokens as int / self@.sequence.block_size as int,
    {
        self.evaluated_tokens / self.block_size()
    }

    /// Tokens evaluated for offload.
    pub fn evaluated_tokens(&self) -> (tokens: usize)
        ensures
            tokens == self@.evaluated_tokens,
    {
        self.evaluated_tokens
    }

    /// Blocks that have a block id.
    pub fn assigned_block_count(&self) -> (count: usize)
        ensures
            count == self@.blocks.assigned.len(),
    {
        self.block_matches.assigned_blocks.len()
    }

    /// Tokens of the sequence, the partial block included.
    pub fn total_tokens(&self) -> (count: usize)
        ensures
            count == self@.sequence.tokens.len(),
    {
        self.sequence.total_tokens()
    }

    /// Appends tokens to the sequence.
    pub fn extend_tokens(&mut self, tokens: Vec<u32>) -> (res: Result<(), ExtendTokensError>)
        requires
            old(self).wf(),
            old(self)@.sequence.extended(tokens@).wf(),
        ensures
            res is Ok,
            final(self).wf(),
            final(self)@ == (SlotView {
                sequence: old(self)@.sequence.extended(tokens@),
                ..old(self)@
            }),
    {
        let res = self.sequence.extend(tokens);
        proof {
            let before = old(self)@;
            let after = self@;
            assert(after.sequence == before.sequence.extended(tokens@));
            assert forall|i: int| 0 <= i < before.sequence.block_count() implies #[trigger] after.sequence.hash_at(
                i,
            ) == before.sequence.hash_at(i) && i < after.sequence.block_count() by {
                law_hashes_stable_under_extension(before.sequence, tokens@, i);
            }
            let count = before.blocks.assigned.len() as int;
            if count > 0 {
                assert(before.blocks.assigned[count - 1].sequence_hash == before.sequence.hash_at(
                    count - 1,
                ));
                assert(after.sequence.hash_at(count - 1) == before.sequence.hash_at(count - 1));
            }
        }
        match res {
            Ok(()) => Ok(()),
            Err(_) => Err(ExtendTokensError),
        }
    }

    /// Starts a search transaction over one initial shard.
    pub fn txn_prepare_to_onboard(
        &mut self,
        num_computed_tokens: usize,
        total_tokens_at_start: usize,
        start_block: usize,
        num_queried_blocks: usize,
        find_session: FindMatchesResult,
    ) -> (res: Result<(), StateTransitionError>)
        requires
            old(self).wf(),
            start_block + num_queried_blocks <= usize::MAX,
        ensures
            final(self).wf(),
            old(self)@.onboarding_prepared(
                num_computed_tokens,
                total_tokens_at_start,
                (OnboardingShard { start_block, num_queried_blocks, find_session }),
                final(self)@,
                res,
            ),
    {
        let initial_shard = OnboardingShard { start_block, num_queried_blocks, find_session };
        let state = OnboardingState::new(num_computed_tokens, total_tokens_at_start, initial_shard);
        assert(state.wf());
        self.evaluated_tokens = 0;
        self.matched_tokens_reported = false;
        self.state.txn_prepare_to_onboard(state)
    }

    /// Starts an onboarding whose single shard queries one block, the one
    /// behind the computed tokens.
    pub fn txn_prepare_to_onboard_legacy(
        &mut self,
        num_computed_tokens: usize,
        find_session: FindMatchesResult,
    ) -> (res: Result<(), StateTransitionError>)
        requires
            old(self).wf(),
            num_computed_tokens < usize::MAX,
        ensures
            final(self).wf(),
            old(self)@.onboarding_prepared(
                num_computed_tokens,
                num_computed_tokens,
                (OnboardingShard {
                    start_block: (num_computed_tokens as nat / old(self)@.sequence.block_size)
                        as usize,
                    num_queried_blocks: 1,
                    find_session,
                }),
                final(self)@,
                res,
            ),
    {
        let block_size: usize = self.block_size();
        assert(num_computed_tokens / block_size <= num_computed_tokens) by (nonlinear_arith)
            requires
                block_size > 0,
        ;
        self.txn_prepare_to_onboard(
            num_computed_tokens,
            num_computed_tokens,
            num_computed_tokens / block_size,
            1,
            find_session,
        )
    }

    /// Moves from preparing to loading.
    pub fn txn_start_onboarding(&mut self) -> (res: Result<(), StateTransitionError>)
        requires
            old(self).wf(),
        ensures
            final(self).wf(),
            old(self)@.machine_moved(final(self)@),
            old(self)@.machine.promoted(final(self)@.machine, res),
    {
        self.state.txn_start_onboarding()
    }

    /// Ends loading and hands its data out.
    pub fn txn_take_onboarding(&mut self) -> (res: Result<OnboardingState, StateTransitionError>)
        requires
            old(self).wf(),
        ensures
            final(self).wf(),
            old(self)@.machine_moved(final(self)@),
            old(self)@.machine.taken(
                old(self)@.machine.loading(),
                "Inactive (via take_onboarding)"@,
                final(self)@.machine,
                res,
            ),
    {
        self.state.txn_take_onboarding()
    }

    /// Installs or attaches the cleanup hook of a remote prefill.
    pub fn txn_install_or_attach_cd_payload(
        &mut self,
        cd_payload: Box<dyn CdOnboardingPayload>,
    ) -> (res: Result<(), StateTransitionError>)
        requires
            old(self).wf(),
        ensures
            final(self).wf(),
            old(self)@.machine_moved(final(self)@),
            old(self)@.machine.attached(Some(cd_payload), final(self)@.machine, res),
    {
        self.attach_cd_payload(Some(cd_payload))
    }

    /// Installs or attaches a cleanup hook that is given as an option.
    pub(crate) fn attach_cd_payload(
        &mut self,
        cd_payload: Option<Box<dyn CdOnboardingPayload>>,
    ) -> (res: Result<(), StateTransitionError>)
        requires
            old(self).wf(),
            cd_payload is Some,
        ensures
            final(self).wf(),
            old(self)@.machine_moved(final(self)@),
            old(self)@.machine.attached(cd_payload, final(self)@.machine, res),
    {
        self.state.txn_install_or_attach_cd_payload(cd_payload)
    }

    /// Ends preparing and hands its data out.
    pub fn txn_take_preparing_to_onboard(&mut self) -> (res: Result<
        OnboardingState,
        StateTransitionError,
    >)
        requires
            old(self).wf(),
        ensures
            final(self).wf(),
            old(self)@.machine_moved(final(self)@),
            old(self)@.machine.taken(
                old(self)@.machine.preparing(),
                "Inactive (via take_preparing_to_onboard)"@,
                final(self)@.machine,
                res,
            ),
    {
        self.state.txn_take_preparing_to_onboard()
    }

    /// Starts offloading.
    pub fn txn_start_offloading(&mut self) -> (res: Result<(), StateTransitionError>)
        requires
            old(self).wf(),
        ensures
            final(self).wf(),
            old(self)@.offloading_started(final(self)@, res),
    {
        self.state.txn_start_offloading(OffloadingState::default())
    }

    /// Ends offloading and hands its data out.
    pub fn txn_take_offloading(&mut self) -> (res: Result<OffloadingState, StateTransitionError>)
        requires
            old(self).wf(),
        ensures
            final(self).wf(),
            old(self)@.machine_moved(final(self)@),
            old(self)@.machine.taken(
                old(self)@.machine.txn_state.offloading(),
                "Inactive (via take_offloading)"@,
                final(self)@.machine,
                res,
            ),
    {
        self.state.txn_take_offloading()
    }

    /// Records a failure of the running transaction.
    pub fn txn_to_error(&mut self)
        requires
            old(self).wf(),
        ensures
            final(self).wf(),
            final(self)@ == (SlotView {
                machine: old(self)@.machine.with_txn(old(self)@.machine.txn_state.failed()),
                ..old(self)@
            }),
    {
        self.state.txn_to_error()
    }

    /// Ends the error state and hands the kept data out.
    pub fn txn_take_error(&mut self) -> (res: Result<ActiveStateData, StateTransitionError>)
        requires
            old(self).wf(),
        ensures
            final(self).wf(),
            old(self)@.machine_moved(final(self)@),
            old(self)@.machine.taken(
                old(self)@.machine.error_data(),
                "Inactive (via take_error)"@,
                final(self)@.machine,
                res,
            ),
    {
        self.state.txn_take_error()
    }

    /// Marks the request as finished.
    pub fn slot_mark_finished(&mut self) -> (status: FinishedStatus)
        requires
            old(self).wf(),
        ensures
            final(self).wf(),
            final(self)@ == (SlotView { machine: old(self)@.machine.finished(), ..old(self)@ }),
            status == (if old(self)@.machine.txn_state is Inactive {
                FinishedStatus::Finished
            } else {
                FinishedStatus::Pending
            }),
    {
        self.state.slot_mark_finished()
    }

    /// Whether an onboarding runs.
    pub fn has_onboarding_state(&self) -> (held: bool)
        ensures
            held == (self@.machine.txn_state.onboarding() is Some),
    {
        self.state.has_onboarding_state()
    }

    /// The data of the running onboarding.
    pub fn onboarding_state(&self) -> (state: Option<&OnboardingState>)
        ensures
            match state {
                Some(s) => self@.machine.txn_state.onboarding() == Some(*s),
                None => self@.machine.txn_state.onboarding() is None,
            },
    {
        self.state.onboarding_state()
    }

    /// The data of the running onboarding, for modification. The slot keeps its
    /// invariant if the data keeps its own.
    pub fn onboarding_state_mut(&mut self) -> (state: Option<&mut OnboardingState>)
        requires
            old(self).wf(),
        ensures
            match state {
                Some(s) => {
                    &&& old(self)@.machine.txn_state.onboarding() == Some(*s)
                    &&& final(s).wf() ==> final(self).wf()
                    &&& final(self)@ == (SlotView {
                        machine: old(self)@.machine.with_txn(
                            crate::connector::machine::replace_onboarding(
                                old(self)@.machine.txn_state,
                                *final(s),
                            ),
                        ),
                        ..old(self)@
                    })
                },
                None => {
                    &&& old(self)@.machine.txn_state.onboarding() is None
                    &&& final(self).wf()
                    &&& final(self)@ == old(self)@
                },
            },
    {
        self.state.onboarding_state_mut()
    }

    /// The data of the running offload.
    pub fn offloading_state(&self) -> (state: Option<&OffloadingState>)
        ensures
            match state {
                Some(s) => self@.machine.txn_state.offloading() == Some(*s),
                None => self@.machine.txn_state.offloading() is None,
            },
    {
        self.state.offloading_state()
    }

    /// The data of the running offload, for modification.
    pub fn offloading_state_mut(&mut self) -> (state: Option<&mut OffloadingState>)
        requires
            old(self).wf(),
        ensures
            match state {
                Some(s) => {
                    &&& old(self)@.machine.txn_state.offloading() == Some(*s)
                    &&& final(self).wf()
                    &&& final(self)@ == (SlotView {
                        machine: old(self)@.machine.with_txn(
                            TransactionState::Offloading(*final(s)),
                        ),
                        ..old(self)@
                    })
                },
                None => {
                    &&& old(self)@.machine.txn_state.offloading() is None
                    &&& final(self).wf()
                    &&& final(self)@ == old(self)@
                },
            },
    {
        self.state.offloading_state_mut()
    }

    /// The data of the running offload; an idle slot starts one.
    pub fn get_or_create_offloading_state(&mut self) -> (state: &mut OffloadingState)
        requires
            old(self).wf(),
            old(self)@.machine.txn_state is Offloading || (old(self)@.machine.txn_state is Inactive
                && !old(self)@.machine.marked()),
        ensures
            match old(self)@.machine.txn_state.offloading() {
                Some(s) => *state == s,
                None => state.is_fresh(),
            },
            final(self).wf(),
            final(self)@ == (SlotView {
                machine: old(self)@.machine.with_txn(TransactionState::Offloading(*final(state))),
                ..old(self)@
            }),
    {
        if self.state.offloading_state().is_none() {
            let _ = self.state.txn_start_offloading(OffloadingState::default());
        }
        self.state.offloading_state_mut().unwrap()
    }

    /// Whether some offload transfer may still read device blocks.
    pub fn has_inflight_offloads(&self) -> (inflight: bool)
        ensures
            inflight == self@.inflight(),
    {
        match self.offloading_state() {
            Some(state) => {
                let mut index: usize = 0;
                while index < state.handles.len()
                    invariant
                        index <= state.handles@.len(),
                        self@.machine.txn_state.offloading() == Some(*state),
                        forall|i: int|
                            0 <= i < index ==> (#[trigger] state.handles@[i]).status
                                != TransferStatus::Active,
                    decreases state.handles@.len() - index,
                {
                    if state.handles[index].status == TransferStatus::Active {
                        assert(state.inflight());
                        return true;
                    }
                    index = index + 1;
                }
                false
            },
            None => false,
        }
    }

    /// Starts over after the scheduler freed the device blocks.
    pub fn reset_for_preemption(&mut self)
        requires
            old(self).wf(),
        ensures
            final(self).wf(),
            final(self)@ == old(self)@.preempted(),
    {
        self.block_matches.clear();
        self.evaluated_tokens = 0;
        self.finished_evaluating = false;
        self.state.txn_to_inactive();
        self.match_requires_reset = false;
        self.matched_tokens_reported = false;
    }

    /// Whether blocks wait to be loaded during the forward pass.
    pub fn has_pending_intra_pass(&self) -> (pending: bool)
        ensures
            pending == (self@.pending is Some),
    {
        self.pending_intra_pass.is_some()
    }

    /// Appends blocks to be loaded during the forward pass.
    pub fn extend_pending_intra_pass(
        &mut self,
        g2_block_ids: Vec<BlockId>,
        g1_block_ids: Vec<BlockId>,
    )
        ensures
            final(self)@ == old(self)@.with_pending(g2_block_ids@, g1_block_ids@),
            final(self).valid() == old(self).valid(),
    {
        let mut g2_block_ids = g2_block_ids;
        let mut g1_block_ids = g1_block_ids;
        match self.pending_intra_pass.take() {
            Some(mut pending) => {
                pending.g2_block_ids.append(&mut g2_block_ids);
                pending.g1_block_ids.append(&mut g1_block_ids);
                self.pending_intra_pass = Some(pending);
            },
            None => {
                self.pending_intra_pass = Some(IntraPassPending { g2_block_ids, g1_block_ids });
            },
        }
    }

    /// Hands out the blocks to be loaded during the forward pass.
    pub fn take_pending_intra_pass(&mut self) -> (pending: Option<IntraPassPending>)
        ensures
            match pending {
                Some(p) => old(self)@.pending == Some(p@),
                None => old(self)@.pending is None,
            },
            final(self)@ == (SlotView { pending: None, ..old(self)@ }),
            final(self).valid() == old(self).valid(),
    {
        self.pending_intra_pass.take()
    }

    /// Closes a match check: moves the slot on and answers the scheduler.
    pub fn finalize_match_check<E>(&mut self, outcome: Result<MatchCheckOutcome, E>) -> (res: Result<
        (Option<usize>, bool),
        E,
    >)
        requires
            old(self).wf(),
        ensures
            final(self).wf(),
            (final(self)@, res) == old(self)@.match_checked(outcome),
    {
        match outcome {
            Ok(MatchCheckOutcome::InProgress) => Ok((None, false)),
            Ok(MatchCheckOutcome::NoMatch) => {
                self.state.txn_to_inactive();
                Ok((Some(0), false))
            },
            Ok(MatchCheckOutcome::Found { matched_tokens }) => {
                if matched_tokens == 0 {
                    self.state.txn_to_inactive();
                }
                Ok((Some(matched_tokens), matched_tokens > 0))
            },
            Err(e) => {
                self.state.txn_to_error();
                Err(e)
            },
        }
    }

    /// Records blocks that were handed to the offload engine.
    pub fn record_offload(
        &mut self,
        block_mappings: Vec<(BlockId, SequenceHash)>,
        handle: TransferHandle,
    ) -> (res: Result<(), RecordOffloadError>)
        requires
            old(self).wf(),
        ensures
            final(self).wf(),
            old(self)@.offload_recorded(block_mappings@, handle, final(self)@, res),
    {
        if self.is_marked_for_deletion() {
            return Err(RecordOffloadError::MarkedForDeletion);
        }
        let allowed: bool = match self.txn_state() {
            TransactionState::Inactive => true,
            TransactionState::Offloading(_) => true,
            _ => false,
        };
        if !allowed {
            return Err(RecordOffloadError::InvalidTransactionState);
        }
        let state = self.get_or_create_offloading_state();
        record_mappings(state, block_mappings, handle);
        Ok(())
    }

    /// Takes in how far a transfer has come. Answers whether the slot holds a
    /// handle of it.
    pub fn update_transfer_status(&mut self, transfer_id: u128, status: TransferStatus) -> (found:
        bool)
        requires
            old(self).wf(),
        ensures
            final(self).wf(),
            old(self)@.transfer_updated(transfer_id, status, final(self)@, found),
    {
        match self.offloading_state_mut() {
            Some(state) => update_handles(state, transfer_id, status),
            None => false,
        }
    }

    /// Distinct block ids handed to the offload engine.
    pub fn mapped_block_count(&self) -> (count: usize)
        ensures
            count == (match self@.machine.txn_state.offloading() {
                Some(state) => state.block_mappings@.len() as int,
                None => 0,
            }),
    {
        match self.state.offloading_state() {
            Some(state) => state.block_mappings.len(),
            None => 0,
        }
    }
}

/// Adds mappings and a transfer handle to an offload.
fn record_mappings(
    state: &mut OffloadingState,
    block_mappings: Vec<(BlockId, SequenceHash)>,
    handle: TransferHandle,
)
    ensures
        final(state).block_mappings@ == insert_all(old(state).block_mappings@, block_mappings@),
        final(state).handles@ == old(state).handles@.push(handle),
{
    let mut index: usize = 0;
    while index < block_mappings.len()
        invariant
            index <= block_mappings@.len(),
            state.handles == old(state).handles,
            state.block_mappings@ == insert_all(
                old(state).block_mappings@,
                block_mappings@.take(index as int),
            ),
        decreases block_mappings@.len() - index,
    {
        let (block_id, sequence_hash): (BlockId, SequenceHash) = block_mappings[index];
        state.block_mappings.insert(block_id, sequence_hash);
        assert(block_mappings@.take(index + 1).drop_last() =~= block_mappings@.take(index as int));
        index = index + 1;
    }
    assert(block_mappings@.take(index as int) =~= block_mappings@);
    state.handles.push(handle);
}

/// Gives the handles of one transfer a status.
fn update_handles(state: &mut OffloadingState, transfer_id: u128, status: TransferStatus) -> (found:
    bool)
    ensures
        final(state).block_mappings == old(state).block_mappings,
        final(state).handles@ == with_status(old(state).handles@, transfer_id, status),
        found == has_transfer(old(state).handles@, transfer_id),
{
    let mut found: bool = false;
    let mut index: usize = 0;
    while index < state.handles.len()
        invariant
            index <= state.handles@.len(),
            state.block_mappings == old(state).block_mappings,
            state.handles@.len() == old(state).handles@.len(),
            forall|i: int|
                0 <= i < index ==> #[trigger] state.handles@[i] == with_status(
                    old(state).handles@,
                    transfer_id,
                    status,
                )[i],
            forall|i: int|
                index <= i < state.handles@.len() ==> #[trigger] state.handles@[i] == old(
                    state,
                ).handles@[i],
            found == has_transfer(old(state).handles@.take(index as int), transfer_id),
        decreases state.handles@.len() - index,
    {
        let ghost handles = old(state).handles@;
        let ghost before = handles.take(index as int);
        let ghost after = handles.take(index + 1);
        proof {
            assert(after[index as int] == handles[index as int]);
            if has_transfer(before, transfer_id) {
                let i = choose|i: int|
                    0 <= i < before.len() && (#[trigger] before[i]).transfer_id == transfer_id;
                assert(after[i].transfer_id == transfer_id);
            }
            if has_transfer(after, transfer_id) {
                let i = choose|i: int|
                    0 <= i < after.len() && (#[trigger] after[i]).transfer_id == transfer_id;
                if i < index {
                    assert(before[i].transfer_id == transfer_id);
                }
            }
        }
        if state.handles[index].transfer_id == transfer_id {
            state.handles[index] = TransferHandle { transfer_id, status };
            found = true;
        }
        index = index + 1;
    }
    assert(old(state).handles@.take(index as int) =~= old(state).handles@);
    assert(state.handles@ =~= with_status(old(state).handles@, transfer_id, status));
    found
}

/// The answer to a match check promises an asynchronous load exactly when it
/// names a positive number of tokens.
pub proof fn law_async_iff_tokens<E>(slot: SlotView, outcome: Result<MatchCheckOutcome, E>)
    ensures
        slot.match_checked(outcome).1 matches Ok((count, asynchronous)) ==> (asynchronous <==> (
        count matches Some(n) && n > 0)),
{
}

/// A recorded offload that still runs keeps its slot from being evicted.
pub proof fn law_recorded_offload_is_inflight(
    slot: SlotView,
    block_mappings: Seq<(BlockId, SequenceHash)>,
    handle: TransferHandle,
    after: SlotView,
    res: Result<(), RecordOffloadError>,
)
    requires
        slot.offload_recorded(block_mappings, handle, after, res),
        res is Ok,
    ensures
        handle.status == TransferStatus::Active ==> after.inflight(),
        slot.inflight() ==> after.inflight(),
{
    let state = after.machine.txn_state.offloading()->0;
    assert(state.handles@.last() == handle);
    if slot.inflight() {
        let before = slot.machine.txn_state.offloading()->0;
        let i = choose|i: int|
            0 <= i < before.handles@.len() && (#[trigger] before.handles@[i]).status
                == TransferStatus::Active;
        assert(state.handles@[i] == before.handles@[i]);
    }
}

/// Once a transfer has ended, its slot is held only by other transfers.
pub proof fn law_ended_transfer_releases_slot(
    slot: SlotView,
    transfer_id: u128,
    after: SlotView,
    found: bool,
)
    requires
        slot.transfer_updated(transfer_id, TransferStatus::Terminal, after, found),
    ensures
        after.inflight() <==> (slot.machine.txn_state.offloading() matches Some(state) && exists|
            i: int,
        |
            0 <= i < state.handles@.len() && (#[trigger] state.handles@[i]).status
                == TransferStatus::Active && state.handles@[i].transfer_id != transfer_id),
{
    if let Some(before) = slot.machine.txn_state.offloading() {
        let state = after.machine.txn_state.offloading()->0;
        assert forall|i: int| 0 <= i < before.handles@.len() implies #[trigger] state.handles@[i]
            == with_status(before.handles@, transfer_id, TransferStatus::Terminal)[i] by {}
        if after.inflight() {
            let i = choose|i: int|
                0 <= i < state.handles@.len() && (#[trigger] state.handles@[i]).status
                    == TransferStatus::Active;
            assert(before.handles@[i].transfer_id != transfer_id);
        }
        if exists|i: int|
            0 <= i < before.handles@.len() && (#[trigger] before.handles@[i]).status
                == TransferStatus::Active && before.handles@[i].transfer_id != transfer_id {
            let i = choose|i: int|
                0 <= i < before.handles@.len() && (#[trigger] before.handles@[i]).status
                    == TransferStatus::Active && before.handles@[i].transfer_id != transfer_id;
            assert(state.handles@[i] == before.handles@[i]);
        }
    }
}

/// Preempting a slot twice is the same as preempting it once, and never touches
/// its tokens or its pending intra-pass loads.
pub proof fn law_preemption_idempotent(slot: SlotView)
    ensures
        slot.preempted().preempted() == slot.preempted(),
        slot.preempted().sequence == slot.sequence,
        slot.preempted().pending == slot.pending,
        slot.preempted().machine.marked() == slot.machine.marked(),
{
}

/// However a prompt is cut into scheduler steps, the steps together name the
/// blocks that one step over all of it names: nothing is offloaded twice and
/// nothing is passed over.
pub proof fn law_scheduler_steps_compose(slot: SlotView, first: int, second: int)
    requires
        slot.sequence.block_size > 0,
        0 <= first,
        0 <= second,
        slot.evaluated_tokens + first + second <= usize::MAX,
    ensures
        slot.step_mappings(first) + slot.advanced(first).step_mappings(second)
            == slot.step_mappings(first + second),
{
    let size = slot.sequence.block_size as int;
    let start = slot.evaluated_tokens as int;
    vstd::arithmetic::div_mod::lemma_div_is_ordered(start, start + first, size);
    vstd::arithmetic::div_mod::lemma_div_is_ordered(start + first, start + first + second, size);
    vstd::arithmetic::div_mod::lemma_div_pos_is_pos(start, size);
    assert(slot.advanced(first).evaluated_tokens == start + first);
    crate::assignment::law_mapping_steps_compose(
        slot.blocks,
        start / size,
        (start + first) / size,
        (start + first + second) / size,
    );
}

/// A step that starts with the prompt names the blocks whose tokens it
/// completes and that have an id, and no others: block `index` is among them
/// exactly if its last token is scheduled.
pub proof fn law_first_step_completes_blocks(slot: SlotView, scheduled: int, index: int)
    requires
        slot.sequence.block_size > 0,
        slot.evaluated_tokens == 0,
        0 <= scheduled,
        0 <= index < slot.blocks.assigned.len(),
    ensures
        (index + 1) * slot.sequence.block_size <= scheduled <==> index < slot.step_mappings(
            scheduled,
        ).len(),
        index < slot.step_mappings(scheduled).len() ==> slot.step_mappings(scheduled)[index] == (
            slot.blocks.assigned[index].block_id,
            slot.blocks.assigned[index].sequence_hash,
        ),
{
    let size = slot.sequence.block_size as int;
    let end = scheduled / size;
    vstd::arithmetic::div_mod::lemma_fundamental_div_mod(scheduled, size);
    vstd::arithmetic::div_mod::lemma_mod_bound(scheduled, size);
    vstd::arithmetic::div_mod::lemma_div_pos_is_pos(scheduled, size);
    assert(0int / size == 0) by {
        vstd::arithmetic::div_mod::lemma_small_div_converse(0, size);
        vstd::arithmetic::div_mod::lemma_basic_div(0, size);
    }
    let rest = scheduled % size;
    if index < end {
        assert((index + 1) * size <= size * end) by (nonlinear_arith)
            requires
                index + 1 <= end,
                size > 0,
        ;
    } else {
        assert((index + 1) * size > size * end + rest) by (nonlinear_arith)
            requires
                index >= end,
                rest < size,
                size > 0,
        ;
    }
    crate::assignment::law_mappings_name_every_block(slot.blocks, end);
}

/// Preemption forgets assignments, evaluation and the running transaction, and
/// nothing that belongs to the request.
pub proof fn law_preemption_starts_over(slot: SlotView)
    ensures
        slot.preempted().blocks.assigned.len() == 0,
        slot.preempted().blocks.unassigned.len() == 0,
        slot.preempted().evaluated_tokens == 0,
        !slot.preempted().finished_evaluating,
        !slot.preempted().match_requires_reset,
        !slot.preempted().matched_tokens_reported,
        slot.preempted().machine.txn_state is Inactive,
        slot.preempted().request == slot.request,
        slot.preempted().sequence == slot.sequence,
        slot.preempted().initial_isl_tokens == slot.initial_isl_tokens,
        slot.preempted().pending == slot.pending,
{
}

/// A resumed request ends up with the scheduler's tokens: those past what the
/// slot knows are appended, and a list that is no longer changes nothing.
pub proof fn law_resumed_slot_has_all_tokens(slot: SlotView, all: Seq<u32>)
    ensures
        slot.resumed(None) == slot.sequence,
        slot.resumed(Some(all)).block_size == slot.sequence.block_size,
        slot.resumed(Some(all)).salt == slot.sequence.salt,
        all.len() <= slot.sequence.tokens.len() ==> slot.resumed(Some(all)) == slot.sequence,
        all.len() > slot.sequence.tokens.len() ==> {
            let tokens = slot.resumed(Some(all)).tokens;
            let known = slot.sequence.tokens.len() as int;
            &&& tokens.len() == all.len()
            &&& forall|i: int| 0 <= i < known ==> #[trigger] tokens[i] == slot.sequence.tokens[i]
            &&& forall|i: int| known <= i < all.len() ==> #[trigger] tokens[i] == all[i]
        },
        slot.sequence.tokens.is_prefix_of(all) ==> slot.resumed(Some(all)).tokens == all,
{
    if slot.sequence.tokens.is_prefix_of(all) {
        assert(slot.resumed(Some(all)).tokens =~= all);
    }
}

/// A match check leaves a slot alone while it runs or has found tokens, makes
/// it idle if there is nothing to load, and puts it in error if it failed.
pub proof fn law_match_check_moves_slot<E>(
    slot: SlotView,
    outcome: Result<MatchCheckOutcome, E>,
)
    ensures
        match outcome {
            Ok(MatchCheckOutcome::InProgress) => slot.match_checked(outcome) == (
                slot,
                Ok::<(Option<usize>, bool), E>((None, false)),
            ),
            Ok(MatchCheckOutcome::NoMatch) => {
                &&& slot.match_checked(outcome).0.machine.txn_state is Inactive
                &&& slot.match_checked(outcome).1 == Ok::<(Option<usize>, bool), E>(
                    (Some(0usize), false),
                )
            },
            Ok(MatchCheckOutcome::Found { matched_tokens }) => {
                &&& matched_tokens > 0 ==> slot.match_checked(outcome).0 == slot
                &&& matched_tokens == 0 ==> slot.match_checked(
                    outcome,
                ).0.machine.txn_state is Inactive
                &&& slot.match_checked(outcome).1 == Ok::<(Option<usize>, bool), E>(
                    (Some(matched_tokens), matched_tokens > 0),
                )
            },
            Err(error) => {
                &&& slot.match_checked(outcome).1 == Err::<(Option<usize>, bool), E>(error)
                &&& slot.match_checked(outcome).0.machine.txn_state is Error
                    || slot.machine.txn_state is Inactive
                &&& slot.machine.txn_state matches TransactionState::PreparingToOnboard(state)
                    ==> slot.match_checked(outcome).0.machine.txn_state
                    == TransactionState::Error(ActiveStateData::Onboarding(state))
            },
        },
        slot.match_checked(outcome).0 == (SlotView {
            machine: slot.match_checked(outcome).0.machine,
            ..slot
        }),
{
}

/// Preparing an idle active slot puts it into the search phase over exactly the
/// shard it was given, and starts its evaluation over.
pub proof fn law_prepared_slot_searches(
    slot: SlotView,
    num_computed_tokens: usize,
    total_tokens_at_start: usize,
    shard: OnboardingShard,
    after: SlotView,
    res: Result<(), StateTransitionError>,
)
    requires
        slot.onboarding_prepared(num_computed_tokens, total_tokens_at_start, shard, after, res),
    ensures
        res is Ok <==> slot.machine.slot_state == crate::connector::machine::SlotState::Active
            && slot.machine.txn_state is Inactive,
        res is Ok ==> (after.machine.txn_state matches TransactionState::PreparingToOnboard(state)
            && {
            &&& state.shards@.len() == 1
            &&& state.shards@[0] == shard
            &&& state.num_computed_tokens == num_computed_tokens
            &&& state.total_tokens_at_start == total_tokens_at_start
            &&& state.cd_payload is None
        }),
        res is Err ==> after.machine == slot.machine,
        after.evaluated_tokens == 0,
        !after.matched_tokens_reported,
        after.blocks == slot.blocks,
        after.sequence == slot.sequence,
        after.pending == slot.pending,
{
}

/// What was inserted last for a block id is what the map holds for it; other
/// ids keep what they had.
pub proof fn law_insert_all_keeps_latest(
    map: Map<BlockId, SequenceHash>,
    pairs: Seq<(BlockId, SequenceHash)>,
    index: int,
    other: BlockId,
)
    ensures
        0 <= index < pairs.len() && (forall|j: int|
            index < j < pairs.len() ==> (#[trigger] pairs[j]).0 != pairs[index].0) ==> insert_all(
            map,
            pairs,
        ).contains_pair(pairs[index].0, pairs[index].1),
        (forall|j: int| 0 <= j < pairs.len() ==> (#[trigger] pairs[j]).0 != other) ==> {
            &&& insert_all(map, pairs).contains_key(other) == map.contains_key(other)
            &&& map.contains_key(other) ==> insert_all(map, pairs)[other] == map[other]
        },
    decreases pairs.len(),
{
    if pairs.len() > 0 {
        let rest = pairs.drop_last();
        assert(pairs[pairs.len() - 1] == pairs.last());
        assert forall|j: int| 0 <= j < rest.len() implies #[trigger] rest[j] == pairs[j] by {}
        law_insert_all_keeps_latest(map, rest, index, other);
    }
}

/// An offload is recorded exactly in an active slot that is idle or offloads
/// already. Every block that was handed over is then mapped, and the handle is
/// the latest; earlier handles stay.
pub proof fn law_recorded_offload_is_kept(
    slot: SlotView,
    block_mappings: Seq<(BlockId, SequenceHash)>,
    handle: TransferHandle,
    after: SlotView,
    res: Result<(), RecordOffloadError>,
    index: int,
)
    requires
        slot.offload_recorded(block_mappings, handle, after, res),
    ensures
        res is Ok <==> slot.machine.slot_state == crate::connector::machine::SlotState::Active && (
        slot.machine.txn_state is Inactive || slot.machine.txn_state is Offloading),
        res is Err ==> after == slot,
        res is Ok ==> (after.machine.txn_state matches TransactionState::Offloading(state) && {
            &&& state.handles@.len() > 0
            &&& state.handles@.last() == handle
            &&& slot.machine.txn_state matches TransactionState::Offloading(held)
                ==> state.handles@.drop_last() == held.handles@
            &&& slot.machine.txn_state is Inactive ==> state.handles@.len() == 1
            &&& 0 <= index < block_mappings.len() && (forall|j: int|
                index < j < block_mappings.len() ==> (#[trigger] block_mappings[j]).0
                    != block_mappings[index].0) ==> state.block_mappings@.contains_pair(
                block_mappings[index].0,
                block_mappings[index].1,
            )
        }),
        after == (SlotView { machine: after.machine, ..slot }),
{
    if res is Ok {
        let state = after.machine.txn_state.offloading()->0;
        let held = match slot.machine.txn_state.offloading() {
            Some(s) => s.block_mappings@,
            None => Map::<BlockId, SequenceHash>::empty(),
        };
        law_insert_all_keeps_latest(held, block_mappings, index, 0);
        if let Some(s) = slot.machine.txn_state.offloading() {
            assert(state.handles@.drop_last() =~= s.handles@);
        }
    }
}

/// A progress report changes the handles of its own transfer and nothing else.
pub proof fn law_transfer_update_touches_one(
    slot: SlotView,
    transfer_id: u128,
    status: TransferStatus,
    after: SlotView,
    found: bool,
    index: int,
)
    requires
        slot.transfer_updated(transfer_id, status, after, found),
    ensures
        match slot.machine.txn_state {
            TransactionState::Offloading(held) => {
                &&& after.machine.txn_state matches TransactionState::Offloading(state) && {
                    &&& state.block_mappings == held.block_mappings
                    &&& state.handles@.len() == held.handles@.len()
                    &&& 0 <= index < held.handles@.len() ==> {
                        &&& state.handles@[index].transfer_id == held.handles@[index].transfer_id
                        &&& held.handles@[index].transfer_id == transfer_id
                            ==> state.handles@[index].status == status && found
                        &&& held.handles@[index].transfer_id != transfer_id
                            ==> state.handles@[index] == held.handles@[index]
                    }
                }
            },
            _ => after == slot && !found,
        },
        after.machine.slot_state == slot.machine.slot_state,
        after == (SlotView { machine: after.machine, ..slot }),
{
}

/// Blocks for the forward pass queue up behind those that wait already.
pub proof fn law_pending_blocks_queue_up(slot: SlotView, g2: Seq<BlockId>, g1: Seq<BlockId>)
    ensures
        slot.with_pending(g2, g1).pending matches Some(pending) && match slot.pending {
            Some(waiting) => pending.g2 == waiting.g2 + g2 && pending.g1 == waiting.g1 + g1,
            None => pending.g2 == g2 && pending.g1 == g1,
        },
        slot.with_pending(g2, g1) == (SlotView {
            pending: slot.with_pending(g2, g1).pending,
            ..slot
        }),
{
}

/// A slot holds device blocks in use exactly while it offloads and one of its
/// transfers is active.
pub proof fn law_slot_inflight_means_active_transfer(slot: SlotView)
    ensures
        slot.inflight() <==> (slot.machine.txn_state matches TransactionState::Offloading(state)
            && exists|i: int|
            0 <= i < state.handles@.len() && (#[trigger] state.handles@[i]).status
                == TransferStatus::Active),
{
}

/// The blocks queried by a slot are those between the first start and the last
/// end of its shards; a slot without an onboarding queries none.
pub proof fn law_queried_blocks_of_slot(slot: SlotView)
    requires
        slot.wf(),
    ensures
        match slot.machine.txn_state {
            TransactionState::PreparingToOnboard(state) => state.shards@.len() > 0
                ==> slot.query_blocks() == state.shards@.last().start_block
                + state.shards@.last().num_queried_blocks - state.shards@[0].start_block,
            TransactionState::Onboarding(state) => state.shards@.len() > 0 ==> slot.query_blocks()
                == state.shards@.last().start_block + state.shards@.last().num_queried_blocks
                - state.shards@[0].start_block,
            _ => slot.query_blocks() == 0,
        },
{
    if let Some(state) = slot.machine.txn_state.onboarding() {
        crate::connector::onboarding::lemma_queried_sum_is_extent(state.shards@);
    }
}

} // verus!
