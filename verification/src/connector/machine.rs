//! Transaction and lifecycle state of a request slot.
//!
//! A slot runs at most one transaction at a time. The transaction's data lives
//! inside the state that owns it, so it cannot be reached from any other.

use crate::common::BlockId;
use crate::connector::onboarding::{CdOnboardingPayload, OnboardingState};
use crate::tokens::SequenceHash;
use std::collections::HashMap;
use vstd::prelude::*;

verus! {

broadcast use vstd::std_specs::hash::group_hash_axioms;

/// Errors that can occur during state transitions.
#[derive(Debug, Clone, Copy)]
pub enum StateTransitionError {
    /// The current state does not allow the transition.
    InvalidTransition { from: &'static str, to: &'static str },
    /// The slot is marked for deletion; it accepts no new transaction.
    MarkedForDeletion,
}

impl StateTransitionError {
    /// The error is an invalid transition between the named states.
    pub open spec fn is_invalid(self, from: Seq<char>, to: Seq<char>) -> bool {
        self matches StateTransitionError::InvalidTransition { from: f, to: t } && f@ == from && t@
            == to
    }

    /// The text of the error.
    pub open spec fn text(self) -> Seq<char> {
        match self {
            StateTransitionError::InvalidTransition { from, to } => "Invalid transition from "@
                + from@ + " to "@ + to@,
            StateTransitionError::MarkedForDeletion =>
                "Slot is marked for deletion; no new transactions allowed"@,
        }
    }

    /// Renders the error.
    pub fn message(&self) -> (message: String)
        ensures
            message@ == self.text(),
    {
        match self {
            StateTransitionError::InvalidTransition { from, to } => {
                let mut message = String::from_str("Invalid transition from ");
                message.append(from);
                message.append(" to ");
                message.append(to);
                message
            },
            StateTransitionError::MarkedForDeletion => String::from_str(
                "Slot is marked for deletion; no new transactions allowed",
            ),
        }
    }
}

/// Progress of one offload transfer.
#[derive(Debug, Clone, Copy, PartialEq, Eq, Structural)]
pub enum TransferStatus {
    /// The transfer may still read its source blocks.
    Active,
    /// The transfer has ended, successfully or not.
    Terminal,
}

/// Handle of one offload transfer.
#[derive(Debug, Clone, Copy, PartialEq, Eq, Structural)]
pub struct TransferHandle {
    pub transfer_id: u128,
    pub status: TransferStatus,
}

/// Data of an offloading transaction.
pub struct OffloadingState {
    /// Hash of every block that was handed to the offload engine, by block id.
    pub block_mappings: HashMap<BlockId, SequenceHash>,
    /// Handles of the transfers, in the order they were issued.
    pub handles: Vec<TransferHandle>,
}

impl OffloadingState {
    /// Nothing offloaded.
    pub open spec fn is_fresh(self) -> bool {
        &&& self.block_mappings@ == Map::<BlockId, SequenceHash>::empty()
        &&& self.handles@ == Seq::<TransferHandle>::empty()
    }

    /// Some transfer may still read its source blocks.
    pub open spec fn inflight(self) -> bool {
        exists|i: int|
            0 <= i < self.handles@.len() && (#[trigger] self.handles@[i]).status
                == TransferStatus::Active
    }
}

impl Default for OffloadingState {
    fn default() -> (state: Self)
        ensures
            state.is_fresh(),
    {
        OffloadingState { block_mappings: HashMap::new(), handles: Vec::new() }
    }
}

/// State data that an error state keeps for recovery.
pub enum ActiveStateData {
    Onboarding(OnboardingState),
    Offloading(OffloadingState),
}

/// The transaction that a slot runs.
pub enum TransactionState {
    /// No onboarding or offloading.
    Inactive,
    /// Searching for blocks and staging them.
    PreparingToOnboard(OnboardingState),
    /// Loading blocks into worker memory.
    Onboarding(OnboardingState),
    /// Moving blocks out of worker memory.
    Offloading(OffloadingState),
    /// Failed; the data is kept for recovery.
    Error(ActiveStateData),
}

impl TransactionState {
    /// The name of the state.
    pub open spec fn name_text(self) -> Seq<char> {
        match self {
            TransactionState::Inactive => "Inactive"@,
            TransactionState::PreparingToOnboard(_) => "PreparingToOnboard"@,
            TransactionState::Onboarding(_) => "Onboarding"@,
            TransactionState::Offloading(_) => "Offloading"@,
            TransactionState::Error(_) => "Error"@,
        }
    }

    /// The onboarding data of a running onboarding.
    pub open spec fn onboarding(self) -> Option<OnboardingState> {
        match self {
            TransactionState::PreparingToOnboard(state) => Some(state),
            TransactionState::Onboarding(state) => Some(state),
            _ => None,
        }
    }

    /// The data of a running offload.
    pub open spec fn offloading(self) -> Option<OffloadingState> {
        match self {
            TransactionState::Offloading(state) => Some(state),
            _ => None,
        }
    }

    /// The state a failure leads to: the data is kept, an idle slot stays idle.
    pub open spec fn failed(self) -> Self {
        match self {
            TransactionState::Inactive => TransactionState::Inactive,
            TransactionState::PreparingToOnboard(state) => TransactionState::Error(
                ActiveStateData::Onboarding(state),
            ),
            TransactionState::Onboarding(state) => TransactionState::Error(
                ActiveStateData::Onboarding(state),
            ),
            TransactionState::Offloading(state) => TransactionState::Error(
                ActiveStateData::Offloading(state),
            ),
            TransactionState::Error(data) => TransactionState::Error(data),
        }
    }

    /// Any onboarding data in the state satisfies its invariant.
    pub open spec fn wf(self) -> bool {
        match self {
            TransactionState::PreparingToOnboard(state) => state.wf(),
            TransactionState::Onboarding(state) => state.wf(),
            TransactionState::Error(ActiveStateData::Onboarding(state)) => state.wf(),
            _ => true,
        }
    }

    /// Name of the current state.
    pub fn name(&self) -> (name: &'static str)
        ensures
            name@ == self.name_text(),
    {
        match self {
            TransactionState::Inactive => "Inactive",
            TransactionState::PreparingToOnboard(_) => "PreparingToOnboard",
            TransactionState::Onboarding(_) => "Onboarding",
            TransactionState::Offloading(_) => "Offloading",
            TransactionState::Error(_) => "Error",
        }
    }

    /// True if no transaction runs.
    pub fn is_inactive(&self) -> (inactive: bool)
        ensures
            inactive == (*self is Inactive),
    {
        match self {
            TransactionState::Inactive => true,
            _ => false,
        }
    }
}

/// Lifecycle of the slot itself.
#[derive(Debug, Clone, Copy, PartialEq, Eq, Structural)]
pub enum SlotState {
    /// Transactions may start.
    Active,
    /// The slot waits for its last transaction; none may start.
    MarkedForDeletion,
    /// The workers are to be told that the request has finished.
    NotifyWorkersToFinish,
    /// The workers have been told; each will report back.
    AwaitCompletion,
}

impl SlotState {
    /// The lifecycle state once the running transaction has ended.
    pub open spec fn after_transaction(self) -> Self {
        match self {
            SlotState::MarkedForDeletion => SlotState::NotifyWorkersToFinish,
            other => other,
        }
    }

    /// The lifecycle state once the request has finished.
    pub open spec fn after_finish(self) -> Self {
        match self {
            SlotState::Active => SlotState::MarkedForDeletion,
            other => other,
        }
    }
}

/// Answer to a finished request.
#[derive(Debug, Clone, Copy, PartialEq, Eq, Structural)]
pub enum FinishedStatus {
    /// No transaction runs; the slot can be removed.
    Finished,
    /// A transaction runs; its completion has to be awaited.
    Pending,
    /// There is no slot for the request.
    UntrackedRequest,
}

/// Lifecycle and transaction state of one slot.
pub struct SlotStateMachine {
    pub slot_state: SlotState,
    pub txn_state: TransactionState,
}

impl SlotStateMachine {
    /// The invariant: onboarding data is well-formed wherever it is kept.
    pub open spec fn wf(self) -> bool {
        self.txn_state.wf()
    }

    /// The same lifecycle with another transaction state.
    pub open spec fn with_txn(self, txn_state: TransactionState) -> Self {
        SlotStateMachine { slot_state: self.slot_state, txn_state }
    }

    /// The machine once the running transaction has ended.
    pub open spec fn settled(self) -> Self {
        SlotStateMachine {
            slot_state: self.slot_state.after_transaction(),
            txn_state: TransactionState::Inactive,
        }
    }

    /// The machine once the request has finished.
    pub open spec fn finished(self) -> Self {
        SlotStateMachine {
            slot_state: self.slot_state.after_finish(),
            txn_state: self.txn_state,
        }
    }

    /// What the one who finishes the request hears.
    pub open spec fn finish_status(self) -> FinishedStatus {
        match self.txn_state {
            TransactionState::Inactive => FinishedStatus::Finished,
            _ => FinishedStatus::Pending,
        }
    }

    /// A slot that is marked for deletion starts no transaction.
    pub open spec fn marked(self) -> bool {
        self.slot_state != SlotState::Active
    }

    /// What starting a transaction out of `Inactive` comes to.
    pub open spec fn started(
        self,
        next: TransactionState,
        to: Seq<char>,
        after: Self,
        res: Result<(), StateTransitionError>,
    ) -> bool {
        if self.marked() {
            res == Err::<(), StateTransitionError>(StateTransitionError::MarkedForDeletion)
                && after == self
        } else if self.txn_state is Inactive {
            res == Ok::<(), StateTransitionError>(()) && after == self.with_txn(next)
        } else {
            res matches Err(e) && e.is_invalid(self.txn_state.name_text(), to) && after == self
        }
    }

    /// What moving from the preparing to the loading phase comes to.
    pub open spec fn promoted(self, after: Self, res: Result<(), StateTransitionError>) -> bool {
        if self.marked() {
            res == Err::<(), StateTransitionError>(StateTransitionError::MarkedForDeletion)
                && after == self
        } else {
            match self.txn_state {
                TransactionState::PreparingToOnboard(state) => {
                    &&& res == Ok::<(), StateTransitionError>(())
                    &&& after == self.with_txn(TransactionState::Onboarding(state))
                },
                _ => {
                    &&& res matches Err(e) && e.is_invalid(
                        self.txn_state.name_text(),
                        "Onboarding"@,
                    )
                    &&& after == self
                },
            }
        }
    }

    /// What attaching a remote prefill comes to.
    ///
    /// An idle slot starts loading with the payload alone. A slot that prepares
    /// or loads gets the payload attached and is loading afterwards, unless it
    /// carries one already. Every other state refuses.
    pub open spec fn attached(
        self,
        payload: Option<Box<dyn CdOnboardingPayload>>,
        after: Self,
        res: Result<(), StateTransitionError>,
    ) -> bool {
        if self.marked() {
            res == Err::<(), StateTransitionError>(StateTransitionError::MarkedForDeletion)
                && after == self
        } else {
            match self.txn_state {
                TransactionState::Inactive => {
                    &&& res == Ok::<(), StateTransitionError>(())
                    &&& after.slot_state == self.slot_state
                    &&& after.txn_state matches TransactionState::Onboarding(state)
                    &&& state.is_cd_only(payload)
                },
                TransactionState::Onboarding(state) => if state.cd_payload is Some {
                    &&& res matches Err(e) && e.is_invalid(
                        "Onboarding(cd_payload=Some)"@,
                        "Onboarding(cd_payload attach)"@,
                    )
                    &&& after == self
                } else {
                    &&& res == Ok::<(), StateTransitionError>(())
                    &&& after == self.with_txn(
                        TransactionState::Onboarding(
                            OnboardingState { cd_payload: payload, ..state },
                        ),
                    )
                },
                TransactionState::PreparingToOnboard(state) => if state.cd_payload is Some {
                    &&& res matches Err(e) && e.is_invalid(
                        "PreparingToOnboard(cd_payload=Some)"@,
                        "Onboarding(cd_payload attach)"@,
                    )
                    &&& after == self
                } else {
                    &&& res == Ok::<(), StateTransitionError>(())
                    &&& after == self.with_txn(
                        TransactionState::Onboarding(
                            OnboardingState { cd_payload: payload, ..state },
                        ),
                    )
                },
                _ => {
                    &&& res matches Err(e) && e.is_invalid(
                        self.txn_state.name_text(),
                        "Onboarding(cd_payload install)"@,
                    )
                    &&& after == self
                },
            }
        }
    }

    /// What taking a transaction's data comes to, when `held` is the data that
    /// the current state would give up.
    pub open spec fn taken<T>(
        self,
        held: Option<T>,
        to: Seq<char>,
        after: Self,
        res: Result<T, StateTransitionError>,
    ) -> bool {
        match held {
            Some(data) => res == Ok::<T, StateTransitionError>(data) && after == self.settled(),
            None => {
                &&& res matches Err(e) && e.is_invalid(self.txn_state.name_text(), to)
                &&& after == self
            },
        }
    }

    /// The data of the loading phase.
    pub open spec fn loading(self) -> Option<OnboardingState> {
        match self.txn_state {
            TransactionState::Onboarding(state) => Some(state),
            _ => None,
        }
    }

    /// The data of the preparing phase.
    pub open spec fn preparing(self) -> Option<OnboardingState> {
        match self.txn_state {
            TransactionState::PreparingToOnboard(state) => Some(state),
            _ => None,
        }
    }

    /// The data kept by an error.
    pub open spec fn error_data(self) -> Option<ActiveStateData> {
        match self.txn_state {
            TransactionState::Error(data) => Some(data),
            _ => None,
        }
    }

    /// A machine in its initial state.
    pub fn new() -> (machine: Self)
        ensures
            machine == (SlotStateMachine {
                slot_state: SlotState::Active,
                txn_state: TransactionState::Inactive,
            }),
    {
        SlotStateMachine { slot_state: SlotState::Active, txn_state: TransactionState::Inactive }
    }

    /// The current transaction state.
    pub fn txn_state(&self) -> (state: &TransactionState)
        ensures
            *state == self.txn_state,
    {
        &self.txn_state
    }

    /// True unless the slot is active.
    pub fn is_marked_for_deletion(&self) -> (marked: bool)
        ensures
            marked == self.marked(),
    {
        self.slot_state != SlotState::Active
    }

    /// Ends the running transaction. A slot that waited for it goes on to
    /// notify the workers.
    pub fn txn_to_inactive(&mut self)
        ensures
            *final(self) == old(self).settled(),
    {
        self.txn_state = TransactionState::Inactive;
        if self.slot_state == SlotState::MarkedForDeletion {
            self.slot_state = SlotState::NotifyWorkersToFinish;
        }
    }

    /// Starts preparing to onboard. Only valid while inactive.
    pub fn txn_prepare_to_onboard(&mut self, state: OnboardingState) -> (res: Result<
        (),
        StateTransitionError,
    >)
        ensures
            old(self).started(
                TransactionState::PreparingToOnboard(state),
                "PreparingToOnboard"@,
                *final(self),
                res,
            ),
    {
        if self.is_marked_for_deletion() {
            return Err(StateTransitionError::MarkedForDeletion);
        }
        match &self.txn_state {
            TransactionState::Inactive => {
                self.txn_state = TransactionState::PreparingToOnboard(state);
                Ok(())
            },
            other => Err(
                StateTransitionError::InvalidTransition {
                    from: other.name(),
                    to: "PreparingToOnboard",
                },
            ),
        }
    }

    /// Moves from preparing to loading. Only valid while preparing.
    pub fn txn_start_onboarding(&mut self) -> (res: Result<(), StateTransitionError>)
        ensures
            old(self).promoted(*final(self), res),
    {
        if self.is_marked_for_deletion() {
            return Err(StateTransitionError::MarkedForDeletion);
        }
        let mut current = TransactionState::Inactive;
        std::mem::swap(&mut self.txn_state, &mut current);
        match current {
            TransactionState::PreparingToOnboard(state) => {
                self.txn_state = TransactionState::Onboarding(state);
                Ok(())
            },
            other => {
                self.txn_state = other;
                Err(
                    StateTransitionError::InvalidTransition {
                        from: self.txn_state.name(),
                        to: "Onboarding",
                    },
                )
            },
        }
    }

    /// Ends the loading phase and hands its data out.
    pub fn txn_take_onboarding(&mut self) -> (res: Result<OnboardingState, StateTransitionError>)
        ensures
            old(self).taken(
                old(self).loading(),
                "Inactive (via take_onboarding)"@,
                *final(self),
                res,
            ),
    {
        let mut current = TransactionState::Inactive;
        std::mem::swap(&mut self.txn_state, &mut current);
        match current {
            TransactionState::Onboarding(state) => {
                self.txn_to_inactive();
                Ok(state)
            },
            other => {
                self.txn_state = other;
                Err(
                    StateTransitionError::InvalidTransition {
                        from: self.txn_state.name(),
                        to: "Inactive (via take_onboarding)",
                    },
                )
            },
        }
    }

    /// Installs the cleanup hook of a remote prefill, or attaches it to the
    /// onboarding that runs.
    pub fn txn_install_or_attach_cd_payload(
        &mut self,
        cd_payload: Option<Box<dyn CdOnboardingPayload>>,
    ) -> (res: Result<(), StateTransitionError>)
        requires
            cd_payload is Some,
        ensures
            old(self).attached(cd_payload, *final(self), res),
    {
        if self.is_marked_for_deletion() {
            return Err(StateTransitionError::MarkedForDeletion);
        }
        let mut current = TransactionState::Inactive;
        std::mem::swap(&mut self.txn_state, &mut current);
        match current {
            TransactionState::Inactive => {
                self.txn_state = TransactionState::Onboarding(OnboardingState::carrying(cd_payload));
                Ok(())
            },
            TransactionState::Onboarding(mut state) => {
                if state.cd_payload.is_some() {
                    self.txn_state = TransactionState::Onboarding(state);
                    return Err(
                        StateTransitionError::InvalidTransition {
                            from: "Onboarding(cd_payload=Some)",
                            to: "Onboarding(cd_payload attach)",
                        },
                    );
                }
                state.cd_payload = cd_payload;
                self.txn_state = TransactionState::Onboarding(state);
                Ok(())
            },
            TransactionState::PreparingToOnboard(mut state) => {
                if state.cd_payload.is_some() {
                    self.txn_state = TransactionState::PreparingToOnboard(state);
                    return Err(
                        StateTransitionError::InvalidTransition {
                            from: "PreparingToOnboard(cd_payload=Some)",
                            to: "Onboarding(cd_payload attach)",
                        },
                    );
                }
                state.cd_payload = cd_payload;
                self.txn_state = TransactionState::Onboarding(state);
                Ok(())
            },
            other => {
                self.txn_state = other;
                Err(
                    StateTransitionError::InvalidTransition {
                        from: self.txn_state.name(),
                        to: "Onboarding(cd_payload install)",
                    },
                )
            },
        }
    }

    /// Ends the preparing phase and hands its data out, for a request that is
    /// cancelled before loading starts.
    pub fn txn_take_preparing_to_onboard(&mut self) -> (res: Result<
        OnboardingState,
        StateTransitionError,
    >)
        ensures
            old(self).taken(
                old(self).preparing(),
                "Inactive (via take_preparing_to_onboard)"@,
                *final(self),
                res,
            ),
    {
        let mut current = TransactionState::Inactive;
        std::mem::swap(&mut self.txn_state, &mut current);
        match current {
            TransactionState::PreparingToOnboard(state) => {
                self.txn_to_inactive();
                Ok(state)
            },
            other => {
                self.txn_state = other;
                Err(
                    StateTransitionError::InvalidTransition {
                        from: self.txn_state.name(),
                        to: "Inactive (via take_preparing_to_onboard)",
                    },
                )
            },
        }
    }

    /// Starts offloading. Only valid while inactive.
    pub fn txn_start_offloading(&mut self, state: OffloadingState) -> (res: Result<
        (),
        StateTransitionError,
    >)
        ensures
            old(self).started(
                TransactionState::Offloading(state),
                "Offloading"@,
                *final(self),
                res,
            ),
    {
        if self.is_marked_for_deletion() {
            return Err(StateTransitionError::MarkedForDeletion);
        }
        match &self.txn_state {
            TransactionState::Inactive => {
                self.txn_state = TransactionState::Offloading(state);
                Ok(())
            },
            other => Err(
                StateTransitionError::InvalidTransition { from: other.name(), to: "Offloading" },
            ),
        }
    }

    /// Ends offloading and hands its data out.
    pub fn txn_take_offloading(&mut self) -> (res: Result<OffloadingState, StateTransitionError>)
        ensures
            old(self).taken(
                old(self).txn_state.offloading(),
                "Inactive (via take_offloading)"@,
                *final(self),
                res,
            ),
    {
        let mut current = TransactionState::Inactive;
        std::mem::swap(&mut self.txn_state, &mut current);
        match current {
            TransactionState::Offloading(state) => {
                self.txn_to_inactive();
                Ok(state)
            },
            other => {
                self.txn_state = other;
                Err(
                    StateTransitionError::InvalidTransition {
                        from: self.txn_state.name(),
                        to: "Inactive (via take_offloading)",
                    },
                )
            },
        }
    }

    /// Records a failure, keeping the data of the running transaction.
    pub fn txn_to_error(&mut self)
        ensures
            *final(self) == old(self).with_txn(old(self).txn_state.failed()),
    {
        let mut current = TransactionState::Inactive;
        std::mem::swap(&mut self.txn_state, &mut current);
        match current {
            TransactionState::Inactive => {},
            TransactionState::PreparingToOnboard(state) => {
                self.txn_state = TransactionState::Error(ActiveStateData::Onboarding(state));
            },
            TransactionState::Onboarding(state) => {
                self.txn_state = TransactionState::Error(ActiveStateData::Onboarding(state));
            },
            TransactionState::Offloading(state) => {
                self.txn_state = TransactionState::Error(ActiveStateData::Offloading(state));
            },
            TransactionState::Error(data) => {
                self.txn_state = TransactionState::Error(data);
            },
        }
    }

    /// Ends the error state and hands the kept data out.
    pub fn txn_take_error(&mut self) -> (res: Result<ActiveStateData, StateTransitionError>)
        ensures
            old(self).taken(
                old(self).error_data(),
                "Inactive (via take_error)"@,
                *final(self),
                res,
            ),
    {
        let mut current = TransactionState::Inactive;
        std::mem::swap(&mut self.txn_state, &mut current);
        match current {
            TransactionState::Error(data) => {
                self.txn_to_inactive();
                Ok(data)
            },
            other => {
                self.txn_state = other;
                Err(
                    StateTransitionError::InvalidTransition {
                        from: self.txn_state.name(),
                        to: "Inactive (via take_error)",
                    },
                )
            },
        }
    }

    /// Marks the request as finished.
    pub fn slot_mark_finished(&mut self) -> (status: FinishedStatus)
        ensures
            *final(self) == old(self).finished(),
            status == old(self).finish_status(),
            status == (if old(self).txn_state is Inactive {
                FinishedStatus::Finished
            } else {
                FinishedStatus::Pending
            }),
    {
        if self.slot_state == SlotState::Active {
            self.slot_state = SlotState::MarkedForDeletion;
        }
        if self.txn_state.is_inactive() {
            FinishedStatus::Finished
        } else {
            FinishedStatus::Pending
        }
    }

    /// Records that the workers have been notified.
    pub fn slot_mark_workers_notified(&mut self)
        ensures
            *final(self) == (SlotStateMachine {
                slot_state: SlotState::AwaitCompletion,
                ..*old(self)
            }),
    {
        self.slot_state = SlotState::AwaitCompletion;
    }

    /// The onboarding data, while preparing or loading.
    pub fn onboarding_state(&self) -> (state: Option<&OnboardingState>)
        ensures
            match state {
                Some(s) => self.txn_state.onboarding() == Some(*s),
                None => self.txn_state.onboarding() is None,
            },
    {
        match &self.txn_state {
            TransactionState::PreparingToOnboard(state) => Some(state),
            TransactionState::Onboarding(state) => Some(state),
            _ => None,
        }
    }

    /// The onboarding data for modification, while preparing or loading.
    pub fn onboarding_state_mut(&mut self) -> (state: Option<&mut OnboardingState>)
        ensures
            match state {
                Some(s) => {
                    &&& old(self).txn_state.onboarding() == Some(*s)
                    &&& *final(self) == old(self).with_txn(
                        replace_onboarding(old(self).txn_state, *final(s)),
                    )
                },
                None => old(self).txn_state.onboarding() is None && *final(self) == *old(self),
            },
    {
        match &mut self.txn_state {
            TransactionState::PreparingToOnboard(state) => Some(state),
            TransactionState::Onboarding(state) => Some(state),
            _ => None,
        }
    }

    /// Whether onboarding data is held.
    pub fn has_onboarding_state(&self) -> (held: bool)
        ensures
            held == (self.txn_state.onboarding() is Some),
    {
        self.onboarding_state().is_some()
    }

    /// The offloading data, while offloading.
    pub fn offloading_state(&self) -> (state: Option<&OffloadingState>)
        ensures
            match state {
                Some(s) => self.txn_state.offloading() == Some(*s),
                None => self.txn_state.offloading() is None,
            },
    {
        match &self.txn_state {
            TransactionState::Offloading(state) => Some(state),
            _ => None,
        }
    }

    /// The offloading data for modification, while offloading.
    pub fn offloading_state_mut(&mut self) -> (state: Option<&mut OffloadingState>)
        ensures
            match state {
                Some(s) => {
                    &&& old(self).txn_state.offloading() == Some(*s)
                    &&& *final(self) == old(self).with_txn(
                        TransactionState::Offloading(*final(s)),
                    )
                },
                None => old(self).txn_state.offloading() is None && *final(self) == *old(self),
            },
    {
        match &mut self.txn_state {
            TransactionState::Offloading(state) => Some(state),
            _ => None,
        }
    }

    /// Whether offloading data is held.
    pub fn has_offloading_state(&self) -> (held: bool)
        ensures
            held == (self.txn_state.offloading() is Some),
    {
        self.offloading_state().is_some()
    }
}

/// The same phase with other onboarding data.
pub open spec fn replace_onboarding(
    txn: TransactionState,
    state: OnboardingState,
) -> TransactionState {
    match txn {
        TransactionState::PreparingToOnboard(_) => TransactionState::PreparingToOnboard(state),
        TransactionState::Onboarding(_) => TransactionState::Onboarding(state),
        other => other,
    }
}

/// A marked slot starts nothing: whatever is asked of it, no transaction begins
/// and nothing changes.
pub proof fn law_marked_slot_starts_nothing(
    before: SlotStateMachine,
    next: TransactionState,
    to: Seq<char>,
    payload: Option<Box<dyn CdOnboardingPayload>>,
    after: SlotStateMachine,
    res: Result<(), StateTransitionError>,
)
    requires
        before.marked(),
        before.started(next, to, after, res) || before.promoted(after, res) || before.attached(
            payload,
            after,
            res,
        ),
    ensures
        res is Err,
        after == before,
{
}

/// A refused transition leaves the machine as it was.
pub proof fn law_refusal_changes_nothing(
    before: SlotStateMachine,
    next: TransactionState,
    to: Seq<char>,
    payload: Option<Box<dyn CdOnboardingPayload>>,
    after: SlotStateMachine,
    res: Result<(), StateTransitionError>,
)
    requires
        before.started(next, to, after, res) || before.promoted(after, res) || before.attached(
            payload,
            after,
            res,
        ),
        res is Err,
    ensures
        after == before,
{
}

/// A refused take leaves the machine as it was, and a take that succeeds ends
/// the transaction.
pub proof fn law_take_refuses_or_settles<T>(
    before: SlotStateMachine,
    held: Option<T>,
    to: Seq<char>,
    after: SlotStateMachine,
    res: Result<T, StateTransitionError>,
)
    requires
        before.taken(held, to, after, res),
    ensures
        res is Err ==> after == before,
        res is Ok ==> after.txn_state is Inactive && after.slot_state
            == before.slot_state.after_transaction(),
{
}

/// Preparing, loading and taking gives back the data that preparing was given,
/// and the slot is idle again.
pub proof fn law_onboarding_round_trip(
    first: SlotStateMachine,
    state: OnboardingState,
    prepared: SlotStateMachine,
    loading: SlotStateMachine,
    last: SlotStateMachine,
    prepare: Result<(), StateTransitionError>,
    promote: Result<(), StateTransitionError>,
    take: Result<OnboardingState, StateTransitionError>,
)
    requires
        first.slot_state == SlotState::Active,
        first.txn_state is Inactive,
        first.started(
            TransactionState::PreparingToOnboard(state),
            "PreparingToOnboard"@,
            prepared,
            prepare,
        ),
        prepared.promoted(loading, promote),
        loading.taken(loading.loading(), "Inactive (via take_onboarding)"@, last, take),
    ensures
        prepare is Ok,
        promote is Ok,
        take == Ok::<OnboardingState, StateTransitionError>(state),
        last == first,
{
}

/// A failure keeps the onboarding data; taking the error gives it back.
pub proof fn law_error_keeps_data(
    before: SlotStateMachine,
    after: SlotStateMachine,
    res: Result<ActiveStateData, StateTransitionError>,
)
    requires
        before.with_txn(before.txn_state.failed()).taken(
            before.with_txn(before.txn_state.failed()).error_data(),
            "Inactive (via take_error)"@,
            after,
            res,
        ),
    ensures
        before.txn_state.onboarding() matches Some(state) ==> res == Ok::<
            ActiveStateData,
            StateTransitionError,
        >(ActiveStateData::Onboarding(state)) && after == before.settled(),
        before.txn_state.offloading() matches Some(state) ==> res == Ok::<
            ActiveStateData,
            StateTransitionError,
        >(ActiveStateData::Offloading(state)) && after == before.settled(),
        before.txn_state is Inactive ==> res is Err && after == before,
{
}

/// Marking a slot as finished twice is the same as marking it once, and a
/// failure twice the same as once.
pub proof fn law_finish_and_failure_idempotent(machine: SlotStateMachine)
    ensures
        machine.finished().finished() == machine.finished(),
        machine.txn_state.failed().failed() == machine.txn_state.failed(),
{
}

/// A finished request's slot never becomes active again by ending its
/// transaction: it goes on to notify the workers.
pub proof fn law_finished_slot_notifies_workers(machine: SlotStateMachine)
    ensures
        machine.finished().settled().marked(),
        machine.slot_state == SlotState::Active ==> machine.finished().settled().slot_state
            == SlotState::NotifyWorkersToFinish,
{
}

/// Every transition keeps the machine's invariant.
pub proof fn law_transitions_keep_invariant(
    before: SlotStateMachine,
    next: TransactionState,
    to: Seq<char>,
    payload: Option<Box<dyn CdOnboardingPayload>>,
    after: SlotStateMachine,
    res: Result<(), StateTransitionError>,
)
    requires
        before.wf(),
        next.wf(),
        payload is Some,
    ensures
        before.started(next, to, after, res) ==> after.wf(),
        before.promoted(after, res) ==> after.wf(),
        before.attached(payload, after, res) ==> after.wf(),
        before.settled().wf(),
        before.finished().wf(),
        before.with_txn(before.txn_state.failed()).wf(),
{
}

/// A transaction starts exactly in an active slot that runs none, and then it
/// is the one that was asked for.
pub proof fn law_start_needs_idle_active_slot(
    before: SlotStateMachine,
    next: TransactionState,
    to: Seq<char>,
    after: SlotStateMachine,
    res: Result<(), StateTransitionError>,
)
    requires
        before.started(next, to, after, res),
    ensures
        res is Ok <==> before.slot_state == SlotState::Active && before.txn_state is Inactive,
        res is Ok ==> after.txn_state == next && after.slot_state == before.slot_state,
        before.slot_state != SlotState::Active ==> res == Err::<(), StateTransitionError>(
            StateTransitionError::MarkedForDeletion,
        ),
        before.slot_state == SlotState::Active && !(before.txn_state is Inactive) ==> (res matches Err(
            StateTransitionError::InvalidTransition { from: _, to: named },
        ) && named@ == to),
        res is Err ==> after == before,
{
}

/// Loading begins exactly in an active slot that prepares, with the data that
/// was prepared.
pub proof fn law_loading_follows_preparing(
    before: SlotStateMachine,
    after: SlotStateMachine,
    res: Result<(), StateTransitionError>,
)
    requires
        before.promoted(after, res),
    ensures
        res is Ok <==> before.slot_state == SlotState::Active
            && before.txn_state is PreparingToOnboard,
        res is Ok ==> after.slot_state == before.slot_state && (
        before.txn_state matches TransactionState::PreparingToOnboard(state) && after.txn_state
            == TransactionState::Onboarding(state)),
        res is Err ==> after == before,
{
}

/// A remote prefill is attached exactly where an active slot is idle or is
/// onboarding without one. The slot then loads, carries the hook, and keeps the
/// shards and counts it had; an idle slot has none.
pub proof fn law_payload_attaches_once(
    before: SlotStateMachine,
    payload: Option<Box<dyn CdOnboardingPayload>>,
    after: SlotStateMachine,
    res: Result<(), StateTransitionError>,
)
    requires
        before.attached(payload, after, res),
    ensures
        res is Ok <==> before.slot_state == SlotState::Active && match before.txn_state {
            TransactionState::Inactive => true,
            TransactionState::PreparingToOnboard(state) => state.cd_payload is None,
            TransactionState::Onboarding(state) => state.cd_payload is None,
            _ => false,
        },
        res is Err ==> after == before,
        res is Ok ==> after.slot_state == before.slot_state && (
        after.txn_state matches TransactionState::Onboarding(state) && {
            &&& state.cd_payload == payload
            &&& match before.txn_state {
                TransactionState::PreparingToOnboard(held) => {
                    &&& state.shards == held.shards
                    &&& state.num_computed_tokens == held.num_computed_tokens
                    &&& state.total_tokens_at_start == held.total_tokens_at_start
                },
                TransactionState::Onboarding(held) => {
                    &&& state.shards == held.shards
                    &&& state.num_computed_tokens == held.num_computed_tokens
                    &&& state.total_tokens_at_start == held.total_tokens_at_start
                },
                _ => {
                    &&& state.shards@.len() == 0
                    &&& state.num_computed_tokens == 0
                    &&& state.total_tokens_at_start == 0
                },
            }
        }),
{
}

/// Data is taken from exactly the phase that holds it, as it is, and taking it
/// leaves the slot idle. Every other phase refuses and stays.
pub proof fn law_take_matches_phase(
    before: SlotStateMachine,
    to: Seq<char>,
    after: SlotStateMachine,
    loaded: Result<OnboardingState, StateTransitionError>,
    prepared: Result<OnboardingState, StateTransitionError>,
    offloaded: Result<OffloadingState, StateTransitionError>,
    failed: Result<ActiveStateData, StateTransitionError>,
)
    ensures
        before.taken(before.loading(), to, after, loaded) ==> (match before.txn_state {
            TransactionState::Onboarding(state) => loaded == Ok::<
                OnboardingState,
                StateTransitionError,
            >(state) && after.txn_state is Inactive,
            _ => loaded is Err && after == before,
        }),
        before.taken(before.preparing(), to, after, prepared) ==> (match before.txn_state {
            TransactionState::PreparingToOnboard(state) => prepared == Ok::<
                OnboardingState,
                StateTransitionError,
            >(state) && after.txn_state is Inactive,
            _ => prepared is Err && after == before,
        }),
        before.taken(before.txn_state.offloading(), to, after, offloaded) ==> (
        match before.txn_state {
            TransactionState::Offloading(state) => offloaded == Ok::<
                OffloadingState,
                StateTransitionError,
            >(state) && after.txn_state is Inactive,
            _ => offloaded is Err && after == before,
        }),
        before.taken(before.error_data(), to, after, failed) ==> (match before.txn_state {
            TransactionState::Error(data) => failed == Ok::<ActiveStateData, StateTransitionError>(
                data,
            ) && after.txn_state is Inactive,
            _ => failed is Err && after == before,
        }),
{
}

/// The end of a transaction leaves the slot idle. It sends a slot that waits for
/// deletion on to notify its workers and leaves every other lifecycle alone.
pub proof fn law_settling_moves_lifecycle(machine: SlotStateMachine)
    ensures
        machine.settled().txn_state is Inactive,
        machine.slot_state == SlotState::MarkedForDeletion ==> machine.settled().slot_state
            == SlotState::NotifyWorkersToFinish,
        machine.slot_state != SlotState::MarkedForDeletion ==> machine.settled().slot_state
            == machine.slot_state,
{
}

/// Finishing a request marks an active slot, touches no other lifecycle and
/// never the transaction. A slot counts as marked unless it is active.
pub proof fn law_finishing_marks_slot(machine: SlotStateMachine)
    ensures
        machine.slot_state == SlotState::Active ==> machine.finished().slot_state
            == SlotState::MarkedForDeletion,
        machine.slot_state != SlotState::Active ==> machine.finished().slot_state
            == machine.slot_state,
        machine.finished().txn_state == machine.txn_state,
        machine.marked() <==> machine.slot_state != SlotState::Active,
        machine.finished().slot_state != SlotState::Active,
{
}

/// A failure keeps whatever data the transaction holds, and an idle slot idle.
/// It never touches the lifecycle.
pub proof fn law_failure_holds_data(machine: SlotStateMachine)
    ensures
        machine.with_txn(machine.txn_state.failed()).slot_state == machine.slot_state,
        match machine.txn_state {
            TransactionState::Inactive => machine.txn_state.failed() is Inactive,
            TransactionState::PreparingToOnboard(state) => machine.txn_state.failed()
                == TransactionState::Error(ActiveStateData::Onboarding(state)),
            TransactionState::Onboarding(state) => machine.txn_state.failed()
                == TransactionState::Error(ActiveStateData::Onboarding(state)),
            TransactionState::Offloading(state) => machine.txn_state.failed()
                == TransactionState::Error(ActiveStateData::Offloading(state)),
            TransactionState::Error(data) => machine.txn_state.failed() == machine.txn_state,
        },
{
}

/// Onboarding data is found in both phases of an onboarding and nowhere else;
/// replacing it keeps the phase.
pub proof fn law_onboarding_data_by_phase(txn: TransactionState, other: OnboardingState)
    ensures
        match txn {
            TransactionState::PreparingToOnboard(state) => {
                &&& txn.onboarding() == Some(state)
                &&& replace_onboarding(txn, other) == TransactionState::PreparingToOnboard(other)
            },
            TransactionState::Onboarding(state) => {
                &&& txn.onboarding() == Some(state)
                &&& replace_onboarding(txn, other) == TransactionState::Onboarding(other)
            },
            _ => txn.onboarding() is None && replace_onboarding(txn, other) == txn,
        },
        txn.offloading() is Some <==> txn is Offloading,
{
}

/// An offload is in flight exactly while one of its transfers is active.
pub proof fn law_inflight_means_active_transfer(state: OffloadingState)
    ensures
        state.inflight() <==> exists|i: int|
            0 <= i < state.handles@.len() && (#[trigger] state.handles@[i]).status
                == TransferStatus::Active,
{
}

/// A finished request can go at once exactly if no transaction runs; else its
/// end has to be awaited.
pub proof fn law_running_transaction_delays_the_end(machine: SlotStateMachine)
    ensures
        machine.finish_status() == FinishedStatus::Finished <==> machine.txn_state is Inactive,
        machine.finish_status() == FinishedStatus::Pending <==> !(machine.txn_state is Inactive),
{
}

/// Every transaction state goes by its own name.
pub proof fn law_states_go_by_their_names(txn: TransactionState)
    ensures
        match txn {
            TransactionState::Inactive => txn.name_text() == "Inactive"@,
            TransactionState::PreparingToOnboard(_) => txn.name_text() == "PreparingToOnboard"@,
            TransactionState::Onboarding(_) => txn.name_text() == "Onboarding"@,
            TransactionState::Offloading(_) => txn.name_text() == "Offloading"@,
            TransactionState::Error(_) => txn.name_text() == "Error"@,
        },
{
}

} // verus!
