//! The conditional-disaggregation dispatcher in front of a connector leader.
//!
//! Calls that concern one request go to one flow, chosen by what is wired and
//! by what the request carries. Calls that concern a whole scheduler tick reach
//! the inner leader once; each wired flow only records that it saw them.

use crate::common::InstanceId;
use crate::connector::leader::{fresh_slot, ConnectorError, ConnectorLeader};
use crate::connector::request::{Request, TransferParams};
use crate::connector::slot::SlotView;
use crate::engine::instance::{DisaggregationRole, HandleId};
use crate::hub::builder::{HubClientBuilder, HubClientConfig};
use crate::hub::protocol::{
    ConditionalDisaggRole, DEFAULT_CONTROL_PORT, DEFAULT_DISCOVERY_PORT,
};
use vstd::prelude::*;

verus! {

/// Which flow a request belongs to.
#[derive(Debug, Clone, Copy, PartialEq, Eq, Structural)]
pub enum RequestRole {
    Prefill,
    Decode,
    /// No flow is wired: the inner leader answers.
    NonCd,
}

/// The flow that answers a call, by its handle.
#[derive(Debug, Clone, Copy, PartialEq, Eq, Structural)]
pub enum FlowRoute {
    Prefill(HandleId),
    Decode(HandleId),
    Inner,
}

/// Trace record of a wired flow.
#[derive(Debug)]
pub enum AuditEvent {
    CreateSlot {
        role: ConditionalDisaggRole,
        request_id: String,
        num_tokens: usize,
        has_kv_transfer: bool,
    },
    BuildMeta { role: ConditionalDisaggRole },
    ObserveForwardError { error: String },
    /// `cd_tracked` says whether the decode flow follows the request; the
    /// prefill flow does not record it.
    FinishedSending {
        role: ConditionalDisaggRole,
        request_id: String,
        cd_tracked: Option<bool>,
    },
    FinishedRecving {
        role: ConditionalDisaggRole,
        request_id: String,
        cd_tracked: Option<bool>,
    },
}

/// [`AuditEvent`] as the contracts see it.
pub enum AuditView {
    CreateSlot {
        role: ConditionalDisaggRole,
        request_id: Seq<char>,
        num_tokens: nat,
        has_kv_transfer: bool,
    },
    BuildMeta { role: ConditionalDisaggRole },
    ObserveForwardError { error: Seq<char> },
    FinishedSending {
        role: ConditionalDisaggRole,
        request_id: Seq<char>,
        cd_tracked: Option<bool>,
    },
    FinishedRecving {
        role: ConditionalDisaggRole,
        request_id: Seq<char>,
        cd_tracked: Option<bool>,
    },
}

impl View for AuditEvent {
    type V = AuditView;

    open spec fn view(&self) -> AuditView {
        match *self {
            AuditEvent::CreateSlot { role, request_id, num_tokens, has_kv_transfer } =>
                AuditView::CreateSlot {
                    role,
                    request_id: request_id@,
                    num_tokens: num_tokens as nat,
                    has_kv_transfer,
                },
            AuditEvent::BuildMeta { role } => AuditView::BuildMeta { role },
            AuditEvent::ObserveForwardError { error } => AuditView::ObserveForwardError {
                error: error@,
            },
            AuditEvent::FinishedSending { role, request_id, cd_tracked } =>
                AuditView::FinishedSending { role, request_id: request_id@, cd_tracked },
            AuditEvent::FinishedRecving { role, request_id, cd_tracked } =>
                AuditView::FinishedRecving { role, request_id: request_id@, cd_tracked },
        }
    }
}

/// The records as the contracts see them.
pub open spec fn audit_views(audits: Seq<AuditEvent>) -> Seq<AuditView> {
    Seq::new(audits.len(), |i: int| audits[i]@)
}

/// Why a dispatcher could not be built.
#[derive(Debug, Clone, Copy, PartialEq, Eq, Structural)]
pub enum DisaggBuildError {
    NoFlow,
    HalfPrefill,
}

impl DisaggBuildError {
    /// What the error reads as.
    pub open spec fn text(self) -> Seq<char> {
        match self {
            DisaggBuildError::NoFlow =>
                "ConditionalDisaggLeader requires at least one flow to be wired (call .with_decode(..) and/or .with_prefill(.., ..))"@,
            DisaggBuildError::HalfPrefill =>
                "with_prefill must be called with both leader and coordinator (internal invariant)"@,
        }
    }

    /// What the error reads as.
    pub fn message(&self) -> (message: &'static str)
        ensures
            message@ == self.text(),
    {
        match self {
            DisaggBuildError::NoFlow =>
                "ConditionalDisaggLeader requires at least one flow to be wired (call .with_decode(..) and/or .with_prefill(.., ..))",
            DisaggBuildError::HalfPrefill =>
                "with_prefill must be called with both leader and coordinator (internal invariant)",
        }
    }
}

/// Builds a [`ConditionalDisaggLeader`].
pub struct ConditionalDisaggLeaderBuilder {
    pub inner: ConnectorLeader,
    pub decode: Option<HandleId>,
    pub prefill: Option<HandleId>,
    pub prefill_coordinator: Option<HandleId>,
    pub hub: Option<HandleId>,
    pub client: Option<HandleId>,
    pub hub_velo_id: Option<InstanceId>,
}

impl ConditionalDisaggLeaderBuilder {
    /// What keeps the dispatcher from being built.
    pub open spec fn missing(self) -> Option<DisaggBuildError> {
        if self.decode is None && self.prefill is None {
            Some(DisaggBuildError::NoFlow)
        } else if (self.prefill is Some) != (self.prefill_coordinator is Some) {
            Some(DisaggBuildError::HalfPrefill)
        } else {
            None
        }
    }

    /// Wires the decode flow.
    pub fn with_decode(self, decode: HandleId) -> (builder: Self)
        ensures
            builder == (ConditionalDisaggLeaderBuilder { decode: Some(decode), ..self }),
    {
        ConditionalDisaggLeaderBuilder { decode: Some(decode), ..self }
    }

    /// Wires the prefill flow and the coordinator that observes its ticks.
    pub fn with_prefill(self, prefill: HandleId, coordinator: HandleId) -> (builder: Self)
        ensures
            builder == (ConditionalDisaggLeaderBuilder {
                prefill: Some(prefill),
                prefill_coordinator: Some(coordinator),
                ..self
            }),
    {
        ConditionalDisaggLeaderBuilder {
            prefill: Some(prefill),
            prefill_coordinator: Some(coordinator),
            ..self
        }
    }

    /// Sets the hub client.
    pub fn with_hub(self, hub: HandleId) -> (builder: Self)
        ensures
            builder == (ConditionalDisaggLeaderBuilder { hub: Some(hub), ..self }),
    {
        ConditionalDisaggLeaderBuilder { hub: Some(hub), ..self }
    }

    /// Sets the client of the feature.
    pub fn with_client(self, client: HandleId) -> (builder: Self)
        ensures
            builder == (ConditionalDisaggLeaderBuilder { client: Some(client), ..self }),
    {
        ConditionalDisaggLeaderBuilder { client: Some(client), ..self }
    }

    /// Sets the id of the hub's messaging node.
    pub fn with_hub_velo_id(self, hub_velo_id: InstanceId) -> (builder: Self)
        ensures
            builder == (ConditionalDisaggLeaderBuilder { hub_velo_id: Some(hub_velo_id), ..self }),
    {
        ConditionalDisaggLeaderBuilder { hub_velo_id: Some(hub_velo_id), ..self }
    }

    /// The finished dispatcher; at least one flow has to be wired.
    pub fn build(self) -> (res: Result<ConditionalDisaggLeader, DisaggBuildError>)
        ensures
            match self.missing() {
                Some(error) => res == Err::<ConditionalDisaggLeader, DisaggBuildError>(error),
                None => res == Ok::<ConditionalDisaggLeader, DisaggBuildError>(
                    ConditionalDisaggLeader {
                        inner: self.inner,
                        decode: self.decode,
                        prefill: self.prefill,
                        prefill_coordinator: self.prefill_coordinator,
                        hub: self.hub,
                        client: self.client,
                        hub_velo_id: self.hub_velo_id,
                    },
                ),
            },
    {
        if self.decode.is_none() && self.prefill.is_none() {
            return Err(DisaggBuildError::NoFlow);
        }
        if self.prefill.is_some() != self.prefill_coordinator.is_some() {
            return Err(DisaggBuildError::HalfPrefill);
        }
        Ok(
            ConditionalDisaggLeader {
                inner: self.inner,
                decode: self.decode,
                prefill: self.prefill,
                prefill_coordinator: self.prefill_coordinator,
                hub: self.hub,
                client: self.client,
                hub_velo_id: self.hub_velo_id,
            },
        )
    }
}

/// Dispatches each request to the flow it belongs to.
pub struct ConditionalDisaggLeader {
    pub inner: ConnectorLeader,
    pub decode: Option<HandleId>,
    pub prefill: Option<HandleId>,
    pub prefill_coordinator: Option<HandleId>,
    pub hub: Option<HandleId>,
    pub client: Option<HandleId>,
    pub hub_velo_id: Option<InstanceId>,
}

/// The flow of a request. What the request carries only decides where both
/// flows are wired.
pub open spec fn classified(
    decode_wired: bool,
    prefill_wired: bool,
    params: Option<TransferParams>,
) -> RequestRole {
    if decode_wired && prefill_wired {
        if params is Some && params->0.remote_prefill is Some {
            RequestRole::Prefill
        } else {
            RequestRole::Decode
        }
    } else if decode_wired {
        RequestRole::Decode
    } else if prefill_wired {
        RequestRole::Prefill
    } else {
        RequestRole::NonCd
    }
}

/// The records of a new slot, one per wired flow.
pub open spec fn create_slot_audits(
    decode_wired: bool,
    prefill_wired: bool,
    request: Request,
) -> Seq<AuditView> {
    let record = |role: ConditionalDisaggRole|
        AuditView::CreateSlot {
            role,
            request_id: request.request_id@,
            num_tokens: request.tokens@.len(),
            has_kv_transfer: request.kv_transfer_params is Some,
        };
    (if decode_wired {
        seq![record(ConditionalDisaggRole::Decode)]
    } else {
        Seq::empty()
    }) + (if prefill_wired {
        seq![record(ConditionalDisaggRole::Prefill)]
    } else {
        Seq::empty()
    })
}

/// The records of a tick's metadata, one per wired flow.
pub open spec fn build_meta_audits(decode_wired: bool, prefill_wired: bool) -> Seq<AuditView> {
    (if decode_wired {
        seq![AuditView::BuildMeta { role: ConditionalDisaggRole::Decode }]
    } else {
        Seq::empty()
    }) + (if prefill_wired {
        seq![AuditView::BuildMeta { role: ConditionalDisaggRole::Prefill }]
    } else {
        Seq::empty()
    })
}

/// The records of a tick: those of its metadata, and the coordinator's failure
/// to observe it, if there is one to tell of.
pub open spec fn tick_audits(
    decode_wired: bool,
    prefill_wired: bool,
    built: bool,
    observed: Result<(), String>,
) -> Seq<AuditView> {
    match observed {
        Err(error) if built && prefill_wired => build_meta_audits(
            decode_wired,
            prefill_wired,
        ).push(AuditView::ObserveForwardError { error: error@ }),
        _ => build_meta_audits(decode_wired, prefill_wired),
    }
}

/// The records of finished transfers, for one flow after the other.
pub open spec fn output_audits(
    decode_wired: bool,
    prefill_wired: bool,
    sending: Seq<FinishedRequest>,
    recving: Seq<FinishedRequest>,
) -> Seq<AuditView> {
    (if decode_wired {
        sending_audits(sending, ConditionalDisaggRole::Decode) + recving_audits(
            recving,
            ConditionalDisaggRole::Decode,
        )
    } else {
        Seq::empty()
    }) + (if prefill_wired {
        sending_audits(sending, ConditionalDisaggRole::Prefill) + recving_audits(
            recving,
            ConditionalDisaggRole::Prefill,
        )
    } else {
        Seq::empty()
    })
}

/// A request that finished a transfer, and whether the decode flow follows it.
#[derive(Debug)]
pub struct FinishedRequest {
    pub request_id: String,
    pub cd_tracked: bool,
}

/// One flow's records of finished sends.
pub open spec fn sending_audits(
    finished: Seq<FinishedRequest>,
    role: ConditionalDisaggRole,
) -> Seq<AuditView> {
    Seq::new(
        finished.len(),
        |i: int|
            AuditView::FinishedSending {
                role,
                request_id: finished[i].request_id@,
                cd_tracked: tracked_as(role, finished[i].cd_tracked),
            },
    )
}

/// One flow's records of finished receives.
pub open spec fn recving_audits(
    finished: Seq<FinishedRequest>,
    role: ConditionalDisaggRole,
) -> Seq<AuditView> {
    Seq::new(
        finished.len(),
        |i: int|
            AuditView::FinishedRecving {
                role,
                request_id: finished[i].request_id@,
                cd_tracked: tracked_as(role, finished[i].cd_tracked),
            },
    )
}

/// Only the decode flow records whether it follows a request.
pub open spec fn tracked_as(role: ConditionalDisaggRole, cd_tracked: bool) -> Option<bool> {
    match role {
        ConditionalDisaggRole::Decode => Some(cd_tracked),
        ConditionalDisaggRole::Prefill => None,
    }
}

/// Only the decode flow records whether it follows a request.
fn record_tracked(role: ConditionalDisaggRole, cd_tracked: bool) -> (recorded: Option<bool>)
    ensures
        recorded == tracked_as(role, cd_tracked),
{
    match role {
        ConditionalDisaggRole::Decode => Some(cd_tracked),
        ConditionalDisaggRole::Prefill => None,
    }
}

/// Appends one flow's records of finished sends and receives.
fn record_finished(
    audits: &mut Vec<AuditEvent>,
    role: ConditionalDisaggRole,
    sending: &Vec<FinishedRequest>,
    recving: &Vec<FinishedRequest>,
)
    ensures
        audit_views(final(audits)@) == audit_views(old(audits)@) + sending_audits(sending@, role)
            + recving_audits(recving@, role),
{
    let ghost before = audit_views(audits@);
    let ghost sent = sending_audits(sending@, role);
    let ghost received = recving_audits(recving@, role);
    let mut i: usize = 0;
    while i < sending.len()
        invariant
            i <= sending.len(),
            sent == sending_audits(sending@, role),
            audit_views(audits@) =~= before + sent.take(i as int),
        decreases sending.len() - i,
    {
        let ghost known = audits@;
        audits.push(
            AuditEvent::FinishedSending {
                role,
                request_id: String::from_str(sending[i].request_id.as_str()),
                cd_tracked: record_tracked(role, sending[i].cd_tracked),
            },
        );
        assert(audit_views(audits@) =~= audit_views(known).push(sent[i as int]));
        assert(sent.take(i + 1) =~= sent.take(i as int).push(sent[i as int]));
        i += 1;
    }
    assert(sent.take(i as int) =~= sent);
    let mut j: usize = 0;
    while j < recving.len()
        invariant
            j <= recving.len(),
            received == recving_audits(recving@, role),
            audit_views(audits@) =~= before + sent + received.take(j as int),
        decreases recving.len() - j,
    {
        let ghost known = audits@;
        audits.push(
            AuditEvent::FinishedRecving {
                role,
                request_id: String::from_str(recving[j].request_id.as_str()),
                cd_tracked: record_tracked(role, recving[j].cd_tracked),
            },
        );
        assert(audit_views(audits@) =~= audit_views(known).push(received[j as int]));
        assert(received.take(j + 1) =~= received.take(j as int).push(received[j as int]));
        j += 1;
    }
    assert(received.take(j as int) =~= received);
}

impl ConditionalDisaggLeader {
    /// The inner leader is sound, and the prefill flow comes with its
    /// coordinator.
    pub open spec fn wf(self) -> bool {
        &&& self.inner.wf()
        &&& self.prefill is Some <==> self.prefill_coordinator is Some
    }

    /// Starts a dispatcher in front of a leader.
    pub fn builder(inner: ConnectorLeader) -> (builder: ConditionalDisaggLeaderBuilder)
        ensures
            builder == (ConditionalDisaggLeaderBuilder {
                inner,
                decode: None,
                prefill: None,
                prefill_coordinator: None,
                hub: None,
                client: None,
                hub_velo_id: None,
            }),
    {
        ConditionalDisaggLeaderBuilder {
            inner,
            decode: None,
            prefill: None,
            prefill_coordinator: None,
            hub: None,
            client: None,
            hub_velo_id: None,
        }
    }

    /// The decode flow, if it is wired.
    pub fn decode_flow(&self) -> (flow: Option<HandleId>)
        ensures
            flow == self.decode,
    {
        self.decode
    }

    /// The prefill flow, if it is wired.
    pub fn prefill_flow(&self) -> (flow: Option<HandleId>)
        ensures
            flow == self.prefill,
    {
        self.prefill
    }

    /// The hub client, if there is one.
    pub fn hub(&self) -> (hub: Option<HandleId>)
        ensures
            hub == self.hub,
    {
        self.hub
    }

    /// The client of the feature, if there is one.
    pub fn client(&self) -> (client: Option<HandleId>)
        ensures
            client == self.client,
    {
        self.client
    }

    /// The id of the hub's messaging node, if it is known.
    pub fn hub_velo_id(&self) -> (id: Option<InstanceId>)
        ensures
            id == self.hub_velo_id,
    {
        self.hub_velo_id
    }

    /// What classifying a request comes to. The slot is consulted only where
    /// both flows are wired, so only then can the request fail to be
    /// classified.
    pub open spec fn classifies(
        self,
        request_id: Seq<char>,
        res: Result<RequestRole, ConnectorError>,
    ) -> bool {
        if self.decode is Some && self.prefill is Some {
            if !self.inner@.slots.contains_key(request_id) {
                res matches Err(error) && error.is_slot_not_found(request_id)
            } else {
                match self.inner@.slots[request_id].request.transfer_params {
                    Ok(params) => res == Ok::<RequestRole, ConnectorError>(
                        classified(true, true, params),
                    ),
                    Err(reason) => res matches Err(
                        ConnectorError::DecodeParams { request_id: id, cause },
                    ) && id@ == request_id && cause@ == reason@,
                }
            }
        } else {
            res == Ok::<RequestRole, ConnectorError>(
                classified(self.decode is Some, self.prefill is Some, None),
            )
        }
    }

    /// Chooses the flow of a request.
    pub fn classify(&self, request_id: &str) -> (res: Result<RequestRole, ConnectorError>)
        requires
            self.wf(),
        ensures
            self.classifies(request_id@, res),
    {
        match (self.decode.is_some(), self.prefill.is_some()) {
            (false, false) => Ok(RequestRole::NonCd),
            (true, false) => Ok(RequestRole::Decode),
            (false, true) => Ok(RequestRole::Prefill),
            (true, true) => match self.inner.slot_transfer_params(request_id) {
                Err(error) => Err(error),
                Ok(Some(params)) => if params.remote_prefill.is_some() {
                    Ok(RequestRole::Prefill)
                } else {
                    Ok(RequestRole::Decode)
                },
                Ok(None) => Ok(RequestRole::Decode),
            },
        }
    }

    /// The flow behind a role.
    pub open spec fn flow_of(self, role: RequestRole) -> FlowRoute {
        match role {
            RequestRole::Prefill => FlowRoute::Prefill(self.prefill->0),
            RequestRole::Decode => FlowRoute::Decode(self.decode->0),
            RequestRole::NonCd => FlowRoute::Inner,
        }
    }

    /// Where the calls of a request go.
    pub open spec fn routes(
        self,
        request_id: Seq<char>,
        res: Result<FlowRoute, ConnectorError>,
    ) -> bool {
        exists|role: Result<RequestRole, ConnectorError>| #[trigger]
            self.classifies(request_id, role) && match role {
                Ok(flow) => res == Ok::<FlowRoute, ConnectorError>(self.flow_of(flow)),
                Err(_) => res is Err,
            }
    }

    /// The flow that answers a request's match query and hears of its
    /// allocation. It is always a wired one.
    pub fn route(&self, request_id: &str) -> (res: Result<FlowRoute, ConnectorError>)
        requires
            self.wf(),
        ensures
            self.routes(request_id@, res),
            exists|role: Result<RequestRole, ConnectorError>| #[trigger]
                self.classifies(request_id@, role) && match role {
                    Ok(flow) => res == Ok::<FlowRoute, ConnectorError>(self.flow_of(flow)),
                    Err(error) => res == Err::<FlowRoute, ConnectorError>(error),
                },
            res matches Ok(FlowRoute::Prefill(flow)) ==> self.prefill == Some(flow),
            res matches Ok(FlowRoute::Decode(flow)) ==> self.decode == Some(flow),
            res == Ok::<FlowRoute, ConnectorError>(FlowRoute::Inner) ==> self.decode is None
                && self.prefill is None,
    {
        let role = self.classify(request_id);
        assert(self.classifies(request_id@, role));
        match role {
            Err(error) => Err(error),
            Ok(RequestRole::NonCd) => Ok(FlowRoute::Inner),
            Ok(RequestRole::Prefill) => match self.prefill {
                Some(flow) => Ok(FlowRoute::Prefill(flow)),
                None => Ok(FlowRoute::Inner),
            },
            Ok(RequestRole::Decode) => match self.decode {
                Some(flow) => Ok(FlowRoute::Decode(flow)),
                None => Ok(FlowRoute::Inner),
            },
        }
    }

    /// The flow that hears that a request finished. A request that cannot be
    /// classified any more goes to the inner leader.
    pub fn request_finished(&self, request_id: &str) -> (route: FlowRoute)
        requires
            self.wf(),
        ensures
            exists|role: Result<RequestRole, ConnectorError>| #[trigger]
                self.classifies(request_id@, role) && match role {
                    Ok(flow) => route == self.flow_of(flow),
                    Err(_) => route == FlowRoute::Inner,
                },
            route matches FlowRoute::Prefill(flow) ==> self.prefill == Some(flow),
            route matches FlowRoute::Decode(flow) ==> self.decode == Some(flow),
    {
        match self.route(request_id) {
            Ok(route) => route,
            Err(_) => FlowRoute::Inner,
        }
    }

    /// Creates the slot of a request, once, and records it for each wired flow.
    pub fn create_slot(&mut self, request: Request) -> (res: (
        Vec<AuditEvent>,
        Result<(), ConnectorError>,
    ))
        requires
            old(self).wf(),
            request.tokens@.len() / (old(self).inner@.block_size as u32) as nat
                <= crate::tokens::MAX_BLOCK_POSITIONS,
        ensures
            final(self).wf(),
            *final(self) == (ConditionalDisaggLeader { inner: final(self).inner, ..*old(self) }),
            audit_views(res.0@) == create_slot_audits(
                old(self).decode is Some,
                old(self).prefill is Some,
                request,
            ),
            if old(self).inner@.slots.contains_key(request.request_id@) {
                &&& final(self).inner@ == old(self).inner@
                &&& res.1 matches Err(ConnectorError::SlotExists { request_id }) && request_id@
                    == request.request_id@
            } else {
                &&& res.1 is Ok
                &&& final(self).inner@.slots.contains_key(request.request_id@)
                &&& final(self).inner@ == old(self).inner@.with_slot(
                    request.request_id@,
                    final(self).inner@.slots[request.request_id@],
                )
                &&& fresh_slot(
                    final(self).inner@.slots[request.request_id@],
                    request,
                    old(self).inner@.block_size,
                )
            },
    {
        let num_tokens: usize = request.tokens.len();
        let has_kv_transfer = request.kv_transfer_params.is_some();
        let mut audits: Vec<AuditEvent> = Vec::new();
        if self.decode.is_some() {
            audits.push(
                AuditEvent::CreateSlot {
                    role: ConditionalDisaggRole::Decode,
                    request_id: String::from_str(request.request_id.as_str()),
                    num_tokens,
                    has_kv_transfer,
                },
            );
        }
        if self.prefill.is_some() {
            audits.push(
                AuditEvent::CreateSlot {
                    role: ConditionalDisaggRole::Prefill,
                    request_id: String::from_str(request.request_id.as_str()),
                    num_tokens,
                    has_kv_transfer,
                },
            );
        }
        assert(audit_views(audits@) =~= create_slot_audits(
            self.decode is Some,
            self.prefill is Some,
            request,
        ));
        let created = self.inner.create_slot(request);
        (audits, created)
    }

    /// Whether the request has a slot.
    pub fn has_slot(&self, request_id: &str) -> (found: bool)
        ensures
            found == self.inner@.slots.contains_key(request_id@),
    {
        self.inner.has_slot(request_id)
    }

    /// Appends decoded tokens to a request.
    pub fn extend_slot_tokens(&mut self, request_id: &str, tokens: Vec<u32>) -> (res: Result<
        (),
        ConnectorError,
    >)
        requires
            old(self).wf(),
            old(self).inner@.slots.contains_key(request_id@) ==> old(
                self,
            ).inner@.slots[request_id@].sequence.extended(tokens@).wf(),
        ensures
            final(self).wf(),
            *final(self) == (ConditionalDisaggLeader { inner: final(self).inner, ..*old(self) }),
            if old(self).inner@.slots.contains_key(request_id@) {
                let slot = old(self).inner@.slots[request_id@];
                &&& res is Ok
                &&& final(self).inner@ == old(self).inner@.with_slot(
                    request_id@,
                    SlotView { sequence: slot.sequence.extended(tokens@), ..slot },
                )
            } else {
                &&& res matches Err(error) && error.is_slot_not_found(request_id@)
                &&& final(self).inner@ == old(self).inner@
            },
    {
        self.inner.extend_slot_tokens(request_id, tokens)
    }

    /// Passes on the metadata of a tick. `built` is what the inner leader came
    /// to, `observed` what the prefill coordinator made of it; the latter is
    /// only informational, so a failure is recorded and changes nothing.
    pub fn build_connector_meta<M, E>(
        &self,
        built: Result<M, E>,
        observed: Result<(), String>,
    ) -> (res: (Vec<AuditEvent>, Result<M, E>))
        requires
            self.wf(),
        ensures
            res.1 == built,
            audit_views(res.0@) == tick_audits(
                self.decode is Some,
                self.prefill is Some,
                built is Ok,
                observed,
            ),
            audit_views(res.0@) == build_meta_audits(self.decode is Some, self.prefill is Some) + (
            if built is Ok && self.prefill is Some && observed is Err {
                seq![AuditView::ObserveForwardError { error: (observed->Err_0)@ }]
            } else {
                Seq::empty()
            }),
    {
        let mut audits: Vec<AuditEvent> = Vec::new();
        if self.decode.is_some() {
            audits.push(AuditEvent::BuildMeta { role: ConditionalDisaggRole::Decode });
        }
        if self.prefill.is_some() {
            audits.push(AuditEvent::BuildMeta { role: ConditionalDisaggRole::Prefill });
        }
        assert(audit_views(audits@) =~= build_meta_audits(
            self.decode is Some,
            self.prefill is Some,
        ));
        let ghost entries = audits@;
        if built.is_ok() && self.prefill_coordinator.is_some() {
            if let Err(error) = observed {
                audits.push(AuditEvent::ObserveForwardError { error });
                assert(audit_views(audits@) =~= audit_views(entries).push(audits@.last()@));
            }
        }
        assert(audit_views(audits@) =~= build_meta_audits(
            self.decode is Some,
            self.prefill is Some,
        ) + (if built is Ok && self.prefill is Some && observed is Err {
            seq![AuditView::ObserveForwardError { error: (observed->Err_0)@ }]
        } else {
            Seq::empty()
        }));
        assert(audit_views(audits@) =~= tick_audits(
            self.decode is Some,
            self.prefill is Some,
            built is Ok,
            observed,
        ));
        (audits, built)
    }

    /// Records the requests whose transfers finished: for each wired flow,
    /// decode first, the sends and then the receives. `updated` is what the
    /// inner leader came to; it is passed on, whatever the flows recorded.
    pub fn update_connector_output<E>(
        &self,
        finished_sending: &Vec<FinishedRequest>,
        finished_recving: &Vec<FinishedRequest>,
        updated: Result<(), E>,
    ) -> (res: (Vec<AuditEvent>, Result<(), E>))
        ensures
            res.1 == updated,
            audit_views(res.0@) == output_audits(
                self.decode is Some,
                self.prefill is Some,
                finished_sending@,
                finished_recving@,
            ),
            audit_views(res.0@) == (if self.decode is Some {
                sending_audits(finished_sending@, ConditionalDisaggRole::Decode) + recving_audits(
                    finished_recving@,
                    ConditionalDisaggRole::Decode,
                )
            } else {
                Seq::empty()
            }) + (if self.prefill is Some {
                sending_audits(finished_sending@, ConditionalDisaggRole::Prefill) + recving_audits(
                    finished_recving@,
                    ConditionalDisaggRole::Prefill,
                )
            } else {
                Seq::empty()
            }),
    {
        let mut audits: Vec<AuditEvent> = Vec::new();
        assert(audit_views(audits@) =~= Seq::empty());
        if self.decode.is_some() {
            record_finished(
                &mut audits,
                ConditionalDisaggRole::Decode,
                finished_sending,
                finished_recving,
            );
        }
        let ghost decode_audits = audit_views(audits@);
        assert(decode_audits =~= if self.decode is Some {
            sending_audits(finished_sending@, ConditionalDisaggRole::Decode) + recving_audits(
                finished_recving@,
                ConditionalDisaggRole::Decode,
            )
        } else {
            Seq::empty()
        });
        if self.prefill.is_some() {
            record_finished(
                &mut audits,
                ConditionalDisaggRole::Prefill,
                finished_sending,
                finished_recving,
            );
            assert(audit_views(audits@) =~= decode_audits + (sending_audits(
                finished_sending@,
                ConditionalDisaggRole::Prefill,
            ) + recving_audits(finished_recving@, ConditionalDisaggRole::Prefill)));
        } else {
            assert(audit_views(audits@) =~= decode_audits + Seq::empty());
        }
        (audits, updated)
    }
}

/// The flow a request is classified into is a wired one; without any flow the
/// inner leader answers.
pub proof fn law_classified_flow_is_wired(
    decode_wired: bool,
    prefill_wired: bool,
    params: Option<TransferParams>,
)
    ensures
        classified(decode_wired, prefill_wired, params) == RequestRole::Prefill ==> prefill_wired,
        classified(decode_wired, prefill_wired, params) == RequestRole::Decode ==> decode_wired,
        classified(decode_wired, prefill_wired, params) == RequestRole::NonCd <==> !decode_wired
            && !prefill_wired,
{
}

/// With one flow wired, every request goes to it, whatever it carries.
pub proof fn law_single_flow_takes_all(
    decode_wired: bool,
    prefill_wired: bool,
    one: Option<TransferParams>,
    other: Option<TransferParams>,
)
    requires
        !(decode_wired && prefill_wired),
    ensures
        classified(decode_wired, prefill_wired, one) == classified(
            decode_wired,
            prefill_wired,
            other,
        ),
{
}

/// Where the hub is, and the role to take there.
#[derive(Debug)]
pub struct DisaggConfig {
    pub hub_url: String,
    pub role: DisaggregationRole,
}

/// The role as the hub names it.
pub open spec fn hub_role(role: DisaggregationRole) -> ConditionalDisaggRole {
    match role {
        DisaggregationRole::Prefill => ConditionalDisaggRole::Prefill,
        DisaggregationRole::Decode => ConditionalDisaggRole::Decode,
    }
}

/// The role as the hub names it.
pub fn role_to_hub(role: DisaggregationRole) -> (hub: ConditionalDisaggRole)
    ensures
        hub == hub_role(role),
{
    match role {
        DisaggregationRole::Prefill => ConditionalDisaggRole::Prefill,
        DisaggregationRole::Decode => ConditionalDisaggRole::Decode,
    }
}

/// Why a hub URL is of no use.
#[derive(Debug)]
pub enum HubUrlError {
    Malformed { hub_url: String },
    NoHost { hub_url: String },
}

impl HubUrlError {
    /// What the error reads as.
    pub open spec fn text(self) -> Seq<char> {
        match self {
            HubUrlError::Malformed { hub_url } => "parsing disagg hub_url: "@ + hub_url@,
            HubUrlError::NoHost { hub_url } => "disagg hub_url has no host: "@ + hub_url@,
        }
    }

    /// What the error reads as.
    pub fn message(&self) -> (message: String)
        ensures
            message@ == self.text(),
    {
        match self {
            HubUrlError::Malformed { hub_url } => {
                let mut message = String::from_str("parsing disagg hub_url: ");
                message.append(hub_url.as_str());
                message
            },
            HubUrlError::NoHost { hub_url } => {
                let mut message = String::from_str("disagg hub_url has no host: ");
                message.append(hub_url.as_str());
                message
            },
        }
    }
}

/// The parts of a URL that address a hub.
#[derive(Debug)]
pub struct UrlParts {
    pub scheme: String,
    pub host: Option<String>,
    /// The port that is written, or the one the scheme implies.
    pub port: Option<u16>,
}

/// [`UrlParts`] as the contracts see them.
#[verifier::ext_equal]
pub struct UrlPartsView {
    pub scheme: Seq<char>,
    pub host: Option<Seq<char>>,
    pub port: Option<u16>,
}

impl View for UrlParts {
    type V = UrlPartsView;

    open spec fn view(&self) -> UrlPartsView {
        UrlPartsView {
            scheme: self.scheme@,
            host: match self.host {
                Some(host) => Some(host@),
                None => None,
            },
            port: self.port,
        }
    }
}

/// The parts of a parsed URL, if there was one.
pub open spec fn parts_view(parts: Option<UrlParts>) -> Option<UrlPartsView> {
    match parts {
        Some(parts) => Some(parts@),
        None => None,
    }
}

/// What `url::Url::parse` finds in a text: the scheme, the host and the port of
/// the URL, or nothing where the text is no URL.
pub uninterp spec fn url_parts(text: Seq<char>) -> Option<UrlPartsView>;

/// `url::Url::parse`, read through `scheme`, `host_str` and
/// `port_or_known_default`: what the text holds as a URL is a function of the
/// text alone.
#[verifier::external_body]
fn parse_url(text: &str) -> (parts: Option<UrlParts>)
    ensures
        parts_view(parts) == url_parts(text@),
{
    match url::Url::parse(text) {
        Ok(url) => Some(
            UrlParts {
                scheme: url.scheme().to_string(),
                host: url.host_str().map(|host| host.to_string()),
                port: url.port_or_known_default(),
            },
        ),
        Err(_) => None,
    }
}

/// What the parts of a hub URL come to: a host is required, and the ports
/// default to the hub's own.
pub open spec fn addresses(
    hub_url: Seq<char>,
    parts: Option<UrlPartsView>,
    res: Result<HubClientConfig, HubUrlError>,
) -> bool {
    match parts {
        None => res matches Err(HubUrlError::Malformed { hub_url: url }) && url@ == hub_url,
        Some(parts) => if parts.host is None || parts.host->0.len() == 0 {
            res matches Err(HubUrlError::NoHost { hub_url: url }) && url@ == hub_url
        } else {
            &&& res matches Ok(config) && config.scheme@ == parts.scheme && config.host@
                == parts.host->0 && config.discovery_port == (match parts.port {
                Some(port) => port,
                None => DEFAULT_DISCOVERY_PORT,
            }) && config.control_port == DEFAULT_CONTROL_PORT
        },
    }
}

/// Turns the parts of a hub URL into a client configuration.
pub fn address_hub(hub_url: &str, parts: Option<UrlParts>) -> (res: Result<
    HubClientConfig,
    HubUrlError,
>)
    ensures
        addresses(hub_url@, parts_view(parts), res),
{
    let parts = match parts {
        Some(parts) => parts,
        None => {
            return Err(HubUrlError::Malformed { hub_url: String::from_str(hub_url) });
        },
    };
    let host = match parts.host {
        Some(host) => host,
        None => {
            return Err(HubUrlError::NoHost { hub_url: String::from_str(hub_url) });
        },
    };
    if host.as_str().unicode_len() == 0 {
        return Err(HubUrlError::NoHost { hub_url: String::from_str(hub_url) });
    }
    let discovery_port: u16 = match parts.port {
        Some(port) => port,
        None => DEFAULT_DISCOVERY_PORT,
    };
    let built = HubClientBuilder::new().scheme(parts.scheme).host(host).discovery_port(
        discovery_port,
    ).build();
    match built {
        Ok(config) => Ok(config),
        Err(_) => Err(HubUrlError::NoHost { hub_url: String::from_str(hub_url) }),
    }
}

/// Reads a hub URL into a client configuration.
pub fn build_hub_client(hub_url: &str) -> (res: Result<HubClientConfig, HubUrlError>)
    ensures
        addresses(hub_url@, url_parts(hub_url@), res),
{
    address_hub(hub_url, parse_url(hub_url))
}

/// What registering with the hub takes.
#[derive(Debug)]
pub struct HubRegistration {
    pub client: HubClientConfig,
    pub role: ConditionalDisaggRole,
}

/// Prepares a registration with the hub: the address to call and the role to
/// declare.
pub fn register_with_hub(config: &DisaggConfig) -> (res: Result<HubRegistration, HubUrlError>)
    ensures
        match res {
            Ok(plan) => {
                &&& plan.role == hub_role(config.role)
                &&& addresses(
                    config.hub_url@,
                    url_parts(config.hub_url@),
                    Ok::<HubClientConfig, HubUrlError>(plan.client),
                )
            },
            Err(error) => addresses(
                config.hub_url@,
                url_parts(config.hub_url@),
                Err::<HubClientConfig, HubUrlError>(error),
            ),
        },
{
    match build_hub_client(config.hub_url.as_str()) {
        Ok(client) => Ok(HubRegistration { client, role: role_to_hub(config.role) }),
        Err(error) => Err(error),
    }
}

/// A hub that is reached at all is reached on the default control port.
pub proof fn law_control_port_is_default(
    hub_url: Seq<char>,
    parts: Option<UrlPartsView>,
    config: HubClientConfig,
)
    requires
        addresses(hub_url, parts, Ok::<HubClientConfig, HubUrlError>(config)),
    ensures
        config.control_port == DEFAULT_CONTROL_PORT,
        config.host@.len() > 0,
{
}

/// Where both flows are wired, exactly the requests that carry a remote prefill
/// go to the prefill flow; a single flow takes all; without a flow nobody does.
pub proof fn law_remote_prefills_go_to_prefill(
    decode_wired: bool,
    prefill_wired: bool,
    params: Option<TransferParams>,
)
    ensures
        classified(decode_wired, prefill_wired, params) == RequestRole::Prefill <==> prefill_wired
            && (!decode_wired || (params matches Some(carried) && carried.remote_prefill is Some)),
        classified(decode_wired, prefill_wired, params) == RequestRole::Decode <==> decode_wired && (
        !prefill_wired || !(params matches Some(carried) && carried.remote_prefill is Some)),
{
}

/// What the request's slot carries decides where both flows are wired, and then
/// a request without a slot or with unreadable parameters is an error. With one
/// flow or none the slot is not looked at.
pub proof fn law_slot_decides_between_flows(
    leader: ConditionalDisaggLeader,
    id: Seq<char>,
    res: Result<RequestRole, ConnectorError>,
)
    requires
        leader.classifies(id, res),
    ensures
        res is Err <==> leader.decode is Some && leader.prefill is Some && (
        !leader.inner@.slots.contains_key(id)
            || leader.inner@.slots[id].request.transfer_params is Err),
        res matches Ok(RequestRole::Prefill) ==> leader.prefill is Some,
        res matches Ok(RequestRole::Decode) ==> leader.decode is Some,
        res matches Ok(RequestRole::NonCd) ==> leader.decode is None && leader.prefill is None,
        leader.decode is Some && leader.prefill is Some && leader.inner@.slots.contains_key(id) ==> (
        leader.inner@.slots[id].request.transfer_params matches Ok(params) ==> res == Ok::<
            RequestRole,
            ConnectorError,
        >(
            if params matches Some(carried) && carried.remote_prefill is Some {
                RequestRole::Prefill
            } else {
                RequestRole::Decode
            },
        )),
        leader.decode is Some && leader.prefill is None ==> res == Ok::<
            RequestRole,
            ConnectorError,
        >(RequestRole::Decode),
        leader.decode is None && leader.prefill is Some ==> res == Ok::<
            RequestRole,
            ConnectorError,
        >(RequestRole::Prefill),
{
}

/// A role is served by the flow that is wired for it.
pub proof fn law_role_is_served_by_its_flow(leader: ConditionalDisaggLeader, flow: HandleId)
    ensures
        leader.prefill == Some(flow) ==> leader.flow_of(RequestRole::Prefill)
            == FlowRoute::Prefill(flow),
        leader.decode == Some(flow) ==> leader.flow_of(RequestRole::Decode) == FlowRoute::Decode(
            flow,
        ),
        leader.flow_of(RequestRole::NonCd) == FlowRoute::Inner,
{
}

/// Every finished transfer is recorded once for a flow, in order, under its
/// request; only the decode flow says whether it follows the request.
pub proof fn law_finished_transfers_are_recorded(finished: Seq<FinishedRequest>, index: int)
    requires
        0 <= index < finished.len(),
    ensures
        sending_audits(finished, ConditionalDisaggRole::Decode).len() == finished.len(),
        recving_audits(finished, ConditionalDisaggRole::Prefill).len() == finished.len(),
        sending_audits(finished, ConditionalDisaggRole::Decode)[index]
            == (AuditView::FinishedSending {
            role: ConditionalDisaggRole::Decode,
            request_id: finished[index].request_id@,
            cd_tracked: Some(finished[index].cd_tracked),
        }),
        sending_audits(finished, ConditionalDisaggRole::Prefill)[index]
            == (AuditView::FinishedSending {
            role: ConditionalDisaggRole::Prefill,
            request_id: finished[index].request_id@,
            cd_tracked: None,
        }),
        recving_audits(finished, ConditionalDisaggRole::Decode)[index]
            == (AuditView::FinishedRecving {
            role: ConditionalDisaggRole::Decode,
            request_id: finished[index].request_id@,
            cd_tracked: Some(finished[index].cd_tracked),
        }),
        recving_audits(finished, ConditionalDisaggRole::Prefill)[index]
            == (AuditView::FinishedRecving {
            role: ConditionalDisaggRole::Prefill,
            request_id: finished[index].request_id@,
            cd_tracked: None,
        }),
{
}

/// A new slot and a tick are recorded once for each wired flow, decode first.
pub proof fn law_wired_flows_record(
    decode_wired: bool,
    prefill_wired: bool,
    request: Request,
)
    ensures
        ({
            let slots = create_slot_audits(decode_wired, prefill_wired, request);
            let ticks = build_meta_audits(decode_wired, prefill_wired);
            let wired = (if decode_wired {
                1int
            } else {
                0
            }) + (if prefill_wired {
                1int
            } else {
                0
            });
            &&& slots.len() == wired
            &&& ticks.len() == wired
            &&& decode_wired ==> slots[0] == (AuditView::CreateSlot {
                role: ConditionalDisaggRole::Decode,
                request_id: request.request_id@,
                num_tokens: request.tokens@.len(),
                has_kv_transfer: request.kv_transfer_params is Some,
            })
            &&& prefill_wired ==> slots.last() == (AuditView::CreateSlot {
                role: ConditionalDisaggRole::Prefill,
                request_id: request.request_id@,
                num_tokens: request.tokens@.len(),
                has_kv_transfer: request.kv_transfer_params is Some,
            })
            &&& decode_wired ==> ticks[0] == (AuditView::BuildMeta {
                role: ConditionalDisaggRole::Decode,
            })
            &&& prefill_wired ==> ticks.last() == (AuditView::BuildMeta {
                role: ConditionalDisaggRole::Prefill,
            })
        }),
{
}

/// A hub URL is of use exactly if it is one and names a host. The client then
/// calls that host by that scheme, on the port of the URL or else the default.
pub proof fn law_hub_is_called_where_the_url_says(
    hub_url: Seq<char>,
    parts: Option<UrlPartsView>,
    res: Result<HubClientConfig, HubUrlError>,
)
    requires
        addresses(hub_url, parts, res),
    ensures
        res is Ok <==> (parts matches Some(url) && (url.host matches Some(host) && host.len() > 0)),
        res matches Ok(config) ==> {
            &&& config.scheme@ == parts->0.scheme
            &&& config.host@ == parts->0.host->0
            &&& parts->0.port matches Some(port) ==> config.discovery_port == port
            &&& parts->0.port is None ==> config.discovery_port == DEFAULT_DISCOVERY_PORT
            &&& config.control_port == DEFAULT_CONTROL_PORT
        },
        parts is None <==> res matches Err(HubUrlError::Malformed { .. }),
{
}

/// An instance declares to the hub the role it was configured with.
pub proof fn law_declared_role_is_the_configured_one(role: DisaggregationRole)
    ensures
        hub_role(role) == ConditionalDisaggRole::Prefill <==> role == DisaggregationRole::Prefill,
        hub_role(role) == ConditionalDisaggRole::Decode <==> role == DisaggregationRole::Decode,
{
}

/// The calls of a request go to the flow that serves it: where both are wired,
/// to prefill exactly if its slot carries a remote prefill; to the only flow if
/// there is one; to the inner leader without any.
pub proof fn law_route_follows_the_slot(
    leader: ConditionalDisaggLeader,
    id: Seq<char>,
    res: Result<FlowRoute, ConnectorError>,
    decode: HandleId,
    prefill: HandleId,
)
    requires
        leader.routes(id, res),
    ensures
        leader.decode == Some(decode) && leader.prefill == Some(prefill)
            && leader.inner@.slots.contains_key(id) ==> (
        leader.inner@.slots[id].request.transfer_params matches Ok(params) ==> res == Ok::<
            FlowRoute,
            ConnectorError,
        >(
            if params matches Some(carried) && carried.remote_prefill is Some {
                FlowRoute::Prefill(prefill)
            } else {
                FlowRoute::Decode(decode)
            },
        )),
        leader.decode == Some(decode) && leader.prefill is None ==> res == Ok::<
            FlowRoute,
            ConnectorError,
        >(FlowRoute::Decode(decode)),
        leader.decode is None && leader.prefill == Some(prefill) ==> res == Ok::<
            FlowRoute,
            ConnectorError,
        >(FlowRoute::Prefill(prefill)),
        leader.decode is None && leader.prefill is None ==> res == Ok::<FlowRoute, ConnectorError>(
            FlowRoute::Inner,
        ),
{
    let role = choose|role: Result<RequestRole, ConnectorError>| #[trigger]
        leader.classifies(id, role) && match role {
            Ok(flow) => res == Ok::<FlowRoute, ConnectorError>(leader.flow_of(flow)),
            Err(_) => res is Err,
        };
    law_slot_decides_between_flows(leader, id, role);
}

/// A dispatcher needs a flow, and a prefill flow its coordinator.
pub proof fn law_dispatcher_needs_a_flow(builder: ConditionalDisaggLeaderBuilder)
    ensures
        builder.missing() is None <==> (builder.decode is Some || builder.prefill is Some) && (
        builder.prefill is Some <==> builder.prefill_coordinator is Some),
{
}

/// Every finished transfer is recorded once for each wired flow, decode before
/// prefill and within a flow the sends before the receives.
pub proof fn law_each_flow_records_every_transfer(
    decode_wired: bool,
    prefill_wired: bool,
    sending: Seq<FinishedRequest>,
    recving: Seq<FinishedRequest>,
    index: int,
)
    requires
        0 <= index,
    ensures
        ({
            let records = output_audits(decode_wired, prefill_wired, sending, recving);
            let each = sending.len() + recving.len();
            let second = if decode_wired {
                each as int
            } else {
                0
            };
            &&& records.len() == (if decode_wired {
                each as int
            } else {
                0
            }) + (if prefill_wired {
                each as int
            } else {
                0
            })
            &&& decode_wired && index < sending.len() ==> records[index]
                == (AuditView::FinishedSending {
                role: ConditionalDisaggRole::Decode,
                request_id: sending[index].request_id@,
                cd_tracked: Some(sending[index].cd_tracked),
            })
            &&& decode_wired && index < recving.len() ==> records[sending.len() + index]
                == (AuditView::FinishedRecving {
                role: ConditionalDisaggRole::Decode,
                request_id: recving[index].request_id@,
                cd_tracked: Some(recving[index].cd_tracked),
            })
            &&& prefill_wired && index < sending.len() ==> records[second + index]
                == (AuditView::FinishedSending {
                role: ConditionalDisaggRole::Prefill,
                request_id: sending[index].request_id@,
                cd_tracked: None,
            })
            &&& prefill_wired && index < recving.len() ==> records[second + sending.len() + index]
                == (AuditView::FinishedRecving {
                role: ConditionalDisaggRole::Prefill,
                request_id: recving[index].request_id@,
                cd_tracked: None,
            })
        }),
{
}

/// A tick is recorded for each wired flow whether or not its metadata came
/// about. That the coordinator failed to observe it is told exactly if there was
/// metadata to observe and a prefill flow to observe it.
pub proof fn law_failed_observation_is_told(
    decode_wired: bool,
    prefill_wired: bool,
    built: bool,
    observed: Result<(), String>,
)
    ensures
        ({
            let records = tick_audits(decode_wired, prefill_wired, built, observed);
            let wired = (if decode_wired {
                1int
            } else {
                0
            }) + (if prefill_wired {
                1int
            } else {
                0
            });
            &&& built && prefill_wired ==> (observed matches Err(error) ==> records.len() == wired
                + 1 && records.last() == (AuditView::ObserveForwardError { error: error@ }))
            &&& !(built && prefill_wired && observed is Err) ==> records.len() == wired
            &&& decode_wired ==> records[0] == (AuditView::BuildMeta {
                role: ConditionalDisaggRole::Decode,
            })
            &&& prefill_wired ==> records[wired - 1] == (AuditView::BuildMeta {
                role: ConditionalDisaggRole::Prefill,
            })
        }),
{
}

} // verus!
