//! Requests as the scheduler hands them over.

use crate::common::{InstanceId, SessionId};
use vstd::prelude::*;

verus! {

/// Where a prefill worker finds the session of the decode worker it serves.
#[derive(Debug, Clone, Copy, PartialEq, Eq, Structural)]
pub struct RemotePrefillParams {
    pub session_id: SessionId,
    pub initiator: InstanceId,
}

/// Transfer parameters of a conditional-disaggregation request.
#[derive(Debug, Clone, Copy, PartialEq, Eq, Structural)]
pub struct TransferParams {
    /// Set on requests that a decode worker has sent to a prefill worker.
    pub remote_prefill: Option<RemotePrefillParams>,
}

/// One request: its id, its prompt and the salt of its hashes.
#[derive(Debug)]
pub struct Request {
    pub request_id: String,
    pub tokens: Vec<u32>,
    pub salt_hash: u64,
    /// The raw transfer parameters, if the request carries any.
    pub kv_transfer_params: Option<serde_json::Value>,
    /// What decoding the raw transfer parameters came to.
    pub transfer_params: Result<Option<TransferParams>, String>,
}

impl Request {
    /// A request without transfer parameters.
    pub fn new(request_id: String, tokens: Vec<u32>, salt_hash: u64) -> (request: Self)
        ensures
            request.request_id@ == request_id@,
            request.tokens@ == tokens@,
            request.salt_hash == salt_hash,
            request.kv_transfer_params is None,
            request.transfer_params == Ok::<Option<TransferParams>, String>(None),
    {
        Request {
            request_id,
            tokens,
            salt_hash,
            kv_transfer_params: None,
            transfer_params: Ok(None),
        }
    }

    /// The same request with transfer parameters, raw and decoded.
    pub fn with_transfer_params(
        self,
        raw: serde_json::Value,
        decoded: Result<Option<TransferParams>, String>,
    ) -> (request: Self)
        ensures
            request == (Request {
                kv_transfer_params: Some(raw),
                transfer_params: decoded,
                ..self
            }),
    {
        Request {
            request_id: self.request_id,
            tokens: self.tokens,
            salt_hash: self.salt_hash,
            kv_transfer_params: Some(raw),
            transfer_params: decoded,
        }
    }
}

/// What the scheduler repeats about a request that it resumes.
#[derive(Debug)]
pub struct CachedRequestData {
    pub request_id: String,
    /// Every token of the request so far, if the scheduler sent them.
    pub all_token_ids: Option<Vec<u32>>,
}

} // verus!
