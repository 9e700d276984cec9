//! What the feature registries have in common.

use super::protocol::FeatureKey;
use vstd::prelude::*;

verus! {

/// Why a registry refused a declared feature.
#[derive(Debug)]
pub enum FeatureError {
    /// The configuration is missing or does not fit.
    InvalidConfig(String),
    /// The registry was handed a feature of another kind.
    KeyMismatch { manager: FeatureKey, payload: FeatureKey },
    /// Anything else.
    Other(String),
}

impl FeatureError {
    /// What the error reads as.
    pub open spec fn text(self) -> Seq<char> {
        match self {
            FeatureError::InvalidConfig(reason) => "feature config invalid: "@ + reason@,
            FeatureError::KeyMismatch { manager, payload } => "feature key mismatch: manager="@
                + manager.text() + " payload="@ + payload.text(),
            FeatureError::Other(reason) => reason@,
        }
    }

    /// What the error reads as.
    pub fn message(&self) -> (message: String)
        ensures
            message@ == self.text(),
    {
        match self {
            FeatureError::InvalidConfig(reason) => {
                let mut message = String::from_str("feature config invalid: ");
                message.append(reason.as_str());
                message
            },
            FeatureError::KeyMismatch { manager, payload } => {
                let mut message = String::from_str("feature key mismatch: manager=");
                message.append(manager.name());
                message.append(" payload=");
                message.append(payload.name());
                message
            },
            FeatureError::Other(reason) => String::from_str(reason.as_str()),
        }
    }
}

/// The error says that a registry was handed another kind of feature.
pub open spec fn mismatched<T>(
    outcome: Result<T, FeatureError>,
    manager: FeatureKey,
    payload: FeatureKey,
) -> bool {
    outcome matches Err(FeatureError::KeyMismatch { manager: m, payload: p }) && m == manager && p
        == payload
}

/// The error is a refused configuration with a text.
pub open spec fn invalid<T>(outcome: Result<T, FeatureError>, text: Seq<char>) -> bool {
    outcome matches Err(FeatureError::InvalidConfig(reason)) && reason@ == text
}

} // verus!
