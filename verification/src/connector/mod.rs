//! The connector: request slots, the leader that owns them, and the
//! conditional-disaggregation dispatcher in front of it.

pub mod disagg;
pub mod onboarding;
pub mod machine;
pub mod request;
pub mod slot;
pub mod leader;
pub mod split;
