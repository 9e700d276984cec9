//! The instance leader: searching, holding and moving blocks.

pub mod matches;
pub mod held;
pub mod describe;
pub mod instance;
pub mod snapshot;
pub mod receiver;
pub mod remote;
pub mod scan;
