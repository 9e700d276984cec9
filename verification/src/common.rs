//! Identifiers and small value types shared by every layer.

use vstd::prelude::*;

verus! {

/// Physical block identifier inside one tier of one instance.
pub type BlockId = usize;

/// Identifier of an onboarding or transfer session.
pub type SessionId = u128;

/// Identifier of a worker endpoint.
pub type WorkerId = u64;

/// Identifier of a running instance: the 128 bits of its UUID.
#[derive(Debug, Clone, Copy, PartialEq, Eq, PartialOrd, Ord, Hash, Structural)]
pub struct InstanceId {
    pub bits: u128,
}

/// Storage tier a layout or a block belongs to.
#[derive(Debug, Clone, Copy, PartialEq, Eq, Hash, Structural)]
pub enum LogicalLayoutHandle {
    /// Device memory.
    G1,
    /// Host memory.
    G2,
    /// Disk.
    G3,
    /// Object store.
    G4,
}

/// The smaller of two lengths.
pub open spec fn min_int(a: int, b: int) -> int {
    if a <= b {
        a
    } else {
        b
    }
}

/// The larger of two lengths.
pub open spec fn max_int(a: int, b: int) -> int {
    if a <= b {
        b
    } else {
        a
    }
}

/// A saturating sum, as `usize` and `u64` counters compute it.
pub open spec fn sat_add(a: int, b: int, limit: int) -> int {
    min_int(a + b, limit)
}

} // verus!
