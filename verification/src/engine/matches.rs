//! Results of a block search.

use crate::common::{BlockId, SessionId};
use crate::tokens::SequenceHash;
use vstd::prelude::*;

verus! {

/// A block held by a search result: its id inside its tier, and its hash.
#[derive(Debug, Clone, Copy, PartialEq, Eq, Structural)]
pub struct MatchedBlock {
    pub block_id: BlockId,
    pub sequence_hash: SequenceHash,
}

/// Matched blocks by the tier they were found in.
#[derive(Debug, Clone, Copy, PartialEq, Eq, Structural)]
pub struct MatchBreakdown {
    /// Found in host memory.
    pub host_blocks: usize,
    /// Found on disk.
    pub disk_blocks: usize,
    /// Found in object storage.
    pub object_blocks: usize,
}

impl MatchBreakdown {
    /// Matched blocks over all tiers.
    pub open spec fn total(self) -> int {
        self.host_blocks + self.disk_blocks + self.object_blocks
    }

    /// Nothing matched.
    pub open spec fn zero() -> Self {
        MatchBreakdown { host_blocks: 0, disk_blocks: 0, object_blocks: 0 }
    }
}

impl Default for MatchBreakdown {
    fn default() -> (breakdown: Self)
        ensures
            breakdown == MatchBreakdown::zero(),
    {
        MatchBreakdown { host_blocks: 0, disk_blocks: 0, object_blocks: 0 }
    }
}

/// A search that finished at once; the blocks are owned by the result.
#[derive(Debug)]
pub struct ReadyResult {
    g2_blocks: Vec<MatchedBlock>,
    g3_blocks: Vec<MatchedBlock>,
    breakdown: MatchBreakdown,
}

/// What a [`ReadyResult`] stands for.
#[verifier::ext_equal]
pub struct ReadyView {
    pub g2_blocks: Seq<MatchedBlock>,
    pub g3_blocks: Seq<MatchedBlock>,
    pub breakdown: MatchBreakdown,
}

impl View for ReadyResult {
    type V = ReadyView;

    closed spec fn view(&self) -> ReadyView {
        ReadyView {
            g2_blocks: self.g2_blocks@,
            g3_blocks: self.g3_blocks@,
            breakdown: self.breakdown,
        }
    }
}

impl ReadyResult {
    /// A result with host blocks only.
    pub fn new(g2_blocks: Vec<MatchedBlock>, breakdown: MatchBreakdown) -> (ready: Self)
        ensures
            ready@ == (ReadyView { g2_blocks: g2_blocks@, g3_blocks: Seq::empty(), breakdown }),
    {
        ReadyResult { g2_blocks, g3_blocks: Vec::new(), breakdown }
    }

    /// A result with host and disk blocks.
    pub fn new_with_g3(
        g2_blocks: Vec<MatchedBlock>,
        g3_blocks: Vec<MatchedBlock>,
        breakdown: MatchBreakdown,
    ) -> (ready: Self)
        ensures
            ready@ == (ReadyView { g2_blocks: g2_blocks@, g3_blocks: g3_blocks@, breakdown }),
    {
        ReadyResult { g2_blocks, g3_blocks, breakdown }
    }

    /// The breakdown captured when the result was made.
    pub fn match_breakdown(&self) -> (breakdown: MatchBreakdown)
        ensures
            breakdown == self@.breakdown,
    {
        self.breakdown
    }

    /// Hands the host blocks out, leaving none.
    pub fn take_g2_blocks(&mut self) -> (blocks: Vec<MatchedBlock>)
        ensures
            blocks@ == old(self)@.g2_blocks,
            final(self)@ == (ReadyView { g2_blocks: Seq::empty(), ..old(self)@ }),
    {
        let mut blocks: Vec<MatchedBlock> = Vec::new();
        std::mem::swap(&mut blocks, &mut self.g2_blocks);
        blocks
    }

    /// Hands the disk blocks out, leaving none.
    pub fn take_g3_blocks(&mut self) -> (blocks: Vec<MatchedBlock>)
        ensures
            blocks@ == old(self)@.g3_blocks,
            final(self)@ == (ReadyView { g3_blocks: Seq::empty(), ..old(self)@ }),
    {
        let mut blocks: Vec<MatchedBlock> = Vec::new();
        std::mem::swap(&mut blocks, &mut self.g3_blocks);
        blocks
    }
}

/// How far a search session has come.
#[derive(Debug, Clone, Copy, PartialEq, Eq, Structural)]
pub enum OnboardingStatus {
    /// Searching local and remote tiers.
    Searching,
    /// Blocks are being staged where they were found.
    Preparing { matched_blocks: usize },
    /// Blocks are being pulled.
    Staging { matched_blocks: usize },
    /// Blocks are held where they were found.
    Holding { matched_blocks: usize },
    /// Blocks are staged where they were found.
    Prepared { matched_blocks: usize },
    /// The session has ended.
    Complete { matched_blocks: usize },
}

impl OnboardingStatus {
    /// No further progress without a command.
    pub open spec fn terminal(self) -> bool {
        self is Complete || self is Holding || self is Prepared
    }
}

/// How far a search takes the blocks it finds.
#[derive(Debug, Clone, Copy, PartialEq, Eq, Structural)]
pub enum StagingMode {
    /// Hold blocks where they are.
    Hold,
    /// Stage to host memory where they are.
    Prepare,
    /// Bring everything to local host memory.
    Full,
}

/// A search that goes on in a session.
#[derive(Debug)]
pub struct AsyncSessionResult {
    /// The session that owns the blocks.
    pub session_id: SessionId,
    /// Latest status seen.
    pub status: OnboardingStatus,
    /// The collected host blocks, once the session has published them.
    pub blocks: Option<Vec<MatchedBlock>>,
    /// Matches by tier.
    pub breakdown: MatchBreakdown,
    /// The staging mode whose next step the caller has to command, if any.
    pub control: Option<StagingMode>,
}

/// Outcome of a block search.
#[derive(Debug)]
pub enum FindMatchesResult {
    Ready(ReadyResult),
    AsyncSession(AsyncSessionResult),
}

impl FindMatchesResult {
    /// Matches by tier, as captured by the search.
    pub open spec fn breakdown(self) -> MatchBreakdown {
        match self {
            FindMatchesResult::Ready(ready) => ready@.breakdown,
            FindMatchesResult::AsyncSession(session) => session.breakdown,
        }
    }

    /// The session behind the result, if there is one.
    pub fn session_id(&self) -> (id: Option<SessionId>)
        ensures
            id == (match *self {
                FindMatchesResult::Ready(_) => None::<SessionId>,
                FindMatchesResult::AsyncSession(session) => Some(session.session_id),
            }),
    {
        match self {
            FindMatchesResult::Ready(_) => None,
            FindMatchesResult::AsyncSession(session) => Some(session.session_id),
        }
    }

    /// Matches by tier.
    pub fn match_breakdown(&self) -> (breakdown: MatchBreakdown)
        ensures
            breakdown == self.breakdown(),
    {
        match self {
            FindMatchesResult::Ready(ready) => ready.match_breakdown(),
            FindMatchesResult::AsyncSession(session) => session.breakdown,
        }
    }

    /// Hands the host blocks out. A ready result always has some list to give;
    /// a session gives its list once it has been published.
    pub fn take_g2_blocks(&mut self) -> (blocks: Option<Vec<MatchedBlock>>)
        ensures
            match (*old(self), *final(self)) {
                (FindMatchesResult::Ready(before), FindMatchesResult::Ready(after)) => {
                    &&& blocks is Some
                    &&& blocks->0@ == before@.g2_blocks
                    &&& after@ == (ReadyView { g2_blocks: Seq::empty(), ..before@ })
                },
                (FindMatchesResult::AsyncSession(before), FindMatchesResult::AsyncSession(after)) => {
                    &&& blocks == before.blocks
                    &&& after == (AsyncSessionResult { blocks: None, ..before })
                },
                _ => false,
            },
    {
        match self {
            FindMatchesResult::Ready(ready) => Some(ready.take_g2_blocks()),
            FindMatchesResult::AsyncSession(session) => session.blocks.take(),
        }
    }
}

} // verus!
