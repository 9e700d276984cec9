//! Onboarding state: the shards of a search and the span they match.

use crate::common::max_int;
use crate::engine::instance::{InstanceLeader, SessionsView};
use crate::engine::matches::{
    AsyncSessionResult, FindMatchesResult, MatchBreakdown, OnboardingStatus, ReadyView,
};
use vstd::prelude::*;

verus! {

/// A single contiguous sub-range of the logical sequence being searched.
///
/// Several shards exist when a search has been reconciled against a changed
/// number of computed or total tokens.
#[derive(Debug)]
pub struct OnboardingShard {
    /// Block index where the search starts (inclusive).
    pub start_block: usize,
    /// Number of hashes queried, from `start_block` on.
    pub num_queried_blocks: usize,
    /// The search that owns the matched blocks.
    pub find_session: FindMatchesResult,
}

impl OnboardingShard {
    /// Exclusive end block index.
    pub open spec fn end(self) -> int {
        self.start_block + self.num_queried_blocks
    }

    /// The search has reached a terminal state.
    pub open spec fn terminal(self) -> bool {
        match self.find_session {
            FindMatchesResult::Ready(_) => true,
            FindMatchesResult::AsyncSession(session) => session.status.terminal(),
        }
    }

    /// Matched blocks of a terminal shard: what a ready search counted by tier,
    /// what a completed session reported, or the list a parked session holds.
    pub open spec fn matched(self) -> int {
        match self.find_session {
            FindMatchesResult::Ready(ready) => ready@.breakdown.total(),
            FindMatchesResult::AsyncSession(session) => match session.status {
                OnboardingStatus::Complete { matched_blocks } => matched_blocks as int,
                _ => match session.blocks {
                    Some(blocks) => blocks@.len() as int,
                    None => 0,
                },
            },
        }
    }

    /// Every queried block matched.
    pub open spec fn full(self) -> bool {
        self.matched() >= self.num_queried_blocks
    }

    /// Exclusive end block index of this shard.
    pub fn end_block(&self) -> (end: usize)
        requires
            self.end() <= usize::MAX,
        ensures
            end == self.end(),
    {
        self.start_block + self.num_queried_blocks
    }

    /// The sessions of a leader once this shard's session is released.
    pub open spec fn released(self, sessions: SessionsView) -> SessionsView {
        match self.find_session {
            FindMatchesResult::Ready(_) => sessions,
            FindMatchesResult::AsyncSession(session) => sessions.released(session.session_id),
        }
    }

    /// Releases the session behind this shard, if there is one.
    pub fn release(&self, leader: &mut InstanceLeader)
        requires
            old(leader).wf(),
        ensures
            final(leader).wf(),
            final(leader).same_but_sessions(*old(leader)),
            final(leader).session_view() == self.released(old(leader).session_view()),
    {
        if let Some(session_id) = self.find_session.session_id() {
            leader.release_session(session_id);
        }
    }
}

/// The sessions of a leader once the sessions of all shards are released.
pub open spec fn released_all(
    shards: Seq<OnboardingShard>,
    sessions: SessionsView,
) -> SessionsView
    decreases shards.len(),
{
    if shards.len() == 0 {
        sessions
    } else {
        shards.last().released(released_all(shards.drop_last(), sessions))
    }
}

/// Cleanup hook for resources that a remote prefill keeps while a request is
/// onboarding. Dropping it is the cleanup.
pub trait CdOnboardingPayload: Send + Sync {

}

/// Everything needed to find and load external blocks.
///
/// `shards` is empty for requests that only a remote prefill serves; then
/// `cd_payload` is set.
pub struct OnboardingState {
    /// Tokens already in device memory, as last reported.
    pub num_computed_tokens: usize,
    /// Length of the sequence when the earliest shard was issued.
    pub total_tokens_at_start: usize,
    /// Shards in ascending order, without gap or overlap.
    pub shards: Vec<OnboardingShard>,
    /// Cleanup hook of the remote prefill.
    pub cd_payload: Option<Box<dyn CdOnboardingPayload>>,
}

/// Each shard starts where the one before it ends.
pub open spec fn contiguous(shards: Seq<OnboardingShard>) -> bool {
    forall|i: int|
        #![trigger shards[i]]
        0 < i < shards.len() ==> shards[i].start_block == shards[i - 1].end()
}

/// Contiguous shards whose block indices fit the counters.
pub open spec fn shards_wf(shards: Seq<OnboardingShard>) -> bool {
    &&& contiguous(shards)
    &&& forall|i: int| 0 <= i < shards.len() ==> (#[trigger] shards[i]).end() <= usize::MAX
}

/// Blocks queried over all shards.
pub open spec fn queried_sum(shards: Seq<OnboardingShard>) -> int
    decreases shards.len(),
{
    if shards.len() == 0 {
        0
    } else {
        queried_sum(shards.drop_last()) + shards.last().num_queried_blocks
    }
}

/// Matches over all shards, tier by tier: host, disk, object.
pub open spec fn breakdown_sums(shards: Seq<OnboardingShard>) -> (int, int, int)
    decreases shards.len(),
{
    if shards.len() == 0 {
        (0, 0, 0)
    } else {
        let rest = breakdown_sums(shards.drop_last());
        let last = shards.last().find_session.breakdown();
        (rest.0 + last.host_blocks, rest.1 + last.disk_blocks, rest.2 + last.object_blocks)
    }
}

/// Where the contiguous match ends: inside the first shard that did not match
/// fully, else at the end of the last shard.
pub open spec fn first_hole(shards: Seq<OnboardingShard>) -> int
    recommends
        shards.len() > 0,
    decreases shards.len(),
{
    if shards.len() == 0 {
        0
    } else if !shards[0].full() {
        shards[0].start_block + shards[0].matched()
    } else if shards.len() == 1 {
        shards[0].end()
    } else {
        first_hole(shards.skip(1))
    }
}

impl OnboardingState {
    /// The span of block indices that the contiguous match covers: from the
    /// first block that is neither computed nor before the first shard, to the
    /// first hole.
    pub open spec fn span(self, block_size: int) -> (int, int) {
        (
            max_int(self.shards@[0].start_block as int, self.num_computed_tokens as int / block_size),
            first_hole(self.shards@),
        )
    }

    /// Every shard has reached a terminal state.
    pub open spec fn terminal(self) -> bool {
        forall|i: int| 0 <= i < self.shards@.len() ==> (#[trigger] self.shards@[i]).terminal()
    }

    /// Every shard's match count fits the counters.
    pub open spec fn counts_fit(self) -> bool {
        forall|i: int|
            0 <= i < self.shards@.len() ==> (#[trigger] self.shards@[i]).matched() <= usize::MAX
    }

    /// Tier sums fit the counters.
    pub open spec fn sums_fit(self) -> bool {
        let sums = breakdown_sums(self.shards@);
        sums.0 <= usize::MAX && sums.1 <= usize::MAX && sums.2 <= usize::MAX
    }

    /// Something keeps the onboarding alive: a shard or a remote prefill.
    pub open spec fn anchored(self) -> bool {
        self.shards@.len() > 0 || self.cd_payload is Some
    }

    /// The invariant of an onboarding that a slot holds.
    pub open spec fn wf(self) -> bool {
        shards_wf(self.shards@) && self.anchored()
    }

    /// A state that carries only a remote prefill.
    pub open spec fn is_cd_only(self, payload: Option<Box<dyn CdOnboardingPayload>>) -> bool {
        &&& self.num_computed_tokens == 0
        &&& self.total_tokens_at_start == 0
        &&& self.shards@ == Seq::<OnboardingShard>::empty()
        &&& self.cd_payload == payload
    }

    /// A state with one shard and no remote prefill.
    pub open spec fn is_single(
        self,
        num_computed_tokens: usize,
        total_tokens_at_start: usize,
        shard: OnboardingShard,
    ) -> bool {
        &&& self.num_computed_tokens == num_computed_tokens
        &&& self.total_tokens_at_start == total_tokens_at_start
        &&& self.shards@ == seq![shard]
        &&& self.cd_payload is None
    }

    /// Builds a state from a single initial shard.
    pub fn new(
        num_computed_tokens: usize,
        total_tokens_at_start: usize,
        initial_shard: OnboardingShard,
    ) -> (state: Self)
        ensures
            state.is_single(num_computed_tokens, total_tokens_at_start, initial_shard),
            contiguous(state.shards@),
    {
        let mut shards: Vec<OnboardingShard> = Vec::new();
        shards.push(initial_shard);
        OnboardingState { num_computed_tokens, total_tokens_at_start, shards, cd_payload: None }
    }

    /// Builds a state with no shards, carrying only a remote prefill.
    pub fn new_cd_only(cd_payload: Box<dyn CdOnboardingPayload>) -> (state: Self)
        ensures
            state.is_cd_only(Some(cd_payload)),
    {
        Self::carrying(Some(cd_payload))
    }

    /// A state with no shards around the given payload.
    pub fn carrying(cd_payload: Option<Box<dyn CdOnboardingPayload>>) -> (state: Self)
        ensures
            state.is_cd_only(cd_payload),
    {
        OnboardingState {
            num_computed_tokens: 0,
            total_tokens_at_start: 0,
            shards: Vec::new(),
            cd_payload,
        }
    }

    /// Blocks queried across all shards.
    pub fn total_query_blocks(&self) -> (total: usize)
        requires
            shards_wf(self.shards@),
        ensures
            total == queried_sum(self.shards@),
    {
        let mut total: usize = 0;
        let mut index: usize = 0;
        while index < self.shards.len()
            invariant
                shards_wf(self.shards@),
                index <= self.shards@.len(),
                total == queried_sum(self.shards@.take(index as int)),
            decreases self.shards@.len() - index,
        {
            let ghost prefix = self.shards@.take(index + 1);
            proof {
                assert(prefix.drop_last() =~= self.shards@.take(index as int));
                lemma_queried_sum_is_extent(prefix);
                assert(prefix.last() == self.shards@[index as int]);
            }
            total = total + self.shards[index].num_queried_blocks;
            index = index + 1;
        }
        assert(self.shards@.take(index as int) =~= self.shards@);
        total
    }

    /// Tier-wise sum of the matches across all shards.
    pub fn aggregate_breakdown(&self) -> (sum: MatchBreakdown)
        requires
            self.sums_fit(),
        ensures
            (sum.host_blocks as int, sum.disk_blocks as int, sum.object_blocks as int)
                == breakdown_sums(self.shards@),
    {
        let mut sum: MatchBreakdown = MatchBreakdown {
            host_blocks: 0,
            disk_blocks: 0,
            object_blocks: 0,
        };
        let mut index: usize = 0;
        while index < self.shards.len()
            invariant
                self.sums_fit(),
                index <= self.shards@.len(),
                (sum.host_blocks as int, sum.disk_blocks as int, sum.object_blocks as int)
                    == breakdown_sums(self.shards@.take(index as int)),
            decreases self.shards@.len() - index,
        {
            let ghost prefix = self.shards@.take(index + 1);
            proof {
                assert(prefix.drop_last() =~= self.shards@.take(index as int));
                assert(prefix.last() == self.shards@[index as int]);
                lemma_breakdown_sums_monotone(self.shards@, index + 1);
            }
            let next = self.shards[index].find_session.match_breakdown();
            sum = MatchBreakdown {
                host_blocks: sum.host_blocks + next.host_blocks,
                disk_blocks: sum.disk_blocks + next.disk_blocks,
                object_blocks: sum.object_blocks + next.object_blocks,
            };
            index = index + 1;
        }
        assert(self.shards@.take(index as int) =~= self.shards@);
        sum
    }

    /// True iff every shard has reached a terminal state.
    pub fn all_shards_terminal(&self) -> (terminal: bool)
        ensures
            terminal == self.terminal(),
    {
        let mut index: usize = 0;
        while index < self.shards.len()
            invariant
                index <= self.shards@.len(),
                forall|i: int| 0 <= i < index ==> (#[trigger] self.shards@[i]).terminal(),
            decreases self.shards@.len() - index,
        {
            if !shard_is_terminal(&self.shards[index]) {
                return false;
            }
            index = index + 1;
        }
        true
    }

    /// The `(effective_start, final_end)` block span of the contiguous match.
    pub fn matched_span(&self, block_size: usize) -> (span: (usize, usize))
        requires
            block_size > 0,
            self.shards@.len() > 0,
            self.terminal(),
            shards_wf(self.shards@),
            self.counts_fit(),
        ensures
            (span.0 as int, span.1 as int) == self.span(block_size as int),
    {
        let first: usize = self.shards[0].start_block;
        let mut running_end: usize = first;
        let mut final_end: usize = first;
        let mut index: usize = 0;
        let mut hole: bool = false;
        assert(self.shards@.skip(0) =~= self.shards@);
        while index < self.shards.len() && !hole
            invariant
                self.terminal(),
                shards_wf(self.shards@),
                self.counts_fit(),
                0 <= index <= self.shards@.len(),
                self.shards@.len() > 0,
                hole ==> final_end == first_hole(self.shards@),
                !hole && index < self.shards@.len() ==> {
                    &&& running_end == self.shards@[index as int].start_block
                    &&& first_hole(self.shards@) == first_hole(self.shards@.skip(index as int))
                },
                !hole && index == self.shards@.len() ==> final_end == first_hole(self.shards@),
            decreases self.shards@.len() - index + (if hole { 0int } else { 1int }),
        {
            let shard = &self.shards[index];
            let ghost rest = self.shards@.skip(index as int);
            assert(rest[0] == *shard);
            assert(shard.end() <= usize::MAX);
            let matched: usize = shard_terminal_matched_count(shard);
            if matched < shard.num_queried_blocks {
                final_end = running_end + matched;
                hole = true;
            } else {
                running_end = running_end + shard.num_queried_blocks;
                final_end = running_end;
                index = index + 1;
                proof {
                    if index < self.shards@.len() {
                        assert(rest.skip(1) =~= self.shards@.skip(index as int));
                        assert(self.shards@[index as int].start_block == self.shards@[index - 1].end());
                    }
                }
            }
        }
        let new_computed_blocks: usize = self.num_computed_tokens / block_size;
        let effective_start: usize = if first <= new_computed_blocks {
            new_computed_blocks
        } else {
            first
        };
        (effective_start, final_end)
    }

    /// Releases the sessions of all shards.
    pub fn release_all(&self, leader: &mut InstanceLeader)
        requires
            old(leader).wf(),
        ensures
            final(leader).wf(),
            final(leader).same_but_sessions(*old(leader)),
            final(leader).session_view() == released_all(
                self.shards@,
                old(leader).session_view(),
            ),
    {
        let mut index: usize = 0;
        while index < self.shards.len()
            invariant
                index <= self.shards@.len(),
                leader.wf(),
                leader.same_but_sessions(*old(leader)),
                leader.session_view() == released_all(
                    self.shards@.take(index as int),
                    old(leader).session_view(),
                ),
            decreases self.shards@.len() - index,
        {
            assert(self.shards@.take(index + 1).drop_last() =~= self.shards@.take(index as int));
            self.shards[index].release(leader);
            index = index + 1;
        }
        assert(self.shards@.take(index as int) =~= self.shards@);
    }

    /// Whether the shard list has neither gap nor overlap.
    pub fn debug_assert_contiguous(&self) -> (ok: bool)
        ensures
            ok == contiguous(self.shards@),
    {
        let mut index: usize = 1;
        while index < self.shards.len()
            invariant
                1 <= index,
                forall|i: int|
                    #![trigger self.shards@[i]]
                    0 < i < index && i < self.shards@.len() ==> self.shards@[i].start_block
                        == self.shards@[i - 1].end(),
            decreases self.shards@.len() - index,
        {
            let previous = &self.shards[index - 1];
            let joined: bool = match previous.start_block.checked_add(previous.num_queried_blocks) {
                Some(end) => end == self.shards[index].start_block,
                None => false,
            };
            if !joined {
                assert(self.shards@[index as int].start_block != self.shards@[index - 1].end());
                return false;
            }
            index = index + 1;
        }
        true
    }
}

/// True if the search of this shard has reached a terminal state.
pub fn shard_is_terminal(shard: &OnboardingShard) -> (terminal: bool)
    ensures
        terminal == shard.terminal(),
{
    match &shard.find_session {
        FindMatchesResult::Ready(_) => true,
        FindMatchesResult::AsyncSession(session) => match session.status {
            OnboardingStatus::Complete { .. } => true,
            OnboardingStatus::Holding { .. } => true,
            OnboardingStatus::Prepared { .. } => true,
            _ => false,
        },
    }
}

/// The matched block count of a terminal shard.
pub fn shard_terminal_matched_count(shard: &OnboardingShard) -> (count: usize)
    requires
        shard.terminal(),
        shard.matched() <= usize::MAX,
    ensures
        count == shard.matched(),
{
    match &shard.find_session {
        FindMatchesResult::Ready(ready) => {
            let breakdown = ready.match_breakdown();
            breakdown.host_blocks + breakdown.disk_blocks + breakdown.object_blocks
        },
        FindMatchesResult::AsyncSession(session) => match session.status {
            OnboardingStatus::Complete { matched_blocks } => matched_blocks,
            _ => match &session.blocks {
                Some(blocks) => blocks.len(),
                None => 0,
            },
        },
    }
}

/// Contiguous shards query exactly the blocks between the first start and the
/// last end.
pub proof fn lemma_queried_sum_is_extent(shards: Seq<OnboardingShard>)
    requires
        contiguous(shards),
    ensures
        shards.len() > 0 ==> queried_sum(shards) == shards.last().end() - shards[0].start_block,
        shards.len() == 0 ==> queried_sum(shards) == 0,
    decreases shards.len(),
{
    if shards.len() > 1 {
        let rest = shards.drop_last();
        assert forall|i: int| #![trigger rest[i]] 0 < i < rest.len() implies rest[i].start_block
            == rest[i - 1].end() by {
            assert(shards[i].start_block == shards[i - 1].end());
        }
        lemma_queried_sum_is_extent(rest);
        assert(shards[shards.len() - 1].start_block == shards[shards.len() - 2].end());
    } else if shards.len() == 1 {
        assert(shards.drop_last().len() == 0);
        assert(queried_sum(shards.drop_last()) == 0);
    }
}

/// Tier sums only grow along the shard list.
pub proof fn lemma_breakdown_sums_monotone(shards: Seq<OnboardingShard>, count: int)
    requires
        0 <= count <= shards.len(),
    ensures
        breakdown_sums(shards.take(count)).0 <= breakdown_sums(shards).0,
        breakdown_sums(shards.take(count)).1 <= breakdown_sums(shards).1,
        breakdown_sums(shards.take(count)).2 <= breakdown_sums(shards).2,
    decreases shards.len() - count,
{
    if count == shards.len() {
        assert(shards.take(count) =~= shards);
    } else {
        assert(shards.take(count + 1).drop_last() =~= shards.take(count));
        lemma_breakdown_sums_monotone(shards, count + 1);
    }
}

/// The contiguous match ends inside the extent of the shards, and everything
/// before the end matched: the shard that holds the end matched exactly up to
/// it, all shards before that one matched fully.
pub proof fn law_first_hole(shards: Seq<OnboardingShard>) -> (stop: int)
    requires
        shards.len() > 0,
        contiguous(shards),
    ensures
        0 <= stop < shards.len(),
        shards[0].start_block <= first_hole(shards) <= shards.last().end(),
        forall|i: int| 0 <= i < stop ==> (#[trigger] shards[i]).full(),
        shards[stop].full() ==> stop == shards.len() - 1 && first_hole(shards)
            == shards[stop].end(),
        !shards[stop].full() ==> first_hole(shards) == shards[stop].start_block
            + shards[stop].matched(),
    decreases shards.len(),
{
    if !shards[0].full() {
        lemma_shard_ends_ordered(shards, 0);
        0
    } else if shards.len() == 1 {
        0
    } else {
        let rest = shards.skip(1);
        assert forall|i: int| #![trigger rest[i]] 0 < i < rest.len() implies rest[i].start_block
            == rest[i - 1].end() by {
            assert(shards[i + 1].start_block == shards[i].end());
        }
        let stop = law_first_hole(rest);
        assert(shards[1].start_block == shards[0].end());
        assert(rest[0] == shards[1]);
        assert forall|i: int| 0 <= i < stop + 1 implies (#[trigger] shards[i]).full() by {
            if i > 0 {
                assert(shards[i] == rest[i - 1]);
            }
        }
        stop + 1
    }
}

/// Along contiguous shards the ends are ordered.
proof fn lemma_shard_ends_ordered(shards: Seq<OnboardingShard>, index: int)
    requires
        contiguous(shards),
        0 <= index < shards.len(),
    ensures
        shards[index].end() <= shards.last().end(),
    decreases shards.len() - index,
{
    if index + 1 < shards.len() {
        assert(shards[index + 1].start_block == shards[index].end());
        lemma_shard_ends_ordered(shards, index + 1);
    }
}

/// A result after its host blocks were handed out.
pub open spec fn drained(before: FindMatchesResult, after: FindMatchesResult) -> bool {
    match (before, after) {
        (FindMatchesResult::Ready(b), FindMatchesResult::Ready(a)) => a@ == (ReadyView {
            g2_blocks: Seq::empty(),
            ..b@
        }),
        (FindMatchesResult::AsyncSession(b), FindMatchesResult::AsyncSession(a)) => a == (
        AsyncSessionResult { blocks: None, ..b }),
        _ => false,
    }
}

/// The span of an onboarding is the same before and after its host blocks were
/// taken, as long as each session among its shards is complete.
pub proof fn law_span_unchanged_by_drain(
    before: OnboardingState,
    after: OnboardingState,
    block_size: int,
)
    requires
        before.shards@.len() == after.shards@.len(),
        before.shards@.len() > 0,
        before.num_computed_tokens == after.num_computed_tokens,
        forall|i: int|
            #![trigger before.shards@[i]]
            #![trigger after.shards@[i]]
            0 <= i < before.shards@.len() ==> {
                &&& before.shards@[i].start_block == after.shards@[i].start_block
                &&& before.shards@[i].num_queried_blocks == after.shards@[i].num_queried_blocks
                &&& drained(before.shards@[i].find_session, after.shards@[i].find_session)
                &&& before.shards@[i].find_session matches FindMatchesResult::AsyncSession(s)
                    ==> s.status is Complete
            },
    ensures
        after.span(block_size) == before.span(block_size),
{
    lemma_first_hole_by_counts(before.shards@, after.shards@);
}

/// The first hole depends on starts, query counts and match counts alone.
proof fn lemma_first_hole_by_counts(a: Seq<OnboardingShard>, b: Seq<OnboardingShard>)
    requires
        a.len() == b.len(),
        forall|i: int|
            #![trigger a[i]]
            #![trigger b[i]]
            0 <= i < a.len() ==> {
                &&& a[i].start_block == b[i].start_block
                &&& a[i].num_queried_blocks == b[i].num_queried_blocks
                &&& a[i].matched() == b[i].matched()
            },
    ensures
        first_hole(a) == first_hole(b),
    decreases a.len(),
{
    if a.len() > 1 {
        lemma_first_hole_by_counts(a.skip(1), b.skip(1));
    }
}

/// After an onboarding has released its sessions, the leader knows none of them.
pub proof fn law_release_all_forgets(
    shards: Seq<OnboardingShard>,
    sessions: SessionsView,
    index: int,
)
    requires
        0 <= index < shards.len(),
    ensures
        shards[index].find_session matches FindMatchesResult::AsyncSession(session)
            ==> !released_all(shards, sessions).knows(session.session_id),
    decreases shards.len(),
{
    if index < shards.len() - 1 {
        law_release_all_forgets(shards.drop_last(), sessions, index);
    }
}

/// The block queries of an onboarding cover its extent without overlap.
pub proof fn law_query_count_is_extent(state: OnboardingState)
    requires
        state.wf(),
        state.shards@.len() > 0,
    ensures
        queried_sum(state.shards@) == state.shards@.last().end() - state.shards@[0].start_block,
{
    lemma_queried_sum_is_extent(state.shards@);
}

/// A shard has ended once its search answered at once, or its session is
/// complete, holding or prepared; and what it matched is what a search at once
/// found in all tiers, what a complete session reports, and else the blocks
/// that the session lists.
pub proof fn law_shard_counts_its_matches(shard: OnboardingShard)
    ensures
        match shard.find_session {
            FindMatchesResult::Ready(ready) => {
                &&& shard.terminal()
                &&& shard.matched() == ready@.breakdown.host_blocks + ready@.breakdown.disk_blocks
                    + ready@.breakdown.object_blocks
            },
            FindMatchesResult::AsyncSession(session) => match session.status {
                OnboardingStatus::Complete { matched_blocks } => shard.terminal()
                    && shard.matched() == matched_blocks,
                OnboardingStatus::Holding { .. } | OnboardingStatus::Prepared { .. } => {
                    &&& shard.terminal()
                    &&& session.blocks matches Some(blocks) ==> shard.matched() == blocks@.len()
                    &&& session.blocks is None ==> shard.matched() == 0
                },
                _ => !shard.terminal(),
            },
        },
        shard.full() <==> shard.matched() >= shard.num_queried_blocks,
        shard.end() == shard.start_block + shard.num_queried_blocks,
{
}

/// The span of a match starts at the first block that the search covers and that
/// is not computed yet. Every block in it up to its end matched, and it is the
/// longest such span: either the search covered no more, or the block at its
/// end is one that its shard did not match.
pub proof fn law_span_is_the_contiguous_match(
    state: OnboardingState,
    block_size: int,
    shard: int,
    block: int,
)
    requires
        state.shards@.len() > 0,
        contiguous(state.shards@),
        block_size > 0,
        0 <= shard < state.shards@.len(),
        state.shards@[shard].start_block <= block < state.shards@[shard].start_block
            + state.shards@[shard].num_queried_blocks,
    ensures
        state.span(block_size).0 >= state.shards@[0].start_block,
        state.span(block_size).0 >= state.num_computed_tokens as int / block_size,
        state.span(block_size).0 == state.shards@[0].start_block || state.span(block_size).0
            == state.num_computed_tokens as int / block_size,
        block < state.span(block_size).1 ==> block - state.shards@[shard].start_block
            < state.shards@[shard].matched(),
        block == state.span(block_size).1 ==> block - state.shards@[shard].start_block
            >= state.shards@[shard].matched(),
        state.span(block_size).1 <= state.shards@.last().start_block
            + state.shards@.last().num_queried_blocks,
        state.span(block_size).1 >= state.shards@[0].start_block,
{
    let shards = state.shards@;
    let stop = law_first_hole(shards);
    let hole = first_hole(shards);
    if shard > stop {
        lemma_shard_starts_ordered(shards, stop, shard);
        assert(shards[stop].end() <= shards[shard].start_block);
    } else if shard < stop {
        lemma_shard_starts_ordered(shards, shard, stop);
        assert(shards[shard].full());
    }
}

/// Along contiguous shards a later one starts where an earlier one has ended.
pub proof fn lemma_shard_starts_ordered(shards: Seq<OnboardingShard>, first: int, second: int)
    requires
        contiguous(shards),
        0 <= first < second < shards.len(),
    ensures
        shards[first].end() <= shards[second].start_block,
    decreases second - first,
{
    assert(shards[second].start_block == shards[second - 1].end());
    if first + 1 < second {
        lemma_shard_starts_ordered(shards, first, second - 1);
    }
}

/// Matches and queries add up over the shards: another shard adds its own
/// counts, tier by tier, and no shard means none.
pub proof fn law_counts_add_up(shards: Seq<OnboardingShard>, shard: OnboardingShard)
    ensures
        breakdown_sums(Seq::<OnboardingShard>::empty()) == (0int, 0int, 0int),
        queried_sum(Seq::<OnboardingShard>::empty()) == 0,
        queried_sum(shards.push(shard)) == queried_sum(shards) + shard.num_queried_blocks,
        ({
            let found = match shard.find_session {
                FindMatchesResult::Ready(ready) => ready@.breakdown,
                FindMatchesResult::AsyncSession(session) => session.breakdown,
            };
            let sums = breakdown_sums(shards.push(shard));
            let before = breakdown_sums(shards);
            &&& sums.0 == before.0 + found.host_blocks
            &&& sums.1 == before.1 + found.disk_blocks
            &&& sums.2 == before.2 + found.object_blocks
        }),
{
    assert(shards.push(shard).drop_last() =~= shards);
}

/// Releasing an onboarding forgets its own sessions in every table and keeps
/// all others as they were.
pub proof fn law_release_all_keeps_others(
    shards: Seq<OnboardingShard>,
    sessions: SessionsView,
    other: u128,
)
    requires
        forall|i: int|
            0 <= i < shards.len() ==> ((
            #[trigger] shards[i]).find_session matches FindMatchesResult::AsyncSession(session)
                ==> session.session_id != other),
    ensures
        ({
            let after = released_all(shards, sessions);
            &&& after.channels.contains_key(other) == sessions.channels.contains_key(other)
            &&& after.held.contains_key(other) == sessions.held.contains_key(other)
            &&& after.transfers.contains_key(other) == sessions.transfers.contains_key(other)
            &&& sessions.held.contains_key(other) ==> after.held[other] == sessions.held[other]
            &&& sessions.channels.contains_key(other) ==> after.channels[other]
                == sessions.channels[other]
            &&& sessions.transfers.contains_key(other) ==> after.transfers[other]
                == sessions.transfers[other]
        }),
    decreases shards.len(),
{
    if shards.len() > 0 {
        let rest = shards.drop_last();
        assert forall|i: int| 0 <= i < rest.len() implies ((
        #[trigger] rest[i]).find_session matches FindMatchesResult::AsyncSession(session)
            ==> session.session_id != other) by {
            assert(rest[i] == shards[i]);
        }
        law_release_all_keeps_others(rest, sessions, other);
        assert(shards[shards.len() - 1] == shards.last());
    }
}

} // verus!
