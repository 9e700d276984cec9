//! Token sequences and the lineage hashes of their blocks.
//!
//! Hashing belongs to `dynamo-tokens`; this module fixes what is handed to it
//! and what comes back.

use dynamo_tokens::{PositionalLineageHash, TokenBlockError, TokenBlockSequence, Tokens};
use vstd::prelude::*;

verus! {

/// Positions a lineage hash can encode are below this bound.
pub const MAX_BLOCK_POSITIONS: u64 = 16_777_216;

#[verifier::external_type_specification]
#[verifier::external_body]
pub struct ExTokenBlockSequence(TokenBlockSequence);

#[verifier::external_type_specification]
#[verifier::external_body]
pub struct ExTokenBlockError(TokenBlockError);

/// The tokens a sequence holds, in order.
pub uninterp spec fn sequence_tokens(sequence: TokenBlockSequence) -> Seq<u32>;

/// The block size a sequence was made with.
pub uninterp spec fn sequence_block_size(sequence: TokenBlockSequence) -> nat;

/// The salt a sequence was made with.
pub uninterp spec fn sequence_salt(sequence: TokenBlockSequence) -> u64;

/// True of a sequence that holds text tokens only, with no multimodal run.
pub uninterp spec fn sequence_is_text(sequence: TokenBlockSequence) -> bool;

/// The 128 bits of the lineage hash of the last block of a text prefix that is
/// cut into blocks of the given size under the given salt.
pub uninterp spec fn block_hash_bits(prefix: Seq<u32>, block_size: nat, salt: u64) -> u128;

/// How a lineage hash is laid out at a position: its mode, and the number of
/// values that the parent fragment can take.
pub open spec fn lineage_layout(position: u64) -> (int, int) {
    if position < 0x100 {
        (0, 0x40_0000_0000_0000)
    } else if position < 0x1_0000 {
        (1, 0x4000_0000_0000)
    } else {
        (2, 0x40_0000_0000)
    }
}

/// The bits of a lineage hash, from the top: two for the mode, then the
/// position, the sequence hash of the block, and the low bits of its parent's,
/// which are zero for a block without a parent.
pub open spec fn lineage_hash_bits(current: u64, parent: Option<u64>, position: u64) -> int {
    let (mode, fragments) = lineage_layout(position);
    let parent_hash = match parent {
        Some(hash) => hash as int,
        None => 0,
    };
    mode * 0x4000_0000_0000_0000_0000_0000_0000_0000 + (position * 0x1_0000_0000_0000_0000
        + current) * fragments + parent_hash % fragments
}

/// Lineage hash of one block: 128 packed bits, and the block position that the
/// bits encode.
#[derive(Debug, Clone, Copy, PartialEq, Eq, Hash, Structural)]
pub struct SequenceHash {
    pub bits: u128,
    pub position: u64,
}

impl SequenceHash {
    /// Packs a hash from a block's sequence hash, its parent's and its position.
    pub fn new(current: u64, parent: Option<u64>, position: u64) -> (hash: Self)
        requires
            position < MAX_BLOCK_POSITIONS,
        ensures
            hash.bits == lineage_hash_bits(current, parent, position),
            hash.position == position,
    {
        let (bits, position): (u128, u64) = pack_lineage_hash(current, parent, position);
        SequenceHash { bits, position }
    }

    /// The packed bits.
    pub fn as_u128(&self) -> (bits: u128)
        ensures
            bits == self.bits,
    {
        self.bits
    }

    /// The block position.
    pub fn position(&self) -> (position: u64)
        ensures
            position == self.position,
    {
        self.position
    }
}

/// `PositionalLineageHash::new`, with `as_u128` and `position` reading the
/// result back. The bits are packed as `lineage_hash_bits` says; the position
/// read back is the one that went in. The call panics from position 2^24 on.
#[verifier::external_body]
fn pack_lineage_hash(current: u64, parent: Option<u64>, position: u64) -> (packed: (u128, u64))
    requires
        position < MAX_BLOCK_POSITIONS,
    ensures
        packed.0 == lineage_hash_bits(current, parent, position),
        packed.1 == position,
{
    let hash = PositionalLineageHash::new(current, parent, position);
    (hash.as_u128(), hash.position())
}

/// `TokenBlockSequence::new`: a sequence of the given tokens, cut into blocks
/// of the given size and hashed under the given salt. The call panics for a
/// block size of zero, and for more complete blocks than a position can count.
#[verifier::external_body]
fn make_sequence(tokens: Vec<u32>, block_size: u32, salt: u64) -> (sequence: TokenBlockSequence)
    requires
        block_size > 0,
        tokens@.len() / block_size as nat <= MAX_BLOCK_POSITIONS,
    ensures
        sequence_tokens(sequence) == tokens@,
        sequence_block_size(sequence) == block_size as nat,
        sequence_salt(sequence) == salt,
        sequence_is_text(sequence),
{
    TokenBlockSequence::new(Tokens::from(tokens), block_size, Some(salt))
}

/// `TokenBlockSequence::extend`: appends the tokens. Every block that fills up
/// is committed on the way, so a commit always finds a full block and the call
/// succeeds. It panics when a block position reaches 2^24.
#[verifier::external_body]
fn extend_sequence(sequence: &mut TokenBlockSequence, tokens: Vec<u32>) -> (res: Result<
    (),
    TokenBlockError,
>)
    requires
        sequence_is_text(*old(sequence)),
        sequence_block_size(*old(sequence)) > 0,
        (sequence_tokens(*old(sequence)).len() + tokens@.len()) / sequence_block_size(
            *old(sequence),
        ) <= MAX_BLOCK_POSITIONS,
    ensures
        res is Ok,
        sequence_tokens(*final(sequence)) == sequence_tokens(*old(sequence)) + tokens@,
        sequence_block_size(*final(sequence)) == sequence_block_size(*old(sequence)),
        sequence_salt(*final(sequence)) == sequence_salt(*old(sequence)),
        sequence_is_text(*final(sequence)),
{
    sequence.extend(Tokens::from(tokens)).map(|_| ())
}

/// The length of `TokenBlockSequence::blocks`: one block for each full
/// `block_size` tokens.
#[verifier::external_body]
fn count_blocks(sequence: &TokenBlockSequence) -> (count: usize)
    requires
        sequence_is_text(*sequence),
        sequence_block_size(*sequence) > 0,
    ensures
        count == sequence_tokens(*sequence).len() / sequence_block_size(*sequence),
{
    sequence.blocks().len()
}

/// `TokenBlock::positional_lineage_hash` of one complete block: its bits are
/// named after the prefix that ends with the block, its position is the block's
/// index.
#[verifier::external_body]
fn block_hash_at(sequence: &TokenBlockSequence, index: usize) -> (packed: (u128, u64))
    requires
        sequence_is_text(*sequence),
        sequence_block_size(*sequence) > 0,
        index < sequence_tokens(*sequence).len() / sequence_block_size(*sequence),
    ensures
        packed.0 == block_hash_bits(
            sequence_tokens(*sequence).take((index + 1) * sequence_block_size(*sequence)),
            sequence_block_size(*sequence),
            sequence_salt(*sequence),
        ),
        packed.1 == index,
{
    let hash = sequence.blocks()[index].positional_lineage_hash();
    (hash.as_u128(), hash.position())
}

/// `TokenBlockSequence::total_tokens`: complete blocks and the partial one.
#[verifier::external_body]
fn count_tokens(sequence: &TokenBlockSequence) -> (count: usize)
    ensures
        count == sequence_tokens(*sequence).len(),
{
    sequence.total_tokens()
}

/// `TokenBlockSequence::block_size`.
#[verifier::external_body]
fn size_of_blocks(sequence: &TokenBlockSequence) -> (size: usize)
    ensures
        size == sequence_block_size(*sequence),
{
    sequence.block_size()
}

/// `TokenBlockSequence::tokens_at`: the tokens of a range inside the sequence.
#[verifier::external_body]
fn copy_tokens(sequence: &TokenBlockSequence, start: usize, end: usize) -> (tokens: Vec<u32>)
    requires
        start <= end <= sequence_tokens(*sequence).len(),
    ensures
        tokens@ == sequence_tokens(*sequence).subrange(start as int, end as int),
{
    Vec::<u32>::from(sequence.tokens_at(start..end))
}

/// The hash of block `index` of a text.
pub open spec fn block_hash(
    tokens: Seq<u32>,
    block_size: nat,
    salt: u64,
    index: int,
) -> SequenceHash {
    SequenceHash {
        bits: block_hash_bits(tokens.take((index + 1) * block_size), block_size, salt),
        position: index as u64,
    }
}

/// One complete block of a sequence: its tokens and its hash.
#[derive(Debug)]
pub struct TokenBlock {
    pub tokens: Vec<u32>,
    pub hash: SequenceHash,
}

/// A growing token sequence, cut into hashed blocks.
pub struct TokenSequence {
    inner: TokenBlockSequence,
}

/// What a [`TokenSequence`] stands for.
#[verifier::ext_equal]
pub struct TokenSequenceView {
    pub tokens: Seq<u32>,
    pub block_size: nat,
    pub salt: u64,
}

impl TokenSequenceView {
    /// Number of complete blocks.
    pub open spec fn block_count(self) -> int {
        self.tokens.len() as int / self.block_size as int
    }

    /// Hash of one complete block.
    pub open spec fn hash_at(self, index: int) -> SequenceHash {
        block_hash(self.tokens, self.block_size, self.salt, index)
    }

    /// The hashes of the complete blocks, in order.
    pub open spec fn hashes(self) -> Seq<SequenceHash> {
        Seq::new(self.block_count() as nat, |i: int| self.hash_at(i))
    }

    /// The same sequence with tokens appended.
    pub open spec fn extended(self, tokens: Seq<u32>) -> Self {
        TokenSequenceView { tokens: self.tokens + tokens, ..self }
    }

    /// A sequence whose block positions all fit into a hash.
    pub open spec fn wf(self) -> bool {
        &&& self.block_size > 0
        &&& self.block_count() <= MAX_BLOCK_POSITIONS
    }
}

impl View for TokenSequence {
    type V = TokenSequenceView;

    closed spec fn view(&self) -> TokenSequenceView {
        TokenSequenceView {
            tokens: sequence_tokens(self.inner),
            block_size: sequence_block_size(self.inner),
            salt: sequence_salt(self.inner),
        }
    }
}

impl TokenSequence {
    /// Holds for every sequence this type hands out.
    pub closed spec fn valid(self) -> bool {
        sequence_is_text(self.inner)
    }

    /// A valid sequence with representable block positions.
    pub open spec fn wf(self) -> bool {
        self.valid() && self@.wf()
    }

    /// Cuts the tokens into blocks of `block_size` under a salt.
    pub fn new(tokens: Vec<u32>, block_size: u32, salt: u64) -> (sequence: Self)
        requires
            block_size > 0,
            tokens@.len() / block_size as nat <= MAX_BLOCK_POSITIONS,
        ensures
            sequence.wf(),
            sequence@ == (TokenSequenceView { tokens: tokens@, block_size: block_size as nat, salt }),
    {
        TokenSequence { inner: make_sequence(tokens, block_size, salt) }
    }

    /// Appends tokens; complete blocks are hashed as they fill up.
    pub fn extend(&mut self, tokens: Vec<u32>) -> (res: Result<(), TokenBlockError>)
        requires
            old(self).wf(),
            old(self)@.extended(tokens@).wf(),
        ensures
            res is Ok,
            final(self).wf(),
            final(self)@ == old(self)@.extended(tokens@),
    {
        extend_sequence(&mut self.inner, tokens)
    }

    /// Number of complete blocks.
    pub fn block_count(&self) -> (count: usize)
        requires
            self.wf(),
        ensures
            count == self@.block_count(),
    {
        count_blocks(&self.inner)
    }

    /// Number of tokens, the partial block included.
    pub fn total_tokens(&self) -> (count: usize)
        ensures
            count == self@.tokens.len(),
    {
        count_tokens(&self.inner)
    }

    /// The block size.
    pub fn block_size(&self) -> (size: usize)
        ensures
            size == self@.block_size,
    {
        size_of_blocks(&self.inner)
    }

    /// Hash of one complete block.
    pub fn hash_at(&self, index: usize) -> (hash: SequenceHash)
        requires
            self.wf(),
            index < self@.block_count(),
        ensures
            hash == self@.hash_at(index as int),
    {
        let (bits, position): (u128, u64) = block_hash_at(&self.inner, index);
        SequenceHash { bits, position }
    }

    /// Hashes of all complete blocks, in order.
    pub fn hashes(&self) -> (hashes: Vec<SequenceHash>)
        requires
            self.wf(),
        ensures
            hashes@ == self@.hashes(),
    {
        let count: usize = self.block_count();
        let mut hashes: Vec<SequenceHash> = Vec::with_capacity(count);
        let mut index: usize = 0;
        while index < count
            invariant
                self.wf(),
                count == self@.block_count(),
                index <= count,
                hashes@.len() == index,
                forall|i: int| 0 <= i < index ==> #[trigger] hashes@[i] == self@.hash_at(i),
            decreases count - index,
        {
            hashes.push(self.hash_at(index));
            index = index + 1;
        }
        assert(hashes@ =~= self@.hashes());
        hashes
    }

    /// Copies the tokens of a range inside the sequence.
    pub fn tokens_at(&self, start: usize, end: usize) -> (tokens: Vec<u32>)
        requires
            start <= end <= self@.tokens.len(),
        ensures
            tokens@ == self@.tokens.subrange(start as int, end as int),
    {
        copy_tokens(&self.inner, start, end)
    }
}

/// Growing a sequence never changes the hash of a block that was complete
/// before: a block's hash is settled by the prefix that ends with it.
pub proof fn law_hashes_stable_under_extension(
    sequence: TokenSequenceView,
    more: Seq<u32>,
    index: int,
)
    requires
        sequence.block_size > 0,
        0 <= index < sequence.block_count(),
    ensures
        index < sequence.extended(more).block_count(),
        sequence.extended(more).hash_at(index) == sequence.hash_at(index),
{
    let size = sequence.block_size as int;
    let len = sequence.tokens.len() as int;
    assert((index + 1) * size <= len) by (nonlinear_arith)
        requires
            0 <= index < len / size,
            size > 0,
            len >= 0,
    ;
    assert(len / size <= (len + more.len()) / size) by (nonlinear_arith)
        requires
            size > 0,
            len >= 0,
            more.len() >= 0,
    ;
    assert(sequence.extended(more).tokens.take((index + 1) * size) =~= sequence.tokens.take(
        (index + 1) * size,
    ));
}

/// Block hashes carry the block's index as their position.
pub proof fn law_hash_positions_are_indices(sequence: TokenSequenceView, index: int)
    requires
        sequence.wf(),
        0 <= index < sequence.block_count(),
    ensures
        sequence.hashes()[index].position == index,
{
}

/// The mode and the packed position and hash are read off the bits.
proof fn lemma_bits_split(current: u64, parent: Option<u64>, position: u64)
    requires
        position < MAX_BLOCK_POSITIONS,
    ensures
        ({
            let (mode, fragments) = lineage_layout(position);
            let bits = lineage_hash_bits(current, parent, position);
            let top = 0x4000_0000_0000_0000_0000_0000_0000_0000int;
            &&& bits / top == mode
            &&& (bits - mode * top) / fragments == position * 0x1_0000_0000_0000_0000 + current
        }),
{
    let (mode, fragments) = lineage_layout(position);
    let top = 0x4000_0000_0000_0000_0000_0000_0000_0000int;
    let block = position * 0x1_0000_0000_0000_0000 + current;
    let parent_hash = match parent {
        Some(hash) => hash as int,
        None => 0,
    };
    let fragment = parent_hash % fragments;
    let rest = block * fragments + fragment;
    assert(0 <= fragment < fragments);
    vstd::arithmetic::div_mod::lemma_fundamental_div_mod_converse(
        rest,
        fragments,
        block,
        fragment,
    );
    if position < 0x100 {
        assert(rest < top) by (nonlinear_arith)
            requires
                rest == block * fragments + fragment,
                fragments == 0x40_0000_0000_0000,
                0 <= block < 0x100 * 0x1_0000_0000_0000_0000,
                0 <= fragment < fragments,
                top == 0x4000_0000_0000_0000_0000_0000_0000_0000,
        ;
    } else if position < 0x1_0000 {
        assert(rest < top) by (nonlinear_arith)
            requires
                rest == block * fragments + fragment,
                fragments == 0x4000_0000_0000,
                0 <= block < 0x1_0000 * 0x1_0000_0000_0000_0000,
                0 <= fragment < fragments,
                top == 0x4000_0000_0000_0000_0000_0000_0000_0000,
        ;
    } else {
        assert(rest < top) by (nonlinear_arith)
            requires
                rest == block * fragments + fragment,
                fragments == 0x40_0000_0000,
                0 <= block < 0x100_0000 * 0x1_0000_0000_0000_0000,
                0 <= fragment < fragments,
                top == 0x4000_0000_0000_0000_0000_0000_0000_0000,
        ;
    }
    assert(rest >= 0) by (nonlinear_arith)
        requires
            rest == block * fragments + fragment,
            block >= 0,
            fragments > 0,
            fragment >= 0,
    ;
    vstd::arithmetic::div_mod::lemma_fundamental_div_mod_converse(
        mode * top + rest,
        top,
        mode,
        rest,
    );
}

/// Lineage hashes tell positions and sequence hashes apart.
pub proof fn law_lineage_bits_pin_block(
    one: (u64, Option<u64>, u64),
    other: (u64, Option<u64>, u64),
)
    requires
        one.2 < MAX_BLOCK_POSITIONS,
        other.2 < MAX_BLOCK_POSITIONS,
        lineage_hash_bits(one.0, one.1, one.2) == lineage_hash_bits(other.0, other.1, other.2),
    ensures
        one.0 == other.0,
        one.2 == other.2,
{
    let (mode, fragments) = lineage_layout(one.2);
    let (other_mode, other_fragments) = lineage_layout(other.2);
    lemma_bits_split(one.0, one.1, one.2);
    lemma_bits_split(other.0, other.1, other.2);
    assert(mode == other_mode);
    assert(fragments == other_fragments);
    let block = one.2 * 0x1_0000_0000_0000_0000 + one.0;
    let other_block = other.2 * 0x1_0000_0000_0000_0000 + other.0;
    assert(block == other_block);
}

/// The complete blocks of a sequence hold all its tokens but a remainder that
/// fills no block, and each of them has a hash.
pub proof fn law_blocks_cover_the_tokens(sequence: TokenSequenceView)
    requires
        sequence.block_size > 0,
    ensures
        0 <= sequence.block_count(),
        sequence.block_count() * sequence.block_size <= sequence.tokens.len(),
        sequence.tokens.len() < (sequence.block_count() + 1) * sequence.block_size,
        sequence.hashes().len() == sequence.block_count(),
{
    let size = sequence.block_size as int;
    let len = sequence.tokens.len() as int;
    let count = len / size;
    vstd::arithmetic::div_mod::lemma_fundamental_div_mod(len, size);
    vstd::arithmetic::div_mod::lemma_mod_bound(len, size);
    vstd::arithmetic::div_mod::lemma_div_pos_is_pos(len, size);
    assert(count * size <= len < (count + 1) * size) by (nonlinear_arith)
        requires
            len == size * count + len % size,
            0 <= len % size < size,
    ;
}

/// The hash of a block depends on the tokens up to its end and on nothing
/// behind it: sequences that agree so far, under one block size and salt, share
/// it.
pub proof fn law_hash_depends_on_prefix(
    one: TokenSequenceView,
    other: TokenSequenceView,
    index: int,
)
    requires
        one.block_size == other.block_size,
        one.salt == other.salt,
        one.tokens.take((index + 1) * one.block_size) == other.tokens.take(
            (index + 1) * one.block_size,
        ),
    ensures
        one.hash_at(index) == other.hash_at(index),
{
}

/// Appending keeps every token and adds the new ones behind; appending twice is
/// appending both at once.
pub proof fn law_appending_composes(
    sequence: TokenSequenceView,
    first: Seq<u32>,
    second: Seq<u32>,
)
    ensures
        sequence.extended(first).tokens == sequence.tokens + first,
        sequence.extended(first).block_size == sequence.block_size,
        sequence.extended(first).salt == sequence.salt,
        sequence.extended(first).extended(second) == sequence.extended(first + second),
{
    assert(sequence.extended(first).extended(second) =~= sequence.extended(first + second));
}

} // verus!
