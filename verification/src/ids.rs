//! Heights, hashes and the other identifiers of the chain.

use crate::bounds::NonZeroU32;
use crate::bytes::same_bytes;
use vstd::prelude::*;

verus! {

/// Notes per completed commitment subtree.
pub const SUBTREE_LEAF_COUNT: u32 = 65_536;

/// Output index that marks a coinbase input's missing previous output.
pub const COINBASE_SENTINEL_OUTPUT_INDEX: u32 = 0xffff_ffff;

/// Consensus network a block belongs to.
#[derive(Clone, Copy, Debug, PartialEq, Eq, Structural)]
pub enum Network {
    ZcashMainnet,
    ZcashTestnet,
    ZcashRegtest,
}

/// Shielded pool with a note-commitment tree.
#[derive(Clone, Copy, Debug, PartialEq, Eq, Structural)]
pub enum ShieldedProtocol {
    Sapling,
    Orchard,
    Ironwood,
}

/// Height of a block.
#[derive(Clone, Copy, Debug, PartialEq, Eq, PartialOrd, Ord, Hash, Structural)]
pub struct BlockHeight(pub u32);

impl BlockHeight {
    pub fn new(height: u32) -> (block_height: Self)
        ensures
            block_height.0 == height,
    {
        BlockHeight(height)
    }

    pub fn value(self) -> (height: u32)
        ensures
            height == self.0,
    {
        self.0
    }

    /// Returns the height above this one, unless this is the highest possible.
    pub fn next(self) -> (next: Option<BlockHeight>)
        ensures
            next == self.spec_next(),
    {
        if self.0 == u32::MAX {
            None
        } else {
            Some(BlockHeight((self.0 + 1) as u32))
        }
    }

    /// The height above this one, unless this is the highest possible.
    pub open spec fn spec_next(self) -> Option<BlockHeight> {
        if self.0 == u32::MAX {
            None
        } else {
            Some(BlockHeight((self.0 + 1) as u32))
        }
    }
}

/// Hash of a block, in the byte order the consensus encoding uses.
#[derive(Clone, Copy, Debug, Eq)]
pub struct BlockHash(pub [u8; 32]);

impl BlockHash {
    pub fn from_bytes(bytes: [u8; 32]) -> (hash: Self)
        ensures
            hash.0 == bytes,
    {
        BlockHash(bytes)
    }

    pub fn as_bytes(self) -> (bytes: [u8; 32])
        ensures
            bytes == self.0,
    {
        self.0
    }
}

impl PartialEq for BlockHash {
    fn eq(&self, other: &Self) -> (same: bool) {
        same_bytes(&self.0, &other.0)
    }
}

impl vstd::std_specs::cmp::PartialEqSpecImpl for BlockHash {
    open spec fn obeys_eq_spec() -> bool {
        true
    }

    open spec fn eq_spec(&self, other: &Self) -> bool {
        *self == *other
    }
}

/// Identifier of a transaction, in the byte order the consensus encoding uses.
#[derive(Clone, Copy, Debug, Eq)]
pub struct TransactionId(pub [u8; 32]);

impl TransactionId {
    pub fn from_bytes(bytes: [u8; 32]) -> (id: Self)
        ensures
            id.0 == bytes,
    {
        TransactionId(bytes)
    }

    pub fn as_bytes(self) -> (bytes: [u8; 32])
        ensures
            bytes == self.0,
    {
        self.0
    }
}

impl PartialEq for TransactionId {
    fn eq(&self, other: &Self) -> (same: bool) {
        same_bytes(&self.0, &other.0)
    }
}

impl vstd::std_specs::cmp::PartialEqSpecImpl for TransactionId {
    open spec fn obeys_eq_spec() -> bool {
        true
    }

    open spec fn eq_spec(&self, other: &Self) -> bool {
        *self == *other
    }
}

/// Height and hash of one block.
#[derive(Clone, Copy, Debug, PartialEq, Eq)]
pub struct BlockId {
    pub height: BlockHeight,
    pub hash: BlockHash,
}

impl BlockId {
    pub fn new(height: BlockHeight, hash: BlockHash) -> (id: Self)
        ensures
            id == (BlockId { height, hash }),
    {
        BlockId { height, hash }
    }
}

/// Inclusive range of block heights; empty when `start` is above `end`.
#[derive(Clone, Copy, Debug, PartialEq, Eq, Structural)]
pub struct BlockHeightRange {
    pub start: BlockHeight,
    pub end: BlockHeight,
}

impl BlockHeightRange {
    pub fn inclusive(start: BlockHeight, end: BlockHeight) -> (range: Self)
        ensures
            range == (BlockHeightRange { start, end }),
    {
        BlockHeightRange { start, end }
    }
}

/// One output of one transaction.
#[derive(Clone, Copy, Debug, PartialEq, Eq)]
pub struct TransparentOutPoint {
    pub transaction_id: TransactionId,
    pub output_index: u32,
}

impl TransparentOutPoint {
    pub fn new(transaction_id: TransactionId, output_index: u32) -> (outpoint: Self)
        ensures
            outpoint == (TransparentOutPoint { transaction_id, output_index }),
    {
        TransparentOutPoint { transaction_id, output_index }
    }

    /// Whether this is the null outpoint that a coinbase input carries.
    pub open spec fn is_sentinel(self) -> bool {
        &&& self.output_index == COINBASE_SENTINEL_OUTPUT_INDEX
        &&& forall|i: int| 0 <= i < 32 ==> self.transaction_id.0@[i] == 0
    }

    /// Returns whether this is the null outpoint that a coinbase input carries.
    pub fn is_coinbase_sentinel(&self) -> (sentinel: bool)
        ensures
            sentinel == self.is_sentinel(),
    {
        let zero: [u8; 32] = [0;32];
        if self.output_index != COINBASE_SENTINEL_OUTPUT_INDEX {
            return false;
        }
        let same = same_bytes(&self.transaction_id.0, &zero);
        proof {
            assert(zero@ =~= Seq::new(32, |i: int| 0u8));
            if self.is_sentinel() {
                assert(self.transaction_id.0 =~= zero);
            }
        }
        same
    }

    /// Returns whether both name the same output.
    pub fn same_as(&self, other: &Self) -> (same: bool)
        ensures
            same == (*self == *other),
    {
        self.output_index == other.output_index && self.transaction_id == other.transaction_id
    }
}

/// Script hash under which transparent outputs are indexed.
#[derive(Clone, Copy, Debug, PartialEq, Eq)]
pub struct TransparentAddressScriptHash(pub [u8; 32]);

/// Identifier of one committed chain epoch.
#[derive(Clone, Copy, Debug, PartialEq, Eq, Structural)]
pub struct ChainEpochId(pub u64);

impl ChainEpochId {
    pub fn new(id: u64) -> (epoch_id: Self)
        ensures
            epoch_id.0 == id,
    {
        ChainEpochId(id)
    }

    pub fn value(self) -> (id: u64)
        ensures
            id == self.0,
    {
        self.0
    }
}

/// Wall-clock time in milliseconds since the Unix epoch.
#[derive(Clone, Copy, Debug, PartialEq, Eq, Structural)]
pub struct UnixTimestampMillis(pub u64);

/// Version of the persisted artifact schema.
#[derive(Clone, Copy, Debug, PartialEq, Eq, Structural)]
pub struct ArtifactSchemaVersion(pub u16);

/// Position of a completed subtree within its commitment tree.
#[derive(Clone, Copy, Debug, PartialEq, Eq, Structural)]
pub struct SubtreeRootIndex(pub u32);

impl SubtreeRootIndex {
    pub fn new(index: u32) -> (subtree_index: Self)
        ensures
            subtree_index.0 == index,
    {
        SubtreeRootIndex(index)
    }

    pub fn value(self) -> (index: u32)
        ensures
            index == self.0,
    {
        self.0
    }
}

/// Root of a completed commitment subtree.
#[derive(Clone, Copy, Debug, PartialEq, Eq)]
pub struct SubtreeRootHash(pub [u8; 32]);

/// Consecutive completed subtrees of one pool.
#[derive(Clone, Copy, Debug, PartialEq, Eq)]
pub struct SubtreeRootRange {
    pub protocol: ShieldedProtocol,
    pub start_index: SubtreeRootIndex,
    pub max_entries: NonZeroU32,
}

impl SubtreeRootRange {
    pub fn new(
        protocol: ShieldedProtocol,
        start_index: SubtreeRootIndex,
        max_entries: NonZeroU32,
    ) -> (range: Self)
        ensures
            range == (SubtreeRootRange { protocol, start_index, max_entries }),
    {
        SubtreeRootRange { protocol, start_index, max_entries }
    }
}

/// Commitment-tree sizes at one block boundary.
#[derive(Clone, Copy, Debug, PartialEq, Eq, Structural)]
pub struct ChainTipMetadata {
    pub sapling_commitment_tree_size: u32,
    pub orchard_commitment_tree_size: u32,
    pub ironwood_commitment_tree_size: u32,
}

impl ChainTipMetadata {
    pub fn new(sapling: u32, orchard: u32, ironwood: u32) -> (metadata: Self)
        ensures
            metadata.sapling_commitment_tree_size == sapling,
            metadata.orchard_commitment_tree_size == orchard,
            metadata.ironwood_commitment_tree_size == ironwood,
    {
        ChainTipMetadata {
            sapling_commitment_tree_size: sapling,
            orchard_commitment_tree_size: orchard,
            ironwood_commitment_tree_size: ironwood,
        }
    }

    /// Sizes before the first block.
    pub fn empty() -> (metadata: Self)
        ensures
            metadata == Self::spec_empty(),
    {
        ChainTipMetadata::new(0, 0, 0)
    }

    /// Sizes before the first block.
    pub open spec fn spec_empty() -> Self {
        ChainTipMetadata {
            sapling_commitment_tree_size: 0,
            orchard_commitment_tree_size: 0,
            ironwood_commitment_tree_size: 0,
        }
    }

    /// Notes in one pool's tree.
    pub open spec fn tree_size(self, protocol: ShieldedProtocol) -> u32 {
        match protocol {
            ShieldedProtocol::Sapling => self.sapling_commitment_tree_size,
            ShieldedProtocol::Orchard => self.orchard_commitment_tree_size,
            ShieldedProtocol::Ironwood => self.ironwood_commitment_tree_size,
        }
    }

    /// Subtrees that one pool has filled.
    pub open spec fn completed_subtrees(self, protocol: ShieldedProtocol) -> u32 {
        (self.tree_size(protocol) / SUBTREE_LEAF_COUNT) as u32
    }

    /// Returns how many subtrees one pool has filled.
    pub fn completed_subtree_count(self, protocol: ShieldedProtocol) -> (count: u32)
        ensures
            count == self.completed_subtrees(protocol),
    {
        match protocol {
            ShieldedProtocol::Sapling => self.sapling_commitment_tree_size / SUBTREE_LEAF_COUNT,
            ShieldedProtocol::Orchard => self.orchard_commitment_tree_size / SUBTREE_LEAF_COUNT,
            ShieldedProtocol::Ironwood => self.ironwood_commitment_tree_size / SUBTREE_LEAF_COUNT,
        }
    }
}

/// One atomically visible chain state.
#[derive(Clone, Copy, Debug, PartialEq, Eq)]
pub struct ChainEpoch {
    pub id: ChainEpochId,
    pub network: Network,
    pub visible_tip_height: BlockHeight,
    pub visible_tip_hash: BlockHash,
    pub settled_tip_height: BlockHeight,
    pub settled_tip_hash: BlockHash,
    pub artifact_schema_version: ArtifactSchemaVersion,
    pub tip_metadata: ChainTipMetadata,
    pub created_at: UnixTimestampMillis,
}

/// The next height is one more; only the highest height has none.
pub proof fn law_next_height_is_one_more(height: BlockHeight)
    ensures
        match height.spec_next() {
            Some(next) => next.0 == height.0 + 1,
            None => height.0 == 0xffff_ffff,
        },
{
}

/// A pool has filled as many subtrees as its leaves fill, 65536 to one: the
/// leaves cover those and not one more.
pub proof fn law_filled_subtrees_hold_their_leaves(metadata: ChainTipMetadata)
    ensures
        ({
            let sapling = metadata.completed_subtrees(ShieldedProtocol::Sapling);
            let orchard = metadata.completed_subtrees(ShieldedProtocol::Orchard);
            let ironwood = metadata.completed_subtrees(ShieldedProtocol::Ironwood);
            &&& 65536 * sapling <= metadata.sapling_commitment_tree_size < 65536 * (sapling + 1)
            &&& 65536 * orchard <= metadata.orchard_commitment_tree_size < 65536 * (orchard + 1)
            &&& 65536 * ironwood <= metadata.ironwood_commitment_tree_size < 65536 * (ironwood
                + 1)
            &&& metadata.tree_size(ShieldedProtocol::Sapling)
                == metadata.sapling_commitment_tree_size
            &&& metadata.tree_size(ShieldedProtocol::Orchard)
                == metadata.orchard_commitment_tree_size
            &&& metadata.tree_size(ShieldedProtocol::Ironwood)
                == metadata.ironwood_commitment_tree_size
        }),
{
}

/// The empty chain has no leaf in any pool.
pub proof fn law_empty_chain_has_no_leaves(protocol: ShieldedProtocol)
    ensures
        ChainTipMetadata::spec_empty().sapling_commitment_tree_size == 0,
        ChainTipMetadata::spec_empty().orchard_commitment_tree_size == 0,
        ChainTipMetadata::spec_empty().ironwood_commitment_tree_size == 0,
        ChainTipMetadata::spec_empty().completed_subtrees(protocol) == 0,
{
}

/// The null outpoint of a coinbase is the one with the highest index and an
/// identifier of zeros; there is no other.
pub proof fn law_null_outpoint_is_unique(outpoint: TransparentOutPoint, other: TransparentOutPoint)
    ensures
        outpoint.is_sentinel() <==> outpoint.output_index == 0xffff_ffff && forall|i: int|
            0 <= i < 32 ==> #[trigger] outpoint.transaction_id.0@[i] == 0,
        outpoint.is_sentinel() && other.is_sentinel() ==> outpoint == other,
{
    if outpoint.is_sentinel() && other.is_sentinel() {
        assert(outpoint.transaction_id.0 =~= other.transaction_id.0);
    }
}

} // verus!
