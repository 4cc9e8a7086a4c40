//! Shared per-block chain-ingest engine.
//!
//! Both bulk catchup and tip-following ingest run through this module: it owns
//! subtree-root population, the selection of the best chain, and what a commit
//! hands to the store. Callers decide which [`ReorgWindowChange`] their commit
//! represents and construct the durable [`ChainEpoch`] that the engine writes.

use crate::artifact_builder::{RawBlobPolicy, RawBlobRetention};
use crate::artifacts::{
    BlockBlobArtifact, BlockFinalNoteCommitmentRoots, BlockHeaderArtifact,
    BlockTransactionIndexArtifact, CanonicalBlockReplayEnvelope, CompactBlockArtifact, SourceBlock,
    SubtreeRootArtifact, TransactionBlobArtifact, TransactionFactsArtifact,
    TransactionIntrinsicValueBalancesArtifact, TransactionLocation, TransparentInputFact,
    TransparentOutputArtifact, TransparentOutputRow, TransparentSpendFact, TreeStateArtifact,
};
use crate::batch::{CanonicalBatch, CanonicalBatchCost};
use crate::bounds::{capped, floored_difference, u32_to_usize, NonZeroU32};
use crate::errors::{IngestError, StoreError};
use crate::ids::{
    BlockHash, BlockHeight, BlockHeightRange, ChainEpoch, ChainEpochId, ChainTipMetadata, Network,
    ShieldedProtocol, SubtreeRootHash, SubtreeRootIndex, SubtreeRootRange, TransactionId,
    TransparentOutPoint, UnixTimestampMillis,
};
use crate::outpoint_map::OutPointMap;
use vstd::prelude::*;

verus! {

/// Supported node source kinds for ingestion.
#[derive(Clone, Copy, Debug, PartialEq, Eq, Structural)]
pub enum NodeSourceKind {
    /// Zebra JSON-RPC source.
    ZebraJsonRpc,
}

/// What a commit does to the part of the chain that may still be replaced.
#[derive(Clone, Copy, Debug, PartialEq, Eq)]
pub enum ReorgWindowChange {
    /// Nothing changes.
    Unchanged,
    /// Blocks are appended after the visible tip.
    Extend { block_range: BlockHeightRange },
    /// Visible blocks from a height on give way to others.
    Replace { from_height: BlockHeight },
    /// Blocks up to a height can no longer be replaced.
    AdvanceSafeTipTo { height: BlockHeight },
}

/// Outcome of comparing a caller-owned writer with the ingest configuration.
pub open spec fn writer_contract(
    store_reorg_window_blocks: u32,
    persisted_retention: Result<RawBlobRetention, StoreError>,
    configured_reorg_window_blocks: u32,
    configured_retention: RawBlobRetention,
) -> Result<(), IngestError> {
    if store_reorg_window_blocks != configured_reorg_window_blocks {
        Err(
            IngestError::CanonicalWriterReorgWindowMismatch {
                store_reorg_window_blocks,
                configured_reorg_window_blocks,
            },
        )
    } else {
        match persisted_retention {
            Err(error) => Err(IngestError::Store(error)),
            Ok(persisted) => if persisted == configured_retention {
                Ok(())
            } else {
                Err(
                    IngestError::Store(
                        StoreError::RawBlobRetentionMismatch {
                            persisted,
                            configured: configured_retention,
                        },
                    ),
                )
            },
        }
    }
}

/// What a canonical writer promises to its readers.
#[derive(Clone, Copy, Debug, PartialEq, Eq, Structural)]
pub struct CanonicalWriterStoreOptions {
    pub network: Network,
    pub reorg_window_blocks: u32,
    pub raw_blob_retention: RawBlobRetention,
}

/// Builds the canonical writer options shared by every ingest phase and probe.
pub fn canonical_writer_store_options(
    network: Network,
    reorg_window_blocks: u32,
    raw_blob_policy: RawBlobPolicy,
) -> (options: CanonicalWriterStoreOptions)
    ensures
        options == (CanonicalWriterStoreOptions {
            network,
            reorg_window_blocks,
            raw_blob_retention: raw_blob_policy.retention(),
        }),
{
    CanonicalWriterStoreOptions {
        network,
        reorg_window_blocks,
        raw_blob_retention: raw_blob_policy.to_retention(),
    }
}

/// A writer opened with the options of a configuration satisfies the contract
/// that the same configuration checks.
pub proof fn law_writer_meets_its_own_contract(reorg_window_blocks: u32, policy: RawBlobPolicy)
    ensures
        writer_contract(
            reorg_window_blocks,
            Ok(policy.retention()),
            reorg_window_blocks,
            policy.retention(),
        ) is Ok,
{
}

/// Rejects a caller-owned writer whose runtime contract differs from ingest config.
///
/// `persisted_retention` is what the store read back of its own retention.
pub fn validate_writer_store_contract(
    store_reorg_window_blocks: u32,
    persisted_retention: Result<RawBlobRetention, StoreError>,
    configured_reorg_window_blocks: u32,
    configured_policy: RawBlobPolicy,
) -> (outcome: Result<(), IngestError>)
    ensures
        outcome == writer_contract(
            store_reorg_window_blocks,
            persisted_retention,
            configured_reorg_window_blocks,
            configured_policy.retention(),
        ),
{
    if store_reorg_window_blocks != configured_reorg_window_blocks {
        return Err(
            IngestError::CanonicalWriterReorgWindowMismatch {
                store_reorg_window_blocks,
                configured_reorg_window_blocks,
            },
        );
    }
    let persisted = match persisted_retention {
        Ok(persisted) => persisted,
        Err(error) => {
            return Err(IngestError::Store(error));
        },
    };
    let configured = configured_policy.to_retention();
    if persisted != configured {
        return Err(IngestError::Store(StoreError::RawBlobRetentionMismatch { persisted, configured }));
    }
    Ok(())
}

/// Tracks the next subtree-root index per shielded protocol so a follow-up
/// batch knows which roots the source has already provided.
#[derive(Clone, Copy, Debug, PartialEq, Eq, Structural)]
pub struct IngestSubtreeRootIndexes {
    pub sapling: SubtreeRootIndex,
    pub orchard: SubtreeRootIndex,
    pub ironwood: SubtreeRootIndex,
}

impl Default for IngestSubtreeRootIndexes {
    fn default() -> (indexes: Self)
        ensures
            forall|protocol: ShieldedProtocol| (#[trigger] indexes.at(protocol)).0 == 0,
    {
        IngestSubtreeRootIndexes {
            sapling: SubtreeRootIndex::new(0),
            orchard: SubtreeRootIndex::new(0),
            ironwood: SubtreeRootIndex::new(0),
        }
    }
}

impl IngestSubtreeRootIndexes {
    /// Index of one protocol.
    pub open spec fn at(self, protocol: ShieldedProtocol) -> SubtreeRootIndex {
        match protocol {
            ShieldedProtocol::Sapling => self.sapling,
            ShieldedProtocol::Orchard => self.orchard,
            ShieldedProtocol::Ironwood => self.ironwood,
        }
    }

    /// Returns the indexes that follow every subtree completed at a tip.
    pub fn from_tip_metadata(tip_metadata: ChainTipMetadata) -> (indexes: Self)
        ensures
            forall|protocol: ShieldedProtocol|
                (#[trigger] indexes.at(protocol)).0 == tip_metadata.completed_subtrees(protocol),
    {
        IngestSubtreeRootIndexes {
            sapling: SubtreeRootIndex::new(
                tip_metadata.completed_subtree_count(ShieldedProtocol::Sapling),
            ),
            orchard: SubtreeRootIndex::new(
                tip_metadata.completed_subtree_count(ShieldedProtocol::Orchard),
            ),
            ironwood: SubtreeRootIndex::new(
                tip_metadata.completed_subtree_count(ShieldedProtocol::Ironwood),
            ),
        }
    }

    /// Returns the index of one protocol.
    pub fn index_for(self, protocol: ShieldedProtocol) -> (subtree_index: SubtreeRootIndex)
        ensures
            subtree_index == self.at(protocol),
    {
        match protocol {
            ShieldedProtocol::Sapling => self.sapling,
            ShieldedProtocol::Orchard => self.orchard,
            ShieldedProtocol::Ironwood => self.ironwood,
        }
    }

    /// Replaces the index of one protocol.
    pub fn set_index(&mut self, protocol: ShieldedProtocol, subtree_index: SubtreeRootIndex)
        ensures
            final(self).at(protocol) == subtree_index,
            forall|other: ShieldedProtocol|
                other != protocol ==> #[trigger] final(self).at(other) == old(self).at(other),
    {
        match protocol {
            ShieldedProtocol::Sapling => {
                self.sapling = subtree_index;
            },
            ShieldedProtocol::Orchard => {
                self.orchard = subtree_index;
            },
            ShieldedProtocol::Ironwood => {
                self.ironwood = subtree_index;
            },
        }
    }
}

/// Protocols in the order in which their subtree roots are fetched.
pub open spec fn fetch_order() -> Seq<ShieldedProtocol> {
    seq![ShieldedProtocol::Sapling, ShieldedProtocol::Ironwood, ShieldedProtocol::Orchard]
}

/// Whether a range asks for every subtree of one protocol from an index up to a tip.
pub open spec fn asks_for_new_subtrees(
    request: SubtreeRootRange,
    protocol: ShieldedProtocol,
    tip_metadata: ChainTipMetadata,
    indexes: IngestSubtreeRootIndexes,
) -> bool {
    &&& request.protocol == protocol
    &&& request.start_index == indexes.at(protocol)
    &&& request.max_entries@ == tip_metadata.completed_subtrees(protocol) - indexes.at(protocol).0
}

/// Protocols of a sequence that completed subtrees beyond the recorded indexes.
pub open spec fn advanced_protocols(
    protocols: Seq<ShieldedProtocol>,
    tip_metadata: ChainTipMetadata,
    indexes: IngestSubtreeRootIndexes,
) -> Seq<ShieldedProtocol> {
    protocols.filter(
        |protocol: ShieldedProtocol|
            tip_metadata.completed_subtrees(protocol) > indexes.at(protocol).0,
    )
}

/// Returns the range of one protocol's subtrees completed beyond its recorded index.
pub fn subtree_root_request(
    protocol: ShieldedProtocol,
    tip_metadata: ChainTipMetadata,
    next_subtree_root_indexes: IngestSubtreeRootIndexes,
) -> (request: Option<SubtreeRootRange>)
    ensures
        match request {
            Some(request) => {
                &&& tip_metadata.completed_subtrees(protocol) > next_subtree_root_indexes.at(
                    protocol,
                ).0
                &&& asks_for_new_subtrees(
                    request,
                    protocol,
                    tip_metadata,
                    next_subtree_root_indexes,
                )
            },
            None => tip_metadata.completed_subtrees(protocol) <= next_subtree_root_indexes.at(
                protocol,
            ).0,
        },
{
    let start_index = next_subtree_root_indexes.index_for(protocol);
    let completed_subtree_count: u32 = tip_metadata.completed_subtree_count(protocol);
    if completed_subtree_count <= start_index.value() {
        return None;
    }
    let required_count: u32 = completed_subtree_count - start_index.value();
    match NonZeroU32::new(required_count) {
        Some(max_entries) => Some(SubtreeRootRange::new(protocol, start_index, max_entries)),
        None => None,
    }
}

/// Returns the ranges of subtree roots that a batch has completed, in the
/// order in which they are fetched.
pub fn subtree_root_requests(
    batch: &CanonicalBatch,
    next_subtree_root_indexes: IngestSubtreeRootIndexes,
) -> (requests: Result<Vec<SubtreeRootRange>, IngestError>)
    ensures
        match requests {
            Ok(requests) => {
                let protocols = advanced_protocols(
                    fetch_order(),
                    batch.tip_metadata->0,
                    next_subtree_root_indexes,
                );
                &&& batch.tip_metadata is Some
                &&& requests@.len() == protocols.len()
                &&& forall|i: int|
                    0 <= i < requests@.len() ==> asks_for_new_subtrees(
                        #[trigger] requests@[i],
                        protocols[i],
                        batch.tip_metadata->0,
                        next_subtree_root_indexes,
                    )
            },
            Err(error) => batch.tip_metadata is None && error == IngestError::EmptyCanonicalBatch,
        },
{
    let tip_metadata = match batch.tip_metadata {
        Some(tip_metadata) => tip_metadata,
        None => {
            return Err(IngestError::EmptyCanonicalBatch);
        },
    };
    let protocols = [
        ShieldedProtocol::Sapling,
        ShieldedProtocol::Ironwood,
        ShieldedProtocol::Orchard,
    ];
    assert(protocols@ =~= fetch_order());
    let mut requests: Vec<SubtreeRootRange> = Vec::new();
    let mut i: usize = 0;
    assert(fetch_order().take(0) =~= Seq::empty());
    proof {
        reveal(Seq::filter);
    }
    while i < 3
        invariant
            0 <= i <= 3,
            protocols@ == fetch_order(),
            requests@.len() == advanced_protocols(
                fetch_order().take(i as int),
                tip_metadata,
                next_subtree_root_indexes,
            ).len(),
            forall|j: int|
                0 <= j < requests@.len() ==> asks_for_new_subtrees(
                    #[trigger] requests@[j],
                    advanced_protocols(
                        fetch_order().take(i as int),
                        tip_metadata,
                        next_subtree_root_indexes,
                    )[j],
                    tip_metadata,
                    next_subtree_root_indexes,
                ),
        decreases 3 - i,
    {
        proof {
            let upto = fetch_order().take(i + 1);
            assert(upto.drop_last() =~= fetch_order().take(i as int));
            assert(upto.last() == protocols@[i as int]);
            reveal(Seq::filter);
        }
        if let Some(request) = subtree_root_request(
            protocols[i],
            tip_metadata,
            next_subtree_root_indexes,
        ) {
            requests.push(request);
        }
        i += 1;
    }
    assert(fetch_order().take(3) =~= fetch_order());
    Ok(requests)
}

/// Returns the indexes to record once every requested root of a batch was appended.
pub fn subtree_root_indexes_after(
    tip_metadata: ChainTipMetadata,
    next_subtree_root_indexes: IngestSubtreeRootIndexes,
) -> (indexes: IngestSubtreeRootIndexes)
    ensures
        forall|protocol: ShieldedProtocol|
            (#[trigger] indexes.at(protocol)).0 == if tip_metadata.completed_subtrees(protocol)
                > next_subtree_root_indexes.at(protocol).0 {
                tip_metadata.completed_subtrees(protocol)
            } else {
                next_subtree_root_indexes.at(protocol).0
            },
{
    let mut indexes = next_subtree_root_indexes;
    let protocols = [
        ShieldedProtocol::Sapling,
        ShieldedProtocol::Ironwood,
        ShieldedProtocol::Orchard,
    ];
    let mut i: usize = 0;
    while i < 3
        invariant
            0 <= i <= 3,
            protocols@ == fetch_order(),
            forall|j: int|
                0 <= j < i ==> (#[trigger] indexes.at(fetch_order()[j])).0 == if tip_metadata
                    .completed_subtrees(fetch_order()[j])
                    > next_subtree_root_indexes.at(fetch_order()[j]).0 {
                    tip_metadata.completed_subtrees(fetch_order()[j])
                } else {
                    next_subtree_root_indexes.at(fetch_order()[j]).0
                },
            forall|j: int|
                i <= j < 3 ==> #[trigger] indexes.at(fetch_order()[j])
                    == next_subtree_root_indexes.at(fetch_order()[j]),
        decreases 3 - i,
    {
        let completed_subtree_count: u32 = tip_metadata.completed_subtree_count(protocols[i]);
        assert(indexes.at(fetch_order()[i as int]) == next_subtree_root_indexes.at(
            fetch_order()[i as int],
        ));
        if completed_subtree_count > next_subtree_root_indexes.index_for(protocols[i]).value() {
            indexes.set_index(protocols[i], SubtreeRootIndex::new(completed_subtree_count));
        }
        i += 1;
    }
    assert forall|protocol: ShieldedProtocol| (#[trigger] indexes.at(protocol)).0
        == if tip_metadata.completed_subtrees(protocol) > next_subtree_root_indexes.at(protocol).0 {
        tip_metadata.completed_subtrees(protocol)
    } else {
        next_subtree_root_indexes.at(protocol).0
    } by {
        assert(fetch_order()[0] == ShieldedProtocol::Sapling);
        assert(fetch_order()[1] == ShieldedProtocol::Ironwood);
        assert(fetch_order()[2] == ShieldedProtocol::Orchard);
        assert(indexes.at(fetch_order()[0]) == indexes.sapling);
        assert(indexes.at(fetch_order()[1]) == indexes.ironwood);
        assert(indexes.at(fetch_order()[2]) == indexes.orchard);
    }
    indexes
}

/// Once the roots a batch completed are recorded, the same tip asks for none again.
pub proof fn law_recorded_subtrees_are_not_fetched_again(
    tip_metadata: ChainTipMetadata,
    recorded: IngestSubtreeRootIndexes,
)
    requires
        forall|protocol: ShieldedProtocol|
            (#[trigger] recorded.at(protocol)).0 >= tip_metadata.completed_subtrees(protocol),
    ensures
        advanced_protocols(fetch_order(), tip_metadata, recorded) == Seq::<
            ShieldedProtocol,
        >::empty(),
{
    let advanced = |protocol: ShieldedProtocol|
        tip_metadata.completed_subtrees(protocol) > recorded.at(protocol).0;
    let kept = fetch_order().filter(advanced);
    broadcast use vstd::seq_lib::group_filter_ensures;
    if kept.len() > 0 {
        fetch_order().lemma_filter_pred(advanced, 0);
        assert(recorded.at(kept[0]).0 >= tip_metadata.completed_subtrees(kept[0]));
        assert(false);
    }
    assert(kept =~= Seq::empty());
}

/// One completed subtree as the node source reported it.
#[derive(Clone, Copy, Debug, PartialEq, Eq)]
pub struct SourceSubtreeRoot {
    pub subtree_index: SubtreeRootIndex,
    pub root_hash: SubtreeRootHash,
    pub completing_block_height: BlockHeight,
}

/// Completed subtrees of one protocol as the node source reported them.
#[derive(Debug, PartialEq, Eq)]
pub struct SourceSubtreeRoots {
    pub protocol: ShieldedProtocol,
    pub start_index: SubtreeRootIndex,
    pub subtree_roots: Vec<SourceSubtreeRoot>,
}

/// Hash of the last header at a height, if any.
pub open spec fn hash_at(headers: Seq<BlockHeaderArtifact>, height: BlockHeight) -> Option<
    BlockHash,
>
    decreases headers.len(),
{
    if headers.len() == 0 {
        None
    } else if headers.last().height == height {
        Some(headers.last().block_hash)
    } else {
        hash_at(headers.drop_last(), height)
    }
}

/// Position of the first root that no header completes, or the number of roots.
pub open spec fn first_unbound_root(
    headers: Seq<BlockHeaderArtifact>,
    roots: Seq<SourceSubtreeRoot>,
) -> int
    decreases roots.len(),
{
    if roots.len() == 0 {
        0
    } else {
        let before = first_unbound_root(headers, roots.drop_last());
        if before < roots.len() - 1 {
            before
        } else if hash_at(headers, roots.last().completing_block_height) is None {
            roots.len() - 1
        } else {
            roots.len() as int
        }
    }
}

/// Root rows of the first few roots, each bound to the header that completes it.
pub open spec fn bound_roots(
    headers: Seq<BlockHeaderArtifact>,
    protocol: ShieldedProtocol,
    roots: Seq<SourceSubtreeRoot>,
    count: int,
) -> Seq<SubtreeRootArtifact> {
    Seq::new(
        count as nat,
        |i: int|
            SubtreeRootArtifact {
                protocol,
                subtree_index: roots[i].subtree_index,
                root_hash: roots[i].root_hash,
                completing_block_height: roots[i].completing_block_height,
                completing_block_hash: hash_at(headers, roots[i].completing_block_height)->0,
            },
    )
}

fn block_hash_at(headers: &Vec<BlockHeaderArtifact>, height: BlockHeight) -> (hash: Option<
    BlockHash,
>)
    ensures
        hash == hash_at(headers@, height),
{
    let mut i: usize = headers.len();
    assert(headers@.take(i as int) =~= headers@);
    while i > 0
        invariant
            0 <= i <= headers@.len(),
            hash_at(headers@.take(i as int), height) == hash_at(headers@, height),
        decreases i,
    {
        i -= 1;
        assert(headers@.take(i + 1).drop_last() =~= headers@.take(i as int));
        if headers[i].height == height {
            return Some(headers[i].block_hash);
        }
    }
    None
}

proof fn lemma_first_unbound_persists(
    headers: Seq<BlockHeaderArtifact>,
    roots: Seq<SourceSubtreeRoot>,
    k: int,
)
    requires
        0 <= k < roots.len(),
        first_unbound_root(headers, roots.take(k + 1)) == k,
    ensures
        first_unbound_root(headers, roots) == k,
    decreases roots.len(),
{
    if k == roots.len() - 1 {
        assert(roots.take(k + 1) =~= roots);
    } else {
        assert(roots.drop_last().take(k + 1) =~= roots.take(k + 1));
        lemma_first_unbound_persists(headers, roots.drop_last(), k);
    }
}

/// Appends the rows of freshly fetched subtree roots to a batch.
///
/// Rows appended before the first root that no block of the batch completes stay in the batch.
pub fn append_subtree_root_artifacts(
    batch: &mut CanonicalBatch,
    source_subtree_roots: SourceSubtreeRoots,
    expected_count: u32,
) -> (appended: Result<(), IngestError>)
    ensures
        ({
            let headers = old(batch).block_headers@;
            let protocol = source_subtree_roots.protocol;
            let roots = source_subtree_roots.subtree_roots@;
            let unbound = first_unbound_root(headers, roots);
            if roots.len() < expected_count {
                &&& appended == Err::<(), IngestError>(
                    IngestError::SubtreeRootsUnavailable {
                        protocol,
                        start_index: source_subtree_roots.start_index,
                        expected_count,
                        actual_count: roots.len() as usize,
                    },
                )
                &&& final(batch).subtree_roots@ == old(batch).subtree_roots@
            } else {
                &&& final(batch).subtree_roots@ == old(batch).subtree_roots@ + bound_roots(
                    headers,
                    protocol,
                    roots,
                    unbound,
                )
                &&& appended == if unbound < roots.len() {
                    Err::<(), IngestError>(
                        IngestError::SubtreeRootCompletingBlockMissing {
                            protocol,
                            subtree_index: roots[unbound].subtree_index,
                            completing_block_height: roots[unbound].completing_block_height,
                        },
                    )
                } else {
                    Ok(())
                }
            }
        }),
        final(batch).keeps_block_rows_of(*old(batch)),
        final(batch).tree_states@ == old(batch).tree_states@,
        final(batch).final_note_commitment_roots@ == old(batch).final_note_commitment_roots@,
        final(batch).transparent_spend_facts@ == old(batch).transparent_spend_facts@,
        final(batch).cost() == old(batch).cost(),
{
    let roots = &source_subtree_roots.subtree_roots;
    let protocol = source_subtree_roots.protocol;
    if roots.len() < u32_to_usize(expected_count) {
        return Err(
            IngestError::SubtreeRootsUnavailable {
                protocol,
                start_index: source_subtree_roots.start_index,
                expected_count,
                actual_count: roots.len(),
            },
        );
    }
    let ghost before = *batch;
    let ghost headers = batch.block_headers@;
    let mut i: usize = 0;
    assert(batch.subtree_roots@ =~= before.subtree_roots@ + bound_roots(
        headers,
        protocol,
        roots@,
        0,
    ));
    while i < roots.len()
        invariant
            0 <= i <= roots@.len(),
            *roots == source_subtree_roots.subtree_roots,
            protocol == source_subtree_roots.protocol,
            before == *old(batch),
            headers == before.block_headers@,
            roots@.len() >= expected_count,
            first_unbound_root(headers, roots@.take(i as int)) == i,
            batch.subtree_roots@ == before.subtree_roots@ + bound_roots(
                headers,
                protocol,
                roots@,
                i as int,
            ),
            batch.keeps_block_rows_of(before),
            batch.tree_states@ == before.tree_states@,
            batch.final_note_commitment_roots@ == before.final_note_commitment_roots@,
            batch.transparent_spend_facts@ == before.transparent_spend_facts@,
            batch.cost() == before.cost(),
        decreases roots@.len() - i,
    {
        let root = roots[i];
        assert(roots@.take(i + 1).drop_last() =~= roots@.take(i as int));
        match block_hash_at(&batch.block_headers, root.completing_block_height) {
            None => {
                proof {
                    lemma_first_unbound_persists(headers, roots@, i as int);
                }
                return Err(
                    IngestError::SubtreeRootCompletingBlockMissing {
                        protocol,
                        subtree_index: root.subtree_index,
                        completing_block_height: root.completing_block_height,
                    },
                );
            },
            Some(completing_block_hash) => {
                batch.subtree_roots.push(
                    SubtreeRootArtifact {
                        protocol,
                        subtree_index: root.subtree_index,
                        root_hash: root.root_hash,
                        completing_block_height: root.completing_block_height,
                        completing_block_hash,
                    },
                );
                assert(batch.subtree_roots@ =~= before.subtree_roots@ + bound_roots(
                    headers,
                    protocol,
                    roots@,
                    i + 1,
                ));
            },
        }
        i += 1;
    }
    assert(roots@.take(i as int) =~= roots@);
    Ok(())
}

/// Every root row appended for a batch names a block of that batch.
pub proof fn law_bound_roots_name_blocks_of_the_batch(
    headers: Seq<BlockHeaderArtifact>,
    protocol: ShieldedProtocol,
    roots: Seq<SourceSubtreeRoot>,
    i: int,
)
    requires
        0 <= i < first_unbound_root(headers, roots),
    ensures
        ({
            let row = bound_roots(headers, protocol, roots, first_unbound_root(headers, roots))[i];
            exists|j: int|
                0 <= j < headers.len() && (#[trigger] headers[j]).height
                    == row.completing_block_height && headers[j].block_hash
                    == row.completing_block_hash
        }),
{
    lemma_roots_before_first_unbound_are_bound(headers, roots, i);
    lemma_hash_at_comes_from_a_header(headers, roots[i].completing_block_height);
}

proof fn lemma_roots_before_first_unbound_are_bound(
    headers: Seq<BlockHeaderArtifact>,
    roots: Seq<SourceSubtreeRoot>,
    i: int,
)
    requires
        0 <= i < first_unbound_root(headers, roots),
    ensures
        i < roots.len(),
        hash_at(headers, roots[i].completing_block_height) is Some,
    decreases roots.len(),
{
    lemma_first_unbound_in_range(headers, roots);
    if roots.len() > 0 && i < roots.len() - 1 {
        lemma_roots_before_first_unbound_are_bound(headers, roots.drop_last(), i);
        assert(roots.drop_last()[i] == roots[i]);
    }
}

proof fn lemma_first_unbound_in_range(
    headers: Seq<BlockHeaderArtifact>,
    roots: Seq<SourceSubtreeRoot>,
)
    ensures
        0 <= first_unbound_root(headers, roots) <= roots.len(),
    decreases roots.len(),
{
    if roots.len() > 0 {
        lemma_first_unbound_in_range(headers, roots.drop_last());
    }
}

proof fn lemma_hash_at_comes_from_a_header(
    headers: Seq<BlockHeaderArtifact>,
    height: BlockHeight,
)
    requires
        hash_at(headers, height) is Some,
    ensures
        exists|j: int|
            0 <= j < headers.len() && (#[trigger] headers[j]).height == height
                && headers[j].block_hash == hash_at(headers, height)->0,
    decreases headers.len(),
{
    if headers.last().height == height {
        assert(headers[headers.len() - 1].height == height);
    } else {
        lemma_hash_at_comes_from_a_header(headers.drop_last(), height);
        let j = choose|j: int|
            0 <= j < headers.drop_last().len() && (#[trigger] headers.drop_last()[j]).height
                == height && headers.drop_last()[j].block_hash == hash_at(
                headers.drop_last(),
                height,
            )->0;
        assert(headers[j] == headers.drop_last()[j]);
    }
}

/// Number of visible heights that a candidate chain starting at a height replaces.
pub open spec fn replacement_depth(
    visible_tip_height: BlockHeight,
    from_height: BlockHeight,
) -> int {
    capped(
        floored_difference(visible_tip_height.0 as int, from_height.0 as int) + 1,
        u32::MAX as int,
    )
}

/// Whether a block is the direct successor of the visible tip.
pub open spec fn connects(current_chain_epoch: ChainEpoch, block: SourceBlock) -> bool {
    &&& current_chain_epoch.visible_tip_height.spec_next() == Some(block.height)
    &&& block.parent_hash == current_chain_epoch.visible_tip_hash
}

/// What an already fetched candidate chain does to the visible chain.
pub open spec fn best_chain(
    current_chain_epoch: ChainEpoch,
    candidate_blocks: Seq<SourceBlock>,
    reorg_window_blocks: u32,
) -> Result<ReorgWindowChange, IngestError> {
    if candidate_blocks.len() == 0 {
        Ok(ReorgWindowChange::Unchanged)
    } else {
        let from_height = candidate_blocks.first().height;
        let depth = replacement_depth(current_chain_epoch.visible_tip_height, from_height) as u32;
        if connects(current_chain_epoch, candidate_blocks.first()) {
            Ok(
                ReorgWindowChange::Extend {
                    block_range: BlockHeightRange {
                        start: from_height,
                        end: candidate_blocks.last().height,
                    },
                },
            )
        } else if depth > reorg_window_blocks {
            Err(
                IngestError::ReorgWindowExceeded {
                    from_height,
                    replacement_depth: depth,
                    configured_window_blocks: reorg_window_blocks,
                },
            )
        } else {
            Ok(ReorgWindowChange::Replace { from_height })
        }
    }
}

/// Classifies an already-built candidate chain segment.
///
/// Parent-hash continuity is the rule for the polling source: Zebra JSON-RPC
/// exposes one upstream-node-selected best chain at a time.
pub fn select_best_chain(
    current_chain_epoch: ChainEpoch,
    candidate_blocks: &[SourceBlock],
    reorg_window_blocks: u32,
) -> (change: Result<ReorgWindowChange, IngestError>)
    ensures
        change == best_chain(current_chain_epoch, candidate_blocks@, reorg_window_blocks),
{
    let count: usize = candidate_blocks.len();
    if count == 0 {
        return Ok(ReorgWindowChange::Unchanged);
    }
    let first_candidate = &candidate_blocks[0];
    let last_candidate = &candidate_blocks[count - 1];
    let follows = match current_chain_epoch.visible_tip_height.next() {
        Some(next_tip) => first_candidate.height == next_tip,
        None => false,
    };
    if follows && first_candidate.parent_hash == current_chain_epoch.visible_tip_hash {
        return Ok(
            ReorgWindowChange::Extend {
                block_range: BlockHeightRange::inclusive(
                    first_candidate.height,
                    last_candidate.height,
                ),
            },
        );
    }
    let replacement_depth: u32 = current_chain_epoch.visible_tip_height.value().saturating_sub(
        first_candidate.height.value(),
    ).saturating_add(1);
    if replacement_depth > reorg_window_blocks {
        return Err(
            IngestError::ReorgWindowExceeded {
                from_height: first_candidate.height,
                replacement_depth,
                configured_window_blocks: reorg_window_blocks,
            },
        );
    }
    Ok(ReorgWindowChange::Replace { from_height: first_candidate.height })
}

/// A candidate chain only extends the visible one where it continues from the
/// visible tip, and only replaces heights inside the reorg window. The one
/// depth that no `u32` can count, that of every possible height, is left out.
pub proof fn law_selection_keeps_continuity_and_window(
    current_chain_epoch: ChainEpoch,
    candidate_blocks: Seq<SourceBlock>,
    reorg_window_blocks: u32,
)
    requires
        !(candidate_blocks.len() > 0 && candidate_blocks.first().height.0 == 0
            && current_chain_epoch.visible_tip_height.0 == u32::MAX && reorg_window_blocks
            == u32::MAX),
    ensures
        match best_chain(current_chain_epoch, candidate_blocks, reorg_window_blocks) {
            Ok(ReorgWindowChange::Extend { block_range }) => {
                &&& candidate_blocks.len() > 0
                &&& block_range.start.0 == current_chain_epoch.visible_tip_height.0 + 1
                &&& candidate_blocks.first().parent_hash == current_chain_epoch.visible_tip_hash
            },
            Ok(ReorgWindowChange::Replace { from_height }) => {
                &&& candidate_blocks.len() > 0
                &&& current_chain_epoch.visible_tip_height.0 - from_height.0 < reorg_window_blocks
            },
            Ok(ReorgWindowChange::Unchanged) => candidate_blocks.len() == 0,
            Ok(ReorgWindowChange::AdvanceSafeTipTo { .. }) => false,
            Err(_) => candidate_blocks.len() > 0,
        },
{
}

/// One transparent input that spends an earlier output.
#[derive(Clone, Copy, Debug, PartialEq, Eq)]
pub struct TransparentSpendReference {
    pub spent_outpoint: TransparentOutPoint,
    pub input_index: u32,
    pub spending_transaction_id: TransactionId,
    pub tx_index_in_block: u32,
    pub block_height: BlockHeight,
    pub block_hash: BlockHash,
}

/// Reference of one input of a located transaction.
pub open spec fn reference_of(
    location: TransactionLocation,
    input: TransparentInputFact,
) -> TransparentSpendReference {
    TransparentSpendReference {
        spent_outpoint: input.spent_outpoint,
        input_index: input.input_index,
        spending_transaction_id: location.transaction_id,
        tx_index_in_block: location.tx_index_in_block,
        block_height: location.block_height,
        block_hash: location.block_hash,
    }
}

/// References of the inputs of one transaction that spend an earlier output.
pub open spec fn input_references(
    location: TransactionLocation,
    inputs: Seq<TransparentInputFact>,
) -> Seq<TransparentSpendReference>
    decreases inputs.len(),
{
    if inputs.len() == 0 {
        Seq::empty()
    } else {
        let before = input_references(location, inputs.drop_last());
        if inputs.last().spent_outpoint.is_sentinel() {
            before
        } else {
            before.push(reference_of(location, inputs.last()))
        }
    }
}

/// References of a run of transactions, in block order.
pub open spec fn spend_references(transactions: Seq<TransactionFactsArtifact>) -> Seq<
    TransparentSpendReference,
>
    decreases transactions.len(),
{
    if transactions.len() == 0 {
        Seq::empty()
    } else {
        spend_references(transactions.drop_last()) + input_references(
            transactions.last().location,
            transactions.last().transparent_inputs@,
        )
    }
}

/// Lists the inputs of a run of transactions that spend an earlier output.
pub fn transparent_spend_references_for_transactions(
    transactions: &Vec<TransactionFactsArtifact>,
) -> (spends: Vec<TransparentSpendReference>)
    ensures
        spends@ == spend_references(transactions@),
{
    let mut spends: Vec<TransparentSpendReference> = Vec::new();
    let mut i: usize = 0;
    while i < transactions.len()
        invariant
            0 <= i <= transactions@.len(),
            spends@ == spend_references(transactions@.take(i as int)),
        decreases transactions@.len() - i,
    {
        let transaction = &transactions[i];
        let ghost before = spends@;
        let mut j: usize = 0;
        assert(spends@ =~= before + input_references(
            transaction.location,
            transaction.transparent_inputs@.take(0),
        ));
        while j < transaction.transparent_inputs.len()
            invariant
                0 <= j <= transaction.transparent_inputs@.len(),
                spends@ == before + input_references(
                    transaction.location,
                    transaction.transparent_inputs@.take(j as int),
                ),
            decreases transaction.transparent_inputs@.len() - j,
        {
            let input = &transaction.transparent_inputs[j];
            assert(transaction.transparent_inputs@.take(j + 1).drop_last()
                =~= transaction.transparent_inputs@.take(j as int));
            if !input.spent_outpoint.is_coinbase_sentinel() {
                spends.push(
                    TransparentSpendReference {
                        spent_outpoint: input.spent_outpoint,
                        input_index: input.input_index,
                        spending_transaction_id: transaction.location.transaction_id,
                        tx_index_in_block: transaction.location.tx_index_in_block,
                        block_height: transaction.location.block_height,
                        block_hash: transaction.location.block_hash,
                    },
                );
            }
            assert(spends@ =~= before + input_references(
                transaction.location,
                transaction.transparent_inputs@.take(j + 1),
            ));
            j += 1;
        }
        assert(transaction.transparent_inputs@.take(j as int)
            =~= transaction.transparent_inputs@);
        assert(transactions@.take(i + 1).drop_last() =~= transactions@.take(i as int));
        i += 1;
    }
    assert(transactions@.take(i as int) =~= transactions@);
    spends
}

/// Outputs by outpoint, in mathematical form.
pub open spec fn rows_by_outpoint(
    outputs: Map<TransparentOutPoint, TransparentOutputArtifact>,
) -> Map<TransparentOutPoint, TransparentOutputRow> {
    outputs.map_values(|output: TransparentOutputArtifact| output@)
}

/// Outputs of a sequence by outpoint, where a later one stands for an earlier one.
pub open spec fn latest_outputs(outputs: Seq<TransparentOutputArtifact>) -> Map<
    TransparentOutPoint,
    TransparentOutputRow,
>
    decreases outputs.len(),
{
    if outputs.len() == 0 {
        Map::empty()
    } else {
        latest_outputs(outputs.drop_last()).insert(outputs.last().outpoint, outputs.last()@)
    }
}

/// Known outputs together with those of a sequence that were not known before.
pub open spec fn completed_by(
    known: Map<TransparentOutPoint, TransparentOutputRow>,
    outputs: Seq<TransparentOutputArtifact>,
) -> Map<TransparentOutPoint, TransparentOutputRow>
    decreases outputs.len(),
{
    if outputs.len() == 0 {
        known
    } else {
        let before = completed_by(known, outputs.drop_last());
        if before.contains_key(outputs.last().outpoint) {
            before
        } else {
            before.insert(outputs.last().outpoint, outputs.last()@)
        }
    }
}

/// Outputs a batch brings along for its own spends.
pub open spec fn outputs_of_batch(batch: CanonicalBatch) -> Map<
    TransparentOutPoint,
    TransparentOutputRow,
> {
    completed_by(
        latest_outputs(batch.transparent_outputs_by_outpoint@),
        batch.prefetched_spent_transparent_outputs@,
    )
}

/// Collects the outputs a batch brings along for its own spends.
pub fn batch_outputs(batch: &CanonicalBatch) -> (outputs: OutPointMap<TransparentOutputArtifact>)
    ensures
        outputs.well_formed(),
        rows_by_outpoint(outputs@) == outputs_of_batch(*batch),
{
    let mut outputs: OutPointMap<TransparentOutputArtifact> = OutPointMap::new();
    let created = &batch.transparent_outputs_by_outpoint;
    let mut i: usize = 0;
    assert(rows_by_outpoint(outputs@) =~= latest_outputs(created@.take(0)));
    while i < created.len()
        invariant
            0 <= i <= created@.len(),
            outputs.well_formed(),
            rows_by_outpoint(outputs@) == latest_outputs(created@.take(i as int)),
        decreases created@.len() - i,
    {
        let ghost before = outputs@;
        outputs.insert(created[i].outpoint, created[i].duplicate());
        assert(created@.take(i + 1).drop_last() =~= created@.take(i as int));
        assert(rows_by_outpoint(outputs@) =~= rows_by_outpoint(before).insert(
            created@[i as int].outpoint,
            created@[i as int]@,
        ));
        i += 1;
    }
    assert(created@.take(i as int) =~= created@);
    let prefetched = &batch.prefetched_spent_transparent_outputs;
    let ghost known = latest_outputs(created@);
    let mut j: usize = 0;
    assert(prefetched@.take(0) =~= Seq::empty());
    while j < prefetched.len()
        invariant
            0 <= j <= prefetched@.len(),
            outputs.well_formed(),
            rows_by_outpoint(outputs@) == completed_by(known, prefetched@.take(j as int)),
        decreases prefetched@.len() - j,
    {
        let ghost before = outputs@;
        outputs.insert_if_absent(prefetched[j].outpoint, prefetched[j].duplicate());
        assert(prefetched@.take(j + 1).drop_last() =~= prefetched@.take(j as int));
        proof {
            let outpoint = prefetched@[j as int].outpoint;
            assert(rows_by_outpoint(before).contains_key(outpoint) == before.contains_key(
                outpoint,
            ));
            if !before.contains_key(outpoint) {
                assert(rows_by_outpoint(outputs@) =~= rows_by_outpoint(before).insert(
                    outpoint,
                    prefetched@[j as int]@,
                ));
            }
        }
        j += 1;
    }
    assert(prefetched@.take(j as int) =~= prefetched@);
    outputs
}

/// Spent outpoints of a run of references that are not among the known outputs.
pub open spec fn unknown_outpoints(
    references: Seq<TransparentSpendReference>,
    known: Map<TransparentOutPoint, TransparentOutputRow>,
) -> Seq<TransparentOutPoint>
    decreases references.len(),
{
    if references.len() == 0 {
        Seq::empty()
    } else {
        let before = unknown_outpoints(references.drop_last(), known);
        if known.contains_key(references.last().spent_outpoint) {
            before
        } else {
            before.push(references.last().spent_outpoint)
        }
    }
}

/// Lists the outpoints a batch spends whose outputs only the store can provide.
pub fn missing_store_outpoints(batch: &CanonicalBatch) -> (outpoints: Vec<TransparentOutPoint>)
    ensures
        outpoints@ == unknown_outpoints(
            spend_references(batch.transaction_facts@),
            outputs_of_batch(*batch),
        ),
{
    let references = transparent_spend_references_for_transactions(&batch.transaction_facts);
    let outputs = batch_outputs(batch);
    let mut outpoints: Vec<TransparentOutPoint> = Vec::new();
    let mut i: usize = 0;
    let ghost known = outputs_of_batch(*batch);
    while i < references.len()
        invariant
            0 <= i <= references@.len(),
            outputs.well_formed(),
            known == rows_by_outpoint(outputs@),
            outpoints@ == unknown_outpoints(references@.take(i as int), known),
        decreases references@.len() - i,
    {
        let spent_outpoint = references[i].spent_outpoint;
        assert(references@.take(i + 1).drop_last() =~= references@.take(i as int));
        assert(known.contains_key(spent_outpoint) == outputs@.contains_key(spent_outpoint));
        if !outputs.contains_key(&spent_outpoint) {
            outpoints.push(spent_outpoint);
        }
        i += 1;
    }
    assert(references@.take(i as int) =~= references@);
    outpoints
}

/// Whether an output was mined at a height that a change replaces.
pub open spec fn is_reverted(block_height: BlockHeight, change: ReorgWindowChange) -> bool {
    match change {
        ReorgWindowChange::Replace { from_height } => block_height.0 >= from_height.0,
        _ => false,
    }
}

/// Returns whether a stored output was mined at a height that the commit replaces.
pub fn output_is_from_reverted_replacement_range(
    output: &TransparentOutputArtifact,
    reorg_window_change: &ReorgWindowChange,
) -> (reverted: bool)
    ensures
        reverted == is_reverted(output.block_height, *reorg_window_change),
{
    match reorg_window_change {
        ReorgWindowChange::Replace { from_height } => output.block_height.value()
            >= from_height.value(),
        _ => false,
    }
}

/// Known outputs together with those read from the store that a change leaves in place.
pub open spec fn joined_by_store(
    known: Map<TransparentOutPoint, TransparentOutputRow>,
    store_outputs: Seq<(TransparentOutPoint, TransparentOutputArtifact)>,
    change: ReorgWindowChange,
) -> Map<TransparentOutPoint, TransparentOutputRow>
    decreases store_outputs.len(),
{
    if store_outputs.len() == 0 {
        known
    } else {
        let before = joined_by_store(known, store_outputs.drop_last(), change);
        let (outpoint, output) = store_outputs.last();
        if is_reverted(output.block_height, change) {
            before
        } else {
            before.insert(outpoint, output@)
        }
    }
}

/// Fact of one reference whose spent output is known.
pub open spec fn spend_fact_of(
    reference: TransparentSpendReference,
    output: TransparentOutputRow,
) -> TransparentSpendFact {
    TransparentSpendFact {
        spent_outpoint: reference.spent_outpoint,
        input_index: reference.input_index,
        spending_transaction_id: reference.spending_transaction_id,
        tx_index_in_block: reference.tx_index_in_block,
        block_height: reference.block_height,
        block_hash: reference.block_hash,
        value_zat: output.value_zat,
        address_script_hash: output.address_script_hash,
        created_block_height: output.block_height,
        created_block_hash: output.block_hash,
    }
}

/// Facts of the references of a run whose spent outputs are known.
pub open spec fn spend_facts_of(
    references: Seq<TransparentSpendReference>,
    known: Map<TransparentOutPoint, TransparentOutputRow>,
) -> Seq<TransparentSpendFact>
    decreases references.len(),
{
    if references.len() == 0 {
        Seq::empty()
    } else {
        let before = spend_facts_of(references.drop_last(), known);
        let spent_outpoint = references.last().spent_outpoint;
        if known.contains_key(spent_outpoint) {
            before.push(spend_fact_of(references.last(), known[spent_outpoint]))
        } else {
            before
        }
    }
}

/// Resolves the spends of a batch against its own outputs and those the store
/// provided; spends of unknown outputs are left out.
///
/// `store_outputs` holds what the store returned for
/// [`missing_store_outpoints`], or nothing where the store holds no epoch yet.
pub fn resolve_transparent_spend_facts(
    spend_references_in_order: &Vec<TransparentSpendReference>,
    outputs_by_outpoint: OutPointMap<TransparentOutputArtifact>,
    store_outputs: Vec<(TransparentOutPoint, TransparentOutputArtifact)>,
    reorg_window_change: &ReorgWindowChange,
) -> (spend_facts: Vec<TransparentSpendFact>)
    requires
        outputs_by_outpoint.well_formed(),
    ensures
        spend_facts@ == spend_facts_of(
            spend_references_in_order@,
            joined_by_store(
                rows_by_outpoint(outputs_by_outpoint@),
                store_outputs@,
                *reorg_window_change,
            ),
        ),
{
    let ghost known = rows_by_outpoint(outputs_by_outpoint@);
    let mut outputs = outputs_by_outpoint;
    let ghost stored = store_outputs@;
    assert(stored.take(0) =~= Seq::empty());
    for entry in it: store_outputs
        invariant
            it.seq() == stored,
            outputs.well_formed(),
            rows_by_outpoint(outputs@) == joined_by_store(
                known,
                stored.take(it.index() as int),
                *reorg_window_change,
            ),
    {
        let ghost before = outputs@;
        let ghost k = it.index() as int;
        assert(stored.take(k + 1).drop_last() =~= stored.take(k));
        assert(stored.take(k + 1).last() == entry);
        let (outpoint, output) = entry;
        let ghost row = output@;
        if !output_is_from_reverted_replacement_range(&output, reorg_window_change) {
            outputs.insert(outpoint, output);
            assert(rows_by_outpoint(outputs@) =~= rows_by_outpoint(before).insert(outpoint, row));
        }
    }
    assert(stored.take(stored.len() as int) =~= stored);
    let ghost joined = joined_by_store(known, stored, *reorg_window_change);
    let references = spend_references_in_order;
    let mut spend_facts: Vec<TransparentSpendFact> = Vec::new();
    let mut i: usize = 0;
    while i < references.len()
        invariant
            0 <= i <= references@.len(),
            outputs.well_formed(),
            joined == rows_by_outpoint(outputs@),
            spend_facts@ == spend_facts_of(references@.take(i as int), joined),
        decreases references@.len() - i,
    {
        let reference = references[i];
        assert(references@.take(i + 1).drop_last() =~= references@.take(i as int));
        assert(joined.contains_key(reference.spent_outpoint) == outputs@.contains_key(
            reference.spent_outpoint,
        ));
        if let Some(output) = outputs.get(&reference.spent_outpoint) {
            spend_facts.push(
                TransparentSpendFact {
                    spent_outpoint: reference.spent_outpoint,
                    input_index: reference.input_index,
                    spending_transaction_id: reference.spending_transaction_id,
                    tx_index_in_block: reference.tx_index_in_block,
                    block_height: reference.block_height,
                    block_hash: reference.block_hash,
                    value_zat: output.value_zat,
                    address_script_hash: output.address_script_hash,
                    created_block_height: output.block_height,
                    created_block_hash: output.block_hash,
                },
            );
        }
        i += 1;
    }
    assert(references@.take(i as int) =~= references@);
    spend_facts
}

/// Every resolved spend names an outpoint that one of the references spends,
/// and carries the value and origin of the output known under it.
pub proof fn law_resolved_spends_carry_their_outputs(
    references: Seq<TransparentSpendReference>,
    known: Map<TransparentOutPoint, TransparentOutputRow>,
    i: int,
)
    requires
        0 <= i < spend_facts_of(references, known).len(),
    ensures
        ({
            let fact = spend_facts_of(references, known)[i];
            &&& known.contains_key(fact.spent_outpoint)
            &&& exists|j: int|
                0 <= j < references.len() && fact == spend_fact_of(
                    #[trigger] references[j],
                    known[fact.spent_outpoint],
                )
        }),
    decreases references.len(),
{
    let before = spend_facts_of(references.drop_last(), known);
    if i < before.len() {
        law_resolved_spends_carry_their_outputs(references.drop_last(), known, i);
        let fact = before[i];
        let j = choose|j: int|
            0 <= j < references.drop_last().len() && fact == spend_fact_of(
                #[trigger] references.drop_last()[j],
                known[fact.spent_outpoint],
            );
        assert(references[j] == references.drop_last()[j]);
    } else {
        assert(references[references.len() - 1] == references.last());
    }
}

/// Each reference either resolves or was missing: none is lost and none is counted twice.
pub proof fn law_references_resolve_or_stay_unknown(
    references: Seq<TransparentSpendReference>,
    known: Map<TransparentOutPoint, TransparentOutputRow>,
)
    ensures
        spend_facts_of(references, known).len() + unknown_outpoints(references, known).len()
            == references.len(),
    decreases references.len(),
{
    if references.len() > 0 {
        law_references_resolve_or_stay_unknown(references.drop_last(), known);
    }
}

/// Rows one commit hands to the store.
#[derive(Debug)]
pub struct ChainEpochArtifacts {
    pub chain_epoch: ChainEpoch,
    pub block_headers: Vec<BlockHeaderArtifact>,
    pub block_replay_envelopes: Vec<CanonicalBlockReplayEnvelope>,
    pub compact_blocks: Vec<CompactBlockArtifact>,
    pub block_blobs: Vec<BlockBlobArtifact>,
    pub block_transaction_index: Vec<BlockTransactionIndexArtifact>,
    pub transaction_locations: Vec<TransactionLocation>,
    pub transaction_facts: Vec<TransactionFactsArtifact>,
    pub transaction_intrinsic_value_balances: Vec<TransactionIntrinsicValueBalancesArtifact>,
    pub transaction_blobs: Vec<TransactionBlobArtifact>,
    pub tree_states: Vec<TreeStateArtifact>,
    pub final_note_commitment_roots: Vec<BlockFinalNoteCommitmentRoots>,
    pub subtree_roots: Vec<SubtreeRootArtifact>,
    pub transparent_outputs_by_outpoint: Vec<TransparentOutputArtifact>,
    pub transparent_spend_facts: Vec<TransparentSpendFact>,
    pub reorg_window_change: ReorgWindowChange,
}

impl ChainEpochArtifacts {
    /// Whether the rows, except for the spend facts, are those of a batch.
    pub open spec fn holds_rows_of(self, batch: CanonicalBatch) -> bool {
        &&& self.block_headers@ == batch.block_headers@
        &&& self.block_replay_envelopes@ == batch.block_replay_envelopes@
        &&& self.compact_blocks@ == batch.compact_blocks@
        &&& self.block_blobs@ == batch.block_blobs@
        &&& self.block_transaction_index@ == batch.block_transaction_index@
        &&& self.transaction_locations@ == batch.transaction_locations@
        &&& self.transaction_facts@ == batch.transaction_facts@
        &&& self.transaction_intrinsic_value_balances@
            == batch.transaction_intrinsic_value_balances@
        &&& self.transaction_blobs@ == batch.transaction_blobs@
        &&& self.tree_states@ == batch.tree_states@
        &&& self.final_note_commitment_roots@ == batch.final_note_commitment_roots@
        &&& self.subtree_roots@ == batch.subtree_roots@
        &&& self.transparent_outputs_by_outpoint@ == batch.transparent_outputs_by_outpoint@
    }

    /// Whether a commit carries no rows.
    pub open spec fn holds_no_rows(self) -> bool {
        &&& self.block_headers@.len() == 0
        &&& self.block_replay_envelopes@.len() == 0
        &&& self.compact_blocks@.len() == 0
        &&& self.block_blobs@.len() == 0
        &&& self.block_transaction_index@.len() == 0
        &&& self.transaction_locations@.len() == 0
        &&& self.transaction_facts@.len() == 0
        &&& self.transaction_intrinsic_value_balances@.len() == 0
        &&& self.transaction_blobs@.len() == 0
        &&& self.tree_states@.len() == 0
        &&& self.final_note_commitment_roots@.len() == 0
        &&& self.subtree_roots@.len() == 0
        &&& self.transparent_outputs_by_outpoint@.len() == 0
        &&& self.transparent_spend_facts@.len() == 0
    }

    /// Returns a commit that carries an epoch and no rows.
    pub fn without_rows(
        chain_epoch: ChainEpoch,
        reorg_window_change: ReorgWindowChange,
    ) -> (artifacts: Self)
        ensures
            artifacts.chain_epoch == chain_epoch,
            artifacts.reorg_window_change == reorg_window_change,
            artifacts.holds_no_rows(),
    {
        ChainEpochArtifacts {
            chain_epoch,
            block_headers: Vec::new(),
            block_replay_envelopes: Vec::new(),
            compact_blocks: Vec::new(),
            block_blobs: Vec::new(),
            block_transaction_index: Vec::new(),
            transaction_locations: Vec::new(),
            transaction_facts: Vec::new(),
            transaction_intrinsic_value_balances: Vec::new(),
            transaction_blobs: Vec::new(),
            tree_states: Vec::new(),
            final_note_commitment_roots: Vec::new(),
            subtree_roots: Vec::new(),
            transparent_outputs_by_outpoint: Vec::new(),
            transparent_spend_facts: Vec::new(),
            reorg_window_change,
        }
    }
}

/// Moves every row of a batch into a commit and leaves the batch empty.
pub fn drain_batch_into_chain_epoch_artifacts(
    chain_epoch: ChainEpoch,
    batch: &mut CanonicalBatch,
    reorg_window_change: ReorgWindowChange,
) -> (artifacts: ChainEpochArtifacts)
    ensures
        artifacts.chain_epoch == chain_epoch,
        artifacts.reorg_window_change == reorg_window_change,
        artifacts.holds_rows_of(*old(batch)),
        artifacts.transparent_spend_facts@ == old(batch).transparent_spend_facts@,
        final(batch).holds_no_rows(),
        final(batch).tip_metadata == old(batch).tip_metadata,
        final(batch).cost() == CanonicalBatchCost::nothing(),
{
    let mut artifacts = ChainEpochArtifacts::without_rows(chain_epoch, reorg_window_change);
    std::mem::swap(&mut artifacts.block_headers, &mut batch.block_headers);
    std::mem::swap(&mut artifacts.block_replay_envelopes, &mut batch.block_replay_envelopes);
    std::mem::swap(&mut artifacts.compact_blocks, &mut batch.compact_blocks);
    std::mem::swap(&mut artifacts.block_blobs, &mut batch.block_blobs);
    std::mem::swap(&mut artifacts.block_transaction_index, &mut batch.block_transaction_index);
    std::mem::swap(&mut artifacts.transaction_locations, &mut batch.transaction_locations);
    std::mem::swap(&mut artifacts.transaction_facts, &mut batch.transaction_facts);
    std::mem::swap(
        &mut artifacts.transaction_intrinsic_value_balances,
        &mut batch.transaction_intrinsic_value_balances,
    );
    std::mem::swap(&mut artifacts.transaction_blobs, &mut batch.transaction_blobs);
    std::mem::swap(&mut artifacts.tree_states, &mut batch.tree_states);
    std::mem::swap(
        &mut artifacts.final_note_commitment_roots,
        &mut batch.final_note_commitment_roots,
    );
    std::mem::swap(&mut artifacts.subtree_roots, &mut batch.subtree_roots);
    std::mem::swap(
        &mut artifacts.transparent_outputs_by_outpoint,
        &mut batch.transparent_outputs_by_outpoint,
    );
    std::mem::swap(&mut artifacts.transparent_spend_facts, &mut batch.transparent_spend_facts);
    batch.clear_work_cost();
    artifacts
}

/// Turns a batch into the commit that writes it.
///
/// `store_outputs` holds what the store returned for
/// [`missing_store_outpoints`], or nothing where the store holds no epoch yet.
/// Each caller decides what `chain_epoch` and `reorg_window_change` mean for
/// its mode: bulk catchup always advances settlement to the new tip; the
/// tip-follower issues `Extend` for tip advancement and `Replace` for
/// reorgs, then advances settlement separately once the new tip is at
/// least `reorg_window_blocks` deep.
pub fn stage_ingest_commit(
    chain_epoch: ChainEpoch,
    batch: &mut CanonicalBatch,
    store_outputs: Vec<(TransparentOutPoint, TransparentOutputArtifact)>,
    reorg_window_change: ReorgWindowChange,
) -> (staged: Result<ChainEpochArtifacts, IngestError>)
    ensures
        match staged {
            Ok(artifacts) => {
                &&& old(batch).block_headers@.len() > 0
                &&& artifacts.chain_epoch == chain_epoch
                &&& artifacts.reorg_window_change == reorg_window_change
                &&& artifacts.holds_rows_of(*old(batch))
                &&& artifacts.transparent_spend_facts@ == spend_facts_of(
                    spend_references(old(batch).transaction_facts@),
                    joined_by_store(
                        outputs_of_batch(*old(batch)),
                        store_outputs@,
                        reorg_window_change,
                    ),
                )
                &&& final(batch).holds_no_rows()
                &&& final(batch).tip_metadata is None
                &&& final(batch).cost() == CanonicalBatchCost::nothing()
            },
            Err(error) => {
                &&& old(batch).block_headers@.len() == 0
                &&& error == IngestError::EmptyCanonicalBatch
                &&& *final(batch) == *old(batch)
            },
        },
{
    if batch.is_empty() {
        return Err(IngestError::EmptyCanonicalBatch);
    }
    let references = transparent_spend_references_for_transactions(&batch.transaction_facts);
    let outputs = batch_outputs(batch);
    batch.transparent_spend_facts = resolve_transparent_spend_facts(
        &references,
        outputs,
        store_outputs,
        &reorg_window_change,
    );
    batch.tip_metadata = None;
    Ok(drain_batch_into_chain_epoch_artifacts(chain_epoch, batch, reorg_window_change))
}

/// Identifier that follows another, if one is left.
pub open spec fn epoch_id_after(chain_epoch_id: ChainEpochId) -> Result<ChainEpochId, IngestError> {
    if chain_epoch_id.0 == u64::MAX {
        Err(IngestError::Store(StoreError::ChainEpochSequenceOverflow))
    } else {
        Ok(ChainEpochId((chain_epoch_id.0 + 1) as u64))
    }
}

/// Identifier of the epoch that a commit on top of another creates.
pub open spec fn next_epoch_id(current_chain_epoch: Option<ChainEpoch>) -> Result<
    ChainEpochId,
    IngestError,
> {
    match current_chain_epoch {
        Some(chain_epoch) => epoch_id_after(chain_epoch.id),
        None => Ok(ChainEpochId(1)),
    }
}

/// Returns the next [`ChainEpochId`] given an already-resolved current chain epoch.
pub fn next_chain_epoch_id_from(current_chain_epoch: Option<ChainEpoch>) -> (next: Result<
    ChainEpochId,
    IngestError,
>)
    ensures
        next == next_epoch_id(current_chain_epoch),
{
    match current_chain_epoch {
        Some(chain_epoch) => next_chain_epoch_id_after(chain_epoch.id),
        None => Ok(ChainEpochId::new(1)),
    }
}

/// Returns the [`ChainEpochId`] that follows `chain_epoch_id`.
pub fn next_chain_epoch_id_after(chain_epoch_id: ChainEpochId) -> (next: Result<
    ChainEpochId,
    IngestError,
>)
    ensures
        next == epoch_id_after(chain_epoch_id),
{
    match chain_epoch_id.value().checked_add(1) {
        Some(id) => Ok(ChainEpochId::new(id)),
        None => Err(IngestError::Store(StoreError::ChainEpochSequenceOverflow)),
    }
}

/// Narrows the milliseconds since the Unix epoch, which are absent where the
/// clock stands before it, for stamping `chain_epoch.created_at`.
pub fn unix_timestamp_millis(elapsed_millis: Option<u128>) -> (timestamp: Result<
    UnixTimestampMillis,
    IngestError,
>)
    ensures
        timestamp == match elapsed_millis {
            None => Err::<UnixTimestampMillis, IngestError>(IngestError::SystemTimeBeforeUnixEpoch),
            Some(millis) => if millis > u64::MAX {
                Err(IngestError::TimestampTooLarge)
            } else {
                Ok(UnixTimestampMillis(millis as u64))
            },
        },
{
    match elapsed_millis {
        None => Err(IngestError::SystemTimeBeforeUnixEpoch),
        Some(millis) => {
            if millis > u64::MAX as u128 {
                Err(IngestError::TimestampTooLarge)
            } else {
                Ok(UnixTimestampMillis(millis as u64))
            }
        },
    }
}

/// A fact of a resolved spend is that of one reference: it names the outpoint,
/// the input, the spending transaction and the block that this reference does,
/// and the value, the address and the origin of the output known there.
pub proof fn law_resolved_spend_names_its_spender(
    references: Seq<TransparentSpendReference>,
    known: Map<TransparentOutPoint, TransparentOutputRow>,
    i: int,
)
    requires
        0 <= i < spend_facts_of(references, known).len(),
    ensures
        ({
            let fact = spend_facts_of(references, known)[i];
            exists|j: int|
                {
                    &&& 0 <= j < references.len()
                    &&& fact.spent_outpoint == (#[trigger] references[j]).spent_outpoint
                    &&& fact.input_index == references[j].input_index
                    &&& fact.spending_transaction_id == references[j].spending_transaction_id
                    &&& fact.tx_index_in_block == references[j].tx_index_in_block
                    &&& fact.block_height == references[j].block_height
                    &&& fact.block_hash == references[j].block_hash
                    &&& known.contains_key(references[j].spent_outpoint)
                    &&& fact.value_zat == known[references[j].spent_outpoint].value_zat
                    &&& fact.address_script_hash
                        == known[references[j].spent_outpoint].address_script_hash
                    &&& fact.created_block_height
                        == known[references[j].spent_outpoint].block_height
                    &&& fact.created_block_hash == known[references[j].spent_outpoint].block_hash
                }
        }),
    decreases references.len(),
{
    let rest = references.drop_last();
    let before = spend_facts_of(rest, known);
    if i < before.len() {
        law_resolved_spend_names_its_spender(rest, known, i);
        let fact = before[i];
        let j = choose|j: int|
            {
                &&& 0 <= j < rest.len()
                &&& fact.spent_outpoint == (#[trigger] rest[j]).spent_outpoint
                &&& fact.input_index == rest[j].input_index
                &&& fact.spending_transaction_id == rest[j].spending_transaction_id
                &&& fact.tx_index_in_block == rest[j].tx_index_in_block
                &&& fact.block_height == rest[j].block_height
                &&& fact.block_hash == rest[j].block_hash
                &&& known.contains_key(rest[j].spent_outpoint)
                &&& fact.value_zat == known[rest[j].spent_outpoint].value_zat
                &&& fact.address_script_hash == known[rest[j].spent_outpoint].address_script_hash
                &&& fact.created_block_height == known[rest[j].spent_outpoint].block_height
                &&& fact.created_block_hash == known[rest[j].spent_outpoint].block_hash
            };
        assert(references[j] == rest[j]);
    } else {
        assert(references[references.len() - 1] == references.last());
    }
}

/// Every reference whose output is known resolves, and after all those that
/// resolve before it.
pub proof fn law_known_reference_resolves_in_its_turn(
    references: Seq<TransparentSpendReference>,
    known: Map<TransparentOutPoint, TransparentOutputRow>,
    j: int,
)
    requires
        0 <= j < references.len(),
    ensures
        ({
            let facts = spend_facts_of(references, known);
            let earlier = spend_facts_of(references.take(j), known);
            let resolves = known.contains_key(references[j].spent_outpoint);
            &&& earlier.len() + (if resolves {
                1int
            } else {
                0int
            }) <= facts.len()
            &&& earlier == facts.take(earlier.len() as int)
            &&& resolves ==> {
                let fact = facts[earlier.len() as int];
                let output = known[references[j].spent_outpoint];
                &&& fact.spent_outpoint == references[j].spent_outpoint
                &&& fact.input_index == references[j].input_index
                &&& fact.spending_transaction_id == references[j].spending_transaction_id
                &&& fact.tx_index_in_block == references[j].tx_index_in_block
                &&& fact.block_height == references[j].block_height
                &&& fact.block_hash == references[j].block_hash
                &&& fact.value_zat == output.value_zat
                &&& fact.address_script_hash == output.address_script_hash
                &&& fact.created_block_height == output.block_height
                &&& fact.created_block_hash == output.block_hash
            }
        }),
    decreases references.len(),
{
    let rest = references.drop_last();
    if j < rest.len() {
        law_known_reference_resolves_in_its_turn(rest, known, j);
        assert(rest.take(j) =~= references.take(j));
        assert(rest[j] == references[j]);
        let earlier = spend_facts_of(references.take(j), known);
        assert(earlier =~= spend_facts_of(references, known).take(earlier.len() as int));
    } else {
        assert(references.take(j) =~= rest);
        let earlier = spend_facts_of(rest, known);
        assert(earlier =~= spend_facts_of(references, known).take(earlier.len() as int));
    }
}

/// A reference is that of one input of a located transaction, which is not the
/// null input of a coinbase: it names that input, what it spends, and where its
/// transaction was mined.
pub proof fn law_reference_names_its_input(
    transactions: Seq<TransactionFactsArtifact>,
    k: int,
)
    requires
        0 <= k < spend_references(transactions).len(),
    ensures
        exists|t: int, i: int|
            #![trigger transactions[t].transparent_inputs@[i]]
            {
                &&& 0 <= t < transactions.len()
                &&& 0 <= i < transactions[t].transparent_inputs@.len()
                &&& names_input(
                    spend_references(transactions)[k],
                    transactions[t].location,
                    transactions[t].transparent_inputs@[i],
                )
            },
    decreases transactions.len(),
{
    let rest = transactions.drop_last();
    let last = transactions.last();
    let before = spend_references(rest);
    if k < before.len() {
        law_reference_names_its_input(rest, k);
        let (t, i) = choose|t: int, i: int|
            #![trigger rest[t].transparent_inputs@[i]]
            {
                &&& 0 <= t < rest.len()
                &&& 0 <= i < rest[t].transparent_inputs@.len()
                &&& names_input(
                    spend_references(rest)[k],
                    rest[t].location,
                    rest[t].transparent_inputs@[i],
                )
            };
        assert(transactions[t] == rest[t]);
        assert(names_input(
            spend_references(transactions)[k],
            transactions[t].location,
            transactions[t].transparent_inputs@[i],
        ));
    } else {
        let i = lemma_input_reference_names_its_input(
            last.location,
            last.transparent_inputs@,
            k - before.len(),
        );
        assert(transactions[transactions.len() - 1] == last);
        assert(names_input(
            spend_references(transactions)[k],
            transactions[transactions.len() - 1].location,
            transactions[transactions.len() - 1].transparent_inputs@[i],
        ));
    }
}

/// Whether a reference is that of one input of a transaction mined somewhere.
pub open spec fn names_input(
    reference: TransparentSpendReference,
    location: TransactionLocation,
    input: TransparentInputFact,
) -> bool {
    &&& !(input.spent_outpoint.output_index == 0xffff_ffff && forall|b: int|
        0 <= b < 32 ==> input.spent_outpoint.transaction_id.0@[b] == 0)
    &&& reference.spent_outpoint == input.spent_outpoint
    &&& reference.input_index == input.input_index
    &&& reference.spending_transaction_id == location.transaction_id
    &&& reference.tx_index_in_block == location.tx_index_in_block
    &&& reference.block_height == location.block_height
    &&& reference.block_hash == location.block_hash
}

pub proof fn lemma_input_reference_names_its_input(
    location: TransactionLocation,
    inputs: Seq<TransparentInputFact>,
    k: int,
) -> (i: int)
    requires
        0 <= k < input_references(location, inputs).len(),
    ensures
        0 <= i < inputs.len(),
        names_input(input_references(location, inputs)[k], location, inputs[i]),
    decreases inputs.len(),
{
    let before = input_references(location, inputs.drop_last());
    if k < before.len() {
        lemma_input_reference_names_its_input(location, inputs.drop_last(), k)
    } else {
        inputs.len() - 1
    }
}

pub proof fn lemma_input_is_referenced(
    location: TransactionLocation,
    inputs: Seq<TransparentInputFact>,
    i: int,
) -> (k: int)
    requires
        0 <= i < inputs.len(),
        !inputs[i].spent_outpoint.is_sentinel(),
    ensures
        k == input_references(location, inputs.take(i)).len(),
        0 <= k < input_references(location, inputs).len(),
        names_input(input_references(location, inputs)[k], location, inputs[i]),
    decreases inputs.len(),
{
    let rest = inputs.drop_last();
    if i < rest.len() {
        let k = lemma_input_is_referenced(location, rest, i);
        assert(rest.take(i) =~= inputs.take(i));
        k
    } else {
        assert(inputs.take(i) =~= rest);
        input_references(location, rest).len() as int
    }
}

/// Every input that is not the null input of a coinbase has its reference:
/// after those of earlier transactions, and after those of earlier inputs.
pub proof fn law_every_input_is_referenced_in_its_turn(
    transactions: Seq<TransactionFactsArtifact>,
    t: int,
    i: int,
)
    requires
        0 <= t < transactions.len(),
        0 <= i < transactions[t].transparent_inputs@.len(),
        transactions[t].transparent_inputs@[i].spent_outpoint.output_index != 0xffff_ffff
            || exists|b: int|
            0 <= b < 32
                && transactions[t].transparent_inputs@[i].spent_outpoint.transaction_id.0@[b] != 0,
    ensures
        ({
            let references = spend_references(transactions);
            let k = spend_references(transactions.take(t)).len() + input_references(
                transactions[t].location,
                transactions[t].transparent_inputs@.take(i),
            ).len();
            &&& k < references.len()
            &&& names_input(
                references[k as int],
                transactions[t].location,
                transactions[t].transparent_inputs@[i],
            )
        }),
    decreases transactions.len(),
{
    let rest = transactions.drop_last();
    assert(!transactions[t].transparent_inputs@[i].spent_outpoint.is_sentinel());
    if t < rest.len() {
        assert(rest[t] == transactions[t]);
        law_every_input_is_referenced_in_its_turn(rest, t, i);
        assert(rest.take(t) =~= transactions.take(t));
    } else {
        let last = transactions.last();
        assert(transactions.take(t) =~= rest);
        let k = lemma_input_is_referenced(last.location, last.transparent_inputs@, i);
        assert(spend_references(transactions)[spend_references(rest).len() + k]
            == input_references(last.location, last.transparent_inputs@)[k]);
    }
}

/// A spend that a batch commits is one that a transaction of the batch makes:
/// it is recorded at the block and the position of that transaction.
pub proof fn law_committed_spend_stands_at_the_spending_transaction(
    transactions: Seq<TransactionFactsArtifact>,
    known: Map<TransparentOutPoint, TransparentOutputRow>,
    n: int,
)
    requires
        0 <= n < spend_facts_of(spend_references(transactions), known).len(),
    ensures
        ({
            let fact = spend_facts_of(spend_references(transactions), known)[n];
            exists|t: int, i: int|
                #![trigger transactions[t].transparent_inputs@[i]]
                {
                    &&& 0 <= t < transactions.len()
                    &&& 0 <= i < transactions[t].transparent_inputs@.len()
                    &&& fact.spent_outpoint
                        == transactions[t].transparent_inputs@[i].spent_outpoint
                    &&& fact.input_index == transactions[t].transparent_inputs@[i].input_index
                    &&& fact.spending_transaction_id == transactions[t].location.transaction_id
                    &&& fact.tx_index_in_block == transactions[t].location.tx_index_in_block
                    &&& fact.block_height == transactions[t].location.block_height
                    &&& fact.block_hash == transactions[t].location.block_hash
                }
        }),
{
    let references = spend_references(transactions);
    law_resolved_spend_names_its_spender(references, known, n);
    let fact = spend_facts_of(references, known)[n];
    let j = choose|j: int|
        {
            &&& 0 <= j < references.len()
            &&& fact.spent_outpoint == (#[trigger] references[j]).spent_outpoint
            &&& fact.input_index == references[j].input_index
            &&& fact.spending_transaction_id == references[j].spending_transaction_id
            &&& fact.tx_index_in_block == references[j].tx_index_in_block
            &&& fact.block_height == references[j].block_height
            &&& fact.block_hash == references[j].block_hash
            &&& known.contains_key(references[j].spent_outpoint)
            &&& fact.value_zat == known[references[j].spent_outpoint].value_zat
            &&& fact.address_script_hash
                == known[references[j].spent_outpoint].address_script_hash
            &&& fact.created_block_height == known[references[j].spent_outpoint].block_height
            &&& fact.created_block_hash == known[references[j].spent_outpoint].block_hash
        };
    law_reference_names_its_input(transactions, j);
    let (t, i) = choose|t: int, i: int|
        #![trigger transactions[t].transparent_inputs@[i]]
        {
            &&& 0 <= t < transactions.len()
            &&& 0 <= i < transactions[t].transparent_inputs@.len()
            &&& names_input(
                references[j],
                transactions[t].location,
                transactions[t].transparent_inputs@[i],
            )
        };
    assert(transactions[t].transparent_inputs@[i].spent_outpoint == fact.spent_outpoint);
}

/// An output read from the store counts unless the commit replaces the block
/// that created it; the last one that counts stands for its outpoint.
pub proof fn law_last_kept_store_output_is_joined(
    known: Map<TransparentOutPoint, TransparentOutputRow>,
    store_outputs: Seq<(TransparentOutPoint, TransparentOutputArtifact)>,
    change: ReorgWindowChange,
    k: int,
)
    requires
        0 <= k < store_outputs.len(),
        change matches ReorgWindowChange::Replace { from_height }
            ==> store_outputs[k].1.block_height.0 < from_height.0,
        forall|j: int|
            k < j < store_outputs.len() && (#[trigger] store_outputs[j]).0 == store_outputs[k].0
                ==> (change matches ReorgWindowChange::Replace { from_height }
                && store_outputs[j].1.block_height.0 >= from_height.0),
    ensures
        ({
            let joined = joined_by_store(known, store_outputs, change);
            let (outpoint, output) = store_outputs[k];
            &&& joined.contains_key(outpoint)
            &&& joined[outpoint].outpoint == output.outpoint
            &&& joined[outpoint].value_zat == output.value_zat
            &&& joined[outpoint].script_pub_key == output.script_pub_key@
            &&& joined[outpoint].address_script_hash == output.address_script_hash
            &&& joined[outpoint].block_height == output.block_height
            &&& joined[outpoint].block_hash == output.block_hash
        }),
    decreases store_outputs.len(),
{
    let rest = store_outputs.drop_last();
    if k < rest.len() {
        assert forall|j: int| k < j < rest.len() && (#[trigger] rest[j]).0 == rest[k].0 implies (
        change matches ReorgWindowChange::Replace { from_height } && rest[j].1.block_height.0
            >= from_height.0) by {
            assert(store_outputs[j] == rest[j]);
        }
        law_last_kept_store_output_is_joined(known, rest, change, k);
        assert(store_outputs[store_outputs.len() - 1] == store_outputs.last());
    }
}

/// Where the store returned nothing that counts for an outpoint, what the
/// batch knew of it stands.
pub proof fn law_batch_outputs_stand_where_the_store_adds_none(
    known: Map<TransparentOutPoint, TransparentOutputRow>,
    store_outputs: Seq<(TransparentOutPoint, TransparentOutputArtifact)>,
    change: ReorgWindowChange,
    outpoint: TransparentOutPoint,
)
    requires
        forall|j: int|
            0 <= j < store_outputs.len() && (#[trigger] store_outputs[j]).0 == outpoint ==> (
            change matches ReorgWindowChange::Replace { from_height }
                && store_outputs[j].1.block_height.0 >= from_height.0),
    ensures
        ({
            let joined = joined_by_store(known, store_outputs, change);
            &&& joined.contains_key(outpoint) <==> known.contains_key(outpoint)
            &&& known.contains_key(outpoint) ==> joined[outpoint] == known[outpoint]
        }),
    decreases store_outputs.len(),
{
    if store_outputs.len() > 0 {
        let rest = store_outputs.drop_last();
        assert forall|j: int| 0 <= j < rest.len() && (#[trigger] rest[j]).0 == outpoint implies (
        change matches ReorgWindowChange::Replace { from_height } && rest[j].1.block_height.0
            >= from_height.0) by {
            assert(store_outputs[j] == rest[j]);
        }
        law_batch_outputs_stand_where_the_store_adds_none(known, rest, change, outpoint);
        assert(store_outputs[store_outputs.len() - 1] == store_outputs.last());
    }
}

/// The outputs that a batch creates come first: the last one it creates under
/// an outpoint is the one it brings along.
pub proof fn law_own_outputs_come_first(batch: CanonicalBatch, k: int)
    requires
        0 <= k < batch.transparent_outputs_by_outpoint@.len(),
        forall|j: int|
            k < j < batch.transparent_outputs_by_outpoint@.len() ==> (
            #[trigger] batch.transparent_outputs_by_outpoint@[j]).outpoint
                != batch.transparent_outputs_by_outpoint@[k].outpoint,
    ensures
        ({
            let own = batch.transparent_outputs_by_outpoint@[k];
            let known = outputs_of_batch(batch);
            &&& known.contains_key(own.outpoint)
            &&& known[own.outpoint].outpoint == own.outpoint
            &&& known[own.outpoint].value_zat == own.value_zat
            &&& known[own.outpoint].script_pub_key == own.script_pub_key@
            &&& known[own.outpoint].address_script_hash == own.address_script_hash
            &&& known[own.outpoint].block_height == own.block_height
            &&& known[own.outpoint].block_hash == own.block_hash
        }),
{
    lemma_last_output_is_latest(batch.transparent_outputs_by_outpoint@, k);
    lemma_known_outputs_stay(
        latest_outputs(batch.transparent_outputs_by_outpoint@),
        batch.prefetched_spent_transparent_outputs@,
        batch.transparent_outputs_by_outpoint@[k].outpoint,
    );
}

proof fn lemma_last_output_is_latest(outputs: Seq<TransparentOutputArtifact>, k: int)
    requires
        0 <= k < outputs.len(),
        forall|j: int|
            k < j < outputs.len() ==> (#[trigger] outputs[j]).outpoint != outputs[k].outpoint,
    ensures
        latest_outputs(outputs).contains_key(outputs[k].outpoint),
        latest_outputs(outputs)[outputs[k].outpoint] == outputs[k]@,
    decreases outputs.len(),
{
    let rest = outputs.drop_last();
    if k < rest.len() {
        assert forall|j: int| k < j < rest.len() implies (#[trigger] rest[j]).outpoint
            != rest[k].outpoint by {
            assert(outputs[j] == rest[j]);
        }
        lemma_last_output_is_latest(rest, k);
        assert(outputs[outputs.len() - 1] == outputs.last());
    }
}

proof fn lemma_only_created_outputs_are_latest(
    outputs: Seq<TransparentOutputArtifact>,
    outpoint: TransparentOutPoint,
)
    requires
        forall|j: int| 0 <= j < outputs.len() ==> (#[trigger] outputs[j]).outpoint != outpoint,
    ensures
        !latest_outputs(outputs).contains_key(outpoint),
    decreases outputs.len(),
{
    if outputs.len() > 0 {
        let rest = outputs.drop_last();
        assert forall|j: int| 0 <= j < rest.len() implies (#[trigger] rest[j]).outpoint
            != outpoint by {
            assert(outputs[j] == rest[j]);
        }
        lemma_only_created_outputs_are_latest(rest, outpoint);
        assert(outputs[outputs.len() - 1] == outputs.last());
    }
}

proof fn lemma_known_outputs_stay(
    known: Map<TransparentOutPoint, TransparentOutputRow>,
    outputs: Seq<TransparentOutputArtifact>,
    outpoint: TransparentOutPoint,
)
    requires
        known.contains_key(outpoint),
    ensures
        completed_by(known, outputs).contains_key(outpoint),
        completed_by(known, outputs)[outpoint] == known[outpoint],
    decreases outputs.len(),
{
    if outputs.len() > 0 {
        lemma_known_outputs_stay(known, outputs.drop_last(), outpoint);
    }
}

proof fn lemma_first_output_completes(
    known: Map<TransparentOutPoint, TransparentOutputRow>,
    outputs: Seq<TransparentOutputArtifact>,
    k: int,
)
    requires
        0 <= k < outputs.len(),
        !known.contains_key(outputs[k].outpoint),
        forall|j: int| 0 <= j < k ==> (#[trigger] outputs[j]).outpoint != outputs[k].outpoint,
    ensures
        completed_by(known, outputs).contains_key(outputs[k].outpoint),
        completed_by(known, outputs)[outputs[k].outpoint] == outputs[k]@,
    decreases outputs.len(),
{
    let rest = outputs.drop_last();
    if k < rest.len() {
        assert forall|j: int| 0 <= j < k implies (#[trigger] rest[j]).outpoint
            != rest[k].outpoint by {
            assert(outputs[j] == rest[j]);
        }
        lemma_first_output_completes(known, rest, k);
    } else {
        assert forall|j: int| 0 <= j < rest.len() implies (#[trigger] rest[j]).outpoint
            != outputs[k].outpoint by {
            assert(outputs[j] == rest[j]);
        }
        lemma_other_outputs_complete_nothing(known, rest, outputs[k].outpoint);
    }
}

proof fn lemma_other_outputs_complete_nothing(
    known: Map<TransparentOutPoint, TransparentOutputRow>,
    outputs: Seq<TransparentOutputArtifact>,
    outpoint: TransparentOutPoint,
)
    requires
        !known.contains_key(outpoint),
        forall|j: int| 0 <= j < outputs.len() ==> (#[trigger] outputs[j]).outpoint != outpoint,
    ensures
        !completed_by(known, outputs).contains_key(outpoint),
    decreases outputs.len(),
{
    if outputs.len() > 0 {
        let rest = outputs.drop_last();
        assert forall|j: int| 0 <= j < rest.len() implies (#[trigger] rest[j]).outpoint
            != outpoint by {
            assert(outputs[j] == rest[j]);
        }
        lemma_other_outputs_complete_nothing(known, rest, outpoint);
        assert(outputs[outputs.len() - 1] == outputs.last());
    }
}

/// Where a batch creates no output under an outpoint, the first one that was
/// fetched for it is the one it brings along.
pub proof fn law_fetched_outputs_come_second(batch: CanonicalBatch, k: int)
    requires
        0 <= k < batch.prefetched_spent_transparent_outputs@.len(),
        forall|j: int|
            0 <= j < batch.transparent_outputs_by_outpoint@.len() ==> (
            #[trigger] batch.transparent_outputs_by_outpoint@[j]).outpoint
                != batch.prefetched_spent_transparent_outputs@[k].outpoint,
        forall|j: int|
            0 <= j < k ==> (#[trigger] batch.prefetched_spent_transparent_outputs@[j]).outpoint
                != batch.prefetched_spent_transparent_outputs@[k].outpoint,
    ensures
        ({
            let fetched = batch.prefetched_spent_transparent_outputs@[k];
            let known = outputs_of_batch(batch);
            &&& known.contains_key(fetched.outpoint)
            &&& known[fetched.outpoint].outpoint == fetched.outpoint
            &&& known[fetched.outpoint].value_zat == fetched.value_zat
            &&& known[fetched.outpoint].script_pub_key == fetched.script_pub_key@
            &&& known[fetched.outpoint].address_script_hash == fetched.address_script_hash
            &&& known[fetched.outpoint].block_height == fetched.block_height
            &&& known[fetched.outpoint].block_hash == fetched.block_hash
        }),
{
    let outpoint = batch.prefetched_spent_transparent_outputs@[k].outpoint;
    lemma_only_created_outputs_are_latest(batch.transparent_outputs_by_outpoint@, outpoint);
    lemma_first_output_completes(
        latest_outputs(batch.transparent_outputs_by_outpoint@),
        batch.prefetched_spent_transparent_outputs@,
        k,
    );
}

/// A batch brings along no output that it neither creates nor was given.
pub proof fn law_batch_makes_no_outputs_up(batch: CanonicalBatch, outpoint: TransparentOutPoint)
    requires
        forall|j: int|
            0 <= j < batch.transparent_outputs_by_outpoint@.len() ==> (
            #[trigger] batch.transparent_outputs_by_outpoint@[j]).outpoint != outpoint,
        forall|j: int|
            0 <= j < batch.prefetched_spent_transparent_outputs@.len() ==> (
            #[trigger] batch.prefetched_spent_transparent_outputs@[j]).outpoint != outpoint,
    ensures
        !outputs_of_batch(batch).contains_key(outpoint),
{
    lemma_only_created_outputs_are_latest(batch.transparent_outputs_by_outpoint@, outpoint);
    lemma_other_outputs_complete_nothing(
        latest_outputs(batch.transparent_outputs_by_outpoint@),
        batch.prefetched_spent_transparent_outputs@,
        outpoint,
    );
}

/// Every outpoint that is asked of the store is one that a reference spends
/// and that is not known, and every such outpoint is asked for, in order.
pub proof fn law_unknown_references_are_asked_for_in_their_turn(
    references: Seq<TransparentSpendReference>,
    known: Map<TransparentOutPoint, TransparentOutputRow>,
    j: int,
)
    requires
        0 <= j < references.len(),
    ensures
        ({
            let asked = unknown_outpoints(references, known);
            let earlier = unknown_outpoints(references.take(j), known);
            &&& earlier.len() <= asked.len()
            &&& earlier == asked.take(earlier.len() as int)
            &&& !known.contains_key(references[j].spent_outpoint) ==> {
                &&& earlier.len() < asked.len()
                &&& asked[earlier.len() as int] == references[j].spent_outpoint
            }
            &&& forall|k: int|
                0 <= k < asked.len() ==> !known.contains_key(#[trigger] asked[k])
        }),
    decreases references.len(),
{
    let rest = references.drop_last();
    let asked = unknown_outpoints(references, known);
    if j < rest.len() {
        law_unknown_references_are_asked_for_in_their_turn(rest, known, j);
        assert(rest.take(j) =~= references.take(j));
        assert(rest[j] == references[j]);
        let earlier = unknown_outpoints(references.take(j), known);
        assert(earlier =~= asked.take(earlier.len() as int));
        assert forall|k: int| 0 <= k < asked.len() implies !known.contains_key(
            #[trigger] asked[k],
        ) by {
            if k < unknown_outpoints(rest, known).len() {
                assert(asked[k] == unknown_outpoints(rest, known)[k]);
            }
        }
    } else {
        assert(references.take(j) =~= rest);
        let earlier = unknown_outpoints(rest, known);
        assert(earlier =~= asked.take(earlier.len() as int));
        if rest.len() > 0 {
            law_unknown_references_are_asked_for_in_their_turn(rest, known, 0);
        }
        assert forall|k: int| 0 <= k < asked.len() implies !known.contains_key(
            #[trigger] asked[k],
        ) by {
            if k < earlier.len() {
                assert(asked[k] == earlier[k]);
            }
        }
    }
}

/// A writer and its store agree exactly where both have the same reorg window
/// and keep the same raw blobs; what they disagree on is named, the window
/// first.
pub proof fn law_writer_and_store_agree(
    store_window: u32,
    persisted: Result<RawBlobRetention, StoreError>,
    window: u32,
    retention: RawBlobRetention,
)
    ensures
        ({
            let contract = writer_contract(store_window, persisted, window, retention);
            &&& contract is Ok <==> store_window == window && persisted == Ok::<
                RawBlobRetention,
                StoreError,
            >(retention)
            &&& store_window != window ==> {
                &&& contract matches Err(
                    IngestError::CanonicalWriterReorgWindowMismatch {
                        store_reorg_window_blocks,
                        configured_reorg_window_blocks,
                    },
                )
                &&& store_reorg_window_blocks == store_window
                &&& configured_reorg_window_blocks == window
            }
            &&& store_window == window && persisted is Err ==> {
                &&& contract matches Err(IngestError::Store(error))
                &&& persisted == Err::<RawBlobRetention, StoreError>(error)
            }
            &&& store_window == window && persisted is Ok && persisted->Ok_0 != retention ==> {
                &&& contract matches Err(
                    IngestError::Store(
                        StoreError::RawBlobRetentionMismatch { persisted: found, configured },
                    ),
                )
                &&& found == persisted->Ok_0
                &&& configured == retention
            }
        }),
{
}

/// Pools are asked for in one order, and exactly those whose tree has filled a
/// subtree of 65536 notes that is not recorded yet.
pub proof fn law_pools_with_new_subtrees_are_asked(
    tip_metadata: ChainTipMetadata,
    indexes: IngestSubtreeRootIndexes,
)
    ensures
        ({
            let asked = advanced_protocols(fetch_order(), tip_metadata, indexes);
            let sapling = tip_metadata.sapling_commitment_tree_size / 65_536
                > indexes.sapling.0;
            let ironwood = tip_metadata.ironwood_commitment_tree_size / 65_536
                > indexes.ironwood.0;
            let orchard = tip_metadata.orchard_commitment_tree_size / 65_536
                > indexes.orchard.0;
            asked == (if sapling {
                seq![ShieldedProtocol::Sapling]
            } else {
                Seq::<ShieldedProtocol>::empty()
            }) + (if ironwood {
                seq![ShieldedProtocol::Ironwood]
            } else {
                Seq::<ShieldedProtocol>::empty()
            }) + (if orchard {
                seq![ShieldedProtocol::Orchard]
            } else {
                Seq::<ShieldedProtocol>::empty()
            })
        }),
{
    let advances = |protocol: ShieldedProtocol|
        tip_metadata.completed_subtrees(protocol) > indexes.at(protocol).0;
    let all = fetch_order();
    reveal(Seq::filter);
    assert(all.drop_last().drop_last().drop_last() =~= Seq::<ShieldedProtocol>::empty());
    assert(all.last() == ShieldedProtocol::Orchard);
    assert(all.drop_last().last() == ShieldedProtocol::Ironwood);
    assert(all.drop_last().drop_last().last() == ShieldedProtocol::Sapling);
    let none = Seq::<ShieldedProtocol>::empty();
    assert(none.filter(advances) =~= none);
    let first = all.drop_last().drop_last();
    assert(first.filter(advances) =~= if advances(ShieldedProtocol::Sapling) {
        seq![ShieldedProtocol::Sapling]
    } else {
        none
    });
    assert(all.drop_last().filter(advances) == if advances(ShieldedProtocol::Ironwood) {
        first.filter(advances).push(ShieldedProtocol::Ironwood)
    } else {
        first.filter(advances)
    });
    assert(all.filter(advances) == if advances(ShieldedProtocol::Orchard) {
        all.drop_last().filter(advances).push(ShieldedProtocol::Orchard)
    } else {
        all.drop_last().filter(advances)
    });
    assert(advanced_protocols(all, tip_metadata, indexes) == all.filter(advances));
    assert(advanced_protocols(all, tip_metadata, indexes) =~= (if advances(
        ShieldedProtocol::Sapling,
    ) {
        seq![ShieldedProtocol::Sapling]
    } else {
        none
    }) + (if advances(ShieldedProtocol::Ironwood) {
        seq![ShieldedProtocol::Ironwood]
    } else {
        none
    }) + (if advances(ShieldedProtocol::Orchard) {
        seq![ShieldedProtocol::Orchard]
    } else {
        none
    }));
}

/// A request for new subtrees starts at the first one that is not recorded and
/// ends with the last one that the tree has filled.
pub proof fn law_request_covers_the_unrecorded_subtrees(
    request: SubtreeRootRange,
    protocol: ShieldedProtocol,
    tip_metadata: ChainTipMetadata,
    indexes: IngestSubtreeRootIndexes,
)
    requires
        asks_for_new_subtrees(request, protocol, tip_metadata, indexes),
    ensures
        request.protocol == protocol,
        match protocol {
            ShieldedProtocol::Sapling => request.start_index == indexes.sapling
                && request.start_index.0 + request.max_entries@
                == tip_metadata.sapling_commitment_tree_size / 65_536,
            ShieldedProtocol::Orchard => request.start_index == indexes.orchard
                && request.start_index.0 + request.max_entries@
                == tip_metadata.orchard_commitment_tree_size / 65_536,
            ShieldedProtocol::Ironwood => request.start_index == indexes.ironwood
                && request.start_index.0 + request.max_entries@
                == tip_metadata.ironwood_commitment_tree_size / 65_536,
        },
{
}

/// The hash found for a height is that of the last header with this height;
/// none is found exactly where no header has it.
pub proof fn law_hash_is_found_with_its_height(
    headers: Seq<BlockHeaderArtifact>,
    height: BlockHeight,
)
    ensures
        match hash_at(headers, height) {
            None => forall|j: int|
                0 <= j < headers.len() ==> (#[trigger] headers[j]).height != height,
            Some(hash) => exists|j: int|
                {
                    &&& 0 <= j < headers.len()
                    &&& (#[trigger] headers[j]).height == height
                    &&& headers[j].block_hash == hash
                    &&& forall|l: int|
                        j < l < headers.len() ==> (#[trigger] headers[l]).height != height
                },
        },
    decreases headers.len(),
{
    if headers.len() > 0 {
        let rest = headers.drop_last();
        let last = headers.len() - 1;
        assert(headers[last] == headers.last());
        if headers.last().height != height {
            law_hash_is_found_with_its_height(rest, height);
            match hash_at(rest, height) {
                None => {
                    assert forall|j: int| 0 <= j < headers.len() implies (
                    #[trigger] headers[j]).height != height by {
                        if j < last {
                            assert(rest[j] == headers[j]);
                        }
                    }
                },
                Some(hash) => {
                    let j = choose|j: int|
                        {
                            &&& 0 <= j < rest.len()
                            &&& (#[trigger] rest[j]).height == height
                            &&& rest[j].block_hash == hash
                            &&& forall|l: int|
                                j < l < rest.len() ==> (#[trigger] rest[l]).height != height
                        };
                    assert(headers[j] == rest[j]);
                    assert forall|l: int| j < l < headers.len() implies (
                    #[trigger] headers[l]).height != height by {
                        if l < last {
                            assert(rest[l] == headers[l]);
                        }
                    }
                },
            }
        }
    }
}

/// The first root that cannot be bound is the first whose completing block is
/// not among the headers; each root before it is bound as it was fetched.
pub proof fn law_roots_are_bound_up_to_the_first_gap(
    headers: Seq<BlockHeaderArtifact>,
    protocol: ShieldedProtocol,
    roots: Seq<SourceSubtreeRoot>,
)
    ensures
        ({
            let unbound = first_unbound_root(headers, roots);
            let bound = bound_roots(headers, protocol, roots, unbound);
            &&& 0 <= unbound <= roots.len()
            &&& bound.len() == unbound
            &&& unbound < roots.len() ==> forall|j: int|
                0 <= j < headers.len() ==> (#[trigger] headers[j]).height
                    != roots[unbound].completing_block_height
            &&& forall|i: int|
                0 <= i < unbound ==> {
                    &&& (#[trigger] bound[i]).protocol == protocol
                    &&& bound[i].subtree_index == roots[i].subtree_index
                    &&& bound[i].root_hash == roots[i].root_hash
                    &&& bound[i].completing_block_height == roots[i].completing_block_height
                    &&& has_header(
                        headers,
                        bound[i].completing_block_height,
                        bound[i].completing_block_hash,
                    )
                }
        }),
{
    lemma_roots_before_the_first_gap_have_headers(headers, roots);
    let unbound = first_unbound_root(headers, roots);
    if unbound < roots.len() {
        law_hash_is_found_with_its_height(headers, roots[unbound].completing_block_height);
    }
    let bound = bound_roots(headers, protocol, roots, unbound);
    assert forall|i: int| 0 <= i < unbound implies {
        &&& (#[trigger] bound[i]).protocol == protocol
        &&& bound[i].subtree_index == roots[i].subtree_index
        &&& bound[i].root_hash == roots[i].root_hash
        &&& bound[i].completing_block_height == roots[i].completing_block_height
        &&& has_header(headers, bound[i].completing_block_height, bound[i].completing_block_hash)
    } by {
        let height = roots[i].completing_block_height;
        assert(hash_at(headers, height) is Some);
        law_hash_is_found_with_its_height(headers, height);
        let hash = hash_at(headers, height)->0;
        let j = choose|j: int|
            {
                &&& 0 <= j < headers.len()
                &&& (#[trigger] headers[j]).height == height
                &&& headers[j].block_hash == hash
                &&& forall|l: int|
                    j < l < headers.len() ==> (#[trigger] headers[l]).height != height
            };
        assert(headers[j].height == height);
    }
}

/// Whether a header of some height and hash is among some.
pub open spec fn has_header(
    headers: Seq<BlockHeaderArtifact>,
    height: BlockHeight,
    hash: BlockHash,
) -> bool {
    exists|j: int|
        0 <= j < headers.len() && (#[trigger] headers[j]).height == height
            && headers[j].block_hash == hash
}

proof fn lemma_roots_before_the_first_gap_have_headers(
    headers: Seq<BlockHeaderArtifact>,
    roots: Seq<SourceSubtreeRoot>,
)
    ensures
        0 <= first_unbound_root(headers, roots) <= roots.len(),
        first_unbound_root(headers, roots) < roots.len() ==> hash_at(
            headers,
            roots[first_unbound_root(headers, roots)].completing_block_height,
        ) is None,
        forall|i: int|
            0 <= i < first_unbound_root(headers, roots) ==> hash_at(
                headers,
                (#[trigger] roots[i]).completing_block_height,
            ) is Some,
    decreases roots.len(),
{
    if roots.len() > 0 {
        let rest = roots.drop_last();
        lemma_roots_before_the_first_gap_have_headers(headers, rest);
        assert forall|i: int| 0 <= i < first_unbound_root(headers, roots) implies hash_at(
            headers,
            (#[trigger] roots[i]).completing_block_height,
        ) is Some by {
            if i < rest.len() {
                assert(rest[i] == roots[i]);
            }
        }
        let unbound = first_unbound_root(headers, roots);
        if unbound < rest.len() {
            assert(rest[unbound] == roots[unbound]);
        }
    }
}

/// Candidate blocks extend the visible chain exactly where the first of them
/// stands right above its tip and names it as parent; else they replace the
/// visible blocks from its height on, as far as the window allows.
pub proof fn law_candidates_extend_or_replace(
    epoch: ChainEpoch,
    blocks: Seq<SourceBlock>,
    window: u32,
)
    requires
        blocks.len() > 0,
    ensures
        ({
            let chosen = best_chain(epoch, blocks, window);
            let first = blocks[0];
            let depth = if epoch.visible_tip_height.0 >= first.height.0 {
                epoch.visible_tip_height.0 - first.height.0 + 1
            } else {
                1
            };
            let counted = if depth <= 0xffff_ffff {
                depth
            } else {
                0xffff_ffff
            };
            if first.height.0 == epoch.visible_tip_height.0 + 1 && first.parent_hash
                == epoch.visible_tip_hash {
                &&& chosen matches Ok(ReorgWindowChange::Extend { block_range })
                &&& block_range.start == first.height
                &&& block_range.end == blocks[blocks.len() - 1].height
            } else if counted > window {
                &&& chosen matches Err(
                    IngestError::ReorgWindowExceeded {
                        from_height,
                        replacement_depth,
                        configured_window_blocks,
                    },
                )
                &&& from_height == first.height
                &&& replacement_depth == counted
                &&& configured_window_blocks == window
            } else {
                chosen matches Ok(ReorgWindowChange::Replace { from_height }) && from_height
                    == first.height
            }
        }),
{
}

/// A commit writes the rows of its batch and no others.
pub proof fn law_commit_writes_the_rows_of_its_batch(
    artifacts: ChainEpochArtifacts,
    batch: CanonicalBatch,
)
    requires
        artifacts.holds_rows_of(batch),
    ensures
        artifacts.block_headers@ == batch.block_headers@,
        artifacts.block_replay_envelopes@ == batch.block_replay_envelopes@,
        artifacts.compact_blocks@ == batch.compact_blocks@,
        artifacts.block_blobs@ == batch.block_blobs@,
        artifacts.block_transaction_index@ == batch.block_transaction_index@,
        artifacts.transaction_locations@ == batch.transaction_locations@,
        artifacts.transaction_facts@ == batch.transaction_facts@,
        artifacts.transaction_intrinsic_value_balances@
            == batch.transaction_intrinsic_value_balances@,
        artifacts.transaction_blobs@ == batch.transaction_blobs@,
        artifacts.tree_states@ == batch.tree_states@,
        artifacts.final_note_commitment_roots@ == batch.final_note_commitment_roots@,
        artifacts.subtree_roots@ == batch.subtree_roots@,
        artifacts.transparent_outputs_by_outpoint@ == batch.transparent_outputs_by_outpoint@,
{
}

/// A commit without rows carries none of any sort.
pub proof fn law_commit_without_rows_is_empty(artifacts: ChainEpochArtifacts)
    requires
        artifacts.holds_no_rows(),
    ensures
        artifacts.block_headers@ == Seq::<BlockHeaderArtifact>::empty(),
        artifacts.block_replay_envelopes@ == Seq::<CanonicalBlockReplayEnvelope>::empty(),
        artifacts.compact_blocks@ == Seq::<CompactBlockArtifact>::empty(),
        artifacts.block_blobs@ == Seq::<BlockBlobArtifact>::empty(),
        artifacts.block_transaction_index@ == Seq::<BlockTransactionIndexArtifact>::empty(),
        artifacts.transaction_locations@ == Seq::<TransactionLocation>::empty(),
        artifacts.transaction_facts@ == Seq::<TransactionFactsArtifact>::empty(),
        artifacts.transaction_blobs@ == Seq::<TransactionBlobArtifact>::empty(),
        artifacts.transaction_intrinsic_value_balances@.len() == 0,
        artifacts.tree_states@ == Seq::<TreeStateArtifact>::empty(),
        artifacts.final_note_commitment_roots@ == Seq::<BlockFinalNoteCommitmentRoots>::empty(),
        artifacts.subtree_roots@ == Seq::<SubtreeRootArtifact>::empty(),
        artifacts.transparent_outputs_by_outpoint@ == Seq::<TransparentOutputArtifact>::empty(),
        artifacts.transparent_spend_facts@ == Seq::<TransparentSpendFact>::empty(),
{
}

/// Epoch identifiers start at one and count up by one, until none is left.
pub proof fn law_epoch_ids_count_up(epoch: ChainEpoch)
    ensures
        next_epoch_id(None) == Ok::<ChainEpochId, IngestError>(ChainEpochId(1)),
        match next_epoch_id(Some(epoch)) {
            Ok(next) => next.0 == epoch.id.0 + 1,
            Err(error) => epoch.id.0 == 0xffff_ffff_ffff_ffff && error == IngestError::Store(
                StoreError::ChainEpochSequenceOverflow,
            ),
        },
        epoch_id_after(epoch.id) == next_epoch_id(Some(epoch)),
{
}

/// A commit replaces an output exactly where it replaces visible blocks and the
/// output was created at the first of their heights or above.
pub proof fn law_only_replaced_heights_are_reverted(
    block_height: BlockHeight,
    change: ReorgWindowChange,
)
    ensures
        is_reverted(block_height, change) <==> exists|from_height: BlockHeight|
            change == (#[trigger] replacement_from(from_height)) && from_height.0
                <= block_height.0,
{
    if let ReorgWindowChange::Replace { from_height } = change {
        assert(change == replacement_from(from_height));
    }
}

/// The change that replaces visible blocks from a height on.
pub open spec fn replacement_from(from_height: BlockHeight) -> ReorgWindowChange {
    ReorgWindowChange::Replace { from_height }
}

/// The rows that stand for outputs are theirs, field by field.
pub proof fn law_rows_stand_for_their_outputs(
    outputs: Map<TransparentOutPoint, TransparentOutputArtifact>,
    outpoint: TransparentOutPoint,
)
    ensures
        rows_by_outpoint(outputs).contains_key(outpoint) <==> outputs.contains_key(outpoint),
        outputs.contains_key(outpoint) ==> {
            let row = rows_by_outpoint(outputs)[outpoint];
            let output = outputs[outpoint];
            &&& row.outpoint == output.outpoint
            &&& row.value_zat == output.value_zat
            &&& row.script_pub_key == output.script_pub_key@
            &&& row.address_script_hash == output.address_script_hash
            &&& row.block_height == output.block_height
            &&& row.block_hash == output.block_hash
        },
{
}

/// One more input adds one reference, with that input's outpoint and index and
/// the place of its transaction, unless it is the null input of a coinbase,
/// which adds none; one more transaction adds the references of its inputs.
pub proof fn law_references_grow_by_each_input(
    location: TransactionLocation,
    inputs: Seq<TransparentInputFact>,
    next: TransparentInputFact,
)
    ensures
        input_references(location, Seq::empty()).len() == 0,
        ({
            let before = input_references(location, inputs);
            let after = input_references(location, inputs.push(next));
            let null = next.spent_outpoint.output_index == 0xffff_ffff && forall|b: int|
                0 <= b < 32 ==> next.spent_outpoint.transaction_id.0@[b] == 0;
            &&& null ==> after == before
            &&& !null ==> {
                &&& after.len() == before.len() + 1
                &&& after.take(before.len() as int) == before
                &&& names_input(after.last(), location, next)
            }
        }),
{
    assert(inputs.push(next).drop_last() =~= inputs);
    let before = input_references(location, inputs);
    let after = input_references(location, inputs.push(next));
    if after.len() > before.len() {
        assert(after.take(before.len() as int) =~= before);
    }
}

/// One more transaction adds the references of its inputs, at its place.
pub proof fn law_references_grow_by_each_transaction(
    transactions: Seq<TransactionFactsArtifact>,
    next: TransactionFactsArtifact,
)
    ensures
        spend_references(Seq::empty()).len() == 0,
        spend_references(transactions.push(next)) == spend_references(transactions)
            + input_references(next.location, next.transparent_inputs@),
{
    assert(transactions.push(next).drop_last() =~= transactions);
}

} // verus!
