//! Fresh canonical construction from one ordered node-source pass.

use crate::artifact_builder::{
    finalize_canonical_block, CommitmentTreeSizes, ConstructionFault, PositionedCanonicalBlock,
    PreparedCanonicalBlock, RawBlobPolicy,
};
use crate::artifacts::{
    CompactBlock, CompactBlockView, CompactOrchardAction, CompactSaplingOutput, CompactTx,
    SourceBlock,
};
use crate::bounds::{
    capped, capped_sum, larger, nonzero_u32, nonzero_u32_to_usize, nonzero_u64, NonZeroU32,
    NonZeroU64,
};
use crate::bulk_catchup::heap::capacity_of;
use crate::bytes::{fixed_bytes, same_bytes};
use crate::canonical_block_context::{
    ironwood_commitments, orchard_commitments, sapling_commitments, BlockCommitments,
    TransactionCommitments,
};
use crate::errors::IngestError;
use crate::ids::{BlockHeight, BlockId, ChainTipMetadata, Network};
use std::collections::VecDeque;
use std::time::Duration;
use vstd::prelude::*;

verus! {

/// Bytes one memory permit stands for.
pub const CANONICAL_PREPARE_MEMORY_UNIT_BYTES: u64 = 1_024;

/// Bytes a preparation is expected to hold for every raw block byte.
pub const CANONICAL_PREPARE_RAW_BLOCK_MULTIPLIER: u64 = 16;

/// Bytes a preparation is expected to hold whatever the block's size.
pub const CANONICAL_PREPARE_FIXED_BYTES: u64 = 65_536;

/// Bounded source-fetch and preparation settings for fresh canonical construction.
#[derive(Clone, Copy, Debug)]
pub struct CanonicalConstructionConfig {
    /// Timeout applied to one upstream source request.
    pub request_timeout: Duration,
    /// Maximum bytes accepted from one source response.
    pub max_response_bytes: NonZeroU64,
    /// Adaptive target for one source response payload.
    pub source_segment_target_response_bytes: NonZeroU64,
    /// Maximum blocks requested in one source segment.
    pub source_segment_max_blocks: NonZeroU32,
    /// Maximum concurrent source-segment requests.
    pub source_fetch_max_in_flight_requests: NonZeroU32,
    /// Aggregate byte watermark for in-flight source responses.
    pub source_fetch_max_in_flight_bytes: NonZeroU64,
    /// Maximum canonical block preparations in flight.
    pub block_prepare_concurrency: NonZeroU32,
    /// Aggregate byte watermark for block preparation and queued canonical blocks.
    pub block_prepare_memory_watermark_bytes: NonZeroU64,
}

impl CanonicalConstructionConfig {
    /// Returns bounded settings suitable for deterministic local integration tests.
    pub fn for_local_tests(request_timeout: Duration) -> (config: Self)
        ensures
            config.request_timeout == request_timeout,
            config.max_response_bytes@ == 16_777_216,
            config.source_segment_target_response_bytes@ == 8_388_608,
            config.source_segment_max_blocks@ == 8,
            config.source_fetch_max_in_flight_requests@ == 2,
            config.source_fetch_max_in_flight_bytes@ == 33_554_432,
            config.block_prepare_concurrency@ == 2,
            config.block_prepare_memory_watermark_bytes@ == 33_554_432,
    {
        CanonicalConstructionConfig {
            request_timeout,
            max_response_bytes: nonzero_u64(16_777_216),
            source_segment_target_response_bytes: nonzero_u64(8_388_608),
            source_segment_max_blocks: nonzero_u32(8),
            source_fetch_max_in_flight_requests: nonzero_u32(2),
            source_fetch_max_in_flight_bytes: nonzero_u64(33_554_432),
            block_prepare_concurrency: nonzero_u32(2),
            block_prepare_memory_watermark_bytes: nonzero_u64(33_554_432),
        }
    }
}

/// What a canonical store is built to serve.
#[derive(Clone, Copy, Debug, PartialEq, Eq, Structural)]
pub enum CanonicalStoreWorkload {
    Wallet,
    Explorer,
}

/// Failure of one operation on a canonical store under construction.
#[derive(Debug)]
pub enum CanonicalStoreError {
    /// The store was never published.
    StoreNotReady,
    /// Any other storage failure.
    Operation { reason: String },
}

/// Fingerprint of one activation table.
#[derive(Clone, Copy, Debug, PartialEq, Eq)]
pub struct NetworkUpgradeActivationsFingerprint(pub [u8; 32]);

/// Network and activation table that a store, or a construction, is bound to.
#[derive(Clone, Copy, Debug, PartialEq, Eq)]
pub struct ConstructionIdentity {
    pub network: Network,
    pub fingerprint: NetworkUpgradeActivationsFingerprint,
}

/// Failure while constructing a fresh canonical store.
#[derive(Debug)]
#[non_exhaustive]
#[allow(inconsistent_fields)]
pub enum CanonicalConstructionError {
    /// Source fetch or canonical block preparation failed.
    Source { source: IngestError },
    /// Canonical storage construction failed.
    Store(CanonicalStoreError),
    /// Configured upgrade activations describe another network.
    NetworkMismatch { store_network: Network, configured_network: Network },
    /// Configured upgrade activations differ from the immutable store identity.
    NetworkUpgradeActivationsMismatch {
        store_fingerprint: NetworkUpgradeActivationsFingerprint,
        configured_fingerprint: NetworkUpgradeActivationsFingerprint,
    },
    /// A source block is labeled for another network than the fresh store.
    SourceBlockNetworkMismatch {
        height: BlockHeight,
        store_network: Network,
        source_network: Network,
    },
    /// The blocking loader task could not complete.
    LoaderTaskFailed { reason: String },
}

/// Returns which raw bytes a store keeps for its workload.
pub fn raw_blob_policy_for_workload(workload: CanonicalStoreWorkload) -> (policy: RawBlobPolicy)
    ensures
        policy == match workload {
            CanonicalStoreWorkload::Wallet => RawBlobPolicy::Transactions,
            CanonicalStoreWorkload::Explorer => RawBlobPolicy::All,
        },
{
    match workload {
        CanonicalStoreWorkload::Wallet => RawBlobPolicy::Transactions,
        CanonicalStoreWorkload::Explorer => RawBlobPolicy::All,
    }
}

/// Accepts a construction whose network and activation table are those of the store.
pub fn validate_construction_identity(
    store: ConstructionIdentity,
    configured: ConstructionIdentity,
) -> (valid: Result<(), CanonicalConstructionError>)
    ensures
        match valid {
            Ok(_) => store == configured,
            Err(error) => if configured.network != store.network {
                error == (CanonicalConstructionError::NetworkMismatch {
                    store_network: store.network,
                    configured_network: configured.network,
                })
            } else {
                &&& configured.fingerprint != store.fingerprint
                &&& error == (CanonicalConstructionError::NetworkUpgradeActivationsMismatch {
                    store_fingerprint: store.fingerprint,
                    configured_fingerprint: configured.fingerprint,
                })
            },
        },
{
    if configured.network != store.network {
        return Err(
            CanonicalConstructionError::NetworkMismatch {
                store_network: store.network,
                configured_network: configured.network,
            },
        );
    }
    if !same_bytes(&configured.fingerprint.0, &store.fingerprint.0) {
        return Err(
            CanonicalConstructionError::NetworkUpgradeActivationsMismatch {
                store_fingerprint: store.fingerprint,
                configured_fingerprint: configured.fingerprint,
            },
        );
    }
    Ok(())
}

/// Permits that cover a number of bytes: one for every unit begun, at least one.
pub open spec fn permits_covering(bytes: int) -> int {
    capped(
        larger(
            (bytes + CANONICAL_PREPARE_MEMORY_UNIT_BYTES - 1)
                / CANONICAL_PREPARE_MEMORY_UNIT_BYTES as int,
            1,
        ),
        u32::MAX as int,
    )
}

/// Returns how many memory permits a number of bytes comes to.
pub fn memory_permit_count(limit_bytes: u64) -> (permits: u32)
    ensures
        permits == permits_covering(limit_bytes as int),
        permits >= 1,
{
    let padded: u64 = limit_bytes.saturating_add(CANONICAL_PREPARE_MEMORY_UNIT_BYTES - 1);
    let units: u64 = padded / CANONICAL_PREPARE_MEMORY_UNIT_BYTES;
    let at_least_one: u64 = if units == 0 {
        1
    } else {
        units
    };
    match u32::try_from(at_least_one) {
        Ok(permits) => permits,
        Err(_) => u32::MAX,
    }
}

/// Bytes a preparation is expected to hold for a block of some capacity.
pub open spec fn estimated_prepare_bytes(raw_block_capacity: int) -> int {
    capped_sum(
        capped(
            larger(raw_block_capacity, 1) * CANONICAL_PREPARE_RAW_BLOCK_MULTIPLIER,
            u64::MAX as int,
        ),
        CANONICAL_PREPARE_FIXED_BYTES as int,
        u64::MAX as int,
    )
}

/// Permits that a block of some capacity takes out of those there are.
pub open spec fn block_permits(raw_block_capacity: int, available_permits: u32) -> int {
    capped(
        permits_covering(estimated_prepare_bytes(raw_block_capacity)),
        available_permits as int,
    )
}

/// Returns how many memory permits one block's preparation takes.
pub fn memory_permits_for_block(raw_block_capacity: usize, available_permits: u32) -> (permits: u32)
    ensures
        permits == block_permits(raw_block_capacity as int, available_permits),
{
    let capacity: u64 = if raw_block_capacity == 0 {
        1
    } else {
        raw_block_capacity as u64
    };
    let scaled: u64 = match capacity.checked_mul(CANONICAL_PREPARE_RAW_BLOCK_MULTIPLIER) {
        Some(scaled) => scaled,
        None => u64::MAX,
    };
    let estimated: u64 = scaled.saturating_add(CANONICAL_PREPARE_FIXED_BYTES);
    let permits: u32 = memory_permit_count(estimated);
    if permits <= available_permits {
        permits
    } else {
        available_permits
    }
}

/// A block's preparation never asks for more memory permits than there are,
/// so that it can always be admitted, and asks for at least one.
pub proof fn law_every_block_can_be_prepared(limit_bytes: u64, raw_block_capacity: usize)
    ensures
        ({
            let available = permits_covering(limit_bytes as int) as u32;
            1 <= block_permits(raw_block_capacity as int, available) <= available
        }),
{
}

/// What admission of the next source block waits for.
#[derive(Debug)]
pub enum AdmissionStep {
    /// The next chunk of the source stream.
    NeedChunk,
    /// Memory permits for the block at the front.
    AcquirePermits { permits: u32 },
    /// Nothing: the block at the front is refused, and its chunk with it.
    Reject(CanonicalConstructionError),
}

/// Source blocks on their way into preparation.
#[derive(Debug)]
pub struct SourceBlockAdmission {
    /// Blocks of the current chunk, in chain order.
    pub pending: VecDeque<SourceBlock>,
    /// Permits the memory gate holds in all.
    pub prepare_memory_permits: u32,
    /// Network every block has to belong to.
    pub expected_network: Network,
}

impl SourceBlockAdmission {
    /// Starts without a chunk.
    pub fn new(prepare_memory_permits: u32, expected_network: Network) -> (admission: Self)
        ensures
            admission.pending@.len() == 0,
            admission.prepare_memory_permits == prepare_memory_permits,
            admission.expected_network == expected_network,
    {
        SourceBlockAdmission {
            pending: VecDeque::new(),
            prepare_memory_permits,
            expected_network,
        }
    }

    /// Decides what the next block waits for.
    pub fn advance(&mut self) -> (step: AdmissionStep)
        ensures
            final(self).prepare_memory_permits == old(self).prepare_memory_permits,
            final(self).expected_network == old(self).expected_network,
            if old(self).pending@.len() == 0 {
                step is NeedChunk && final(self).pending@ == old(self).pending@
            } else if old(self).pending@[0].network != old(self).expected_network {
                &&& step == AdmissionStep::Reject(
                    CanonicalConstructionError::SourceBlockNetworkMismatch {
                        height: old(self).pending@[0].height,
                        store_network: old(self).expected_network,
                        source_network: old(self).pending@[0].network,
                    },
                )
                &&& final(self).pending@.len() == 0
            } else {
                &&& final(self).pending@ == old(self).pending@
                &&& step is AcquirePermits
                &&& exists|capacity: usize|
                    capacity >= old(self).pending@[0].raw_block_bytes@.len() && step->permits
                        == #[trigger] block_permits(
                        capacity as int,
                        old(self).prepare_memory_permits,
                    )
            },
    {
        if self.pending.len() == 0 {
            return AdmissionStep::NeedChunk;
        }
        let block = &self.pending[0];
        let height = block.height;
        let source_network = block.network;
        let capacity: usize = capacity_of(&block.raw_block_bytes);
        if source_network != self.expected_network {
            self.pending.clear();
            return AdmissionStep::Reject(
                CanonicalConstructionError::SourceBlockNetworkMismatch {
                    height,
                    store_network: self.expected_network,
                    source_network,
                },
            );
        }
        let permits: u32 = memory_permits_for_block(capacity, self.prepare_memory_permits);
        assert(permits == block_permits(capacity as int, old(self).prepare_memory_permits));
        AdmissionStep::AcquirePermits { permits }
    }

    /// Takes in the next chunk of the source stream.
    pub fn accept_chunk(&mut self, chunk: VecDeque<SourceBlock>)
        requires
            old(self).pending@.len() == 0,
        ensures
            final(self).pending == chunk,
            final(self).prepare_memory_permits == old(self).prepare_memory_permits,
            final(self).expected_network == old(self).expected_network,
    {
        self.pending = chunk;
    }

    /// Hands out the block at the front once its permits were granted, or
    /// reports that the memory gate closed.
    pub fn take_admitted(&mut self, granted: bool) -> (admitted: Result<
        SourceBlock,
        CanonicalConstructionError,
    >)
        requires
            old(self).pending@.len() > 0,
        ensures
            final(self).prepare_memory_permits == old(self).prepare_memory_permits,
            final(self).expected_network == old(self).expected_network,
            if granted {
                &&& admitted == Ok::<SourceBlock, CanonicalConstructionError>(
                    old(self).pending@[0],
                )
                &&& final(self).pending@ == old(self).pending@.skip(1)
            } else {
                &&& final(self).pending@ == old(self).pending@
                &&& admitted matches Err(
                    CanonicalConstructionError::Source {
                        source: IngestError::BlockingTaskFailed { reason },
                    },
                )
                &&& reason@ == "canonical preparation memory gate closed"@
            },
    {
        let closed = CanonicalConstructionError::Source {
            source: IngestError::BlockingTaskFailed {
                reason: "canonical preparation memory gate closed".to_owned(),
            },
        };
        if !granted {
            return Err(closed);
        }
        match self.pending.pop_front() {
            Some(block) => {
                assert(self.pending@ =~= old(self).pending@.skip(1));
                Ok(block)
            },
            None => Err(closed),
        }
    }
}

/// What is fixed about a store before its blocks are loaded.
#[derive(Clone, Copy, Debug, PartialEq, Eq)]
pub struct CanonicalStoreBuildPlan {
    pub identity: ConstructionIdentity,
    pub first_available_height: BlockHeight,
    pub build_tip: BlockId,
    pub history_predecessor: BlockId,
    pub history_predecessor_tip_metadata: ChainTipMetadata,
}

/// Bounds of the source pass and of the preparations it feeds.
#[derive(Clone, Copy, Debug)]
pub struct PreparedBlockStreamPlan {
    pub history_predecessor: BlockId,
    pub from_height: BlockHeight,
    pub to_height: BlockHeight,
    pub prepare_memory_permits: u32,
    pub prepare_concurrency: usize,
    pub raw_blob_policy: RawBlobPolicy,
}

/// Plans the source pass that loads a fresh store.
pub fn prepared_block_stream_plan(
    build_plan: CanonicalStoreBuildPlan,
    workload: CanonicalStoreWorkload,
    configured: ConstructionIdentity,
    config: CanonicalConstructionConfig,
) -> (plan: Result<PreparedBlockStreamPlan, CanonicalConstructionError>)
    ensures
        match plan {
            Ok(plan) => {
                &&& build_plan.identity == configured
                &&& plan.history_predecessor == build_plan.history_predecessor
                &&& plan.from_height == build_plan.first_available_height
                &&& plan.to_height == build_plan.build_tip.height
                &&& plan.prepare_memory_permits == permits_covering(
                    config.block_prepare_memory_watermark_bytes@ as int,
                )
                &&& plan.prepare_concurrency == config.block_prepare_concurrency@
                &&& plan.raw_blob_policy == match workload {
                    CanonicalStoreWorkload::Wallet => RawBlobPolicy::Transactions,
                    CanonicalStoreWorkload::Explorer => RawBlobPolicy::All,
                }
            },
            Err(error) => if configured.network != build_plan.identity.network {
                error == (CanonicalConstructionError::NetworkMismatch {
                    store_network: build_plan.identity.network,
                    configured_network: configured.network,
                })
            } else {
                &&& configured.fingerprint != build_plan.identity.fingerprint
                &&& error == (CanonicalConstructionError::NetworkUpgradeActivationsMismatch {
                    store_fingerprint: build_plan.identity.fingerprint,
                    configured_fingerprint: configured.fingerprint,
                })
            },
        },
{
    match validate_construction_identity(build_plan.identity, configured) {
        Ok(_) => {},
        Err(error) => {
            return Err(error);
        },
    }
    Ok(
        PreparedBlockStreamPlan {
            history_predecessor: build_plan.history_predecessor,
            from_height: build_plan.first_available_height,
            to_height: build_plan.build_tip.height,
            prepare_memory_permits: memory_permit_count(
                config.block_prepare_memory_watermark_bytes.get(),
            ),
            prepare_concurrency: nonzero_u32_to_usize(config.block_prepare_concurrency),
            raw_blob_policy: raw_blob_policy_for_workload(workload),
        },
    )
}

/// Whether commitments are those of some Sapling outputs, one for each.
pub open spec fn are_output_commitments(
    outputs: Seq<CompactSaplingOutput>,
    commitments: Seq<[u8; 32]>,
) -> bool {
    &&& commitments.len() == outputs.len()
    &&& forall|i: int|
        0 <= i < outputs.len() ==> (#[trigger] commitments[i])@ == outputs[i].cmu@
}

/// Whether commitments are those of some actions, one for each.
pub open spec fn are_action_commitments(
    actions: Seq<CompactOrchardAction>,
    commitments: Seq<[u8; 32]>,
) -> bool {
    &&& commitments.len() == actions.len()
    &&& forall|i: int|
        0 <= i < actions.len() ==> (#[trigger] commitments[i])@ == actions[i].cmx@
}

/// Whether every note commitment of a compact transaction has its fixed length.
pub open spec fn commitments_are_fixed(transaction: CompactTx) -> bool {
    &&& forall|i: int|
        0 <= i < transaction.outputs@.len() ==> (#[trigger] transaction.outputs@[i]).cmu@.len()
            == 32
    &&& forall|i: int|
        0 <= i < transaction.actions@.len() ==> (#[trigger] transaction.actions@[i]).cmx@.len()
            == 32
    &&& forall|i: int|
        0 <= i < transaction.ironwood_actions@.len() ==> (
        #[trigger] transaction.ironwood_actions@[i]).cmx@.len() == 32
}

/// Whether commitments are those of one compact transaction, pool by pool.
pub open spec fn are_transaction_commitments(
    transaction: CompactTx,
    commitments: TransactionCommitments,
) -> bool {
    &&& are_output_commitments(transaction.outputs@, commitments.sapling@)
    &&& are_action_commitments(transaction.actions@, commitments.orchard@)
    &&& are_action_commitments(transaction.ironwood_actions@, commitments.ironwood@)
}

fn output_commitments(outputs: &Vec<CompactSaplingOutput>) -> (commitments: Option<Vec<[u8; 32]>>)
    ensures
        commitments is Some <==> (forall|i: int|
            0 <= i < outputs@.len() ==> (#[trigger] outputs@[i]).cmu@.len() == 32),
        commitments matches Some(commitments) ==> are_output_commitments(outputs@, commitments@),
{
    let mut commitments: Vec<[u8; 32]> = Vec::new();
    let mut i: usize = 0;
    while i < outputs.len()
        invariant
            0 <= i <= outputs@.len(),
            commitments@.len() == i,
            forall|k: int| 0 <= k < i ==> (#[trigger] outputs@[k]).cmu@.len() == 32,
            forall|k: int| 0 <= k < i ==> (#[trigger] commitments@[k])@ == outputs@[k].cmu@,
        decreases outputs@.len() - i,
    {
        match fixed_bytes(&outputs[i].cmu) {
            Some(commitment) => {
                commitments.push(commitment);
            },
            None => {
                assert(outputs@[i as int].cmu@.len() != 32);
                return None;
            },
        }
        i += 1;
    }
    Some(commitments)
}

fn action_commitments(actions: &Vec<CompactOrchardAction>) -> (commitments: Option<Vec<[u8; 32]>>)
    ensures
        commitments is Some <==> (forall|i: int|
            0 <= i < actions@.len() ==> (#[trigger] actions@[i]).cmx@.len() == 32),
        commitments matches Some(commitments) ==> are_action_commitments(actions@, commitments@),
{
    let mut commitments: Vec<[u8; 32]> = Vec::new();
    let mut i: usize = 0;
    while i < actions.len()
        invariant
            0 <= i <= actions@.len(),
            commitments@.len() == i,
            forall|k: int| 0 <= k < i ==> (#[trigger] actions@[k]).cmx@.len() == 32,
            forall|k: int| 0 <= k < i ==> (#[trigger] commitments@[k])@ == actions@[k].cmx@,
        decreases actions@.len() - i,
    {
        match fixed_bytes(&actions[i].cmx) {
            Some(commitment) => {
                commitments.push(commitment);
            },
            None => {
                assert(actions@[i as int].cmx@.len() != 32);
                return None;
            },
        }
        i += 1;
    }
    Some(commitments)
}

/// Reads the note commitments of one compact transaction.
pub fn transaction_commitments(transaction: &CompactTx) -> (commitments: Option<
    TransactionCommitments,
>)
    ensures
        commitments is Some <==> commitments_are_fixed(*transaction),
        commitments matches Some(commitments) ==> are_transaction_commitments(
            *transaction,
            commitments,
        ),
{
    match (
        output_commitments(&transaction.outputs),
        action_commitments(&transaction.actions),
        action_commitments(&transaction.ironwood_actions),
    ) {
        (Some(sapling), Some(orchard), Some(ironwood)) => Some(
            TransactionCommitments { sapling, orchard, ironwood },
        ),
        _ => None,
    }
}

/// Whether commitments are those of a block's transactions, in block order.
pub open spec fn are_block_commitments(
    compact_block: CompactBlock,
    commitments: BlockCommitments,
    parts: Seq<TransactionCommitments>,
) -> bool {
    &&& parts.len() == compact_block.vtx@.len()
    &&& forall|i: int|
        0 <= i < parts.len() ==> are_transaction_commitments(
            compact_block.vtx@[i],
            #[trigger] parts[i],
        )
    &&& commitments.sapling@ == sapling_commitments(parts)
    &&& commitments.orchard@ == orchard_commitments(parts)
    &&& commitments.ironwood@ == ironwood_commitments(parts)
}

/// Whether commitments are those of a compact block, pool by pool and in block order.
pub open spec fn collects_commitments(
    compact_block: CompactBlock,
    commitments: BlockCommitments,
) -> bool {
    exists|parts: Seq<TransactionCommitments>| #[trigger]
        are_block_commitments(compact_block, commitments, parts)
}

/// Collects the note commitments of a prepared compact block, pool by pool
/// and in block order. A commitment that is not 32 bytes long is refused.
pub fn compact_block_commitments(height: BlockHeight, compact_block: &CompactBlock) -> (
    commitments: Result<BlockCommitments, CanonicalConstructionError>)
    ensures
        match commitments {
            Ok(commitments) => {
                &&& forall|i: int|
                    0 <= i < compact_block.vtx@.len() ==> commitments_are_fixed(
                        #[trigger] compact_block.vtx@[i],
                    )
                &&& collects_commitments(*compact_block, commitments)
            },
            Err(error) => {
                &&& exists|i: int|
                    0 <= i < compact_block.vtx@.len() && !commitments_are_fixed(
                        #[trigger] compact_block.vtx@[i],
                    )
                &&& error matches CanonicalConstructionError::Source {
                    source: IngestError::CommitmentTreeState { height: at, reason },
                }
                &&& at == height
                &&& reason@ == "note commitment is not 32 bytes long"@
            },
        },
{
    let mut parts: Vec<TransactionCommitments> = Vec::new();
    let mut i: usize = 0;
    while i < compact_block.vtx.len()
        invariant
            0 <= i <= compact_block.vtx@.len(),
            parts@.len() == i,
            forall|k: int|
                0 <= k < i ==> commitments_are_fixed(#[trigger] compact_block.vtx@[k]),
            forall|k: int|
                0 <= k < i ==> are_transaction_commitments(
                    compact_block.vtx@[k],
                    #[trigger] parts@[k],
                ),
        decreases compact_block.vtx@.len() - i,
    {
        match transaction_commitments(&compact_block.vtx[i]) {
            Some(part) => {
                parts.push(part);
            },
            None => {
                assert(!commitments_are_fixed(compact_block.vtx@[i as int]));
                return Err(
                    CanonicalConstructionError::Source {
                        source: IngestError::CommitmentTreeState {
                            height,
                            reason: "note commitment is not 32 bytes long".to_owned(),
                        },
                    },
                );
            },
        }
        i += 1;
    }
    let commitments = BlockCommitments::from_compact_block(&parts);
    assert(are_block_commitments(*compact_block, commitments, parts@));
    assert(collects_commitments(*compact_block, commitments));
    Ok(commitments)
}

/// Prepared blocks on their way into the store, positioned one after the other.
#[derive(Clone, Copy, Debug, PartialEq, Eq, Structural)]
pub struct CanonicalBuildBlocks {
    pub running_tree_sizes: CommitmentTreeSizes,
}

impl CanonicalBuildBlocks {
    /// Starts at the tree sizes right below the first loaded block.
    pub fn new(history_predecessor_tip_metadata: ChainTipMetadata) -> (blocks: Self)
        ensures
            blocks.running_tree_sizes == CommitmentTreeSizes::of_tip_metadata(
                history_predecessor_tip_metadata,
            ),
    {
        CanonicalBuildBlocks {
            running_tree_sizes: CommitmentTreeSizes::from_tip_metadata(
                history_predecessor_tip_metadata,
            ),
        }
    }

    /// Positions the next received block; nothing received ends the load.
    pub fn next(
        &mut self,
        received: Option<Result<PreparedCanonicalBlock, CanonicalConstructionError>>,
    ) -> (positioned: Option<Result<PositionedCanonicalBlock, CanonicalConstructionError>>)
        ensures
            match received {
                None => positioned is None && *final(self) == *old(self),
                Some(Err(error)) => positioned == Some(
                    Err::<PositionedCanonicalBlock, CanonicalConstructionError>(error),
                ) && *final(self) == *old(self),
                Some(Ok(prepared)) => match old(self).running_tree_sizes.sum(
                    prepared.tree_size_additions,
                ) {
                    Ok(sizes) => {
                        &&& final(self).running_tree_sizes == sizes
                        &&& positioned matches Some(Ok(block))
                        &&& block.facts == prepared.facts
                        &&& block.compact_block@ == (CompactBlockView {
                            chain_metadata: Some(sizes.as_chain_metadata()),
                            ..prepared.partial_compact_block@
                        })
                        &&& block.tip_metadata == sizes.as_tip_metadata()
                    },
                    Err(fault) => {
                        &&& *final(self) == *old(self)
                        &&& positioned matches Some(
                            Err(
                                CanonicalConstructionError::Source {
                                    source: IngestError::CanonicalBlockConstruction(error),
                                },
                            ),
                        )
                        &&& error@ == fault
                    },
                },
            },
    {
        let prepared = match received {
            None => {
                return None;
            },
            Some(Err(error)) => {
                return Some(Err(error));
            },
            Some(Ok(prepared)) => prepared,
        };
        match finalize_canonical_block(prepared, &mut self.running_tree_sizes) {
            Ok(positioned) => Some(Ok(positioned)),
            Err(error) => Some(
                Err(
                    CanonicalConstructionError::Source {
                        source: IngestError::CanonicalBlockConstruction(error),
                    },
                ),
            ),
        }
    }
}

/// Failure of the store's block loader.
#[derive(Debug)]
pub enum CanonicalStoreBuildError {
    /// The block stream failed.
    Source { source: CanonicalConstructionError },
    /// The store failed.
    Store(CanonicalStoreError),
}

/// Flattens a loader failure.
pub fn canonical_build_error(source: CanonicalStoreBuildError) -> (error:
    CanonicalConstructionError)
    ensures
        error == match source {
            CanonicalStoreBuildError::Source { source } => source,
            CanonicalStoreBuildError::Store(source) => CanonicalConstructionError::Store(source),
        },
{
    match source {
        CanonicalStoreBuildError::Source { source } => source,
        CanonicalStoreBuildError::Store(source) => CanonicalConstructionError::Store(source),
    }
}

/// Tree sizes after a run of blocks, unless a pool overflows on the way.
pub open spec fn sizes_after(
    start: CommitmentTreeSizes,
    additions: Seq<CommitmentTreeSizes>,
) -> Result<CommitmentTreeSizes, ConstructionFault>
    decreases additions.len(),
{
    if additions.len() == 0 {
        Ok(start)
    } else {
        match sizes_after(start, additions.drop_last()) {
            Ok(sizes) => sizes.sum(additions.last()),
            Err(fault) => Err(fault),
        }
    }
}

/// Notes that a run of blocks adds to each pool.
pub open spec fn notes_added(additions: Seq<CommitmentTreeSizes>) -> (int, int, int)
    decreases additions.len(),
{
    if additions.len() == 0 {
        (0, 0, 0)
    } else {
        let before = notes_added(additions.drop_last());
        let last = additions.last();
        (before.0 + last.sapling, before.1 + last.orchard, before.2 + last.ironwood)
    }
}

/// Blocks loaded in order end at the starting tree sizes plus everything they
/// add, pool by pool.
pub proof fn law_ordered_blocks_accumulate_their_notes(
    start: CommitmentTreeSizes,
    additions: Seq<CommitmentTreeSizes>,
)
    requires
        sizes_after(start, additions) is Ok,
    ensures
        ({
            let end = sizes_after(start, additions)->Ok_0;
            let added = notes_added(additions);
            &&& end.sapling == start.sapling + added.0
            &&& end.orchard == start.orchard + added.1
            &&& end.ironwood == start.ironwood + added.2
        }),
    decreases additions.len(),
{
    if additions.len() > 0 {
        law_ordered_blocks_accumulate_their_notes(start, additions.drop_last());
    }
}

/// Permits cover bytes in units of 1024: as many as are needed and no more, but
/// one at least.
pub proof fn law_permits_cover_their_bytes(bytes: int)
    requires
        0 <= bytes <= 1024 * 0xffff_ffff,
    ensures
        permits_covering(bytes) >= 1,
        1024 * permits_covering(bytes) >= bytes,
        permits_covering(bytes) == 1 || 1024 * (permits_covering(bytes) - 1) < bytes,
        permits_covering(bytes) <= 0xffff_ffff,
{
}

/// Preparing a block is estimated at sixteen times its capacity and 65536 bytes.
pub proof fn law_prepare_estimate_grows_with_the_block(raw_block_capacity: int)
    ensures
        raw_block_capacity >= 1 && 16 * raw_block_capacity + 65536 <= 0xffff_ffff_ffff_ffff
            ==> estimated_prepare_bytes(raw_block_capacity) == 16 * raw_block_capacity + 65536,
        raw_block_capacity <= 1 ==> estimated_prepare_bytes(raw_block_capacity) == 16 + 65536,
        16 * raw_block_capacity + 65536 > 0xffff_ffff_ffff_ffff ==> estimated_prepare_bytes(
            raw_block_capacity,
        ) == 0xffff_ffff_ffff_ffff,
{
}

/// A block takes the permits that cover its estimate, and all there are where
/// those are fewer.
pub proof fn law_block_takes_the_permits_of_its_estimate(
    raw_block_capacity: int,
    available_permits: u32,
)
    ensures
        ({
            let needed = permits_covering(estimated_prepare_bytes(raw_block_capacity));
            &&& needed <= available_permits ==> block_permits(
                raw_block_capacity,
                available_permits,
            ) == needed
            &&& needed > available_permits ==> block_permits(
                raw_block_capacity,
                available_permits,
            ) == available_permits
        }),
{
}

/// The commitments of a compact transaction are the note commitments of its
/// outputs, Orchard actions and Ironwood actions, each in its pool and at its
/// place.
pub proof fn law_transaction_commitments_are_those_of_its_notes(
    transaction: CompactTx,
    commitments: TransactionCommitments,
)
    ensures
        are_transaction_commitments(transaction, commitments) <==> {
            &&& commitments.sapling@.len() == transaction.outputs@.len()
            &&& commitments.orchard@.len() == transaction.actions@.len()
            &&& commitments.ironwood@.len() == transaction.ironwood_actions@.len()
            &&& forall|i: int|
                0 <= i < transaction.outputs@.len() ==> (#[trigger] commitments.sapling@[i])@
                    == transaction.outputs@[i].cmu@
            &&& forall|i: int|
                0 <= i < transaction.actions@.len() ==> (#[trigger] commitments.orchard@[i])@
                    == transaction.actions@[i].cmx@
            &&& forall|i: int|
                0 <= i < transaction.ironwood_actions@.len() ==> (
                #[trigger] commitments.ironwood@[i])@ == transaction.ironwood_actions@[i].cmx@
        },
{
}

/// Commitments can be collected from a transaction exactly where each of them
/// is 32 bytes long.
pub proof fn law_fixed_commitments_are_32_bytes_long(transaction: CompactTx)
    ensures
        commitments_are_fixed(transaction) <==> {
            &&& forall|i: int|
                0 <= i < transaction.outputs@.len() ==> (
                #[trigger] transaction.outputs@[i]).cmu@.len() == 32
            &&& forall|i: int|
                0 <= i < transaction.actions@.len() ==> (
                #[trigger] transaction.actions@[i]).cmx@.len() == 32
            &&& forall|i: int|
                0 <= i < transaction.ironwood_actions@.len() ==> (
                #[trigger] transaction.ironwood_actions@[i]).cmx@.len() == 32
        },
{
}

/// The commitments of a block are those of its transactions, pool by pool and
/// in block order.
pub proof fn law_block_commitments_are_those_of_its_transactions(
    compact_block: CompactBlock,
    commitments: BlockCommitments,
)
    requires
        collects_commitments(compact_block, commitments),
    ensures
        exists|parts: Seq<TransactionCommitments>|
            {
                &&& parts.len() == compact_block.vtx@.len()
                &&& forall|t: int|
                    0 <= t < parts.len() ==> are_transaction_commitments(
                        compact_block.vtx@[t],
                        #[trigger] parts[t],
                    )
                &&& commitments.sapling@ == #[trigger] sapling_commitments(parts)
                &&& commitments.orchard@ == orchard_commitments(parts)
                &&& commitments.ironwood@ == ironwood_commitments(parts)
            },
{
    let parts = choose|parts: Seq<TransactionCommitments>|
        #[trigger] are_block_commitments(compact_block, commitments, parts);
    assert(commitments.sapling@ == sapling_commitments(parts));
}

/// Tree sizes after a run of blocks start where the run starts and grow by what
/// each block adds; a fault ends the run.
pub proof fn law_sizes_grow_by_each_block(
    start: CommitmentTreeSizes,
    additions: Seq<CommitmentTreeSizes>,
    next: CommitmentTreeSizes,
)
    ensures
        sizes_after(start, Seq::empty()) == Ok::<CommitmentTreeSizes, ConstructionFault>(start),
        match (sizes_after(start, additions), sizes_after(start, additions.push(next))) {
            (Ok(before), Ok(after)) => {
                &&& after.sapling == before.sapling + next.sapling
                &&& after.orchard == before.orchard + next.orchard
                &&& after.ironwood == before.ironwood + next.ironwood
            },
            (Ok(before), Err(_)) => before.sapling + next.sapling > 0xffff_ffff || before.orchard
                + next.orchard > 0xffff_ffff || before.ironwood + next.ironwood > 0xffff_ffff,
            (Err(first), Err(fault)) => first == fault,
            (Err(_), Ok(_)) => false,
        },
{
    assert(additions.push(next).drop_last() =~= additions);
}

} // verus!
