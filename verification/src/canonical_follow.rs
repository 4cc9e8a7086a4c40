//! Continuous append-only following of the source tip.

use crate::artifact_builder::{
    finalize_canonical_block, prepare_canonical_block_with_raw_blob_policy, preparation_outcome,
    CanonicalBlockConstructionError, CommitmentTreeSizes, PositionedCanonicalBlock,
    PreparedCanonicalBlock, RawBlobPolicy,
};
use crate::artifacts::{
    BlockHeaderInfo, CompactBlockView, SourceBlock, TransactionFactSet,
};
use crate::bounds::{capped, floored_difference, NonZeroU32};
use crate::bulk_catchup::run::{ReadinessCause, ReadinessState};
use crate::bytes::same_byte_strings;
use crate::canonical_block_context::BlockCommitments;
use crate::canonical_construction::{
    collects_commitments, commitments_are_fixed, compact_block_commitments,
    CanonicalConstructionError, CanonicalStoreError,
};
use crate::chain_ingest::SourceSubtreeRoots;
use crate::errors::{IngestError, SourceError};
use crate::ids::{
    BlockHash, BlockHeight, BlockId, ChainTipMetadata, ShieldedProtocol, SubtreeRootHash,
    SubtreeRootIndex, SubtreeRootRange,
};
use crate::source_outage::{outage_after, report_of, OutageReport, SourceOutage};
use std::time::Duration;
use vstd::prelude::*;

verus! {

/// Polling and bounded-source settings for canonical following.
#[derive(Clone, Copy, Debug)]
pub struct CanonicalFollowConfig {
    /// Maximum wall time for one source request.
    pub request_timeout: Duration,
    /// Delay before re-observing an unchanged tip.
    pub poll_interval: Duration,
    /// Maximum ready lag from the latest atomic source observation.
    pub lag_threshold_blocks: u64,
    /// Optional deterministic stop height for certification runs.
    pub target_height: Option<BlockHeight>,
}

/// What the writer is doing.
#[derive(Clone, Copy, Debug, PartialEq, Eq, Structural)]
pub enum IngestPhase {
    BulkCatchup,
    FollowingTip,
}

/// What the writer reports about itself in one phase.
#[derive(Clone, Copy, Debug, PartialEq, Eq, Structural)]
pub struct PhasedReadiness {
    pub state: ReadinessState,
    pub phase: IngestPhase,
}

/// Failure while following the canonical tip.
#[derive(Debug)]
#[non_exhaustive]
#[allow(inconsistent_fields)]
pub enum CanonicalFollowError {
    /// The upstream source request failed before a canonical write began.
    Source(SourceError),
    /// The shared recovery classifier rejected a source-shaped failure.
    SourceRecoveryRejected,
    /// Block-local canonical preparation rejected the source payload.
    BlockConstruction(CanonicalBlockConstructionError),
    /// Shared canonical preparation rejected the compact block artifacts.
    CanonicalPreparation(CanonicalConstructionError),
    /// Commitment-tree preparation rejected the next source block.
    CommitmentTreeState { height: BlockHeight, reason: String },
    /// The source checkpoint did not authenticate the locally derived next frontier.
    SourceCheckpointMismatch { height: BlockHeight },
    /// Size-only compact metadata diverged from the typed frontier accumulator.
    CommitmentTreePositionMismatch {
        height: BlockHeight,
        positioned: ChainTipMetadata,
        accumulated: ChainTipMetadata,
    },
    /// A completed-subtree position regressed between adjacent blocks.
    SubtreePositionRegression { protocol: ShieldedProtocol, previous_count: u32, next_count: u32 },
    /// The source no longer extends the authenticated local fence.
    ReorgRequired { local_tip: BlockId, source_tip: BlockId },
    /// A blocking preparation task stopped without returning its result.
    PreparationTaskStopped { reason: String },
    /// The consuming atomic store transition failed or could not be verified.
    Store(CanonicalStoreError),
}

/// What one iteration does about an observed tip.
#[derive(Clone, Copy, Debug, PartialEq, Eq, Structural)]
pub enum FollowPlan {
    /// Nothing is left to append for now.
    AtTip,
    /// The block at `next_height` is appended.
    Append { next_height: BlockHeight },
}

/// Whether an observed tip cannot extend the local one.
pub open spec fn tip_conflicts(local_tip: BlockId, observed_tip: BlockId) -> bool {
    ||| observed_tip.height.0 < local_tip.height.0
    ||| observed_tip.height == local_tip.height && observed_tip.hash != local_tip.hash
}

/// Height up to which following may append.
pub open spec fn effective_target(
    observed_tip: BlockId,
    target_height: Option<BlockHeight>,
) -> BlockHeight {
    match target_height {
        Some(target) => if target.0 <= observed_tip.height.0 {
            target
        } else {
            observed_tip.height
        },
        None => observed_tip.height,
    }
}

/// What one iteration does for the local and the observed tip.
pub open spec fn follow_plan(
    local_tip: BlockId,
    observed_tip: BlockId,
    target_height: Option<BlockHeight>,
) -> Result<FollowPlan, CanonicalFollowError> {
    if tip_conflicts(local_tip, observed_tip) {
        Err(CanonicalFollowError::ReorgRequired { local_tip, source_tip: observed_tip })
    } else if effective_target(observed_tip, target_height).0 <= local_tip.height.0 {
        Ok(FollowPlan::AtTip)
    } else {
        Ok(FollowPlan::Append { next_height: BlockHeight((local_tip.height.0 + 1) as u32) })
    }
}

/// Decides what one iteration does about an observed tip.
pub fn plan_follow_iteration(
    local_tip: BlockId,
    observed_tip: BlockId,
    target_height: Option<BlockHeight>,
) -> (plan: Result<FollowPlan, CanonicalFollowError>)
    ensures
        plan == if tip_conflicts(local_tip, observed_tip) {
            Err::<FollowPlan, CanonicalFollowError>(
                CanonicalFollowError::ReorgRequired { local_tip, source_tip: observed_tip },
            )
        } else if effective_target(observed_tip, target_height).0 <= local_tip.height.0 {
            Ok(FollowPlan::AtTip)
        } else {
            Ok(
                FollowPlan::Append { next_height: BlockHeight((local_tip.height.0 + 1) as u32) },
            )
        },
        plan == follow_plan(local_tip, observed_tip, target_height),
{
    let reorg = CanonicalFollowError::ReorgRequired { local_tip, source_tip: observed_tip };
    if observed_tip.height.0 < local_tip.height.0 || (observed_tip.height.0 == local_tip.height.0
        && observed_tip.hash != local_tip.hash) {
        return Err(reorg);
    }
    let target: u32 = match target_height {
        Some(target) => if target.0 <= observed_tip.height.0 {
            target.0
        } else {
            observed_tip.height.0
        },
        None => observed_tip.height.0,
    };
    if target <= local_tip.height.0 {
        return Ok(FollowPlan::AtTip);
    }
    match local_tip.height.next() {
        Some(next_height) => Ok(FollowPlan::Append { next_height }),
        None => Err(reorg),
    }
}

/// Accepts a fetched block that names the local tip as its parent.
pub fn validate_live_parent(
    parent_hash: BlockHash,
    local_tip: BlockId,
    observed_tip: BlockId,
) -> (valid: Result<(), CanonicalFollowError>)
    ensures
        match valid {
            Ok(_) => parent_hash == local_tip.hash,
            Err(error) => parent_hash != local_tip.hash && error
                == (CanonicalFollowError::ReorgRequired { local_tip, source_tip: observed_tip }),
        },
{
    if parent_hash != local_tip.hash {
        return Err(CanonicalFollowError::ReorgRequired { local_tip, source_tip: observed_tip });
    }
    Ok(())
}

/// A prepared live block and the note commitments it adds.
#[derive(Debug)]
pub struct LiveBlockPreparation {
    pub prepared: PreparedCanonicalBlock,
    pub commitments: BlockCommitments,
}

/// Whether some note commitment of a prepared block does not have its fixed length.
pub open spec fn holds_malformed_commitment(prepared: PreparedCanonicalBlock) -> bool {
    exists|i: int|
        0 <= i < prepared.partial_compact_block.vtx@.len() && !commitments_are_fixed(
            #[trigger] prepared.partial_compact_block.vtx@[i],
        )
}

/// Prepares the next live block, keeping its raw transactions.
///
/// `header_info` and `fact_sets` are what the header and transaction fact
/// parsers reported for this block.
pub fn prepare_live_block(
    source_block: &SourceBlock,
    header_info: Result<BlockHeaderInfo, String>,
    fact_sets: Vec<Result<TransactionFactSet, String>>,
) -> (live: Result<LiveBlockPreparation, CanonicalFollowError>)
    ensures
        match live {
            Ok(live) => {
                &&& preparation_outcome(
                    Ok(live.prepared),
                    *source_block,
                    header_info,
                    fact_sets@,
                    RawBlobPolicy::Transactions,
                )
                &&& collects_commitments(live.prepared.partial_compact_block, live.commitments)
            },
            Err(CanonicalFollowError::BlockConstruction(error)) => preparation_outcome(
                Err(error),
                *source_block,
                header_info,
                fact_sets@,
                RawBlobPolicy::Transactions,
            ),
            Err(CanonicalFollowError::CanonicalPreparation(error)) => {
                &&& error matches CanonicalConstructionError::Source {
                    source: IngestError::CommitmentTreeState { height, reason },
                }
                &&& height == source_block.height
                &&& reason@ == "note commitment is not 32 bytes long"@
                &&& exists|prepared: PreparedCanonicalBlock|
                    #[trigger] holds_malformed_commitment(prepared) && preparation_outcome(
                        Ok(prepared),
                        *source_block,
                        header_info,
                        fact_sets@,
                        RawBlobPolicy::Transactions,
                    )
            },
            Err(_) => false,
        },
{
    let ghost policy = RawBlobPolicy::Transactions;
    let ghost facts = fact_sets@;
    let prepared = match prepare_canonical_block_with_raw_blob_policy(
        source_block,
        header_info,
        fact_sets,
        RawBlobPolicy::Transactions,
    ) {
        Ok(prepared) => prepared,
        Err(error) => {
            assert(preparation_outcome(Err(error), *source_block, header_info, facts, policy));
            return Err(CanonicalFollowError::BlockConstruction(error));
        },
    };
    assert(preparation_outcome(Ok(prepared), *source_block, header_info, facts, policy));
    match compact_block_commitments(source_block.height, &prepared.partial_compact_block) {
        Ok(commitments) => {
            let live = LiveBlockPreparation { prepared, commitments };
            assert(preparation_outcome(
                Ok(live.prepared),
                *source_block,
                header_info,
                facts,
                policy,
            ));
            Ok(live)
        },
        Err(error) => {
            assert(holds_malformed_commitment(prepared));
            Err(CanonicalFollowError::CanonicalPreparation(error))
        },
    }
}

/// Positions a live block on top of the local tip and holds its tree sizes
/// against those that the commitment-tree accumulator arrived at.
pub fn position_live_block(
    height: BlockHeight,
    prepared: PreparedCanonicalBlock,
    predecessor_tip_metadata: ChainTipMetadata,
    accumulated_tip_metadata: ChainTipMetadata,
) -> (positioned: Result<PositionedCanonicalBlock, CanonicalFollowError>)
    ensures
        match CommitmentTreeSizes::of_tip_metadata(predecessor_tip_metadata).sum(
            prepared.tree_size_additions,
        ) {
            Err(fault) => {
                &&& positioned matches Err(CanonicalFollowError::BlockConstruction(error))
                &&& error@ == fault
            },
            Ok(sizes) => if sizes.as_tip_metadata() != accumulated_tip_metadata {
                positioned == Err::<PositionedCanonicalBlock, CanonicalFollowError>(
                    CanonicalFollowError::CommitmentTreePositionMismatch {
                        height,
                        positioned: sizes.as_tip_metadata(),
                        accumulated: accumulated_tip_metadata,
                    },
                )
            } else {
                &&& positioned matches Ok(block)
                &&& block.facts == prepared.facts
                &&& block.compact_block@ == (CompactBlockView {
                    chain_metadata: Some(sizes.as_chain_metadata()),
                    ..prepared.partial_compact_block@
                })
                &&& block.tip_metadata == accumulated_tip_metadata
            },
        },
{
    let mut running_tree_sizes = CommitmentTreeSizes::from_tip_metadata(predecessor_tip_metadata);
    let positioned = match finalize_canonical_block(prepared, &mut running_tree_sizes) {
        Ok(positioned) => positioned,
        Err(error) => {
            return Err(CanonicalFollowError::BlockConstruction(error));
        },
    };
    if positioned.tip_metadata != accumulated_tip_metadata {
        return Err(
            CanonicalFollowError::CommitmentTreePositionMismatch {
                height,
                positioned: positioned.tip_metadata,
                accumulated: accumulated_tip_metadata,
            },
        );
    }
    Ok(positioned)
}

/// Commitment-tree state at one block, with its frontiers in encoded form.
#[derive(Debug, PartialEq, Eq)]
pub struct CommitmentTreeCheckpoint {
    pub block_id: BlockId,
    pub block_time_seconds: u32,
    pub frontiers: Vec<u8>,
}

/// Whether two checkpoints record the same state of the same block.
pub open spec fn same_checkpoint(
    left: CommitmentTreeCheckpoint,
    right: CommitmentTreeCheckpoint,
) -> bool {
    &&& left.block_id == right.block_id
    &&& left.block_time_seconds == right.block_time_seconds
    &&& left.frontiers@ == right.frontiers@
}

/// Accepts a locally derived checkpoint that the source confirms.
pub fn authenticate_checkpoint(
    derived: &CommitmentTreeCheckpoint,
    source: &CommitmentTreeCheckpoint,
) -> (authentic: Result<(), CanonicalFollowError>)
    ensures
        match authentic {
            Ok(_) => same_checkpoint(*derived, *source),
            Err(error) => !same_checkpoint(*derived, *source) && error
                == (CanonicalFollowError::SourceCheckpointMismatch {
                height: derived.block_id.height,
            }),
        },
{
    let same = derived.block_id.height == source.block_id.height && derived.block_id.hash
        == source.block_id.hash && derived.block_time_seconds == source.block_time_seconds
        && same_byte_strings(&derived.frontiers, &source.frontiers);
    if !same {
        return Err(
            CanonicalFollowError::SourceCheckpointMismatch { height: derived.block_id.height },
        );
    }
    Ok(())
}

/// Range of newly completed subtrees, in mathematical form.
pub type RangeView = (ShieldedProtocol, u32, u32);

/// Range of one pool's subtrees completed between two tips, where there is any.
pub open spec fn live_range(
    protocol: ShieldedProtocol,
    previous: ChainTipMetadata,
    next: ChainTipMetadata,
) -> Seq<RangeView> {
    let start = previous.completed_subtrees(protocol);
    let end = next.completed_subtrees(protocol);
    if end > start {
        seq![(protocol, start, (end - start) as u32)]
    } else {
        Seq::empty()
    }
}

/// Whether one pool has fewer completed subtrees than before.
pub open spec fn regresses(
    protocol: ShieldedProtocol,
    previous: ChainTipMetadata,
    next: ChainTipMetadata,
) -> bool {
    next.completed_subtrees(protocol) < previous.completed_subtrees(protocol)
}

/// The regression of one pool.
pub open spec fn regression_of(
    protocol: ShieldedProtocol,
    previous: ChainTipMetadata,
    next: ChainTipMetadata,
) -> CanonicalFollowError {
    CanonicalFollowError::SubtreePositionRegression {
        protocol,
        previous_count: previous.completed_subtrees(protocol),
        next_count: next.completed_subtrees(protocol),
    }
}

/// Ranges in mathematical form.
pub open spec fn ranges_view(ranges: Seq<SubtreeRootRange>) -> Seq<RangeView> {
    ranges.map_values(
        |range: SubtreeRootRange| (range.protocol, range.start_index.0, range.max_entries@),
    )
}

fn push_live_range(
    ranges: &mut Vec<SubtreeRootRange>,
    protocol: ShieldedProtocol,
    previous: ChainTipMetadata,
    next: ChainTipMetadata,
) -> (pushed: Result<(), CanonicalFollowError>)
    ensures
        match pushed {
            Ok(_) => {
                &&& !regresses(protocol, previous, next)
                &&& ranges_view(final(ranges)@) == ranges_view(old(ranges)@) + live_range(
                    protocol,
                    previous,
                    next,
                )
            },
            Err(error) => regresses(protocol, previous, next) && error == regression_of(
                protocol,
                previous,
                next,
            ),
        },
{
    let start_index: u32 = previous.completed_subtree_count(protocol);
    let completed_at_next: u32 = next.completed_subtree_count(protocol);
    if completed_at_next < start_index {
        return Err(
            CanonicalFollowError::SubtreePositionRegression {
                protocol,
                previous_count: start_index,
                next_count: completed_at_next,
            },
        );
    }
    if let Some(max_entries) = NonZeroU32::new(completed_at_next - start_index) {
        ranges.push(
            SubtreeRootRange::new(protocol, SubtreeRootIndex::new(start_index), max_entries),
        );
    }
    assert(ranges_view(ranges@) =~= ranges_view(old(ranges)@) + live_range(
        protocol,
        previous,
        next,
    ));
    Ok(())
}

/// Lists the subtrees that every pool completed between two tips.
pub fn live_subtree_root_ranges(previous: ChainTipMetadata, next: ChainTipMetadata) -> (ranges:
    Result<Vec<SubtreeRootRange>, CanonicalFollowError>)
    ensures
        match ranges {
            Ok(ranges) => {
                &&& !regresses(ShieldedProtocol::Sapling, previous, next)
                &&& !regresses(ShieldedProtocol::Orchard, previous, next)
                &&& !regresses(ShieldedProtocol::Ironwood, previous, next)
                &&& ranges_view(ranges@) == live_range(ShieldedProtocol::Sapling, previous, next)
                    + live_range(ShieldedProtocol::Orchard, previous, next) + live_range(
                    ShieldedProtocol::Ironwood,
                    previous,
                    next,
                )
            },
            Err(error) => if regresses(ShieldedProtocol::Sapling, previous, next) {
                error == regression_of(ShieldedProtocol::Sapling, previous, next)
            } else if regresses(ShieldedProtocol::Orchard, previous, next) {
                error == regression_of(ShieldedProtocol::Orchard, previous, next)
            } else {
                &&& regresses(ShieldedProtocol::Ironwood, previous, next)
                &&& error == regression_of(ShieldedProtocol::Ironwood, previous, next)
            },
        },
{
    let mut ranges: Vec<SubtreeRootRange> = Vec::new();
    assert(ranges_view(ranges@) =~= Seq::<RangeView>::empty());
    match push_live_range(&mut ranges, ShieldedProtocol::Sapling, previous, next) {
        Ok(_) => {},
        Err(error) => {
            return Err(error);
        },
    }
    match push_live_range(&mut ranges, ShieldedProtocol::Orchard, previous, next) {
        Ok(_) => {},
        Err(error) => {
            return Err(error);
        },
    }
    match push_live_range(&mut ranges, ShieldedProtocol::Ironwood, previous, next) {
        Ok(_) => {},
        Err(error) => {
            return Err(error);
        },
    }
    assert(ranges_view(ranges@) =~= live_range(ShieldedProtocol::Sapling, previous, next)
        + live_range(ShieldedProtocol::Orchard, previous, next) + live_range(
        ShieldedProtocol::Ironwood,
        previous,
        next,
    ));
    Ok(ranges)
}

/// Root of one completed subtree as the store takes it in.
#[derive(Clone, Copy, Debug, PartialEq, Eq)]
pub struct CanonicalBuildSubtreeRoot {
    pub protocol: ShieldedProtocol,
    pub subtree_index: SubtreeRootIndex,
    pub root_hash: SubtreeRootHash,
    pub completing_block_height: BlockHeight,
}

/// Roots of one response as the store takes them in.
pub open spec fn build_roots(response: SourceSubtreeRoots) -> Seq<CanonicalBuildSubtreeRoot> {
    Seq::new(
        response.subtree_roots@.len(),
        |i: int|
            CanonicalBuildSubtreeRoot {
                protocol: response.protocol,
                subtree_index: response.subtree_roots@[i].subtree_index,
                root_hash: response.subtree_roots@[i].root_hash,
                completing_block_height: response.subtree_roots@[i].completing_block_height,
            },
    )
}

/// Adds the roots of one response to those fetched so far.
pub fn append_live_subtree_roots(
    roots: &mut Vec<CanonicalBuildSubtreeRoot>,
    response: &SourceSubtreeRoots,
)
    ensures
        final(roots)@ == old(roots)@ + build_roots(*response),
{
    let ghost before = roots@;
    let ghost all = build_roots(*response);
    let mut i: usize = 0;
    assert(roots@ =~= before + all.take(0));
    while i < response.subtree_roots.len()
        invariant
            0 <= i <= response.subtree_roots@.len(),
            all == build_roots(*response),
            roots@ == before + all.take(i as int),
        decreases response.subtree_roots@.len() - i,
    {
        let root = response.subtree_roots[i];
        roots.push(
            CanonicalBuildSubtreeRoot {
                protocol: response.protocol,
                subtree_index: root.subtree_index,
                root_hash: root.root_hash,
                completing_block_height: root.completing_block_height,
            },
        );
        assert(roots@ =~= before + all.take(i + 1));
        i += 1;
    }
    assert(all.take(i as int) =~= all);
}

/// Blocks the local tip stands behind an observed one.
pub open spec fn lag_of(current_height: BlockHeight, observed_tip: BlockId) -> int {
    floored_difference(observed_tip.height.0 as int, current_height.0 as int)
}

/// Returns how many blocks the local tip stands behind an observed one.
pub fn follow_lag_blocks(current_height: BlockHeight, observed_tip: BlockId) -> (lag: u32)
    ensures
        lag == lag_of(current_height, observed_tip),
{
    observed_tip.height.0.saturating_sub(current_height.0)
}

/// Readiness while following: ready up to the tolerated lag, syncing beyond it.
pub open spec fn follow_readiness_of(
    current_height: BlockHeight,
    observed_tip: BlockId,
    lag_threshold_blocks: u64,
) -> PhasedReadiness {
    let lag = lag_of(current_height, observed_tip);
    PhasedReadiness {
        state: ReadinessState {
            cause: if lag <= lag_threshold_blocks {
                ReadinessCause::Ready
            } else {
                ReadinessCause::Syncing { lag_blocks: Some(lag as u64) }
            },
            current_height: Some(current_height.0),
            target_height: Some(observed_tip.height.0),
        },
        phase: IngestPhase::FollowingTip,
    }
}

/// Reports readiness while following.
pub fn follow_readiness(
    current_height: BlockHeight,
    observed_tip: BlockId,
    lag_threshold_blocks: u64,
) -> (readiness: PhasedReadiness)
    ensures
        readiness == follow_readiness_of(current_height, observed_tip, lag_threshold_blocks),
{
    let lag: u64 = follow_lag_blocks(current_height, observed_tip) as u64;
    let cause = if lag <= lag_threshold_blocks {
        ReadinessCause::Ready
    } else {
        ReadinessCause::Syncing { lag_blocks: Some(lag) }
    };
    PhasedReadiness {
        state: ReadinessState {
            cause,
            current_height: Some(current_height.0),
            target_height: Some(observed_tip.height.0),
        },
        phase: IngestPhase::FollowingTip,
    }
}

/// Narrows a counter to what a gauge shows exactly, sticking at `u32::MAX`.
pub fn gauge_reading(counter: u64) -> (reading: u32)
    ensures
        reading == capped(counter as int, u32::MAX as int),
{
    match u32::try_from(counter) {
        Ok(reading) => reading,
        Err(_) => u32::MAX,
    }
}

/// What the follower does next.
#[derive(Clone, Copy, Debug, PartialEq, Eq, Structural)]
pub enum FollowDirective {
    /// The run was cancelled.
    Stop,
    /// The stop height is reached.
    StopAtTarget { readiness: PhasedReadiness },
    /// The next iteration is prepared.
    Prepare,
}

/// Outcome of one prepared iteration.
#[derive(Clone, Copy, Debug, PartialEq, Eq)]
pub enum FollowIteration {
    AtTip { observed_tip: BlockId },
    Append { observed_tip: BlockId },
}

/// What the follower does about a prepared iteration.
#[derive(Debug)]
pub enum FollowStep {
    /// Report readiness and wait for the poll interval.
    Poll { observed_tip: BlockId },
    /// Commit the prepared append.
    Commit { observed_tip: BlockId },
    /// Recover from a source failure.
    Recover(SourceError),
    /// End the writer lane.
    Fail(CanonicalFollowError),
}

/// What the follower remembers between iterations.
#[derive(Clone, Copy, Debug, PartialEq, Eq, Structural)]
pub struct FollowState {
    pub outage: SourceOutage,
}

impl FollowState {
    /// A follower whose source has not failed.
    pub fn new() -> (state: Self)
        ensures
            state.outage.since is None,
    {
        FollowState { outage: SourceOutage::none() }
    }

    /// Decides whether another iteration is prepared.
    pub fn begin_iteration(
        &self,
        cancelled: bool,
        visible_height: BlockHeight,
        target_height: Option<BlockHeight>,
    ) -> (directive: FollowDirective)
        ensures
            directive == if cancelled {
                FollowDirective::Stop
            } else if target_height is Some && visible_height.0 >= (target_height->0).0 {
                FollowDirective::StopAtTarget {
                    readiness: PhasedReadiness {
                        state: ReadinessState {
                            cause: ReadinessCause::Ready,
                            current_height: Some(visible_height.0),
                            target_height: Some(visible_height.0),
                        },
                        phase: IngestPhase::FollowingTip,
                    },
                }
            } else {
                FollowDirective::Prepare
            },
    {
        if cancelled {
            return FollowDirective::Stop;
        }
        match target_height {
            Some(target) => {
                if visible_height.0 >= target.0 {
                    return FollowDirective::StopAtTarget {
                        readiness: PhasedReadiness {
                            state: ReadinessState {
                                cause: ReadinessCause::Ready,
                                current_height: Some(visible_height.0),
                                target_height: Some(visible_height.0),
                            },
                            phase: IngestPhase::FollowingTip,
                        },
                    };
                }
            },
            None => {},
        }
        FollowDirective::Prepare
    }

    /// Decides what follows a prepared iteration; an iteration that got an
    /// answer from the source ends an outage.
    pub fn accept_preparation(
        &mut self,
        prepared: Result<FollowIteration, CanonicalFollowError>,
    ) -> (step: FollowStep)
        ensures
            match prepared {
                Ok(FollowIteration::AtTip { observed_tip }) => {
                    &&& step == (FollowStep::Poll { observed_tip })
                    &&& final(self).outage.since is None
                },
                Ok(FollowIteration::Append { observed_tip }) => {
                    &&& step == (FollowStep::Commit { observed_tip })
                    &&& final(self).outage.since is None
                },
                Err(CanonicalFollowError::Source(error)) => {
                    &&& step == FollowStep::Recover(error)
                    &&& *final(self) == *old(self)
                },
                Err(error) => step == FollowStep::Fail(error) && *final(self) == *old(self),
            },
    {
        match prepared {
            Ok(FollowIteration::AtTip { observed_tip }) => {
                self.outage.since = None;
                FollowStep::Poll { observed_tip }
            },
            Ok(FollowIteration::Append { observed_tip }) => {
                self.outage.since = None;
                FollowStep::Commit { observed_tip }
            },
            Err(CanonicalFollowError::Source(error)) => FollowStep::Recover(error),
            Err(error) => FollowStep::Fail(error),
        }
    }

    /// Decides how a source failure is recovered from. `recoverable` tells
    /// whether the failure passes.
    pub fn record_outage(&mut self, recoverable: bool, now_seconds: u64) -> (report: Result<
        OutageReport,
        CanonicalFollowError,
    >)
        ensures
            if recoverable {
                &&& report == Ok::<OutageReport, CanonicalFollowError>(
                    report_of(old(self).outage, now_seconds),
                )
                &&& final(self).outage == outage_after(old(self).outage, now_seconds)
            } else {
                &&& report == Err::<OutageReport, CanonicalFollowError>(
                    CanonicalFollowError::SourceRecoveryRejected,
                )
                &&& *final(self) == *old(self)
            },
    {
        if !recoverable {
            return Err(CanonicalFollowError::SourceRecoveryRejected);
        }
        Ok(self.outage.record(now_seconds))
    }
}

/// An append extends the local tip by exactly one block and never passes the
/// observed tip or the stop height.
pub proof fn law_appends_are_contiguous_and_bounded(
    local_tip: BlockId,
    observed_tip: BlockId,
    target_height: Option<BlockHeight>,
)
    requires
        !tip_conflicts(local_tip, observed_tip),
        effective_target(observed_tip, target_height).0 > local_tip.height.0,
    ensures
        local_tip.height.0 + 1 <= observed_tip.height.0,
        target_height matches Some(target) ==> local_tip.height.0 + 1 <= target.0,
{
}

/// Once the stop height is reached, no later tip makes the follower append.
pub proof fn law_reached_stop_height_ends_appending(
    local_tip: BlockId,
    observed_tip: BlockId,
    target: BlockHeight,
)
    requires
        local_tip.height.0 >= target.0,
    ensures
        effective_target(observed_tip, Some(target)).0 <= local_tip.height.0,
{
}

/// Fetching one pool's range brings its recorded subtrees up to those that
/// the next tip has completed.
pub proof fn law_live_ranges_complete_the_recorded_subtrees(
    protocol: ShieldedProtocol,
    previous: ChainTipMetadata,
    next: ChainTipMetadata,
)
    requires
        !regresses(protocol, previous, next),
    ensures
        ({
            let range = live_range(protocol, previous, next);
            &&& range.len() <= 1
            &&& range.len() == 0 ==> next.completed_subtrees(protocol)
                == previous.completed_subtrees(protocol)
            &&& range.len() == 1 ==> {
                &&& range[0].0 == protocol
                &&& range[0].1 == previous.completed_subtrees(protocol)
                &&& range[0].1 + range[0].2 == next.completed_subtrees(protocol)
            }
        }),
{
}

/// Where the source has a block above the local tip and no stop height is
/// reached, the plan is to append the block right above the local tip.
pub proof fn law_follower_appends_while_the_source_is_ahead(
    local_tip: BlockId,
    observed_tip: BlockId,
    target_height: Option<BlockHeight>,
)
    requires
        observed_tip.height.0 > local_tip.height.0,
        target_height matches Some(target) ==> target.0 > local_tip.height.0,
    ensures
        follow_plan(local_tip, observed_tip, target_height) matches Ok(FollowPlan::Append {
            next_height,
        }) && next_height.0 == local_tip.height.0 + 1,
{
}

/// The follower rests only where the local tip has reached the observed tip,
/// which is then the same block, or the stop height.
pub proof fn law_follower_rests_only_at_its_goal(
    local_tip: BlockId,
    observed_tip: BlockId,
    target_height: Option<BlockHeight>,
)
    ensures
        follow_plan(local_tip, observed_tip, target_height) == Ok::<
            FollowPlan,
            CanonicalFollowError,
        >(FollowPlan::AtTip) <==> {
            &&& observed_tip.height.0 >= local_tip.height.0
            &&& observed_tip.height.0 == local_tip.height.0 ==> observed_tip.hash
                == local_tip.hash
            &&& observed_tip.height.0 == local_tip.height.0 || (target_height matches Some(target)
                && target.0 <= local_tip.height.0)
        },
{
}

/// A reorg is asked for exactly where the source no longer holds the local tip:
/// it stands lower, or has another block at that height. Both tips are named.
pub proof fn law_reorg_is_asked_for_where_the_tips_disagree(
    local_tip: BlockId,
    observed_tip: BlockId,
    target_height: Option<BlockHeight>,
)
    ensures
        follow_plan(local_tip, observed_tip, target_height) is Err <==> {
            ||| observed_tip.height.0 < local_tip.height.0
            ||| observed_tip.height.0 == local_tip.height.0 && observed_tip.hash != local_tip.hash
        },
        follow_plan(local_tip, observed_tip, target_height) matches Err(error) ==> error == (
        CanonicalFollowError::ReorgRequired { local_tip, source_tip: observed_tip }),
{
}

/// Following to the end: a block more on the local tip brings it closer to the
/// goal, and the plan stays to append until the goal is reached.
pub proof fn law_following_reaches_the_observed_tip(
    local_tip: BlockId,
    appended: BlockId,
    observed_tip: BlockId,
    target_height: Option<BlockHeight>,
)
    requires
        follow_plan(local_tip, observed_tip, target_height) == Ok::<
            FollowPlan,
            CanonicalFollowError,
        >(FollowPlan::Append { next_height: appended.height }),
        appended.height == observed_tip.height ==> appended.hash == observed_tip.hash,
    ensures
        local_tip.height.0 < appended.height.0 <= observed_tip.height.0,
        target_height matches Some(target) ==> appended.height.0 <= target.0,
        follow_plan(appended, observed_tip, target_height) == if appended.height
            == observed_tip.height || target_height == Some(appended.height) {
            Ok::<FollowPlan, CanonicalFollowError>(FollowPlan::AtTip)
        } else {
            Ok(FollowPlan::Append { next_height: BlockHeight((appended.height.0 + 1) as u32) })
        },
{
}

/// A checkpoint is authentic exactly where block, time and frontiers are those
/// of the source.
pub proof fn law_checkpoints_agree_field_by_field(
    left: CommitmentTreeCheckpoint,
    right: CommitmentTreeCheckpoint,
)
    ensures
        same_checkpoint(left, right) <==> {
            &&& left.block_id.height == right.block_id.height
            &&& left.block_id.hash == right.block_id.hash
            &&& left.block_time_seconds == right.block_time_seconds
            &&& left.frontiers@ == right.frontiers@
        },
{
}

/// A live range asks for the subtrees of one pool that the next tip has filled
/// and the previous tip had not: 65536 leaves fill one.
pub proof fn law_live_range_covers_the_newly_filled_subtrees(
    protocol: ShieldedProtocol,
    previous: ChainTipMetadata,
    next: ChainTipMetadata,
)
    ensures
        ({
            let (had, has) = match protocol {
                ShieldedProtocol::Sapling => (
                    previous.sapling_commitment_tree_size,
                    next.sapling_commitment_tree_size,
                ),
                ShieldedProtocol::Orchard => (
                    previous.orchard_commitment_tree_size,
                    next.orchard_commitment_tree_size,
                ),
                ShieldedProtocol::Ironwood => (
                    previous.ironwood_commitment_tree_size,
                    next.ironwood_commitment_tree_size,
                ),
            };
            let range = live_range(protocol, previous, next);
            &&& range.len() == if has / 65536 > had / 65536 {
                1int
            } else {
                0
            }
            &&& range.len() == 1 ==> {
                &&& range[0].0 == protocol
                &&& range[0].1 == had / 65536
                &&& range[0].1 + range[0].2 == has / 65536
            }
            &&& regresses(protocol, previous, next) <==> has / 65536 < had / 65536
            &&& regression_of(protocol, previous, next) == (
            CanonicalFollowError::SubtreePositionRegression {
                protocol,
                previous_count: had / 65536,
                next_count: has / 65536,
            })
        }),
{
}

/// Listed ranges keep their pool, their first subtree and their length.
pub proof fn law_range_list_shows_every_range(ranges: Seq<SubtreeRootRange>, i: int)
    requires
        0 <= i < ranges.len(),
    ensures
        ranges_view(ranges).len() == ranges.len(),
        ranges_view(ranges)[i].0 == ranges[i].protocol,
        ranges_view(ranges)[i].1 == ranges[i].start_index.0,
        ranges_view(ranges)[i].2 == ranges[i].max_entries@,
{
}

/// Every root of a response is recorded at its place, under the response's pool
/// and with its own index, hash and completing height.
pub proof fn law_fetched_roots_are_recorded_one_by_one(response: SourceSubtreeRoots, i: int)
    requires
        0 <= i < response.subtree_roots@.len(),
    ensures
        build_roots(response).len() == response.subtree_roots@.len(),
        build_roots(response)[i].protocol == response.protocol,
        build_roots(response)[i].subtree_index == response.subtree_roots@[i].subtree_index,
        build_roots(response)[i].root_hash == response.subtree_roots@[i].root_hash,
        build_roots(response)[i].completing_block_height
            == response.subtree_roots@[i].completing_block_height,
{
}

/// The lag counts the blocks that the source is ahead; the follower is ready
/// exactly where it is at most the threshold, and reports both heights.
pub proof fn law_readiness_tells_the_lag(
    current_height: BlockHeight,
    observed_tip: BlockId,
    lag_threshold_blocks: u64,
)
    ensures
        ({
            let ahead = observed_tip.height.0 - current_height.0;
            let readiness = follow_readiness_of(
                current_height,
                observed_tip,
                lag_threshold_blocks,
            );
            &&& lag_of(current_height, observed_tip) == if ahead > 0 {
                ahead
            } else {
                0
            }
            &&& readiness.state.cause == ReadinessCause::Ready <==> ahead <= lag_threshold_blocks
            &&& ahead > lag_threshold_blocks ==> readiness.state.cause
                == (ReadinessCause::Syncing { lag_blocks: Some(ahead as u64) })
            &&& readiness.state.current_height == Some(current_height.0)
            &&& readiness.state.target_height == Some(observed_tip.height.0)
            &&& readiness.phase == IngestPhase::FollowingTip
        }),
{
}

/// A block is refused for its commitments exactly where one of them is not 32
/// bytes long.
pub proof fn law_malformed_commitment_is_one_of_another_length(prepared: PreparedCanonicalBlock)
    ensures
        ({
            let transactions = prepared.partial_compact_block.vtx@;
            holds_malformed_commitment(prepared) <==> {
                ||| exists|t: int, i: int|
                    0 <= t < transactions.len() && 0 <= i < transactions[t].outputs@.len()
                        && #[trigger] transactions[t].outputs@[i].cmu@.len() != 32
                ||| exists|t: int, i: int|
                    0 <= t < transactions.len() && 0 <= i < transactions[t].actions@.len()
                        && #[trigger] transactions[t].actions@[i].cmx@.len() != 32
                ||| exists|t: int, i: int|
                    0 <= t < transactions.len() && 0 <= i
                        < transactions[t].ironwood_actions@.len()
                        && #[trigger] transactions[t].ironwood_actions@[i].cmx@.len() != 32
            }
        }),
{
    let transactions = prepared.partial_compact_block.vtx@;
    if holds_malformed_commitment(prepared) {
        let t = choose|t: int|
            0 <= t < transactions.len() && !commitments_are_fixed(#[trigger] transactions[t]);
        let transaction = transactions[t];
        if exists|i: int|
            0 <= i < transaction.outputs@.len() && (#[trigger] transaction.outputs@[i]).cmu@.len()
                != 32 {
            let i = choose|i: int|
                0 <= i < transaction.outputs@.len() && (
                #[trigger] transaction.outputs@[i]).cmu@.len() != 32;
            assert(transactions[t].outputs@[i].cmu@.len() != 32);
        } else if exists|i: int|
            0 <= i < transaction.actions@.len() && (#[trigger] transaction.actions@[i]).cmx@.len()
                != 32 {
            let i = choose|i: int|
                0 <= i < transaction.actions@.len() && (
                #[trigger] transaction.actions@[i]).cmx@.len() != 32;
            assert(transactions[t].actions@[i].cmx@.len() != 32);
        } else {
            let i = choose|i: int|
                0 <= i < transaction.ironwood_actions@.len() && (
                #[trigger] transaction.ironwood_actions@[i]).cmx@.len() != 32;
            assert(transactions[t].ironwood_actions@[i].cmx@.len() != 32);
        }
    }
}

} // verus!
