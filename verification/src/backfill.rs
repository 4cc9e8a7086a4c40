//! One-shot historical backfill outside the reorg window.
//!
//! Blocks are derived concurrently but committed strictly one batch after the
//! other. [`BackfillCommitLoop`] decides what a run does next; whoever drives
//! it awaits blocks, commits and flushes, and hands the answers back.

use crate::artifact_builder::{
    finalize_canonical_block, is_expansion, rows_match_transaction, CommitmentTreeSizes,
    ConstructionFault, CurrentSchemaBlockArtifacts, EncodedCanonicalBlock,
    PositionedCanonicalBlock, PreparedCanonicalBlock, POSITION_LIMIT,
};
use crate::artifacts::{
    CanonicalBlockFacts, CompactBlockView, SourceChainCheckpoint, TransactionFactsArtifact,
    TransactionLocation, TransparentInputFact, TransparentOutputRow,
};
use crate::batch::{block_cost, CanonicalBatch, CanonicalBatchCost};
use crate::bounds::{capped, nonzero_u32_to_usize, NonZeroU32};
use crate::bulk_catchup::canonical_commit::{
    bulk_commit_epoch, epoch_of_batch, ChainEpochCommitOutcome,
};
use crate::bulk_catchup::run::{
    bootstrap_epoch, bulk_catchup_readiness_state, bulk_catchup_start, checkpoint_seed,
    continues_checkpoint, is_checkpoint_seed, readiness_of, settleable_height, start_of,
    BulkCatchupStart, ReadinessState,
};
use crate::chain_ingest::{
    epoch_id_after, missing_store_outpoints, next_chain_epoch_id_after, outputs_of_batch,
    input_references, spend_references, unknown_outpoints, ChainEpochArtifacts,
    IngestSubtreeRootIndexes, TransparentSpendReference,
};
use crate::errors::IngestError;
use crate::ids::{
    ArtifactSchemaVersion, BlockHeight, ChainEpoch, ChainEpochId, ChainTipMetadata, Network,
    TransparentOutPoint, UnixTimestampMillis,
};
use crate::outpoint_map::OutPointMap;
use crate::retry::IngestRetryState;
use vstd::prelude::*;

verus! {

/// Configuration for a one-shot historical backfill outside the reorg window.
#[derive(Debug)]
pub struct BackfillConfig {
    /// Network of the ingested chain.
    pub network: Network,
    /// First block height to backfill.
    pub from_height: BlockHeight,
    /// Last block height to backfill.
    pub to_height: BlockHeight,
    /// Maximum number of blocks committed in one chain epoch.
    pub commit_batch_blocks: NonZeroU32,
    /// Maximum unique transparent prevouts read from the store per chain epoch.
    pub max_transparent_prevout_store_lookups_per_batch: NonZeroU32,
    /// Number of historical block fetches kept in flight.
    pub fetch_concurrency: NonZeroU32,
    /// Number of blocks derived in parallel.
    pub derive_concurrency: NonZeroU32,
    /// Epochs after which a flush is forced.
    pub flush_interval_epochs: NonZeroU32,
    /// Tip height observed by the caller, in place of one this run observes.
    pub upstream_tip_hint: Option<BlockHeight>,
    /// Allows finalizing blocks inside the upstream node's current reorg window.
    pub allow_near_tip_finalize: bool,
    /// Optional starting checkpoint for an empty store.
    pub checkpoint: Option<SourceChainCheckpoint>,
}

/// Work that committing a backfill batch takes.
#[derive(Clone, Copy, Debug, PartialEq, Eq, Structural)]
pub struct IngestBatchWorkCost {
    pub block_count: usize,
    pub transparent_prevout_store_lookup_count: usize,
}

/// Spent outpoints of a batch whose outputs only the store can provide.
pub open spec fn store_lookups(batch: CanonicalBatch) -> Set<TransparentOutPoint> {
    unknown_outpoints(
        spend_references(batch.transaction_facts@),
        outputs_of_batch(batch),
    ).to_set()
}

/// Work that committing a batch takes.
pub open spec fn is_work_cost(cost: IngestBatchWorkCost, batch: CanonicalBatch) -> bool {
    &&& cost.block_count == batch.block_headers@.len()
    &&& cost.transparent_prevout_store_lookup_count == store_lookups(batch).len()
}

fn count_distinct(outpoints: &Vec<TransparentOutPoint>) -> (count: usize)
    ensures
        count == outpoints@.to_set().len(),
{
    let mut seen: OutPointMap<()> = OutPointMap::new();
    let mut count: usize = 0;
    assert(outpoints@.take(0).to_set() =~= Set::<TransparentOutPoint>::empty());
    assert(seen@.dom() =~= outpoints@.take(0).to_set());
    for i in 0..outpoints.len()
        invariant
            seen.well_formed(),
            seen@.dom() == outpoints@.take(i as int).to_set(),
            seen@.dom().finite(),
            count == seen@.dom().len(),
            count <= i,
    {
        let outpoint = outpoints[i];
        proof {
            let before = outpoints@.take(i as int);
            let after = outpoints@.take(i + 1);
            assert(after == before.push(outpoint));
            assert(after.to_set() =~= before.to_set().insert(outpoint)) by {
                assert forall|x: TransparentOutPoint| #[trigger]
                    before.to_set().insert(outpoint).contains(x) implies after.to_set().contains(
                    x,
                ) by {
                    if x == outpoint {
                        assert(after[i as int] == x);
                    } else {
                        let k = choose|k: int| 0 <= k < before.len() && before[k] == x;
                        assert(after[k] == x);
                    }
                }
            }
        }
        if !seen.contains_key(&outpoint) {
            seen.insert(outpoint, ());
            count = count + 1;
        }
        assert(seen@.dom() =~= outpoints@.take(i + 1).to_set());
    }
    assert(outpoints@.take(outpoints@.len() as int) =~= outpoints@);
    count
}

/// Returns the work that committing a batch takes.
pub fn ingest_batch_work_cost(batch: &CanonicalBatch) -> (cost: IngestBatchWorkCost)
    ensures
        is_work_cost(cost, *batch),
{
    let lookups = missing_store_outpoints(batch);
    IngestBatchWorkCost {
        block_count: batch.block_headers.len(),
        transparent_prevout_store_lookup_count: count_distinct(&lookups),
    }
}

/// Bound that a backfill batch has reached.
#[derive(Clone, Copy, Debug, PartialEq, Eq, Structural)]
pub enum IngestBatchCommitTrigger {
    BlockCount,
    TransparentPrevoutStoreLookups,
}

/// Bounds at which a backfill batch is committed.
#[derive(Clone, Copy, Debug, PartialEq, Eq)]
pub struct IngestBatchBudget {
    pub max_blocks: NonZeroU32,
    pub max_transparent_prevout_store_lookups: NonZeroU32,
}

impl IngestBatchBudget {
    /// Bounds of a batch with so many blocks and store lookups.
    pub fn new(
        max_blocks: NonZeroU32,
        max_transparent_prevout_store_lookups: NonZeroU32,
    ) -> (budget: Self)
        ensures
            budget.max_blocks == max_blocks,
            budget.max_transparent_prevout_store_lookups == max_transparent_prevout_store_lookups,
    {
        IngestBatchBudget { max_blocks, max_transparent_prevout_store_lookups }
    }

    /// The first bound that a batch with so many blocks and store lookups has reached.
    pub open spec fn reached(self, blocks: int, lookups: int) -> Option<
        IngestBatchCommitTrigger,
    > {
        if blocks >= self.max_blocks@ {
            Some(IngestBatchCommitTrigger::BlockCount)
        } else if lookups >= self.max_transparent_prevout_store_lookups@ {
            Some(IngestBatchCommitTrigger::TransparentPrevoutStoreLookups)
        } else {
            None
        }
    }

    /// Returns the first bound that a cost has reached, if any.
    pub fn commit_trigger(self, cost: IngestBatchWorkCost) -> (trigger: Option<
        IngestBatchCommitTrigger,
    >)
        ensures
            trigger == self.reached(
                cost.block_count as int,
                cost.transparent_prevout_store_lookup_count as int,
            ),
    {
        if cost.block_count >= nonzero_u32_to_usize(self.max_blocks) {
            Some(IngestBatchCommitTrigger::BlockCount)
        } else if cost.transparent_prevout_store_lookup_count >= nonzero_u32_to_usize(
            self.max_transparent_prevout_store_lookups,
        ) {
            Some(IngestBatchCommitTrigger::TransparentPrevoutStoreLookups)
        } else {
            None
        }
    }
}

impl BackfillConfig {
    /// Returns the bounds at which a batch is committed.
    pub fn batch_budget(&self) -> (budget: IngestBatchBudget)
        ensures
            budget.max_blocks == self.commit_batch_blocks,
            budget.max_transparent_prevout_store_lookups
                == self.max_transparent_prevout_store_lookups_per_batch,
    {
        IngestBatchBudget::new(
            self.commit_batch_blocks,
            self.max_transparent_prevout_store_lookups_per_batch,
        )
    }
}

/// Flush cadence carried across backfill batches.
///
/// This state keeps the flush cadence tied to committed epochs rather than to
/// one batch.
#[derive(Clone, Copy, Debug, PartialEq, Eq, Structural)]
pub struct BackfillFlushState {
    pub epochs_since_last_flush: u32,
}

impl Default for BackfillFlushState {
    fn default() -> (state: Self)
        ensures
            state.epochs_since_last_flush == 0,
    {
        BackfillFlushState { epochs_since_last_flush: 0 }
    }
}

impl BackfillFlushState {
    /// Counts one more committed epoch.
    pub fn record_committed_epoch(&mut self)
        ensures
            final(self).epochs_since_last_flush == capped(
                old(self).epochs_since_last_flush + 1,
                u32::MAX as int,
            ),
    {
        self.epochs_since_last_flush = self.epochs_since_last_flush.saturating_add(1);
    }

    /// Returns whether a flush is due.
    pub fn should_flush(&self, flush_interval_epochs: NonZeroU32) -> (due: bool)
        ensures
            due == (self.epochs_since_last_flush >= flush_interval_epochs@),
    {
        self.epochs_since_last_flush >= flush_interval_epochs.get()
    }

    /// Notes that everything committed so far was flushed.
    pub fn mark_flushed(&mut self)
        ensures
            final(self).epochs_since_last_flush == 0,
    {
        self.epochs_since_last_flush = 0;
    }

    /// Returns whether a committed epoch waits for a flush.
    pub fn has_pending_epochs(&self) -> (pending: bool)
        ensures
            pending == (self.epochs_since_last_flush > 0),
    {
        self.epochs_since_last_flush > 0
    }

    /// Returns how many committed epochs wait for a flush.
    pub fn pending_epoch_count(&self) -> (count: u32)
        ensures
            count == self.epochs_since_last_flush,
    {
        self.epochs_since_last_flush
    }
}

/// What happens to pending writes when a run completes.
#[derive(Clone, Copy, Debug, PartialEq, Eq, Structural)]
pub enum BackfillCompletionFlush {
    FlushPending,
    PreservePending,
}

impl BackfillCompletionFlush {
    /// Returns whether pending writes are flushed when a run completes.
    pub fn flushes_pending(self) -> (flushes: bool)
        ensures
            flushes == (self is FlushPending),
    {
        match self {
            BackfillCompletionFlush::FlushPending => true,
            BackfillCompletionFlush::PreservePending => false,
        }
    }
}

/// Where a backfill over a range starts on top of an epoch, if the range is
/// not covered already: where a bulk catchup over it does.
pub open spec fn backfill_start_of(
    current_chain_epoch: Option<ChainEpoch>,
    from_height: BlockHeight,
    to_height: BlockHeight,
) -> Result<Option<BulkCatchupStart>, IngestError> {
    match start_of(current_chain_epoch, from_height, to_height) {
        Ok(start) => Ok(start),
        Err(_) => Err(
            IngestError::BackfillRequiresContiguousTipMetadata {
                from_height,
                current_tip_height: match current_chain_epoch {
                    Some(epoch) => Some(epoch.visible_tip_height),
                    None => None,
                },
            },
        ),
    }
}

/// Finds where a backfill over a range starts on top of an epoch, if the range
/// is not covered already.
pub fn backfill_start(
    current_chain_epoch: Option<ChainEpoch>,
    from_height: BlockHeight,
    to_height: BlockHeight,
) -> (start: Result<Option<BulkCatchupStart>, IngestError>)
    ensures
        start == backfill_start_of(current_chain_epoch, from_height, to_height),
{
    match bulk_catchup_start(current_chain_epoch, from_height, to_height) {
        Ok(start) => Ok(start),
        Err(_) => Err(
            IngestError::BackfillRequiresContiguousTipMetadata {
                from_height,
                current_tip_height: match current_chain_epoch {
                    Some(epoch) => Some(epoch.visible_tip_height),
                    None => None,
                },
            },
        ),
    }
}

/// Decides how an empty store is seeded from the operator's checkpoint, so
/// that a backfill can start at `checkpoint.height + 1` without replaying every
/// block from the first one on.
///
/// Nothing is seeded where no checkpoint is given or the store already has an
/// epoch. `created_at` is read only where an epoch is built.
pub fn bootstrap_from_checkpoint_if_needed(
    store_has_epoch: bool,
    network: Network,
    checkpoint: Option<SourceChainCheckpoint>,
    from_height: BlockHeight,
    artifact_schema_version: ArtifactSchemaVersion,
    created_at: Result<UnixTimestampMillis, IngestError>,
) -> (seed: Result<Option<ChainEpochArtifacts>, IngestError>)
    ensures
        match checkpoint {
            None => seed == Ok::<Option<ChainEpochArtifacts>, IngestError>(None),
            Some(checkpoint) => if store_has_epoch {
                seed == Ok::<Option<ChainEpochArtifacts>, IngestError>(None)
            } else if checkpoint.height.spec_next() != Some(from_height) {
                seed == Err::<Option<ChainEpochArtifacts>, IngestError>(
                    IngestError::BackfillCheckpointMisaligned {
                        checkpoint_height: checkpoint.height,
                        from_height,
                    },
                )
            } else {
                match created_at {
                    Err(error) => seed == Err::<Option<ChainEpochArtifacts>, IngestError>(error),
                    Ok(created_at) => {
                        &&& seed matches Ok(Some(artifacts))
                        &&& is_checkpoint_seed(
                            artifacts,
                            checkpoint,
                            network,
                            artifact_schema_version,
                            created_at,
                        )
                    },
                }
            },
        },
{
    let checkpoint = match checkpoint {
        Some(checkpoint) => checkpoint,
        None => {
            return Ok(None);
        },
    };
    if store_has_epoch {
        return Ok(None);
    }
    if !continues_checkpoint(checkpoint.height, from_height) {
        return Err(
            IngestError::BackfillCheckpointMisaligned {
                checkpoint_height: checkpoint.height,
                from_height,
            },
        );
    }
    match created_at {
        Ok(created_at) => Ok(
            Some(checkpoint_seed(checkpoint, network, artifact_schema_version, created_at)),
        ),
        Err(error) => Err(error),
    }
}

/// A backfill that follows a seeded checkpoint starts right above it, with the
/// tree sizes of the checkpoint.
pub proof fn law_seeded_checkpoint_is_backfilled(
    checkpoint: SourceChainCheckpoint,
    network: Network,
    artifact_schema_version: ArtifactSchemaVersion,
    created_at: UnixTimestampMillis,
    to_height: BlockHeight,
)
    requires
        checkpoint.height.0 < to_height.0,
    ensures
        backfill_start_of(
            Some(bootstrap_epoch(checkpoint, network, artifact_schema_version, created_at)),
            checkpoint.height.spec_next()->0,
            to_height,
        ) == Ok::<Option<BulkCatchupStart>, IngestError>(
            Some(
                BulkCatchupStart {
                    from_height: checkpoint.height.spec_next()->0,
                    initial_tip_metadata: checkpoint.tip_metadata,
                },
            ),
        ),
{
}

/// Rejects a backfill that reaches into the upstream node's current reorg
/// window, unless that is allowed explicitly.
pub fn validate_backfill_finality_bound(
    config: &BackfillConfig,
    tip_height: BlockHeight,
    reorg_window_blocks: u32,
) -> (valid: Result<(), IngestError>)
    ensures
        valid == if config.allow_near_tip_finalize || config.to_height.0 <= settleable_height(
            tip_height,
            reorg_window_blocks,
        ) {
            Ok::<(), IngestError>(())
        } else {
            Err(
                IngestError::NearTipBackfillRequiresExplicitFinalize {
                    to_height: config.to_height,
                    tip_height,
                    reorg_window_blocks,
                    maximum_historical_height: BlockHeight(
                        settleable_height(tip_height, reorg_window_blocks) as u32,
                    ),
                },
            )
        },
{
    if config.allow_near_tip_finalize {
        return Ok(());
    }
    let maximum_historical_height = BlockHeight::new(
        tip_height.value().saturating_sub(reorg_window_blocks),
    );
    if config.to_height.value() <= maximum_historical_height.value() {
        return Ok(());
    }
    Err(
        IngestError::NearTipBackfillRequiresExplicitFinalize {
            to_height: config.to_height,
            tip_height,
            reorg_window_blocks,
            maximum_historical_height,
        },
    )
}

/// Builds the epoch that committing a backfill batch creates: its last block
/// is both the visible and the settled tip.
pub fn backfill_commit_epoch(
    batch: &CanonicalBatch,
    network: Network,
    chain_epoch_id: ChainEpochId,
    artifact_schema_version: ArtifactSchemaVersion,
    created_at: Result<UnixTimestampMillis, IngestError>,
) -> (epoch: Result<ChainEpoch, IngestError>)
    ensures
        epoch == if batch.block_headers@.len() == 0 || batch.tip_metadata is None {
            Err::<ChainEpoch, IngestError>(IngestError::EmptyIngestBatch)
        } else {
            match created_at {
                Err(error) => Err(error),
                Ok(created_at) => Ok(
                    epoch_of_batch(
                        *batch,
                        network,
                        chain_epoch_id,
                        artifact_schema_version,
                        created_at,
                    ),
                ),
            }
        },
{
    if batch.is_empty() || batch.tip_metadata.is_none() {
        return Err(IngestError::EmptyIngestBatch);
    }
    bulk_commit_epoch(batch, network, chain_epoch_id, artifact_schema_version, created_at)
}

/// Reports readiness after a backfill, against the upstream tip where it is known.
pub fn backfill_readiness_state(
    config: &BackfillConfig,
    current_height: Option<u32>,
) -> (state: ReadinessState)
    ensures
        state == readiness_of(config.upstream_tip_hint, current_height),
{
    bulk_catchup_readiness_state(config.upstream_tip_hint, current_height)
}

/// A closed batch and what its commit needs.
#[derive(Debug)]
pub struct BackfillCommitRequest {
    pub batch: CanonicalBatch,
    pub next_subtree_root_indexes: IngestSubtreeRootIndexes,
    pub chain_epoch_id: ChainEpochId,
}

/// How far a run has come.
#[derive(Debug)]
pub enum BackfillPhase {
    /// Blocks are taken in.
    Streaming,
    /// The batch has reached a bound and is to be committed.
    Closing,
    /// Enough epochs were committed for a flush.
    FlushDue,
    /// No more blocks come; what was taken in is to be committed.
    Draining,
    /// The run ends with this error.
    Failing(IngestError),
    /// The run has ended.
    Finished,
}

/// What a run does next.
#[derive(Debug)]
pub enum BackfillAction {
    /// The next derived block is to be awaited.
    AwaitBlock,
    /// A batch is to be committed.
    Commit(BackfillCommitRequest),
    /// The store is to be flushed.
    Flush,
    /// The run has ended.
    Finish(Result<ChainEpochCommitOutcome, IngestError>),
}

/// What a run does next, without the values that move along.
pub enum BackfillDecision {
    AwaitBlock,
    Commit,
    Flush,
    Finish,
}

/// Batches of a backfill, committed one after the other.
#[derive(Debug)]
pub struct BackfillCommitLoop {
    pub batch: CanonicalBatch,
    pub batch_budget: IngestBatchBudget,
    pub flush_interval_epochs: NonZeroU32,
    pub completion_flush: BackfillCompletionFlush,
    pub chain_epoch_id: ChainEpochId,
    pub next_subtree_root_indexes: IngestSubtreeRootIndexes,
    pub retry_state: IngestRetryState,
    pub flush_state: BackfillFlushState,
    pub last_commit_outcome: Option<ChainEpochCommitOutcome>,
    pub running_tree_sizes: CommitmentTreeSizes,
    pub phase: BackfillPhase,
}

impl BackfillCommitLoop {
    /// Starts a run before its first block.
    pub fn begin(
        initial_tip_metadata: ChainTipMetadata,
        chain_epoch_id: ChainEpochId,
        batch_budget: IngestBatchBudget,
        flush_interval_epochs: NonZeroU32,
        flush_state: BackfillFlushState,
        completion_flush: BackfillCompletionFlush,
    ) -> (run: Self)
        ensures
            run.phase is Streaming,
            run.batch.holds_no_rows(),
            run.batch.tip_metadata is None,
            run.batch.cost() == CanonicalBatchCost::nothing(),
            run.batch_budget == batch_budget,
            run.flush_interval_epochs == flush_interval_epochs,
            run.completion_flush == completion_flush,
            run.chain_epoch_id == chain_epoch_id,
            forall|protocol: crate::ids::ShieldedProtocol|
                (#[trigger] run.next_subtree_root_indexes.at(protocol)).0
                    == initial_tip_metadata.completed_subtrees(protocol),
            run.retry_state.retryable_failures == 0,
            run.flush_state == flush_state,
            run.last_commit_outcome is None,
            run.running_tree_sizes == CommitmentTreeSizes::of_tip_metadata(initial_tip_metadata),
    {
        BackfillCommitLoop {
            batch: CanonicalBatch::default(),
            batch_budget,
            flush_interval_epochs,
            completion_flush,
            chain_epoch_id,
            next_subtree_root_indexes: IngestSubtreeRootIndexes::from_tip_metadata(
                initial_tip_metadata,
            ),
            retry_state: IngestRetryState::default(),
            flush_state,
            last_commit_outcome: None,
            running_tree_sizes: CommitmentTreeSizes::from_tip_metadata(initial_tip_metadata),
            phase: BackfillPhase::Streaming,
        }
    }

    /// What the run does next.
    pub open spec fn decision(self) -> BackfillDecision {
        match self.phase {
            BackfillPhase::Streaming => BackfillDecision::AwaitBlock,
            BackfillPhase::Closing => BackfillDecision::Commit,
            BackfillPhase::FlushDue => BackfillDecision::Flush,
            BackfillPhase::Draining => if self.batch.block_headers@.len() > 0 {
                BackfillDecision::Commit
            } else if self.completion_flush is FlushPending && self.last_commit_outcome is Some
                && self.flush_state.epochs_since_last_flush > 0 {
                BackfillDecision::Flush
            } else {
                BackfillDecision::Finish
            },
            _ => BackfillDecision::Finish,
        }
    }

    /// Outcome with which a run that ends now ends.
    pub open spec fn outcome(self) -> Result<ChainEpochCommitOutcome, IngestError> {
        match self.phase {
            BackfillPhase::Failing(error) => Err(error),
            _ => match self.last_commit_outcome {
                Some(outcome) => Ok(outcome),
                None => Err(IngestError::BackfillProducedNoCommit),
            },
        }
    }

    /// Decides what the run does next.
    pub fn next_action(&mut self) -> (action: BackfillAction)
        ensures
            match old(self).decision() {
                BackfillDecision::AwaitBlock => action is AwaitBlock && *final(self) == *old(self),
                BackfillDecision::Flush => action is Flush && *final(self) == *old(self),
                BackfillDecision::Commit => {
                    &&& action matches BackfillAction::Commit(request)
                    &&& request.batch == old(self).batch
                    &&& request.next_subtree_root_indexes == old(self).next_subtree_root_indexes
                    &&& request.chain_epoch_id == old(self).chain_epoch_id
                    &&& final(self).batch.holds_no_rows()
                    &&& final(self).batch.tip_metadata is None
                    &&& final(self).batch.cost() == CanonicalBatchCost::nothing()
                    &&& *final(self) == (BackfillCommitLoop {
                        batch: final(self).batch,
                        ..*old(self)
                    })
                },
                BackfillDecision::Finish => {
                    &&& action == BackfillAction::Finish(old(self).outcome())
                    &&& *final(self) == (BackfillCommitLoop {
                        phase: BackfillPhase::Finished,
                        ..*old(self)
                    })
                },
            },
    {
        let commits = match &self.phase {
            BackfillPhase::Streaming => {
                return BackfillAction::AwaitBlock;
            },
            BackfillPhase::FlushDue => {
                return BackfillAction::Flush;
            },
            BackfillPhase::Closing => true,
            BackfillPhase::Draining => !self.batch.is_empty(),
            _ => false,
        };
        if commits {
            let mut batch = CanonicalBatch::default();
            std::mem::swap(&mut batch, &mut self.batch);
            return BackfillAction::Commit(
                BackfillCommitRequest {
                    batch,
                    next_subtree_root_indexes: self.next_subtree_root_indexes,
                    chain_epoch_id: self.chain_epoch_id,
                },
            );
        }
        if let BackfillPhase::Draining = &self.phase {
            if self.completion_flush.flushes_pending() && self.last_commit_outcome.is_some()
                && self.flush_state.has_pending_epochs() {
                return BackfillAction::Flush;
            }
        }
        let mut phase = BackfillPhase::Finished;
        std::mem::swap(&mut phase, &mut self.phase);
        BackfillAction::Finish(
            match phase {
                BackfillPhase::Failing(error) => Err(error),
                _ => match self.last_commit_outcome {
                    Some(outcome) => Ok(outcome),
                    None => Err(IngestError::BackfillProducedNoCommit),
                },
            },
        )
    }

    /// Takes the next derived block, or the end of the blocks, and stamps the
    /// block with its commitment-tree position.
    pub fn accept_block(
        &mut self,
        next: Option<Result<PreparedCanonicalBlock, IngestError>>,
    ) -> (positioned: Option<PositionedCanonicalBlock>)
        requires
            old(self).phase is Streaming,
        ensures
            match next {
                None => {
                    &&& positioned is None
                    &&& *final(self) == (BackfillCommitLoop {
                        phase: BackfillPhase::Draining,
                        ..*old(self)
                    })
                },
                Some(Err(error)) => {
                    &&& positioned is None
                    &&& *final(self) == (BackfillCommitLoop {
                        phase: BackfillPhase::Failing(error),
                        ..*old(self)
                    })
                },
                Some(Ok(derived)) => match old(self).running_tree_sizes.sum(
                    derived.tree_size_additions,
                ) {
                    Ok(sizes) => {
                        &&& positioned matches Some(positioned)
                        &&& positioned.facts == derived.facts
                        &&& positioned.compact_block@ == (CompactBlockView {
                            chain_metadata: Some(sizes.as_chain_metadata()),
                            ..derived.partial_compact_block@
                        })
                        &&& positioned.tip_metadata == sizes.as_tip_metadata()
                        &&& *final(self) == (BackfillCommitLoop {
                            running_tree_sizes: sizes,
                            ..*old(self)
                        })
                    },
                    Err(fault) => {
                        &&& positioned is None
                        &&& final(self).phase matches BackfillPhase::Failing(
                            IngestError::CanonicalBlockConstruction(error),
                        )
                        &&& error@ == fault
                        &&& *final(self) == (BackfillCommitLoop {
                            phase: final(self).phase,
                            ..*old(self)
                        })
                    },
                },
            },
    {
        let derived = match next {
            None => {
                self.phase = BackfillPhase::Draining;
                return None;
            },
            Some(Err(error)) => {
                self.phase = BackfillPhase::Failing(error);
                return None;
            },
            Some(Ok(derived)) => derived,
        };
        let mut sizes = self.running_tree_sizes;
        match finalize_canonical_block(derived, &mut sizes) {
            Ok(positioned) => {
                self.running_tree_sizes = sizes;
                Some(positioned)
            },
            Err(error) => {
                self.phase = BackfillPhase::Failing(
                    IngestError::CanonicalBlockConstruction(error),
                );
                None
            },
        }
    }

    /// Takes an encoded block into the batch, and closes the batch where it
    /// has reached a bound; the bound is returned.
    pub fn admit_block(&mut self, block: EncodedCanonicalBlock) -> (trigger: Option<
        IngestBatchCommitTrigger,
    >)
        requires
            old(self).phase is Streaming,
        ensures
            ({
                let cost = old(self).batch.cost().plus(block_cost(block, Seq::empty()));
                if block.facts.transactions@.len() > POSITION_LIMIT {
                    &&& trigger is None
                    &&& final(self).phase matches BackfillPhase::Failing(
                        IngestError::CanonicalBlockConstruction(error),
                    )
                    &&& error@ == ConstructionFault::TransactionIndexOverflow
                    &&& final(self).batch.keeps_block_rows_of(old(self).batch)
                    &&& final(self).batch.keeps_attachments_of(old(self).batch)
                    &&& final(self).batch.cost() == (CanonicalBatchCost {
                        blocks: old(self).batch.cost().blocks,
                        ..cost
                    })
                } else {
                    &&& final(self).batch.takes_in(old(self).batch, block, Seq::empty())
                    &&& final(self).batch.cost() == cost
                    &&& trigger == old(self).batch_budget.reached(
                        final(self).batch.block_headers@.len() as int,
                        store_lookups(final(self).batch).len() as int,
                    )
                    &&& final(self).phase == if trigger is Some {
                        BackfillPhase::Closing
                    } else {
                        BackfillPhase::Streaming
                    }
                }
            }),
            *final(self) == (BackfillCommitLoop {
                batch: final(self).batch,
                phase: final(self).phase,
                ..*old(self)
            }),
    {
        match self.batch.absorb(block) {
            Ok(_) => {},
            Err(error) => {
                self.phase = BackfillPhase::Failing(
                    IngestError::CanonicalBlockConstruction(error),
                );
                return None;
            },
        }
        let trigger = self.batch_budget.commit_trigger(ingest_batch_work_cost(&self.batch));
        if trigger.is_some() {
            self.phase = BackfillPhase::Closing;
        }
        trigger
    }

    /// Takes the outcome of a commit, with the subtree-root indexes that
    /// follow it.
    pub fn accept_commit(
        &mut self,
        outcome: Result<(ChainEpochCommitOutcome, IngestSubtreeRootIndexes), IngestError>,
    )
        requires
            old(self).phase is Closing || old(self).phase is Draining,
        ensures
            match outcome {
                Err(error) => *final(self) == (BackfillCommitLoop {
                    phase: BackfillPhase::Failing(error),
                    ..*old(self)
                }),
                Ok((committed, indexes)) => {
                    let pending = BackfillFlushState {
                        epochs_since_last_flush: capped(
                            old(self).flush_state.epochs_since_last_flush + 1,
                            u32::MAX as int,
                        ) as u32,
                    };
                    if old(self).phase is Draining {
                        *final(self) == (BackfillCommitLoop {
                            last_commit_outcome: Some(committed),
                            flush_state: pending,
                            ..*old(self)
                        })
                    } else {
                        match epoch_id_after(old(self).chain_epoch_id) {
                            Err(error) => *final(self) == (BackfillCommitLoop {
                                next_subtree_root_indexes: indexes,
                                phase: BackfillPhase::Failing(error),
                                ..*old(self)
                            }),
                            Ok(next_id) => *final(self) == (BackfillCommitLoop {
                                next_subtree_root_indexes: indexes,
                                chain_epoch_id: next_id,
                                last_commit_outcome: Some(committed),
                                flush_state: pending,
                                phase: if pending.epochs_since_last_flush >= old(
                                    self,
                                ).flush_interval_epochs@ {
                                    BackfillPhase::FlushDue
                                } else {
                                    BackfillPhase::Streaming
                                },
                                ..*old(self)
                            }),
                        }
                    }
                },
            },
    {
        let (committed, indexes) = match outcome {
            Ok(outcome) => outcome,
            Err(error) => {
                self.phase = BackfillPhase::Failing(error);
                return ;
            },
        };
        if let BackfillPhase::Closing = &self.phase {
            self.next_subtree_root_indexes = indexes;
            match next_chain_epoch_id_after(self.chain_epoch_id) {
                Ok(next_id) => {
                    self.chain_epoch_id = next_id;
                },
                Err(error) => {
                    self.phase = BackfillPhase::Failing(error);
                    return ;
                },
            }
            self.last_commit_outcome = Some(committed);
            self.flush_state.record_committed_epoch();
            self.phase =
            if self.flush_state.should_flush(self.flush_interval_epochs) {
                BackfillPhase::FlushDue
            } else {
                BackfillPhase::Streaming
            };
        } else {
            self.last_commit_outcome = Some(committed);
            self.flush_state.record_committed_epoch();
        }
    }

    /// Takes the outcome of a flush.
    pub fn accept_flush(&mut self, outcome: Result<(), IngestError>)
        requires
            old(self).phase is FlushDue || old(self).phase is Draining,
        ensures
            match outcome {
                Err(error) => *final(self) == (BackfillCommitLoop {
                    phase: BackfillPhase::Failing(error),
                    ..*old(self)
                }),
                Ok(_) => *final(self) == (BackfillCommitLoop {
                    flush_state: BackfillFlushState { epochs_since_last_flush: 0 },
                    phase: if old(self).phase is FlushDue {
                        BackfillPhase::Streaming
                    } else {
                        BackfillPhase::Draining
                    },
                    ..*old(self)
                }),
            },
    {
        match outcome {
            Ok(_) => {
                self.flush_state.mark_flushed();
                if let BackfillPhase::FlushDue = &self.phase {
                    self.phase = BackfillPhase::Streaming;
                }
            },
            Err(error) => {
                self.phase = BackfillPhase::Failing(error);
            },
        }
    }
}

/// A backfill that ends without an error has committed every block it took in,
/// and has flushed where it was asked to.
pub proof fn law_successful_backfill_committed_everything(run: BackfillCommitLoop)
    requires
        run.phase is Draining,
        run.decision() is Finish,
        run.outcome() is Ok,
    ensures
        run.batch.block_headers@.len() == 0,
        run.last_commit_outcome is Some,
        run.completion_flush is FlushPending ==> run.flush_state.epochs_since_last_flush == 0,
{
}

/// A batch that goes on taking blocks stays below both of its bounds.
pub proof fn law_open_batch_stays_below_its_bounds(
    budget: IngestBatchBudget,
    blocks: int,
    lookups: int,
)
    requires
        budget.reached(blocks, lookups) is None,
    ensures
        blocks < budget.max_blocks@,
        lookups < budget.max_transparent_prevout_store_lookups@,
{
}

/// Whether some transaction of a run spends an outpoint.
pub open spec fn spends(
    transactions: Seq<TransactionFactsArtifact>,
    outpoint: TransparentOutPoint,
) -> bool {
    &&& !outpoint.is_sentinel()
    &&& exists|t: int, i: int|
        {
            &&& 0 <= t < transactions.len()
            &&& 0 <= i < transactions[t].transparent_inputs@.len()
            &&& (#[trigger] transactions[t].transparent_inputs@[i]).spent_outpoint == outpoint
        }
}

/// Whether some transaction of a block spends an outpoint.
pub open spec fn block_spends(facts: CanonicalBlockFacts, outpoint: TransparentOutPoint) -> bool {
    &&& !outpoint.is_sentinel()
    &&& exists|t: int, i: int|
        {
            &&& 0 <= t < facts.transactions@.len()
            &&& 0 <= i < facts.transactions@[t].transparent_inputs@.len()
            &&& (#[trigger] facts.transactions@[t].transparent_inputs@[i]).spent_outpoint
                == outpoint
        }
}

/// Whether some reference of a run spends an outpoint.
spec fn refers_to(
    references: Seq<TransparentSpendReference>,
    outpoint: TransparentOutPoint,
) -> bool {
    exists|k: int|
        0 <= k < references.len() && (#[trigger] references[k]).spent_outpoint == outpoint
}

proof fn lemma_input_references_spend(
    location: TransactionLocation,
    inputs: Seq<TransparentInputFact>,
    outpoint: TransparentOutPoint,
)
    ensures
        refers_to(input_references(location, inputs), outpoint) <==> (!outpoint.is_sentinel()
            && exists|i: int|
            0 <= i < inputs.len() && (#[trigger] inputs[i]).spent_outpoint == outpoint),
    decreases inputs.len(),
{
    let references = input_references(location, inputs);
    if inputs.len() > 0 {
        let rest = inputs.drop_last();
        let before = input_references(location, rest);
        lemma_input_references_spend(location, rest, outpoint);
        if refers_to(references, outpoint) {
            let k = choose|k: int|
                0 <= k < references.len() && (#[trigger] references[k]).spent_outpoint == outpoint;
            if k < before.len() {
                assert(before[k].spent_outpoint == outpoint);
                let i = choose|i: int|
                    0 <= i < rest.len() && (#[trigger] rest[i]).spent_outpoint == outpoint;
                assert(inputs[i].spent_outpoint == outpoint);
            } else {
                assert(inputs[inputs.len() - 1].spent_outpoint == outpoint);
            }
        }
        if !outpoint.is_sentinel() && exists|i: int|
            0 <= i < inputs.len() && (#[trigger] inputs[i]).spent_outpoint == outpoint {
            let i = choose|i: int|
                0 <= i < inputs.len() && (#[trigger] inputs[i]).spent_outpoint == outpoint;
            if i < rest.len() {
                assert(rest[i].spent_outpoint == outpoint);
                let k = choose|k: int|
                    0 <= k < before.len() && (#[trigger] before[k]).spent_outpoint == outpoint;
                assert(references[k] == before[k]);
            } else {
                assert(references[before.len() as int].spent_outpoint == outpoint);
            }
        }
    }
}

proof fn lemma_references_are_the_spends(
    transactions: Seq<TransactionFactsArtifact>,
    outpoint: TransparentOutPoint,
)
    ensures
        refers_to(spend_references(transactions), outpoint) <==> spends(transactions, outpoint),
    decreases transactions.len(),
{
    if transactions.len() > 0 {
        let rest = transactions.drop_last();
        let last = transactions.last();
        let before = spend_references(rest);
        let own = input_references(last.location, last.transparent_inputs@);
        let references = spend_references(transactions);
        lemma_references_are_the_spends(rest, outpoint);
        lemma_input_references_spend(last.location, last.transparent_inputs@, outpoint);
        if refers_to(references, outpoint) {
            let k = choose|k: int|
                0 <= k < references.len() && (#[trigger] references[k]).spent_outpoint == outpoint;
            if k < before.len() {
                assert(before[k].spent_outpoint == outpoint);
                let (t, i) = choose|t: int, i: int|
                    {
                        &&& 0 <= t < rest.len()
                        &&& 0 <= i < rest[t].transparent_inputs@.len()
                        &&& (#[trigger] rest[t].transparent_inputs@[i]).spent_outpoint == outpoint
                    };
                assert(transactions[t].transparent_inputs@[i].spent_outpoint == outpoint);
            } else {
                assert(own[k - before.len()].spent_outpoint == outpoint);
                let i = choose|i: int|
                    0 <= i < last.transparent_inputs@.len() && (
                    #[trigger] last.transparent_inputs@[i]).spent_outpoint == outpoint;
                assert(transactions[transactions.len()
                    - 1].transparent_inputs@[i].spent_outpoint == outpoint);
            }
        }
        if spends(transactions, outpoint) {
            let (t, i) = choose|t: int, i: int|
                {
                    &&& 0 <= t < transactions.len()
                    &&& 0 <= i < transactions[t].transparent_inputs@.len()
                    &&& (#[trigger] transactions[t].transparent_inputs@[i]).spent_outpoint
                        == outpoint
                };
            if t < rest.len() {
                assert(rest[t].transparent_inputs@[i].spent_outpoint == outpoint);
                let k = choose|k: int|
                    0 <= k < before.len() && (#[trigger] before[k]).spent_outpoint == outpoint;
                assert(references[k] == before[k]);
            } else {
                assert(last.transparent_inputs@[i].spent_outpoint == outpoint);
                let k = choose|k: int|
                    0 <= k < own.len() && (#[trigger] own[k]).spent_outpoint == outpoint;
                assert(references[before.len() + k] == own[k]);
            }
        }
    }
}

proof fn lemma_unknown_outpoints_are_unknown_references(
    references: Seq<TransparentSpendReference>,
    known: Map<TransparentOutPoint, TransparentOutputRow>,
    outpoint: TransparentOutPoint,
)
    ensures
        unknown_outpoints(references, known).contains(outpoint) <==> refers_to(
            references,
            outpoint,
        ) && !known.contains_key(outpoint),
    decreases references.len(),
{
    let unknown = unknown_outpoints(references, known);
    if references.len() > 0 {
        let rest = references.drop_last();
        let before = unknown_outpoints(rest, known);
        lemma_unknown_outpoints_are_unknown_references(rest, known, outpoint);
        if unknown.contains(outpoint) {
            let k = choose|k: int| 0 <= k < unknown.len() && unknown[k] == outpoint;
            if k < before.len() {
                assert(before[k] == outpoint);
                assert(before.contains(outpoint));
                let j = choose|j: int|
                    0 <= j < rest.len() && (#[trigger] rest[j]).spent_outpoint == outpoint;
                assert(references[j].spent_outpoint == outpoint);
            } else {
                assert(references[references.len() - 1].spent_outpoint == outpoint);
            }
        }
        if refers_to(references, outpoint) && !known.contains_key(outpoint) {
            let j = choose|j: int|
                0 <= j < references.len() && (#[trigger] references[j]).spent_outpoint == outpoint;
            if j < rest.len() {
                assert(rest[j].spent_outpoint == outpoint);
                let k = choose|k: int| 0 <= k < before.len() && before[k] == outpoint;
                assert(unknown[k] == outpoint);
            } else {
                assert(unknown[before.len() as int] == outpoint);
            }
        }
    }
}

/// A batch reads from the store exactly the outpoints that it spends and for
/// which it brings no output along.
pub proof fn law_store_lookups_are_the_unknown_spends(
    batch: CanonicalBatch,
    outpoint: TransparentOutPoint,
)
    ensures
        store_lookups(batch).contains(outpoint) <==> spends(batch.transaction_facts@, outpoint)
            && !outputs_of_batch(batch).contains_key(outpoint),
{
    lemma_references_are_the_spends(batch.transaction_facts@, outpoint);
    lemma_unknown_outpoints_are_unknown_references(
        spend_references(batch.transaction_facts@),
        outputs_of_batch(batch),
        outpoint,
    );
}

/// A fresh batch brings no outputs along and reads nothing from the store.
pub proof fn law_fresh_batch_reads_nothing_from_the_store(batch: CanonicalBatch)
    requires
        batch.holds_no_rows(),
    ensures
        outputs_of_batch(batch) == Map::<TransparentOutPoint, TransparentOutputRow>::empty(),
        store_lookups(batch) == Set::<TransparentOutPoint>::empty(),
{
    assert(store_lookups(batch) =~= Set::<TransparentOutPoint>::empty());
}

/// A block that a batch takes in adds its spends to those of the batch; each
/// of them is read from the store, once, unless the batch brings its output
/// along.
pub proof fn law_block_adds_its_spends_to_the_batch(
    before: CanonicalBatch,
    after: CanonicalBatch,
    block: EncodedCanonicalBlock,
    outpoint: TransparentOutPoint,
)
    requires
        after.takes_in(before, block, Seq::empty()),
    ensures
        store_lookups(after).contains(outpoint) <==> (spends(before.transaction_facts@, outpoint)
            || block_spends(block.facts, outpoint)) && !outputs_of_batch(after).contains_key(
            outpoint,
        ),
{
    law_store_lookups_are_the_unknown_spends(after, outpoint);
    let rows = choose|rows: CurrentSchemaBlockArtifacts| #[trigger]
        is_expansion(rows, block.facts) && after.extends_by(before, block, rows);
    let earlier = before.transaction_facts@;
    let all = after.transaction_facts@;
    let count = earlier.len() as int;
    assert forall|t: int| 0 <= t < block.facts.transactions@.len() implies (
    #[trigger] all[count + t]).transparent_inputs
        == block.facts.transactions@[t].transparent_inputs by {
        assert(rows_match_transaction(rows, block.facts, t));
        assert(all[count + t] == rows.transaction_facts@[t]);
    }
    if spends(all, outpoint) {
        let (t, i) = choose|t: int, i: int|
            {
                &&& 0 <= t < all.len()
                &&& 0 <= i < all[t].transparent_inputs@.len()
                &&& (#[trigger] all[t].transparent_inputs@[i]).spent_outpoint == outpoint
            };
        if t < count {
            assert(earlier[t].transparent_inputs@[i].spent_outpoint == outpoint);
        } else {
            assert(all[count + (t - count)] == all[t]);
            assert(block.facts.transactions@[t - count].transparent_inputs@[i].spent_outpoint
                == outpoint);
        }
    }
    if spends(earlier, outpoint) {
        let (t, i) = choose|t: int, i: int|
            {
                &&& 0 <= t < earlier.len()
                &&& 0 <= i < earlier[t].transparent_inputs@.len()
                &&& (#[trigger] earlier[t].transparent_inputs@[i]).spent_outpoint == outpoint
            };
        assert(all[t].transparent_inputs@[i].spent_outpoint == outpoint);
    }
    if block_spends(block.facts, outpoint) {
        let (t, i) = choose|t: int, i: int|
            {
                &&& 0 <= t < block.facts.transactions@.len()
                &&& 0 <= i < block.facts.transactions@[t].transparent_inputs@.len()
                &&& (#[trigger] block.facts.transactions@[t].transparent_inputs@[i]).spent_outpoint
                    == outpoint
            };
        assert(all[count + t].transparent_inputs@[i].spent_outpoint == outpoint);
    }
}

/// Once a backfill fails it neither commits nor flushes again.
pub proof fn law_failed_backfill_ends(run: BackfillCommitLoop)
    requires
        run.phase is Failing,
    ensures
        run.decision() is Finish,
        run.outcome() == Err::<ChainEpochCommitOutcome, IngestError>(run.phase->Failing_0),
{
}

/// A batch costs one per block and one per output that it reads from the store.
pub proof fn law_work_cost_counts_blocks_and_lookups(
    cost: IngestBatchWorkCost,
    batch: CanonicalBatch,
)
    requires
        is_work_cost(cost, batch),
    ensures
        cost.block_count == batch.block_headers@.len(),
        cost.transparent_prevout_store_lookup_count == store_lookups(batch).len(),
{
}

/// A batch is committed on the first bound that it reaches: blocks, then
/// lookups.
pub proof fn law_first_reached_bound_commits(
    budget: IngestBatchBudget,
    blocks: int,
    lookups: int,
)
    ensures
        budget.reached(blocks, lookups) is None <==> blocks < budget.max_blocks@ && lookups
            < budget.max_transparent_prevout_store_lookups@,
        budget.reached(blocks, lookups) == Some(IngestBatchCommitTrigger::BlockCount) <==> blocks
            >= budget.max_blocks@,
        budget.reached(blocks, lookups) == Some(
            IngestBatchCommitTrigger::TransparentPrevoutStoreLookups,
        ) <==> blocks < budget.max_blocks@ && lookups
            >= budget.max_transparent_prevout_store_lookups@,
{
}

/// A backfill starts right above the stored tip, or at the first block of an
/// empty store; it has nothing to do where the store has reached the end, and
/// is refused where it would leave a gap.
pub proof fn law_backfill_starts_without_a_gap(
    current_chain_epoch: Option<ChainEpoch>,
    from_height: BlockHeight,
    to_height: BlockHeight,
)
    ensures
        match (current_chain_epoch, backfill_start_of(current_chain_epoch, from_height, to_height)) {
            (None, Ok(start)) => {
                &&& from_height.0 == 1
                &&& start matches Some(start)
                &&& start.from_height.0 == 1
                &&& start.initial_tip_metadata.sapling_commitment_tree_size == 0
                &&& start.initial_tip_metadata.orchard_commitment_tree_size == 0
                &&& start.initial_tip_metadata.ironwood_commitment_tree_size == 0
            },
            (None, Err(error)) => from_height.0 != 1 && error == (
            IngestError::BackfillRequiresContiguousTipMetadata {
                from_height,
                current_tip_height: None,
            }),
            (Some(epoch), Ok(None)) => epoch.visible_tip_height.0 >= to_height.0,
            (Some(epoch), Ok(Some(start))) => {
                &&& epoch.visible_tip_height.0 < to_height.0
                &&& start.from_height.0 == epoch.visible_tip_height.0 + 1
                &&& start.initial_tip_metadata == epoch.tip_metadata
            },
            (Some(epoch), Err(error)) => {
                &&& epoch.visible_tip_height.0 < to_height.0
                &&& from_height.0 > epoch.visible_tip_height.0 + 1
                &&& error == (IngestError::BackfillRequiresContiguousTipMetadata {
                    from_height,
                    current_tip_height: Some(epoch.visible_tip_height),
                })
            },
        },
{
}

/// A run takes blocks in while it streams, commits a full batch, flushes when
/// one is due, and drains by committing what is left, flushing what is pending
/// where that is asked for, and finishing.
pub proof fn law_backfill_does_what_is_due(run: BackfillCommitLoop)
    ensures
        run.decision() is AwaitBlock <==> run.phase is Streaming,
        run.decision() is Commit <==> run.phase is Closing || (run.phase is Draining
            && run.batch.block_headers@.len() > 0),
        run.decision() is Flush <==> run.phase is FlushDue || (run.phase is Draining
            && run.batch.block_headers@.len() == 0 && run.completion_flush is FlushPending
            && run.last_commit_outcome is Some && run.flush_state.epochs_since_last_flush > 0),
{
}

/// A backfill ends with its error where it failed, with its last commit where
/// there was one, and else with the complaint that nothing was committed.
pub proof fn law_backfill_tells_its_last_commit(run: BackfillCommitLoop)
    ensures
        match run.outcome() {
            Ok(outcome) => !(run.phase is Failing) && run.last_commit_outcome == Some(outcome),
            Err(error) => {
                ||| run.phase == BackfillPhase::Failing(error)
                ||| !(run.phase is Failing) && run.last_commit_outcome is None && error
                    == IngestError::BackfillProducedNoCommit
            },
        },
{
}

} // verus!
