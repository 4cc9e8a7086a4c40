//! Admission of a bulk-catchup run: where it starts, and whether it may settle
//! the blocks it asks for.

use crate::artifact_builder::RawBlobPolicy;
use crate::artifacts::SourceChainCheckpoint;
use crate::bounds::{floored_difference, NonZeroU32, NonZeroU64};
use crate::bulk_catchup::canonical_commit::ChainEpochCommitOutcome;
use crate::chain_ingest::{ChainEpochArtifacts, ReorgWindowChange};
use crate::errors::IngestError;
use crate::ids::{
    ArtifactSchemaVersion, BlockHeight, ChainEpoch, ChainEpochId, ChainTipMetadata, Network,
    UnixTimestampMillis,
};
use vstd::prelude::*;

verus! {

/// Configuration for one bounded historical bulk-catchup run.
#[derive(Debug)]
pub struct BulkCatchupRunConfig {
    /// Network of the ingested chain.
    pub network: Network,
    /// First block height to ingest.
    pub from_height: BlockHeight,
    /// Last block height to ingest.
    pub to_height: BlockHeight,
    /// Maximum number of blocks committed in one chain epoch.
    pub canonical_batch_max_blocks: NonZeroU32,
    /// Maximum in-memory canonical artifact bytes accumulated before commit.
    pub canonical_batch_max_artifact_bytes: NonZeroU64,
    /// Maximum estimated canonical write bytes accumulated before commit.
    pub canonical_batch_max_estimated_write_bytes: NonZeroU64,
    /// Minimum batch size before estimated write bytes can close the batch.
    pub canonical_batch_min_blocks_before_estimated_write_close: NonZeroU32,
    /// Maximum connected blocks requested from the source in one segment.
    pub source_segment_max_blocks: NonZeroU32,
    /// Target response body size for adaptive source segments.
    pub source_segment_target_response_bytes: NonZeroU64,
    /// Largest response body the source may return.
    pub max_response_bytes: NonZeroU64,
    /// Maximum concurrent source segment requests.
    pub source_fetch_max_in_flight_requests: NonZeroU32,
    /// Maximum reserved response bytes across source segment requests.
    pub source_fetch_max_in_flight_bytes: NonZeroU64,
    /// Number of blocks prepared in parallel.
    pub block_prepare_concurrency: NonZeroU32,
    /// Maximum reserved bytes across active and completed block-prepare work.
    pub block_prepare_max_in_flight_artifact_bytes: NonZeroU64,
    /// Maximum artifact bytes that can accumulate while the previous batch is
    /// attaching metadata, committing, or flushing.
    pub commit_reassembly_max_queued_artifact_bytes: NonZeroU64,
    /// Epochs after which a flush is forced.
    pub flush_interval_epochs: NonZeroU32,
    /// Optional raw-byte blob write policy.
    pub raw_blob_policy: RawBlobPolicy,
    /// Tip height observed by the caller, in place of one this run observes.
    pub upstream_tip_hint: Option<BlockHeight>,
    /// Allows settling blocks inside the upstream node's current reorg window.
    pub allow_near_tip_finalize: bool,
    /// Optional starting checkpoint for an empty store.
    ///
    /// When present and the store is empty, ingest seeds a stub chain epoch at
    /// `checkpoint.height` carrying the node-supplied tip metadata, then begins
    /// at `checkpoint.height + 1`, which `from_height` must equal.
    pub checkpoint: Option<SourceChainCheckpoint>,
}

/// Where a run starts.
#[derive(Clone, Copy, Debug, PartialEq, Eq, Structural)]
pub struct BulkCatchupStart {
    pub from_height: BlockHeight,
    pub initial_tip_metadata: ChainTipMetadata,
}

/// Where a run over a range starts on top of an epoch, if the range is not covered already.
pub open spec fn start_of(
    current_chain_epoch: Option<ChainEpoch>,
    from_height: BlockHeight,
    to_height: BlockHeight,
) -> Result<Option<BulkCatchupStart>, IngestError> {
    match current_chain_epoch {
        None => if from_height.0 == 1 {
            Ok(
                Some(
                    BulkCatchupStart {
                        from_height,
                        initial_tip_metadata: ChainTipMetadata::spec_empty(),
                    },
                ),
            )
        } else {
            Err(
                IngestError::BulkCatchupRequiresContiguousTipMetadata {
                    from_height,
                    current_tip_height: None,
                },
            )
        },
        Some(epoch) => {
            let tip = epoch.visible_tip_height;
            if tip.0 >= to_height.0 {
                Ok(None)
            } else if from_height.0 <= tip.0 + 1 {
                Ok(
                    Some(
                        BulkCatchupStart {
                            from_height: BlockHeight((tip.0 + 1) as u32),
                            initial_tip_metadata: epoch.tip_metadata,
                        },
                    ),
                )
            } else {
                Err(
                    IngestError::BulkCatchupRequiresContiguousTipMetadata {
                        from_height,
                        current_tip_height: Some(tip),
                    },
                )
            }
        },
    }
}

/// Finds where a run over a range starts on top of an epoch, if the range is
/// not covered already.
pub fn bulk_catchup_start(
    current_chain_epoch: Option<ChainEpoch>,
    from_height: BlockHeight,
    to_height: BlockHeight,
) -> (start: Result<Option<BulkCatchupStart>, IngestError>)
    ensures
        start == start_of(current_chain_epoch, from_height, to_height),
{
    let epoch = match current_chain_epoch {
        Some(epoch) => epoch,
        None => {
            if from_height.value() == 1 {
                return Ok(
                    Some(
                        BulkCatchupStart {
                            from_height,
                            initial_tip_metadata: ChainTipMetadata::empty(),
                        },
                    ),
                );
            }
            return Err(
                IngestError::BulkCatchupRequiresContiguousTipMetadata {
                    from_height,
                    current_tip_height: None,
                },
            );
        },
    };
    if epoch.visible_tip_height.value() >= to_height.value() {
        return Ok(None);
    }
    if let Some(next_height) = epoch.visible_tip_height.next() {
        if from_height.value() <= next_height.value() {
            return Ok(
                Some(
                    BulkCatchupStart {
                        from_height: next_height,
                        initial_tip_metadata: epoch.tip_metadata,
                    },
                ),
            );
        }
    }
    Err(
        IngestError::BulkCatchupRequiresContiguousTipMetadata {
            from_height,
            current_tip_height: Some(epoch.visible_tip_height),
        },
    )
}

/// A run always starts right above what the store holds, with the tree sizes
/// recorded there.
pub proof fn law_run_starts_right_above_the_store(
    epoch: ChainEpoch,
    from_height: BlockHeight,
    to_height: BlockHeight,
)
    ensures
        match start_of(Some(epoch), from_height, to_height) {
            Ok(Some(start)) => {
                &&& start.from_height.0 == epoch.visible_tip_height.0 + 1
                &&& start.from_height.0 <= to_height.0
                &&& start.initial_tip_metadata == epoch.tip_metadata
            },
            Ok(None) => epoch.visible_tip_height.0 >= to_height.0,
            Err(_) => from_height.0 > epoch.visible_tip_height.0 + 1,
        },
{
}

/// Highest height that may be settled without an override.
pub open spec fn settleable_height(tip_height: BlockHeight, reorg_window_blocks: u32) -> int {
    floored_difference(tip_height.0 as int, reorg_window_blocks as int)
}

/// Rejects a range that reaches into the upstream node's current reorg window,
/// unless that is allowed explicitly.
pub fn validate_bulk_catchup_finality_bound(
    to_height: BlockHeight,
    allow_near_tip_finalize: bool,
    tip_height: BlockHeight,
    reorg_window_blocks: u32,
) -> (valid: Result<(), IngestError>)
    ensures
        valid == if allow_near_tip_finalize || to_height.0 <= settleable_height(
            tip_height,
            reorg_window_blocks,
        ) {
            Ok::<(), IngestError>(())
        } else {
            Err(
                IngestError::NearTipBulkCatchupRequiresExplicitFinalize {
                    to_height,
                    tip_height,
                    reorg_window_blocks,
                    maximum_historical_height: BlockHeight(
                        settleable_height(tip_height, reorg_window_blocks) as u32,
                    ),
                },
            )
        },
{
    if allow_near_tip_finalize {
        return Ok(());
    }
    let maximum_historical_height = BlockHeight::new(
        tip_height.value().saturating_sub(reorg_window_blocks),
    );
    if to_height.value() <= maximum_historical_height.value() {
        return Ok(());
    }
    Err(
        IngestError::NearTipBulkCatchupRequiresExplicitFinalize {
            to_height,
            tip_height,
            reorg_window_blocks,
            maximum_historical_height,
        },
    )
}

/// Returns whether a checkpoint sits inside the upstream node's reorg window.
///
/// The first reorg deeper than `tip - checkpoint_height` would exceed the
/// window with no recovery short of starting over at a deeper checkpoint.
pub fn checkpoint_within_reorg_window(
    checkpoint_height: BlockHeight,
    tip_height: BlockHeight,
    reorg_window_blocks: u32,
) -> (within: bool)
    ensures
        within == (checkpoint_height.0 > settleable_height(tip_height, reorg_window_blocks)),
{
    checkpoint_height.value() > tip_height.value().saturating_sub(reorg_window_blocks)
}

/// A height counts as inside the reorg window exactly where settling it needs an override.
pub proof fn law_window_and_settlement_agree(
    height: BlockHeight,
    tip_height: BlockHeight,
    reorg_window_blocks: u32,
)
    ensures
        height.0 > settleable_height(tip_height, reorg_window_blocks) <==> (height.0
            + reorg_window_blocks > tip_height.0 && height.0 > 0),
{
}

/// Epoch that seeds an empty store from a checkpoint.
pub open spec fn bootstrap_epoch(
    checkpoint: SourceChainCheckpoint,
    network: Network,
    artifact_schema_version: ArtifactSchemaVersion,
    created_at: UnixTimestampMillis,
) -> ChainEpoch {
    ChainEpoch {
        id: ChainEpochId(1),
        network,
        visible_tip_height: checkpoint.height,
        visible_tip_hash: checkpoint.hash,
        settled_tip_height: checkpoint.height,
        settled_tip_hash: checkpoint.hash,
        artifact_schema_version,
        tip_metadata: checkpoint.tip_metadata,
        created_at,
    }
}

/// Whether a commit seeds an empty store from a checkpoint.
pub open spec fn is_checkpoint_seed(
    artifacts: ChainEpochArtifacts,
    checkpoint: SourceChainCheckpoint,
    network: Network,
    artifact_schema_version: ArtifactSchemaVersion,
    created_at: UnixTimestampMillis,
) -> bool {
    &&& artifacts.chain_epoch == bootstrap_epoch(
        checkpoint,
        network,
        artifact_schema_version,
        created_at,
    )
    &&& artifacts.reorg_window_change == (ReorgWindowChange::AdvanceSafeTipTo {
        height: checkpoint.height,
    })
    &&& artifacts.holds_no_rows()
}

/// Builds the commit that seeds an empty store from a checkpoint.
pub fn checkpoint_seed(
    checkpoint: SourceChainCheckpoint,
    network: Network,
    artifact_schema_version: ArtifactSchemaVersion,
    created_at: UnixTimestampMillis,
) -> (seed: ChainEpochArtifacts)
    ensures
        is_checkpoint_seed(seed, checkpoint, network, artifact_schema_version, created_at),
{
    let chain_epoch = ChainEpoch {
        id: ChainEpochId::new(1),
        network,
        visible_tip_height: checkpoint.height,
        visible_tip_hash: checkpoint.hash,
        settled_tip_height: checkpoint.height,
        settled_tip_hash: checkpoint.hash,
        artifact_schema_version,
        tip_metadata: checkpoint.tip_metadata,
        created_at,
    };
    ChainEpochArtifacts::without_rows(
        chain_epoch,
        ReorgWindowChange::AdvanceSafeTipTo { height: checkpoint.height },
    )
}

/// Returns whether a range that starts at a height continues a checkpoint.
/// Nothing continues one at the last possible height.
pub fn continues_checkpoint(
    checkpoint_height: BlockHeight,
    from_height: BlockHeight,
) -> (continues: bool)
    ensures
        continues == (checkpoint_height.spec_next() == Some(from_height)),
{
    match checkpoint_height.next() {
        Some(next) => from_height == next,
        None => false,
    }
}

/// Decides how an empty store is seeded from the operator's checkpoint, so
/// that a run can start at `checkpoint.height + 1` without replaying every
/// block from the first one on.
///
/// Nothing is seeded where no checkpoint is given or the store already has an
/// epoch. `created_at` is read only where an epoch is built.
pub fn bootstrap_from_checkpoint_if_needed(
    store_has_epoch: bool,
    network: Network,
    checkpoint: Option<SourceChainCheckpoint>,
    from_height: BlockHeight,
    artifact_schema_version: ArtifactSchemaVersion,
    created_at: Result<UnixTimestampMillis, IngestError>,
) -> (seed: Result<Option<ChainEpochArtifacts>, IngestError>)
    ensures
        match checkpoint {
            None => seed == Ok::<Option<ChainEpochArtifacts>, IngestError>(None),
            Some(checkpoint) => if store_has_epoch {
                seed == Ok::<Option<ChainEpochArtifacts>, IngestError>(None)
            } else if checkpoint.height.spec_next() != Some(from_height) {
                seed == Err::<Option<ChainEpochArtifacts>, IngestError>(
                    IngestError::BulkCatchupCheckpointMisaligned {
                        checkpoint_height: checkpoint.height,
                        from_height,
                    },
                )
            } else {
                match created_at {
                    Err(error) => seed == Err::<Option<ChainEpochArtifacts>, IngestError>(error),
                    Ok(created_at) => {
                        &&& seed matches Ok(Some(artifacts))
                        &&& is_checkpoint_seed(
                            artifacts,
                            checkpoint,
                            network,
                            artifact_schema_version,
                            created_at,
                        )
                    },
                }
            },
        },
{
    let checkpoint = match checkpoint {
        Some(checkpoint) => checkpoint,
        None => {
            return Ok(None);
        },
    };
    if store_has_epoch {
        return Ok(None);
    }
    if !continues_checkpoint(checkpoint.height, from_height) {
        return Err(
            IngestError::BulkCatchupCheckpointMisaligned {
                checkpoint_height: checkpoint.height,
                from_height,
            },
        );
    }
    match created_at {
        Ok(created_at) => Ok(
            Some(checkpoint_seed(checkpoint, network, artifact_schema_version, created_at)),
        ),
        Err(error) => Err(error),
    }
}

/// A run that follows a seeded checkpoint starts right above it, with the tree
/// sizes of the checkpoint. The last possible height has nothing above it.
pub proof fn law_seeded_checkpoint_is_continued(
    checkpoint: SourceChainCheckpoint,
    network: Network,
    artifact_schema_version: ArtifactSchemaVersion,
    created_at: UnixTimestampMillis,
    to_height: BlockHeight,
)
    requires
        checkpoint.height.0 < to_height.0,
    ensures
        start_of(
            Some(bootstrap_epoch(checkpoint, network, artifact_schema_version, created_at)),
            checkpoint.height.spec_next()->0,
            to_height,
        ) == Ok::<Option<BulkCatchupStart>, IngestError>(
            Some(
                BulkCatchupStart {
                    from_height: checkpoint.height.spec_next()->0,
                    initial_tip_metadata: checkpoint.tip_metadata,
                },
            ),
        ),
{
}

/// Admits a run on top of the current epoch: its last height must be one that
/// may be settled, and its first one must continue what the store holds.
///
/// Returns nothing where the range is covered already.
pub fn admit_bulk_catchup(
    config: &BulkCatchupRunConfig,
    current_chain_epoch: Option<ChainEpoch>,
    node_tip_height: BlockHeight,
    reorg_window_blocks: u32,
) -> (admitted: Result<Option<BulkCatchupStart>, IngestError>)
    ensures
        admitted == if config.allow_near_tip_finalize || config.to_height.0 <= settleable_height(
            node_tip_height,
            reorg_window_blocks,
        ) {
            start_of(current_chain_epoch, config.from_height, config.to_height)
        } else {
            Err(
                IngestError::NearTipBulkCatchupRequiresExplicitFinalize {
                    to_height: config.to_height,
                    tip_height: node_tip_height,
                    reorg_window_blocks,
                    maximum_historical_height: BlockHeight(
                        settleable_height(node_tip_height, reorg_window_blocks) as u32,
                    ),
                },
            )
        },
{
    match validate_bulk_catchup_finality_bound(
        config.to_height,
        config.allow_near_tip_finalize,
        node_tip_height,
        reorg_window_blocks,
    ) {
        Ok(_) => {},
        Err(error) => {
            return Err(error);
        },
    }
    bulk_catchup_start(current_chain_epoch, config.from_height, config.to_height)
}

/// Why the writer is ready or not.
#[derive(Clone, Copy, Debug, PartialEq, Eq, Structural)]
pub enum ReadinessCause {
    /// The writer has reached the upstream tip.
    Ready,
    /// The writer is behind the upstream tip.
    Syncing { lag_blocks: Option<u64> },
}

/// What the writer reports about itself.
#[derive(Clone, Copy, Debug, PartialEq, Eq, Structural)]
pub struct ReadinessState {
    pub cause: ReadinessCause,
    pub current_height: Option<u32>,
    pub target_height: Option<u32>,
}

/// Readiness after a run, against the upstream tip where it is known.
pub open spec fn readiness_of(
    upstream_tip_hint: Option<BlockHeight>,
    current_height: Option<u32>,
) -> ReadinessState {
    match (current_height, upstream_tip_hint) {
        (Some(current), Some(tip)) => if tip.0 > current {
            ReadinessState {
                cause: ReadinessCause::Syncing { lag_blocks: Some((tip.0 - current) as u64) },
                current_height: Some(current),
                target_height: Some(tip.0),
            }
        } else {
            ReadinessState {
                cause: ReadinessCause::Ready,
                current_height: Some(current),
                target_height: Some(current),
            }
        },
        (current, _) => ReadinessState {
            cause: ReadinessCause::Ready,
            current_height: current,
            target_height: current,
        },
    }
}

/// Reports readiness after a run, against the upstream tip where it is known.
pub fn bulk_catchup_readiness_state(
    upstream_tip_hint: Option<BlockHeight>,
    current_height: Option<u32>,
) -> (state: ReadinessState)
    ensures
        state == readiness_of(upstream_tip_hint, current_height),
{
    let current: u32 = match current_height {
        Some(current) => current,
        None => {
            return ReadinessState {
                cause: ReadinessCause::Ready,
                current_height: None,
                target_height: None,
            };
        },
    };
    let ready = ReadinessState {
        cause: ReadinessCause::Ready,
        current_height: Some(current),
        target_height: Some(current),
    };
    let upstream_tip: u32 = match upstream_tip_hint {
        Some(tip) => tip.value(),
        None => {
            return ready;
        },
    };
    let lag_blocks: u32 = upstream_tip.saturating_sub(current);
    if lag_blocks == 0 {
        return ready;
    }
    ReadinessState {
        cause: ReadinessCause::Syncing { lag_blocks: Some(lag_blocks as u64) },
        current_height: Some(current),
        target_height: Some(upstream_tip),
    }
}

/// Returns the tip that a finished run reports: that of its last commit, or
/// that of the store where the range was covered already.
pub fn finished_run_tip(
    committed: Option<ChainEpochCommitOutcome>,
    stored: Option<ChainEpoch>,
) -> (tip_height: Option<u32>)
    ensures
        tip_height == match (committed, stored) {
            (Some(commit), _) => Some(commit.chain_epoch.visible_tip_height.0),
            (None, Some(epoch)) => Some(epoch.visible_tip_height.0),
            (None, None) => None,
        },
{
    match committed {
        Some(commit) => Some(commit.chain_epoch.visible_tip_height.value()),
        None => match stored {
            Some(epoch) => Some(epoch.visible_tip_height.value()),
            None => None,
        },
    }
}

/// An empty store is filled from the first block on, with empty trees; any
/// other start is refused by name.
pub proof fn law_empty_store_starts_at_the_first_block(
    from_height: BlockHeight,
    to_height: BlockHeight,
)
    ensures
        match start_of(None, from_height, to_height) {
            Ok(start) => {
                &&& from_height.0 == 1
                &&& start matches Some(start)
                &&& start.from_height.0 == 1
                &&& start.initial_tip_metadata.sapling_commitment_tree_size == 0
                &&& start.initial_tip_metadata.orchard_commitment_tree_size == 0
                &&& start.initial_tip_metadata.ironwood_commitment_tree_size == 0
            },
            Err(error) => from_height.0 != 1 && error == (
            IngestError::BulkCatchupRequiresContiguousTipMetadata {
                from_height,
                current_tip_height: None,
            }),
        },
{
}

/// A filled store is continued exactly where it is below the end and the run
/// leaves no gap above it; a gap is refused by name.
pub proof fn law_filled_store_is_continued_without_a_gap(
    epoch: ChainEpoch,
    from_height: BlockHeight,
    to_height: BlockHeight,
)
    ensures
        ({
            let start = start_of(Some(epoch), from_height, to_height);
            let tip = epoch.visible_tip_height;
            &&& start == Ok::<Option<BulkCatchupStart>, IngestError>(None) <==> tip.0
                >= to_height.0
            &&& (start is Ok && start->Ok_0 is Some) <==> tip.0 < to_height.0 && from_height.0
                <= tip.0 + 1
            &&& start matches Err(error) ==> error == (
            IngestError::BulkCatchupRequiresContiguousTipMetadata {
                from_height,
                current_tip_height: Some(tip),
            })
        }),
{
}

/// A height can be settled exactly where the reorg window lies above it.
pub proof fn law_settled_heights_stand_below_the_window(
    tip_height: BlockHeight,
    reorg_window_blocks: u32,
)
    ensures
        tip_height.0 >= reorg_window_blocks ==> settleable_height(tip_height, reorg_window_blocks)
            + reorg_window_blocks == tip_height.0,
        tip_height.0 <= reorg_window_blocks ==> settleable_height(tip_height, reorg_window_blocks)
            == 0,
{
}

/// The epoch of a checkpoint is the first one; its visible and settled tips
/// are the checkpoint, and it carries the checkpoint's tree sizes.
pub proof fn law_bootstrap_epoch_stands_at_its_checkpoint(
    checkpoint: SourceChainCheckpoint,
    network: Network,
    artifact_schema_version: ArtifactSchemaVersion,
    created_at: UnixTimestampMillis,
)
    ensures
        ({
            let epoch = bootstrap_epoch(checkpoint, network, artifact_schema_version, created_at);
            &&& epoch.id.0 == 1
            &&& epoch.network == network
            &&& epoch.visible_tip_height == checkpoint.height
            &&& epoch.visible_tip_hash == checkpoint.hash
            &&& epoch.settled_tip_height == checkpoint.height
            &&& epoch.settled_tip_hash == checkpoint.hash
            &&& epoch.artifact_schema_version == artifact_schema_version
            &&& epoch.tip_metadata == checkpoint.tip_metadata
            &&& epoch.created_at == created_at
        }),
{
}

/// The seed of a checkpoint commits that epoch, settles up to the checkpoint
/// and writes no block.
pub proof fn law_checkpoint_seed_writes_no_block(
    artifacts: ChainEpochArtifacts,
    checkpoint: SourceChainCheckpoint,
    network: Network,
    artifact_schema_version: ArtifactSchemaVersion,
    created_at: UnixTimestampMillis,
)
    requires
        is_checkpoint_seed(artifacts, checkpoint, network, artifact_schema_version, created_at),
    ensures
        artifacts.chain_epoch.id.0 == 1,
        artifacts.chain_epoch.visible_tip_height == checkpoint.height,
        artifacts.chain_epoch.visible_tip_hash == checkpoint.hash,
        artifacts.chain_epoch.settled_tip_height == checkpoint.height,
        artifacts.chain_epoch.settled_tip_hash == checkpoint.hash,
        artifacts.chain_epoch.tip_metadata == checkpoint.tip_metadata,
        artifacts.chain_epoch.network == network,
        artifacts.chain_epoch.artifact_schema_version == artifact_schema_version,
        artifacts.chain_epoch.created_at == created_at,
        artifacts.reorg_window_change == (ReorgWindowChange::AdvanceSafeTipTo {
            height: checkpoint.height,
        }),
        artifacts.block_headers@.len() == 0,
        artifacts.compact_blocks@.len() == 0,
        artifacts.transaction_facts@.len() == 0,
        artifacts.transparent_spend_facts@.len() == 0,
{
}

/// A writer is syncing exactly where both heights are known and the upstream
/// tip is higher; it tells how many blocks are missing and where it stands.
pub proof fn law_writer_is_ready_at_the_upstream_tip(
    upstream_tip_hint: Option<BlockHeight>,
    current_height: Option<u32>,
)
    ensures
        ({
            let state = readiness_of(upstream_tip_hint, current_height);
            let behind = upstream_tip_hint is Some && current_height is Some && (
            upstream_tip_hint->0).0 > current_height->0;
            &&& state.current_height == current_height
            &&& behind ==> {
                &&& state.target_height == Some((upstream_tip_hint->0).0)
                &&& state.cause matches ReadinessCause::Syncing { lag_blocks }
                &&& lag_blocks matches Some(lag)
                &&& current_height->0 + lag == (upstream_tip_hint->0).0
            }
            &&& !behind ==> state.cause == ReadinessCause::Ready && state.target_height
                == current_height
        }),
{
}

} // verus!
