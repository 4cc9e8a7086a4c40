//! One canonical commit with its attachments.
//!
//! A closed batch gets the subtree roots it completed and its tree-state
//! checkpoints from the node, its remaining prevouts from the store, and is
//! then committed and, where due, flushed. [`CanonicalCommit`] decides what is
//! needed next; whoever drives it performs the request and hands the answer back.

use super::flush::BulkCatchupFlushState;
use crate::artifacts::{
    BlockHeaderArtifact, SourceTreeState, TransparentOutputArtifact, TreeStateArtifact,
};
use crate::batch::{clipped, CanonicalBatch, CanonicalBatchCost};
use crate::bounds::NonZeroU32;
use crate::chain_ingest::{
    advanced_protocols, append_subtree_root_artifacts, asks_for_new_subtrees, fetch_order,
    joined_by_store, missing_store_outpoints, outputs_of_batch, spend_facts_of, spend_references,
    stage_ingest_commit, subtree_root_indexes_after, subtree_root_requests, unknown_outpoints,
    ChainEpochArtifacts, IngestSubtreeRootIndexes, ReorgWindowChange, SourceSubtreeRoots,
};
use crate::errors::{IngestError, SourceError};
use crate::ids::{
    ArtifactSchemaVersion, BlockHeight, BlockId, ChainEpoch, ChainEpochId, ChainTipMetadata,
    Network, ShieldedProtocol, SubtreeRootRange, TransparentOutPoint, UnixTimestampMillis,
};
use crate::retry::IngestRetryState;
use vstd::prelude::*;

verus! {

/// Whether a tree state of some height is among some.
pub open spec fn has_tree_state(tree_states: Seq<TreeStateArtifact>, height: BlockHeight) -> bool {
    exists|i: int| 0 <= i < tree_states.len() && (#[trigger] tree_states[i]).height == height
}

/// Blocks of a run that stand on a checkpoint stride and have no tree state yet.
pub open spec fn stride_targets(
    headers: Seq<BlockHeaderArtifact>,
    tree_states: Seq<TreeStateArtifact>,
    stride: u32,
) -> Seq<BlockId>
    decreases headers.len(),
{
    if headers.len() == 0 {
        Seq::empty()
    } else {
        let before = stride_targets(headers.drop_last(), tree_states, stride);
        let header = headers.last();
        if header.height.0 % stride == 0 && !has_tree_state(tree_states, header.height) {
            before.push(BlockId { height: header.height, hash: header.block_hash })
        } else {
            before
        }
    }
}

/// Blocks of a batch that get a tree-state checkpoint: those on the stride,
/// and always the last one.
pub open spec fn checkpoint_targets(
    headers: Seq<BlockHeaderArtifact>,
    tree_states: Seq<TreeStateArtifact>,
    stride: u32,
) -> Seq<BlockId> {
    let targets = stride_targets(headers, tree_states, stride);
    if headers.len() == 0 {
        targets
    } else {
        let tip = headers.last();
        if (targets.len() > 0 && targets.last().height == tip.height) || has_tree_state(
            tree_states,
            tip.height,
        ) {
            targets
        } else {
            targets.push(BlockId { height: tip.height, hash: tip.block_hash })
        }
    }
}

fn has_tree_state_at(tree_states: &Vec<TreeStateArtifact>, height: BlockHeight) -> (has: bool)
    ensures
        has == has_tree_state(tree_states@, height),
{
    let mut i: usize = 0;
    while i < tree_states.len()
        invariant
            0 <= i <= tree_states@.len(),
            forall|k: int| 0 <= k < i ==> (#[trigger] tree_states@[k]).height != height,
        decreases tree_states@.len() - i,
    {
        if tree_states[i].height == height {
            assert(tree_states@[i as int].height == height);
            return true;
        }
        i += 1;
    }
    false
}

/// Lists the blocks of a batch that get a tree-state checkpoint.
pub fn tree_state_checkpoint_targets(
    batch: &CanonicalBatch,
    stride: NonZeroU32,
) -> (targets: Vec<BlockId>)
    ensures
        targets@ == checkpoint_targets(batch.block_headers@, batch.tree_states@, stride@),
{
    let headers = &batch.block_headers;
    let every: u32 = stride.get();
    let mut targets: Vec<BlockId> = Vec::new();
    let mut i: usize = 0;
    while i < headers.len()
        invariant
            0 <= i <= headers@.len(),
            *headers == batch.block_headers,
            every == stride@,
            every > 0,
            targets@ == stride_targets(headers@.take(i as int), batch.tree_states@, every),
        decreases headers@.len() - i,
    {
        assert(headers@.take(i + 1).drop_last() =~= headers@.take(i as int));
        if headers[i].height.value() % every == 0 && !has_tree_state_at(
            &batch.tree_states,
            headers[i].height,
        ) {
            targets.push(BlockId::new(headers[i].height, headers[i].block_hash));
        }
        i += 1;
    }
    assert(headers@.take(i as int) =~= headers@);
    let count: usize = headers.len();
    if count > 0 {
        let tip = &headers[count - 1];
        let target_count: usize = targets.len();
        let is_last_target = target_count > 0 && targets[target_count - 1].height == tip.height;
        if !is_last_target && !has_tree_state_at(&batch.tree_states, tip.height) {
            targets.push(BlockId::new(tip.height, tip.block_hash));
        }
    }
    targets
}

/// Epoch that committing a batch creates.
pub open spec fn epoch_of_batch(
    batch: CanonicalBatch,
    network: Network,
    chain_epoch_id: ChainEpochId,
    artifact_schema_version: ArtifactSchemaVersion,
    created_at: UnixTimestampMillis,
) -> ChainEpoch {
    let tip = batch.block_headers@.last();
    ChainEpoch {
        id: chain_epoch_id,
        network,
        visible_tip_height: tip.height,
        visible_tip_hash: tip.block_hash,
        settled_tip_height: tip.height,
        settled_tip_hash: tip.block_hash,
        artifact_schema_version,
        tip_metadata: batch.tip_metadata->0,
        created_at,
    }
}

/// Builds the epoch that committing a batch creates: its last block is both
/// the visible and the settled tip.
pub fn bulk_commit_epoch(
    batch: &CanonicalBatch,
    network: Network,
    chain_epoch_id: ChainEpochId,
    artifact_schema_version: ArtifactSchemaVersion,
    created_at: Result<UnixTimestampMillis, IngestError>,
) -> (epoch: Result<ChainEpoch, IngestError>)
    ensures
        epoch == if batch.block_headers@.len() == 0 || batch.tip_metadata is None {
            Err::<ChainEpoch, IngestError>(IngestError::EmptyCanonicalBatch)
        } else {
            match created_at {
                Err(error) => Err(error),
                Ok(created_at) => Ok(
                    epoch_of_batch(
                        *batch,
                        network,
                        chain_epoch_id,
                        artifact_schema_version,
                        created_at,
                    ),
                ),
            }
        },
{
    let count: usize = batch.block_headers.len();
    if count == 0 {
        return Err(IngestError::EmptyCanonicalBatch);
    }
    let tip_block = &batch.block_headers[count - 1];
    let tip_metadata = match batch.tip_metadata {
        Some(tip_metadata) => tip_metadata,
        None => {
            return Err(IngestError::EmptyCanonicalBatch);
        },
    };
    let created_at = match created_at {
        Ok(created_at) => created_at,
        Err(error) => {
            return Err(error);
        },
    };
    Ok(
        ChainEpoch {
            id: chain_epoch_id,
            network,
            visible_tip_height: tip_block.height,
            visible_tip_hash: tip_block.block_hash,
            settled_tip_height: tip_block.height,
            settled_tip_hash: tip_block.block_hash,
            artifact_schema_version,
            tip_metadata,
            created_at,
        },
    )
}

/// What the store answers to a commit.
#[derive(Clone, Copy, Debug, PartialEq, Eq)]
pub struct ChainEpochCommitOutcome {
    pub chain_epoch: ChainEpoch,
}

/// A closed batch and what its commit carries along.
#[derive(Debug)]
pub struct CanonicalCommitRequest {
    pub batch: CanonicalBatch,
    pub next_subtree_root_indexes: IngestSubtreeRootIndexes,
    pub retry_state: IngestRetryState,
    pub flush_state: BulkCatchupFlushState,
    pub chain_epoch_id: ChainEpochId,
}

/// A batch that was committed.
#[derive(Debug)]
pub struct CommittedCanonicalBatch {
    pub commit_outcome: ChainEpochCommitOutcome,
    pub next_subtree_root_indexes: IngestSubtreeRootIndexes,
    pub retry_state: IngestRetryState,
    pub flush_state: BulkCatchupFlushState,
}

/// A batch that could not be committed.
#[derive(Debug)]
pub struct CanonicalCommitFailure {
    pub error: IngestError,
    pub retry_state: IngestRetryState,
    pub flush_state: BulkCatchupFlushState,
}

/// What a commit needs from the node next.
#[derive(Clone, Copy, Debug, PartialEq, Eq)]
pub enum AttachmentRequest {
    /// Roots of the subtrees that the batch completed.
    SubtreeRoots(SubtreeRootRange),
    /// Tree state at a block of the batch.
    TreeState(BlockId),
}

/// One commit on its way to the store.
#[derive(Debug)]
pub struct CanonicalCommit {
    pub batch: CanonicalBatch,
    pub updated_subtree_root_indexes: IngestSubtreeRootIndexes,
    pub retry_state: IngestRetryState,
    pub flush_state: BulkCatchupFlushState,
    pub chain_epoch_id: ChainEpochId,
    pub subtree_root_requests: Vec<SubtreeRootRange>,
    pub answered_subtree_root_requests: usize,
    pub tree_state_targets: Vec<BlockId>,
    pub answered_tree_state_targets: usize,
    pub commit_outcome: Option<ChainEpochCommitOutcome>,
}

/// Whether requests ask for the subtrees a batch completed, in fetch order.
pub open spec fn are_subtree_requests(
    requests: Seq<SubtreeRootRange>,
    tip_metadata: ChainTipMetadata,
    indexes: IngestSubtreeRootIndexes,
) -> bool {
    let protocols = advanced_protocols(fetch_order(), tip_metadata, indexes);
    &&& requests.len() == protocols.len()
    &&& forall|i: int|
        0 <= i < requests.len() ==> asks_for_new_subtrees(
            #[trigger] requests[i],
            protocols[i],
            tip_metadata,
            indexes,
        )
}

/// Whether indexes follow every subtree completed at a tip.
pub open spec fn are_indexes_after(
    after: IngestSubtreeRootIndexes,
    tip_metadata: ChainTipMetadata,
    indexes: IngestSubtreeRootIndexes,
) -> bool {
    forall|protocol: ShieldedProtocol|
        (#[trigger] after.at(protocol)).0 == if tip_metadata.completed_subtrees(protocol)
            > indexes.at(protocol).0 {
            tip_metadata.completed_subtrees(protocol)
        } else {
            indexes.at(protocol).0
        }
}

impl CanonicalCommit {
    /// Whether the answers counted so far are among those asked for.
    pub open spec fn well_formed(self) -> bool {
        &&& self.answered_subtree_root_requests <= self.subtree_root_requests@.len()
        &&& self.answered_tree_state_targets <= self.tree_state_targets@.len()
    }

    /// What is needed from the node next, if anything.
    pub open spec fn next_request(self) -> Option<AttachmentRequest> {
        if self.answered_subtree_root_requests < self.subtree_root_requests@.len() {
            Some(
                AttachmentRequest::SubtreeRoots(
                    self.subtree_root_requests@[self.answered_subtree_root_requests as int],
                ),
            )
        } else if self.answered_tree_state_targets < self.tree_state_targets@.len() {
            Some(
                AttachmentRequest::TreeState(
                    self.tree_state_targets@[self.answered_tree_state_targets as int],
                ),
            )
        } else {
            None
        }
    }

    /// Whether everything but the batch and the answers is that of another state.
    pub open spec fn carries_on(self, before: Self) -> bool {
        &&& self.updated_subtree_root_indexes == before.updated_subtree_root_indexes
        &&& self.retry_state == before.retry_state
        &&& self.flush_state == before.flush_state
        &&& self.chain_epoch_id == before.chain_epoch_id
        &&& self.subtree_root_requests@ == before.subtree_root_requests@
        &&& self.tree_state_targets@ == before.tree_state_targets@
        &&& self.commit_outcome == before.commit_outcome
    }

    /// Starts the commit of a closed batch.
    ///
    /// Tree states are attached only where the node supports them.
    pub fn begin(
        request: CanonicalCommitRequest,
        supports_tree_state: bool,
        tree_state_checkpoint_stride: NonZeroU32,
    ) -> (begun: Result<Self, CanonicalCommitFailure>)
        ensures
            match begun {
                Ok(commit) => {
                    &&& request.batch.tip_metadata is Some
                    &&& commit.well_formed()
                    &&& commit.batch == request.batch
                    &&& commit.retry_state == request.retry_state
                    &&& commit.flush_state == request.flush_state
                    &&& commit.chain_epoch_id == request.chain_epoch_id
                    &&& are_subtree_requests(
                        commit.subtree_root_requests@,
                        request.batch.tip_metadata->0,
                        request.next_subtree_root_indexes,
                    )
                    &&& are_indexes_after(
                        commit.updated_subtree_root_indexes,
                        request.batch.tip_metadata->0,
                        request.next_subtree_root_indexes,
                    )
                    &&& commit.answered_subtree_root_requests == 0
                    &&& commit.tree_state_targets@ == if supports_tree_state {
                        checkpoint_targets(
                            request.batch.block_headers@,
                            request.batch.tree_states@,
                            tree_state_checkpoint_stride@,
                        )
                    } else {
                        Seq::empty()
                    }
                    &&& commit.answered_tree_state_targets == 0
                    &&& commit.commit_outcome is None
                },
                Err(failure) => {
                    &&& request.batch.tip_metadata is None
                    &&& failure.error == IngestError::EmptyCanonicalBatch
                    &&& failure.retry_state == request.retry_state
                    &&& failure.flush_state == request.flush_state
                },
            },
    {
        let CanonicalCommitRequest {
            batch,
            next_subtree_root_indexes,
            retry_state,
            flush_state,
            chain_epoch_id,
        } = request;
        let requests = match subtree_root_requests(&batch, next_subtree_root_indexes) {
            Ok(requests) => requests,
            Err(error) => {
                return Err(CanonicalCommitFailure { error, retry_state, flush_state });
            },
        };
        let tip_metadata = match batch.tip_metadata {
            Some(tip_metadata) => tip_metadata,
            None => {
                return Err(
                    CanonicalCommitFailure {
                        error: IngestError::EmptyCanonicalBatch,
                        retry_state,
                        flush_state,
                    },
                );
            },
        };
        let updated_subtree_root_indexes = subtree_root_indexes_after(
            tip_metadata,
            next_subtree_root_indexes,
        );
        let tree_state_targets: Vec<BlockId> = if supports_tree_state {
            tree_state_checkpoint_targets(&batch, tree_state_checkpoint_stride)
        } else {
            Vec::new()
        };
        Ok(
            CanonicalCommit {
                batch,
                updated_subtree_root_indexes,
                retry_state,
                flush_state,
                chain_epoch_id,
                subtree_root_requests: requests,
                answered_subtree_root_requests: 0,
                tree_state_targets,
                answered_tree_state_targets: 0,
                commit_outcome: None,
            },
        )
    }

    /// Returns what is needed from the node next, if anything.
    pub fn next_attachment(&self) -> (request: Option<AttachmentRequest>)
        ensures
            request == self.next_request(),
    {
        if self.answered_subtree_root_requests < self.subtree_root_requests.len() {
            Some(
                AttachmentRequest::SubtreeRoots(
                    self.subtree_root_requests[self.answered_subtree_root_requests],
                ),
            )
        } else if self.answered_tree_state_targets < self.tree_state_targets.len() {
            Some(
                AttachmentRequest::TreeState(
                    self.tree_state_targets[self.answered_tree_state_targets],
                ),
            )
        } else {
            None
        }
    }

    /// Attaches the subtree roots that were asked for.
    pub fn accept_subtree_roots(
        &mut self,
        fetched: Result<SourceSubtreeRoots, IngestError>,
    ) -> (accepted: Result<(), IngestError>)
        requires
            old(self).well_formed(),
            old(self).next_request() is Some,
            old(self).next_request()->0 is SubtreeRoots,
        ensures
            final(self).well_formed(),
            final(self).carries_on(*old(self)),
            final(self).answered_tree_state_targets == old(self).answered_tree_state_targets,
            final(self).batch.keeps_block_rows_of(old(self).batch),
            final(self).batch.cost() == old(self).batch.cost(),
            final(self).batch.tree_states@ == old(self).batch.tree_states@,
            final(self).batch.final_note_commitment_roots@ == old(
                self,
            ).batch.final_note_commitment_roots@,
            final(self).batch.transparent_spend_facts@ == old(
                self,
            ).batch.transparent_spend_facts@,
            match fetched {
                Err(error) => {
                    &&& accepted == Err::<(), IngestError>(error)
                    &&& final(self).batch.subtree_roots@ == old(self).batch.subtree_roots@
                    &&& final(self).answered_subtree_root_requests == old(
                        self,
                    ).answered_subtree_root_requests
                },
                Ok(roots) => {
                    let range = old(self).subtree_root_requests@[old(
                        self,
                    ).answered_subtree_root_requests as int];
                    let headers = old(self).batch.block_headers@;
                    let unbound = crate::chain_ingest::first_unbound_root(
                        headers,
                        roots.subtree_roots@,
                    );
                    if roots.subtree_roots@.len() < range.max_entries@ {
                        &&& accepted == Err::<(), IngestError>(
                            IngestError::SubtreeRootsUnavailable {
                                protocol: roots.protocol,
                                start_index: roots.start_index,
                                expected_count: range.max_entries@,
                                actual_count: roots.subtree_roots@.len() as usize,
                            },
                        )
                        &&& final(self).batch.subtree_roots@ == old(self).batch.subtree_roots@
                        &&& final(self).answered_subtree_root_requests == old(
                            self,
                        ).answered_subtree_root_requests
                    } else {
                        &&& final(self).batch.subtree_roots@ == old(self).batch.subtree_roots@
                            + crate::chain_ingest::bound_roots(
                            headers,
                            roots.protocol,
                            roots.subtree_roots@,
                            unbound,
                        )
                        &&& if unbound < roots.subtree_roots@.len() {
                            let missing = roots.subtree_roots@[unbound];
                            &&& accepted == Err::<(), IngestError>(
                                IngestError::SubtreeRootCompletingBlockMissing {
                                    protocol: roots.protocol,
                                    subtree_index: missing.subtree_index,
                                    completing_block_height: missing.completing_block_height,
                                },
                            )
                            &&& final(self).answered_subtree_root_requests == old(
                                self,
                            ).answered_subtree_root_requests
                        } else {
                            &&& accepted is Ok
                            &&& final(self).answered_subtree_root_requests == old(
                                self,
                            ).answered_subtree_root_requests + 1
                        }
                    }
                },
            },
    {
        let _request_count: usize = self.subtree_root_requests.len();
        let expected_count: u32 =
            self.subtree_root_requests[self.answered_subtree_root_requests].max_entries.get();
        let roots = match fetched {
            Ok(roots) => roots,
            Err(error) => {
                return Err(error);
            },
        };
        match append_subtree_root_artifacts(&mut self.batch, roots, expected_count) {
            Ok(_) => {
                self.answered_subtree_root_requests = self.answered_subtree_root_requests + 1;
                Ok(())
            },
            Err(error) => Err(error),
        }
    }

    /// Attaches the tree state that was asked for.
    ///
    /// A node that turns out not to support tree states ends their attachment
    /// without failing the commit.
    pub fn accept_tree_state(
        &mut self,
        fetched: Result<SourceTreeState, IngestError>,
    ) -> (accepted: Result<(), IngestError>)
        requires
            old(self).well_formed(),
            old(self).next_request() is Some,
            old(self).next_request()->0 is TreeState,
        ensures
            final(self).well_formed(),
            final(self).carries_on(*old(self)),
            final(self).answered_subtree_root_requests == old(
                self,
            ).answered_subtree_root_requests,
            final(self).batch.keeps_block_rows_of(old(self).batch),
            final(self).batch.subtree_roots@ == old(self).batch.subtree_roots@,
            final(self).batch.final_note_commitment_roots@ == old(
                self,
            ).batch.final_note_commitment_roots@,
            final(self).batch.transparent_spend_facts@ == old(
                self,
            ).batch.transparent_spend_facts@,
            match fetched {
                Ok(tree_state) => {
                    &&& accepted is Ok
                    &&& final(self).answered_tree_state_targets == old(
                        self,
                    ).answered_tree_state_targets + 1
                    &&& final(self).batch.tree_states@ == old(self).batch.tree_states@.push(
                        TreeStateArtifact {
                            height: tree_state.block_id.height,
                            block_hash: tree_state.block_id.hash,
                            payload_bytes: tree_state.payload_bytes,
                        },
                    )
                    &&& final(self).batch.cost() == (CanonicalBatchCost {
                        artifact_bytes: clipped(
                            old(self).batch.artifact_bytes + tree_state.payload_bytes@.len(),
                        ) as usize,
                        ..old(self).batch.cost()
                    })
                },
                Err(IngestError::Source(SourceError::NodeCapabilityMissing { .. })) => {
                    &&& accepted is Ok
                    &&& final(self).answered_tree_state_targets == old(
                        self,
                    ).tree_state_targets@.len()
                    &&& final(self).batch.tree_states@ == old(self).batch.tree_states@
                    &&& final(self).batch.cost() == old(self).batch.cost()
                },
                Err(error) => {
                    &&& accepted == Err::<(), IngestError>(error)
                    &&& final(self).answered_tree_state_targets == old(
                        self,
                    ).answered_tree_state_targets
                    &&& final(self).batch.tree_states@ == old(self).batch.tree_states@
                    &&& final(self).batch.cost() == old(self).batch.cost()
                },
            },
    {
        let target_count: usize = self.tree_state_targets.len();
        match fetched {
            Ok(tree_state) => {
                self.batch.push_tree_state_checkpoint(
                    TreeStateArtifact {
                        height: tree_state.block_id.height,
                        block_hash: tree_state.block_id.hash,
                        payload_bytes: tree_state.payload_bytes,
                    },
                );
                self.answered_tree_state_targets = self.answered_tree_state_targets + 1;
                Ok(())
            },
            Err(IngestError::Source(SourceError::NodeCapabilityMissing { .. })) => {
                self.answered_tree_state_targets = target_count;
                Ok(())
            },
            Err(error) => Err(error),
        }
    }

    /// Builds the epoch that this commit creates.
    pub fn chain_epoch(
        &self,
        network: Network,
        artifact_schema_version: ArtifactSchemaVersion,
        created_at: Result<UnixTimestampMillis, IngestError>,
    ) -> (epoch: Result<ChainEpoch, IngestError>)
        ensures
            epoch == if self.batch.block_headers@.len() == 0 || self.batch.tip_metadata is None {
                Err::<ChainEpoch, IngestError>(IngestError::EmptyCanonicalBatch)
            } else {
                match created_at {
                    Err(error) => Err(error),
                    Ok(created_at) => Ok(
                        epoch_of_batch(
                            self.batch,
                            network,
                            self.chain_epoch_id,
                            artifact_schema_version,
                            created_at,
                        ),
                    ),
                }
            },
    {
        bulk_commit_epoch(
            &self.batch,
            network,
            self.chain_epoch_id,
            artifact_schema_version,
            created_at,
        )
    }

    /// Lists the outputs that only the store can provide.
    pub fn store_outpoints(&self) -> (outpoints: Vec<TransparentOutPoint>)
        ensures
            outpoints@ == unknown_outpoints(
                spend_references(self.batch.transaction_facts@),
                outputs_of_batch(self.batch),
            ),
    {
        missing_store_outpoints(&self.batch)
    }

    /// Moves the batch into what the store commits.
    pub fn stage(
        &mut self,
        chain_epoch: ChainEpoch,
        store_outputs: Vec<(TransparentOutPoint, TransparentOutputArtifact)>,
    ) -> (staged: Result<ChainEpochArtifacts, IngestError>)
        requires
            old(self).well_formed(),
        ensures
            final(self).well_formed(),
            final(self).carries_on(*old(self)),
            final(self).answered_subtree_root_requests == old(
                self,
            ).answered_subtree_root_requests,
            final(self).answered_tree_state_targets == old(self).answered_tree_state_targets,
            match staged {
                Ok(artifacts) => {
                    &&& old(self).batch.block_headers@.len() > 0
                    &&& artifacts.chain_epoch == chain_epoch
                    &&& artifacts.reorg_window_change == (ReorgWindowChange::AdvanceSafeTipTo {
                        height: chain_epoch.visible_tip_height,
                    })
                    &&& artifacts.holds_rows_of(old(self).batch)
                    &&& artifacts.transparent_spend_facts@ == spend_facts_of(
                        spend_references(old(self).batch.transaction_facts@),
                        joined_by_store(
                            outputs_of_batch(old(self).batch),
                            store_outputs@,
                            artifacts.reorg_window_change,
                        ),
                    )
                    &&& final(self).batch.holds_no_rows()
                    &&& final(self).batch.tip_metadata is None
                    &&& final(self).batch.cost() == CanonicalBatchCost::nothing()
                },
                Err(error) => {
                    &&& old(self).batch.block_headers@.len() == 0
                    &&& error == IngestError::EmptyCanonicalBatch
                    &&& final(self).batch == old(self).batch
                },
            },
    {
        stage_ingest_commit(
            chain_epoch,
            &mut self.batch,
            store_outputs,
            ReorgWindowChange::AdvanceSafeTipTo { height: chain_epoch.visible_tip_height },
        )
    }

    /// Takes the store's answer to the commit, and returns whether the store
    /// is to be flushed now.
    pub fn accept_commit(
        &mut self,
        committed: Result<ChainEpochCommitOutcome, IngestError>,
        flush_interval_epochs: NonZeroU32,
    ) -> (accepted: Result<bool, IngestError>)
        requires
            old(self).well_formed(),
        ensures
            final(self).well_formed(),
            *final(self) == (CanonicalCommit {
                flush_state: final(self).flush_state,
                commit_outcome: final(self).commit_outcome,
                ..*old(self)
            }),
            match committed {
                Ok(outcome) => {
                    let pending = crate::bounds::capped(
                        old(self).flush_state.epochs_since_last_flush + 1,
                        u32::MAX as int,
                    );
                    &&& final(self).commit_outcome == Some(outcome)
                    &&& final(self).flush_state.epochs_since_last_flush == pending
                    &&& final(self).flush_state.source_segment_sizer == old(
                        self,
                    ).flush_state.source_segment_sizer
                    &&& accepted == Ok::<bool, IngestError>(pending >= flush_interval_epochs@)
                },
                Err(error) => {
                    &&& accepted == Err::<bool, IngestError>(error)
                    &&& *final(self) == *old(self)
                },
            },
    {
        match committed {
            Ok(outcome) => {
                self.commit_outcome = Some(outcome);
                self.flush_state.record_committed_epoch();
                Ok(self.flush_state.should_flush(flush_interval_epochs))
            },
            Err(error) => Err(error),
        }
    }

    /// Takes the store's answer to a flush.
    pub fn accept_flush(&mut self, flushed: Result<(), IngestError>) -> (accepted: Result<
        (),
        IngestError,
    >)
        requires
            old(self).well_formed(),
        ensures
            final(self).well_formed(),
            accepted == flushed,
            *final(self) == (CanonicalCommit { flush_state: final(self).flush_state, ..*old(self) }),
            final(self).flush_state.source_segment_sizer == old(
                self,
            ).flush_state.source_segment_sizer,
            final(self).flush_state.epochs_since_last_flush == if flushed is Ok {
                0
            } else {
                old(self).flush_state.epochs_since_last_flush
            },
    {
        match flushed {
            Ok(flushed) => {
                self.flush_state.mark_flushed();
                Ok(flushed)
            },
            Err(error) => Err(error),
        }
    }

    /// Ends a commit that failed.
    pub fn fail(self, error: IngestError) -> (failure: CanonicalCommitFailure)
        ensures
            failure.error == error,
            failure.retry_state == self.retry_state,
            failure.flush_state == self.flush_state,
    {
        CanonicalCommitFailure {
            error,
            retry_state: self.retry_state,
            flush_state: self.flush_state,
        }
    }

    /// Ends a commit that the store answered.
    pub fn finish(self, commit_outcome: ChainEpochCommitOutcome) -> (committed:
        CommittedCanonicalBatch)
        ensures
            committed.commit_outcome == commit_outcome,
            committed.next_subtree_root_indexes == self.updated_subtree_root_indexes,
            committed.retry_state == self.retry_state,
            committed.flush_state == self.flush_state,
    {
        CommittedCanonicalBatch {
            commit_outcome,
            next_subtree_root_indexes: self.updated_subtree_root_indexes,
            retry_state: self.retry_state,
            flush_state: self.flush_state,
        }
    }
}

proof fn lemma_stride_targets_are_on_the_stride(
    headers: Seq<BlockHeaderArtifact>,
    tree_states: Seq<TreeStateArtifact>,
    stride: u32,
    i: int,
)
    requires
        0 <= i < stride_targets(headers, tree_states, stride).len(),
    ensures
        ({
            let target = stride_targets(headers, tree_states, stride)[i];
            &&& target.height.0 % stride == 0
            &&& !has_tree_state(tree_states, target.height)
            &&& exists|k: int|
                0 <= k < headers.len() && (#[trigger] headers[k]).height == target.height
                    && headers[k].block_hash == target.hash
        }),
    decreases headers.len(),
{
    let before = stride_targets(headers.drop_last(), tree_states, stride);
    if i < before.len() {
        lemma_stride_targets_are_on_the_stride(headers.drop_last(), tree_states, stride, i);
        let k = choose|k: int|
            0 <= k < headers.drop_last().len() && (#[trigger] headers.drop_last()[k]).height
                == before[i].height && headers.drop_last()[k].block_hash == before[i].hash;
        assert(headers[k] == headers.drop_last()[k]);
    } else {
        assert(headers[headers.len() - 1] == headers.last());
    }
}

/// Every checkpoint target is a block of the batch without a tree state, and
/// the last block of the batch has one or gets one.
pub proof fn law_checkpoints_cover_the_tip(
    headers: Seq<BlockHeaderArtifact>,
    tree_states: Seq<TreeStateArtifact>,
    stride: u32,
)
    requires
        headers.len() > 0,
    ensures
        ({
            let targets = checkpoint_targets(headers, tree_states, stride);
            &&& forall|i: int|
                0 <= i < targets.len() ==> {
                    &&& !has_tree_state(tree_states, (#[trigger] targets[i]).height)
                    &&& exists|k: int|
                        0 <= k < headers.len() && (#[trigger] headers[k]).height
                            == targets[i].height && headers[k].block_hash == targets[i].hash
                }
            &&& has_tree_state(tree_states, headers.last().height) || (targets.len() > 0
                && targets.last().height == headers.last().height)
        }),
{
    let targets = checkpoint_targets(headers, tree_states, stride);
    let on_stride = stride_targets(headers, tree_states, stride);
    assert forall|i: int| 0 <= i < targets.len() implies {
        &&& !has_tree_state(tree_states, (#[trigger] targets[i]).height)
        &&& exists|k: int|
            0 <= k < headers.len() && (#[trigger] headers[k]).height == targets[i].height
                && headers[k].block_hash == targets[i].hash
    } by {
        if i < on_stride.len() {
            lemma_stride_targets_are_on_the_stride(headers, tree_states, stride, i);
        } else {
            assert(headers[headers.len() - 1] == headers.last());
        }
    }
}

/// One more block is a checkpoint target exactly where its height is a
/// multiple of the stride and no tree state stands there; the target names its
/// height and hash.
pub proof fn law_stride_heights_are_targets(
    headers: Seq<BlockHeaderArtifact>,
    next: BlockHeaderArtifact,
    tree_states: Seq<TreeStateArtifact>,
    stride: u32,
)
    requires
        stride > 0,
    ensures
        stride_targets(Seq::empty(), tree_states, stride).len() == 0,
        ({
            let before = stride_targets(headers, tree_states, stride);
            let after = stride_targets(headers.push(next), tree_states, stride);
            let has_state = exists|i: int|
                0 <= i < tree_states.len() && (#[trigger] tree_states[i]).height == next.height;
            if next.height.0 % stride == 0 && !has_state {
                &&& after.len() == before.len() + 1
                &&& after.drop_last() == before
                &&& after.last().height == next.height
                &&& after.last().hash == next.block_hash
            } else {
                after == before
            }
        }),
{
    assert(headers.push(next).drop_last() =~= headers);
    let before = stride_targets(headers, tree_states, stride);
    let after = stride_targets(headers.push(next), tree_states, stride);
    if after.len() > before.len() {
        assert(after.drop_last() =~= before);
    }
}

/// The targets of a batch are those of the stride, and its tip behind them
/// unless it is among them or has a tree state.
pub proof fn law_targets_are_the_stride_and_the_tip(
    headers: Seq<BlockHeaderArtifact>,
    tree_states: Seq<TreeStateArtifact>,
    stride: u32,
)
    requires
        stride > 0,
        headers.len() > 0,
    ensures
        ({
            let on_stride = stride_targets(headers, tree_states, stride);
            let targets = checkpoint_targets(headers, tree_states, stride);
            let tip = headers[headers.len() - 1];
            let has_state = exists|i: int|
                0 <= i < tree_states.len() && (#[trigger] tree_states[i]).height == tip.height;
            if has_state || (on_stride.len() > 0 && on_stride[on_stride.len() - 1].height
                == tip.height) {
                targets == on_stride
            } else {
                &&& targets.len() == on_stride.len() + 1
                &&& targets.drop_last() == on_stride
                &&& targets.last().height == tip.height
                &&& targets.last().hash == tip.block_hash
            }
        }),
{
    let on_stride = stride_targets(headers, tree_states, stride);
    let targets = checkpoint_targets(headers, tree_states, stride);
    if targets.len() > on_stride.len() {
        assert(targets.drop_last() =~= on_stride);
    }
}

/// The epoch of a batch stands at its last block, which it makes visible and
/// settles, and carries the batch's tree sizes.
pub proof fn law_epoch_stands_at_the_last_block(
    batch: CanonicalBatch,
    network: Network,
    chain_epoch_id: ChainEpochId,
    artifact_schema_version: ArtifactSchemaVersion,
    created_at: UnixTimestampMillis,
)
    requires
        batch.block_headers@.len() > 0,
        batch.tip_metadata is Some,
    ensures
        ({
            let epoch = epoch_of_batch(
                batch,
                network,
                chain_epoch_id,
                artifact_schema_version,
                created_at,
            );
            let tip = batch.block_headers@[batch.block_headers@.len() - 1];
            &&& epoch.id == chain_epoch_id
            &&& epoch.network == network
            &&& epoch.visible_tip_height == tip.height
            &&& epoch.visible_tip_hash == tip.block_hash
            &&& epoch.settled_tip_height == tip.height
            &&& epoch.settled_tip_hash == tip.block_hash
            &&& epoch.artifact_schema_version == artifact_schema_version
            &&& Some(epoch.tip_metadata) == batch.tip_metadata
            &&& epoch.created_at == created_at
        }),
{
}

/// A commit asks for its subtree roots first, one after the other, and then for
/// its tree states; when all are answered it asks for nothing.
pub proof fn law_attachments_are_asked_for_in_order(commit: CanonicalCommit)
    requires
        commit.well_formed(),
    ensures
        commit.answered_subtree_root_requests <= commit.subtree_root_requests@.len(),
        commit.answered_tree_state_targets <= commit.tree_state_targets@.len(),
        commit.answered_subtree_root_requests < commit.subtree_root_requests@.len()
            ==> commit.next_request() == Some(
            AttachmentRequest::SubtreeRoots(
                commit.subtree_root_requests@[commit.answered_subtree_root_requests as int],
            ),
        ),
        commit.answered_subtree_root_requests == commit.subtree_root_requests@.len()
            && commit.answered_tree_state_targets < commit.tree_state_targets@.len()
            ==> commit.next_request() == Some(
            AttachmentRequest::TreeState(
                commit.tree_state_targets@[commit.answered_tree_state_targets as int],
            ),
        ),
        commit.next_request() is None <==> commit.answered_subtree_root_requests
            == commit.subtree_root_requests@.len() && commit.answered_tree_state_targets
            == commit.tree_state_targets@.len(),
{
}

/// After a commit, the next subtree of each pool is the first one that the tip
/// has not filled, and never an earlier one than before.
pub proof fn law_subtree_indexes_follow_the_tip(
    after: IngestSubtreeRootIndexes,
    tip_metadata: ChainTipMetadata,
    indexes: IngestSubtreeRootIndexes,
    protocol: ShieldedProtocol,
)
    requires
        are_indexes_after(after, tip_metadata, indexes),
    ensures
        after.at(protocol).0 >= indexes.at(protocol).0,
        after.at(protocol).0 >= tip_metadata.completed_subtrees(protocol),
        after.at(protocol).0 == indexes.at(protocol).0 || after.at(protocol).0
            == tip_metadata.completed_subtrees(protocol),
{
}

/// A commit that carries on keeps its epoch, its requests, its states and its
/// outcome.
pub proof fn law_commit_carries_its_plan_on(after: CanonicalCommit, before: CanonicalCommit)
    ensures
        after.carries_on(before) <==> {
            &&& after.updated_subtree_root_indexes == before.updated_subtree_root_indexes
            &&& after.retry_state == before.retry_state
            &&& after.flush_state == before.flush_state
            &&& after.chain_epoch_id == before.chain_epoch_id
            &&& after.subtree_root_requests@ == before.subtree_root_requests@
            &&& after.tree_state_targets@ == before.tree_state_targets@
            &&& after.commit_outcome == before.commit_outcome
        },
{
}

/// A commit has one request per pool with new subtrees, in the order in which
/// pools are asked; each starts at the first subtree that is not recorded and
/// covers those up to the tip.
pub proof fn law_commit_asks_for_every_new_subtree(
    requests: Seq<SubtreeRootRange>,
    tip_metadata: ChainTipMetadata,
    indexes: IngestSubtreeRootIndexes,
    i: int,
)
    requires
        are_subtree_requests(requests, tip_metadata, indexes),
        0 <= i < advanced_protocols(fetch_order(), tip_metadata, indexes).len(),
    ensures
        requests.len() == advanced_protocols(fetch_order(), tip_metadata, indexes).len(),
        requests[i].protocol == advanced_protocols(fetch_order(), tip_metadata, indexes)[i],
        requests[i].start_index == indexes.at(requests[i].protocol),
        requests[i].start_index.0 + requests[i].max_entries@ == tip_metadata.completed_subtrees(
            requests[i].protocol,
        ),
{
    assert(asks_for_new_subtrees(
        requests[i],
        advanced_protocols(fetch_order(), tip_metadata, indexes)[i],
        tip_metadata,
        indexes,
    ));
}

} // verus!
