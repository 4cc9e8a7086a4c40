//! Ordered finalization of prepared blocks into batches, with at most one
//! commit in flight.
//!
//! [`CommitReassembly`] decides what a bulk-catchup run does next; whoever
//! drives it awaits blocks and commits and hands the answers back.

use super::canonical_commit::{
    CanonicalCommitFailure, CanonicalCommitRequest, ChainEpochCommitOutcome,
    CommittedCanonicalBatch,
};
use super::flush::{BulkCatchupCompletionFlush, BulkCatchupFlushState};
use crate::artifact_builder::{
    finalize_canonical_block, CommitmentTreeSizes, ConstructionFault, EncodedCanonicalBlock,
    PositionedCanonicalBlock, PreparedCanonicalBlock, POSITION_LIMIT,
};
use crate::artifacts::{CompactBlockView, TransparentOutputArtifact};
use crate::batch::{
    block_cost, clipped, CanonicalBatch, CanonicalBatchBudget, CanonicalBatchCloseTrigger,
    CanonicalBatchCost,
};
use crate::bounds::{nonzero_u64_to_usize, NonZeroU64};
use crate::chain_ingest::{epoch_id_after, next_chain_epoch_id_after, IngestSubtreeRootIndexes};
use crate::errors::IngestError;
use crate::ids::{ChainEpochId, ChainTipMetadata};
use crate::retry::IngestRetryState;
use vstd::prelude::*;

verus! {

/// Whether a batch of some cost waits for the commit in flight before it takes
/// in more blocks.
pub open spec fn should_wait(limit_bytes: u64, cost: CanonicalBatchCost) -> bool {
    cost.blocks > 0 && cost.artifact_bytes >= clipped(limit_bytes as int)
}

/// Returns whether a batch of some cost waits for the commit in flight before
/// it takes in more blocks.
pub fn commit_reassembly_should_wait(
    commit_reassembly_max_queued_artifact_bytes: NonZeroU64,
    batch_cost: CanonicalBatchCost,
) -> (waits: bool)
    ensures
        waits == should_wait(commit_reassembly_max_queued_artifact_bytes@, batch_cost),
{
    batch_cost.blocks > 0 && batch_cost.artifact_bytes >= nonzero_u64_to_usize(
        commit_reassembly_max_queued_artifact_bytes,
    )
}

/// How far a run has come.
#[derive(Debug)]
pub enum ReassemblyPhase {
    /// Blocks are taken in.
    Streaming,
    /// The batch has reached a bound and is to be committed.
    Closing,
    /// The run ends with this error once no commit is in flight.
    Failing(IngestError),
    /// No more blocks come; what was taken in is to be committed.
    Draining,
    /// The run has ended.
    Finished,
}

/// What a run does next.
#[derive(Debug)]
pub enum ReassemblyAction {
    /// The next prepared block is to be awaited.
    AwaitBlock,
    /// The commit in flight is to be awaited.
    AwaitCommit,
    /// A commit is to be started.
    Commit(CanonicalCommitRequest),
    /// The store is to be flushed.
    Flush,
    /// The run has ended.
    Finish(Result<ChainEpochCommitOutcome, IngestError>),
}

/// What a run does next, without the values that move along.
pub enum ReassemblyDecision {
    AwaitBlock,
    AwaitCommit,
    Commit,
    Flush,
    Finish,
}

/// Ordered finalization of prepared blocks into batches.
#[derive(Debug)]
pub struct CommitReassembly {
    pub batch: CanonicalBatch,
    pub batch_budget: CanonicalBatchBudget,
    pub commit_reassembly_max_queued_artifact_bytes: NonZeroU64,
    pub completion_flush: BulkCatchupCompletionFlush,
    pub chain_epoch_id: ChainEpochId,
    pub next_subtree_root_indexes: IngestSubtreeRootIndexes,
    /// Absent while a commit is in flight.
    pub retry_state: Option<IngestRetryState>,
    /// Absent while a commit is in flight.
    pub flush_state: Option<BulkCatchupFlushState>,
    pub last_commit_outcome: Option<ChainEpochCommitOutcome>,
    pub running_tree_sizes: CommitmentTreeSizes,
    pub phase: ReassemblyPhase,
}

impl CommitReassembly {
    /// Whether the retry and flush state travel together.
    pub open spec fn well_formed(self) -> bool {
        self.retry_state is Some == self.flush_state is Some
    }

    /// Whether a commit is in flight.
    pub open spec fn commits(self) -> bool {
        self.retry_state is None
    }

    /// Whether nothing but the phase differs from another state.
    pub open spec fn differs_in_phase_from(self, other: Self) -> bool {
        self == (CommitReassembly { phase: self.phase, ..other })
    }

    /// Starts a run before its first block.
    pub fn begin(
        initial_tip_metadata: ChainTipMetadata,
        chain_epoch_id: ChainEpochId,
        flush_state: BulkCatchupFlushState,
        completion_flush: BulkCatchupCompletionFlush,
        batch_budget: CanonicalBatchBudget,
        commit_reassembly_max_queued_artifact_bytes: NonZeroU64,
    ) -> (reassembly: Self)
        ensures
            reassembly.well_formed(),
            !reassembly.commits(),
            reassembly.phase is Streaming,
            reassembly.batch.holds_no_rows(),
            reassembly.batch.tip_metadata is None,
            reassembly.batch.cost() == CanonicalBatchCost::nothing(),
            reassembly.batch_budget == batch_budget,
            reassembly.commit_reassembly_max_queued_artifact_bytes
                == commit_reassembly_max_queued_artifact_bytes,
            reassembly.completion_flush == completion_flush,
            reassembly.chain_epoch_id == chain_epoch_id,
            forall|protocol: crate::ids::ShieldedProtocol|
                (#[trigger] reassembly.next_subtree_root_indexes.at(protocol)).0
                    == initial_tip_metadata.completed_subtrees(protocol),
            reassembly.retry_state == Some(IngestRetryState { retryable_failures: 0 }),
            reassembly.flush_state == Some(flush_state),
            reassembly.last_commit_outcome is None,
            reassembly.running_tree_sizes == CommitmentTreeSizes::of_tip_metadata(
                initial_tip_metadata,
            ),
    {
        CommitReassembly {
            batch: CanonicalBatch::default(),
            batch_budget,
            commit_reassembly_max_queued_artifact_bytes,
            completion_flush,
            chain_epoch_id,
            next_subtree_root_indexes: IngestSubtreeRootIndexes::from_tip_metadata(
                initial_tip_metadata,
            ),
            retry_state: Some(IngestRetryState::default()),
            flush_state: Some(flush_state),
            last_commit_outcome: None,
            running_tree_sizes: CommitmentTreeSizes::from_tip_metadata(initial_tip_metadata),
            phase: ReassemblyPhase::Streaming,
        }
    }

    /// What the run does next.
    pub open spec fn decision(self) -> ReassemblyDecision {
        match self.phase {
            ReassemblyPhase::Streaming => if self.commits() && should_wait(
                self.commit_reassembly_max_queued_artifact_bytes@,
                self.batch.cost(),
            ) {
                ReassemblyDecision::AwaitCommit
            } else {
                ReassemblyDecision::AwaitBlock
            },
            ReassemblyPhase::Closing => if self.commits() {
                ReassemblyDecision::AwaitCommit
            } else if epoch_id_after(self.chain_epoch_id) is Ok {
                ReassemblyDecision::Commit
            } else {
                ReassemblyDecision::Finish
            },
            ReassemblyPhase::Failing(_) => if self.commits() {
                ReassemblyDecision::AwaitCommit
            } else {
                ReassemblyDecision::Finish
            },
            ReassemblyPhase::Draining => if self.commits() {
                ReassemblyDecision::AwaitCommit
            } else if self.batch.block_headers@.len() > 0 {
                ReassemblyDecision::Commit
            } else if self.completion_flush is FlushPending && self.last_commit_outcome is Some
                && (self.flush_state->0).epochs_since_last_flush > 0 {
                ReassemblyDecision::Flush
            } else {
                ReassemblyDecision::Finish
            },
            ReassemblyPhase::Finished => ReassemblyDecision::Finish,
        }
    }

    /// Outcome with which a run that ends now ends.
    pub open spec fn outcome(self) -> Result<ChainEpochCommitOutcome, IngestError> {
        match self.phase {
            ReassemblyPhase::Closing => match epoch_id_after(self.chain_epoch_id) {
                Err(error) => Err(error),
                Ok(_) => Err(IngestError::BulkCatchupProducedNoCommit),
            },
            ReassemblyPhase::Failing(error) => Err(error),
            _ => match self.last_commit_outcome {
                Some(outcome) => Ok(outcome),
                None => Err(IngestError::BulkCatchupProducedNoCommit),
            },
        }
    }

    /// Takes the batch and what travels with its commit out of the run.
    fn take_commit(&mut self) -> (request: Option<CanonicalCommitRequest>)
        requires
            old(self).well_formed(),
            !old(self).commits(),
        ensures
            final(self).well_formed(),
            final(self).commits(),
            request matches Some(request) && {
                &&& request.batch == old(self).batch
                &&& request.next_subtree_root_indexes == old(self).next_subtree_root_indexes
                &&& request.retry_state == old(self).retry_state->0
                &&& request.flush_state == old(self).flush_state->0
                &&& request.chain_epoch_id == old(self).chain_epoch_id
            },
            final(self).batch.holds_no_rows(),
            final(self).batch.tip_metadata is None,
            final(self).batch.cost() == CanonicalBatchCost::nothing(),
            *final(self) == (CommitReassembly {
                batch: final(self).batch,
                retry_state: None,
                flush_state: None,
                ..*old(self)
            }),
    {
        let mut batch = CanonicalBatch::default();
        let mut retry_state: Option<IngestRetryState> = None;
        let mut flush_state: Option<BulkCatchupFlushState> = None;
        std::mem::swap(&mut batch, &mut self.batch);
        std::mem::swap(&mut retry_state, &mut self.retry_state);
        std::mem::swap(&mut flush_state, &mut self.flush_state);
        match (retry_state, flush_state) {
            (Some(retry_state), Some(flush_state)) => Some(
                CanonicalCommitRequest {
                    batch,
                    next_subtree_root_indexes: self.next_subtree_root_indexes,
                    retry_state,
                    flush_state,
                    chain_epoch_id: self.chain_epoch_id,
                },
            ),
            _ => None,
        }
    }

    fn take_outcome(&mut self) -> (outcome: Result<ChainEpochCommitOutcome, IngestError>)
        requires
            !(old(self).phase is Closing),
        ensures
            outcome == old(self).outcome(),
            *final(self) == (CommitReassembly {
                phase: ReassemblyPhase::Finished,
                ..*old(self)
            }),
    {
        let mut phase = ReassemblyPhase::Finished;
        std::mem::swap(&mut phase, &mut self.phase);
        match phase {
            ReassemblyPhase::Failing(error) => Err(error),
            _ => match self.last_commit_outcome {
                Some(outcome) => Ok(outcome),
                None => Err(IngestError::BulkCatchupProducedNoCommit),
            },
        }
    }

    /// Decides what the run does next.
    pub fn next_action(&mut self) -> (action: ReassemblyAction)
        requires
            old(self).well_formed(),
        ensures
            final(self).well_formed(),
            match old(self).decision() {
                ReassemblyDecision::AwaitBlock => {
                    action is AwaitBlock && *final(self) == *old(self)
                },
                ReassemblyDecision::AwaitCommit => {
                    action is AwaitCommit && *final(self) == *old(self)
                },
                ReassemblyDecision::Flush => action is Flush && *final(self) == *old(self),
                ReassemblyDecision::Commit => {
                    &&& action matches ReassemblyAction::Commit(request)
                    &&& request.batch == old(self).batch
                    &&& request.next_subtree_root_indexes == old(self).next_subtree_root_indexes
                    &&& request.retry_state == old(self).retry_state->0
                    &&& request.flush_state == old(self).flush_state->0
                    &&& request.chain_epoch_id == old(self).chain_epoch_id
                    &&& final(self).batch.holds_no_rows()
                    &&& final(self).batch.tip_metadata is None
                    &&& final(self).batch.cost() == CanonicalBatchCost::nothing()
                    &&& *final(self) == (CommitReassembly {
                        batch: final(self).batch,
                        retry_state: None,
                        flush_state: None,
                        chain_epoch_id: if old(self).phase is Closing {
                            epoch_id_after(old(self).chain_epoch_id)->Ok_0
                        } else {
                            old(self).chain_epoch_id
                        },
                        phase: if old(self).phase is Closing {
                            ReassemblyPhase::Streaming
                        } else {
                            old(self).phase
                        },
                        ..*old(self)
                    })
                },
                ReassemblyDecision::Finish => {
                    &&& action == ReassemblyAction::Finish(old(self).outcome())
                    &&& *final(self) == (CommitReassembly {
                        phase: ReassemblyPhase::Finished,
                        ..*old(self)
                    })
                },
            },
    {
        let in_flight = self.retry_state.is_none();
        match &self.phase {
            ReassemblyPhase::Streaming => {
                if in_flight && commit_reassembly_should_wait(
                    self.commit_reassembly_max_queued_artifact_bytes,
                    self.batch.work_cost(),
                ) {
                    return ReassemblyAction::AwaitCommit;
                }
                return ReassemblyAction::AwaitBlock;
            },
            ReassemblyPhase::Closing => {
                if in_flight {
                    return ReassemblyAction::AwaitCommit;
                }
                let next_id = match next_chain_epoch_id_after(self.chain_epoch_id) {
                    Ok(next_id) => next_id,
                    Err(error) => {
                        self.phase = ReassemblyPhase::Finished;
                        return ReassemblyAction::Finish(Err(error));
                    },
                };
                return match self.take_commit() {
                    Some(request) => {
                        self.chain_epoch_id = next_id;
                        self.phase = ReassemblyPhase::Streaming;
                        ReassemblyAction::Commit(request)
                    },
                    None => ReassemblyAction::AwaitCommit,
                };
            },
            ReassemblyPhase::Failing(_) => {
                if in_flight {
                    return ReassemblyAction::AwaitCommit;
                }
            },
            ReassemblyPhase::Draining => {
                if in_flight {
                    return ReassemblyAction::AwaitCommit;
                }
                if !self.batch.is_empty() {
                    return match self.take_commit() {
                        Some(request) => ReassemblyAction::Commit(request),
                        None => ReassemblyAction::AwaitCommit,
                    };
                }
                if self.completion_flush.flushes_pending() && self.last_commit_outcome.is_some() {
                    if let Some(flush_state) = &self.flush_state {
                        if flush_state.has_pending_epochs() {
                            return ReassemblyAction::Flush;
                        }
                    }
                }
            },
            ReassemblyPhase::Finished => {},
        }
        ReassemblyAction::Finish(self.take_outcome())
    }

    /// Takes the next prepared block, or the end of the blocks, and stamps the
    /// block with its commitment-tree position.
    pub fn accept_block(
        &mut self,
        next: Option<Result<PreparedCanonicalBlock, IngestError>>,
    ) -> (positioned: Option<PositionedCanonicalBlock>)
        requires
            old(self).well_formed(),
            old(self).phase is Streaming,
        ensures
            final(self).well_formed(),
            match next {
                None => {
                    &&& positioned is None
                    &&& final(self).phase is Draining
                    &&& final(self).differs_in_phase_from(*old(self))
                },
                Some(Err(error)) => {
                    &&& positioned is None
                    &&& final(self).phase == ReassemblyPhase::Failing(error)
                    &&& final(self).differs_in_phase_from(*old(self))
                },
                Some(Ok(prepared)) => match old(self).running_tree_sizes.sum(
                    prepared.tree_size_additions,
                ) {
                    Ok(sizes) => {
                        &&& positioned matches Some(positioned)
                        &&& positioned.facts == prepared.facts
                        &&& positioned.compact_block@ == (CompactBlockView {
                            chain_metadata: Some(sizes.as_chain_metadata()),
                            ..prepared.partial_compact_block@
                        })
                        &&& positioned.tip_metadata == sizes.as_tip_metadata()
                        &&& *final(self) == (CommitReassembly {
                            running_tree_sizes: sizes,
                            ..*old(self)
                        })
                    },
                    Err(fault) => {
                        &&& positioned is None
                        &&& final(self).phase matches ReassemblyPhase::Failing(
                            IngestError::CanonicalBlockConstruction(error),
                        )
                        &&& error@ == fault
                        &&& final(self).differs_in_phase_from(*old(self))
                    },
                },
            },
    {
        let prepared = match next {
            None => {
                self.phase = ReassemblyPhase::Draining;
                return None;
            },
            Some(Err(error)) => {
                self.phase = ReassemblyPhase::Failing(error);
                return None;
            },
            Some(Ok(prepared)) => prepared,
        };
        let mut sizes = self.running_tree_sizes;
        match finalize_canonical_block(prepared, &mut sizes) {
            Ok(positioned) => {
                self.running_tree_sizes = sizes;
                Some(positioned)
            },
            Err(error) => {
                self.phase = ReassemblyPhase::Failing(
                    IngestError::CanonicalBlockConstruction(error),
                );
                None
            },
        }
    }

    /// Takes an encoded block into the batch, and closes the batch where it
    /// has reached a bound; the bound is returned.
    pub fn admit_block(
        &mut self,
        block: EncodedCanonicalBlock,
        prefetched_outputs: Vec<TransparentOutputArtifact>,
    ) -> (trigger: Option<CanonicalBatchCloseTrigger>)
        requires
            old(self).well_formed(),
            old(self).phase is Streaming,
        ensures
            final(self).well_formed(),
            ({
                let cost = old(self).batch.cost().plus(block_cost(block, prefetched_outputs@));
                if block.facts.transactions@.len() > POSITION_LIMIT {
                    &&& trigger is None
                    &&& final(self).phase matches ReassemblyPhase::Failing(
                        IngestError::CanonicalBlockConstruction(error),
                    )
                    &&& error@ == ConstructionFault::TransactionIndexOverflow
                    &&& final(self).batch.keeps_block_rows_of(old(self).batch)
                    &&& final(self).batch.keeps_attachments_of(old(self).batch)
                    &&& final(self).batch.cost() == (CanonicalBatchCost {
                        blocks: old(self).batch.cost().blocks,
                        ..cost
                    })
                } else {
                    &&& final(self).batch.takes_in(old(self).batch, block, prefetched_outputs@)
                    &&& final(self).batch.cost() == cost
                    &&& trigger == old(self).batch_budget.reached(cost)
                    &&& final(self).phase == if trigger is Some {
                        ReassemblyPhase::Closing
                    } else {
                        ReassemblyPhase::Streaming
                    }
                }
            }),
            *final(self) == (CommitReassembly {
                batch: final(self).batch,
                phase: final(self).phase,
                ..*old(self)
            }),
    {
        match self.batch.absorb_with_prefetched_spent_outputs(block, prefetched_outputs) {
            Ok(_) => {},
            Err(error) => {
                self.phase = ReassemblyPhase::Failing(
                    IngestError::CanonicalBlockConstruction(error),
                );
                return None;
            },
        }
        let trigger = self.batch_budget.commit_trigger(self.batch.work_cost());
        if trigger.is_some() {
            self.phase = ReassemblyPhase::Closing;
        }
        trigger
    }

    /// Takes the outcome of the commit in flight. A failed commit ends the
    /// run, whatever else was about to end it.
    pub fn accept_commit(
        &mut self,
        outcome: Result<CommittedCanonicalBatch, CanonicalCommitFailure>,
    )
        requires
            old(self).well_formed(),
            old(self).commits(),
        ensures
            final(self).well_formed(),
            !final(self).commits(),
            match outcome {
                Ok(committed) => *final(self) == (CommitReassembly {
                    next_subtree_root_indexes: committed.next_subtree_root_indexes,
                    retry_state: Some(committed.retry_state),
                    flush_state: Some(committed.flush_state),
                    last_commit_outcome: Some(committed.commit_outcome),
                    ..*old(self)
                }),
                Err(failure) => *final(self) == (CommitReassembly {
                    retry_state: Some(failure.retry_state),
                    flush_state: Some(failure.flush_state),
                    phase: ReassemblyPhase::Failing(failure.error),
                    ..*old(self)
                }),
            },
    {
        match outcome {
            Ok(committed) => {
                self.next_subtree_root_indexes = committed.next_subtree_root_indexes;
                self.retry_state = Some(committed.retry_state);
                self.flush_state = Some(committed.flush_state);
                self.last_commit_outcome = Some(committed.commit_outcome);
            },
            Err(failure) => {
                self.retry_state = Some(failure.retry_state);
                self.flush_state = Some(failure.flush_state);
                self.phase = ReassemblyPhase::Failing(failure.error);
            },
        }
    }

    /// Takes the outcome of the flush at the end of the run.
    pub fn accept_flush(&mut self, outcome: Result<(), IngestError>)
        requires
            old(self).well_formed(),
            !old(self).commits(),
        ensures
            final(self).well_formed(),
            !final(self).commits(),
            match outcome {
                Ok(_) => {
                    &&& (final(self).flush_state->0).epochs_since_last_flush == 0
                    &&& (final(self).flush_state->0).source_segment_sizer == (old(
                        self,
                    ).flush_state->0).source_segment_sizer
                    &&& *final(self) == (CommitReassembly {
                        flush_state: final(self).flush_state,
                        ..*old(self)
                    })
                },
                Err(error) => *final(self) == (CommitReassembly {
                    phase: ReassemblyPhase::Failing(error),
                    ..*old(self)
                }),
            },
    {
        match outcome {
            Ok(_) => {
                let mut flush_state: Option<BulkCatchupFlushState> = None;
                std::mem::swap(&mut flush_state, &mut self.flush_state);
                if let Some(kept) = flush_state {
                    let mut kept = kept;
                    kept.mark_flushed();
                    self.flush_state = Some(kept);
                }
            },
            Err(error) => {
                self.phase = ReassemblyPhase::Failing(error);
            },
        }
    }
}

/// At most one commit is in flight, and a run never ends while one is.
pub proof fn law_one_commit_in_flight(reassembly: CommitReassembly)
    requires
        reassembly.well_formed(),
        !(reassembly.phase is Finished),
    ensures
        reassembly.decision() is Commit ==> !reassembly.commits(),
        reassembly.decision() is Finish ==> !reassembly.commits(),
        reassembly.decision() is Flush ==> !reassembly.commits(),
{
}

/// A run that fails starts no commit and takes in no block.
pub proof fn law_failing_run_only_winds_down(reassembly: CommitReassembly)
    requires
        reassembly.phase is Failing,
    ensures
        reassembly.decision() is AwaitCommit || reassembly.decision() is Finish,
{
}

/// A run that ends without an error has committed every block it took in.
pub proof fn law_successful_run_committed_everything(reassembly: CommitReassembly)
    requires
        reassembly.well_formed(),
        !(reassembly.phase is Finished),
        reassembly.decision() is Finish,
        reassembly.outcome() is Ok,
    ensures
        reassembly.batch.block_headers@.len() == 0,
        reassembly.last_commit_outcome is Some,
        reassembly.completion_flush is FlushPending ==> (
        reassembly.flush_state->0).epochs_since_last_flush == 0,
{
}

/// Taking blocks in waits exactly where the open batch holds a block and its
/// artifact bytes have reached the limit, or the most that can be counted.
pub proof fn law_intake_waits_at_the_byte_limit(limit_bytes: u64, cost: CanonicalBatchCost)
    ensures
        should_wait(limit_bytes, cost) <==> cost.blocks > 0 && (cost.artifact_bytes >= limit_bytes
            || cost.artifact_bytes == usize::MAX),
{
}

/// A run takes blocks in while it streams, unless a commit is in flight and the
/// open batch has reached the byte limit.
pub proof fn law_blocks_are_awaited_while_there_is_room(reassembly: CommitReassembly)
    requires
        reassembly.phase is Streaming,
    ensures
        ({
            let full = reassembly.batch.cost().blocks > 0 && (
            reassembly.batch.cost().artifact_bytes
                >= reassembly.commit_reassembly_max_queued_artifact_bytes@
                || reassembly.batch.cost().artifact_bytes == usize::MAX);
            &&& reassembly.decision() is AwaitCommit <==> reassembly.retry_state is None && full
            &&& reassembly.decision() is AwaitBlock <==> !(reassembly.retry_state is None && full)
        }),
{
}

/// A full batch is committed as soon as no commit is in flight, as long as a
/// next epoch can be numbered.
pub proof fn law_full_batch_is_committed_in_turn(reassembly: CommitReassembly)
    requires
        reassembly.phase is Closing,
    ensures
        reassembly.decision() is AwaitCommit <==> reassembly.retry_state is None,
        reassembly.retry_state is Some && reassembly.chain_epoch_id.0 < u64::MAX
            ==> reassembly.decision() is Commit,
        reassembly.retry_state is Some && reassembly.chain_epoch_id.0 == u64::MAX
            ==> reassembly.decision() is Finish && reassembly.outcome() is Err,
{
}

/// A draining run waits for the commit in flight, commits what is left, flushes
/// what is pending where that is asked for, and then finishes.
pub proof fn law_draining_run_loses_nothing(reassembly: CommitReassembly)
    requires
        reassembly.phase is Draining,
    ensures
        ({
            let idle = reassembly.retry_state is Some;
            let open = reassembly.batch.block_headers@.len() > 0;
            let pending = reassembly.completion_flush is FlushPending
                && reassembly.last_commit_outcome is Some && (
            reassembly.flush_state->0).epochs_since_last_flush > 0;
            &&& reassembly.decision() is AwaitCommit <==> !idle
            &&& reassembly.decision() is Commit <==> idle && open
            &&& reassembly.decision() is Flush <==> idle && !open && pending
            &&& reassembly.decision() is Finish <==> idle && !open && !pending
        }),
{
}

/// A failed run finishes with its error once no commit is in flight; a finished
/// one stays finished.
pub proof fn law_failed_run_tells_its_error(reassembly: CommitReassembly)
    ensures
        reassembly.phase matches ReassemblyPhase::Failing(error) ==> {
            &&& reassembly.outcome() == Err::<ChainEpochCommitOutcome, IngestError>(error)
            &&& reassembly.decision() is Finish <==> reassembly.retry_state is Some
        },
        reassembly.phase is Finished ==> reassembly.decision() is Finish,
        reassembly.commits() <==> reassembly.retry_state is None,
        reassembly.well_formed() <==> (reassembly.retry_state is Some
            <==> reassembly.flush_state is Some),
{
}

/// A run that did not fail ends with its last commit, or with the complaint
/// that nothing was committed.
pub proof fn law_run_tells_its_last_commit(reassembly: CommitReassembly)
    requires
        !(reassembly.phase is Failing),
        !(reassembly.phase is Closing),
    ensures
        match reassembly.outcome() {
            Ok(outcome) => reassembly.last_commit_outcome == Some(outcome),
            Err(error) => reassembly.last_commit_outcome is None && error
                == IngestError::BulkCatchupProducedNoCommit,
        },
{
}

/// A run that differs in its phase differs in nothing else.
pub proof fn law_phase_change_keeps_the_rest(after: CommitReassembly, before: CommitReassembly)
    requires
        after.differs_in_phase_from(before),
    ensures
        after.batch == before.batch,
        after.batch_budget == before.batch_budget,
        after.chain_epoch_id == before.chain_epoch_id,
        after.next_subtree_root_indexes == before.next_subtree_root_indexes,
        after.retry_state == before.retry_state,
        after.flush_state == before.flush_state,
        after.last_commit_outcome == before.last_commit_outcome,
        after.running_tree_sizes == before.running_tree_sizes,
        after.completion_flush == before.completion_flush,
        after.commit_reassembly_max_queued_artifact_bytes
            == before.commit_reassembly_max_queued_artifact_bytes,
{
}

} // verus!
