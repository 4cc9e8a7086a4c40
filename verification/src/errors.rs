//! Failures of ingest operations and their metric labels.

use crate::artifact_builder::{CanonicalBlockConstructionError, RawBlobRetention};
use crate::ids::{BlockHeight, ShieldedProtocol, SubtreeRootIndex, TransactionId};
use vstd::prelude::*;

verus! {

/// How the upstream node failed, as far as recovery is concerned.
#[derive(Clone, Copy, Debug, PartialEq, Eq, Structural)]
pub enum SourceFailureClass {
    /// The node did not answer.
    NodeUnreachable,
    /// A subscription broke off.
    StreamDisconnected,
    /// The node answered from a chain view that no longer holds.
    UpstreamViewChanged,
    /// The node lacks a capability the request needs.
    CapabilityMissing,
    /// The node answered in a shape ingest does not accept.
    ProtocolMismatch,
}

/// Failure of one request to the node source.
#[derive(Debug)]
pub enum SourceError {
    /// The node did not answer.
    NodeUnavailable { reason: String },
    /// A subscription broke off.
    StreamDisconnected { reason: String },
    /// The node does not hold the requested block on its best chain.
    BlockUnavailable { height: BlockHeight, reason: String },
    /// The chain changed while its blocks were being fetched.
    BlockReorgDuringFetch { height: BlockHeight, cause: &'static str },
    /// The node lacks a capability the request needs.
    NodeCapabilityMissing { capability: &'static str },
    /// The node answered in a shape ingest does not accept.
    SourceProtocolMismatch { cause: &'static str },
}

impl SourceError {
    /// Recovery class of a failure.
    pub open spec fn class(self) -> SourceFailureClass {
        match self {
            SourceError::NodeUnavailable { .. } => SourceFailureClass::NodeUnreachable,
            SourceError::StreamDisconnected { .. } => SourceFailureClass::StreamDisconnected,
            SourceError::BlockUnavailable { .. } => SourceFailureClass::UpstreamViewChanged,
            SourceError::BlockReorgDuringFetch { .. } => SourceFailureClass::UpstreamViewChanged,
            SourceError::NodeCapabilityMissing { .. } => SourceFailureClass::CapabilityMissing,
            SourceError::SourceProtocolMismatch { .. } => SourceFailureClass::ProtocolMismatch,
        }
    }

    /// Returns the recovery class of this failure.
    pub fn upstream_classification(&self) -> (class: SourceFailureClass)
        ensures
            class == self.class(),
    {
        match self {
            SourceError::NodeUnavailable { .. } => SourceFailureClass::NodeUnreachable,
            SourceError::StreamDisconnected { .. } => SourceFailureClass::StreamDisconnected,
            SourceError::BlockUnavailable { .. } => SourceFailureClass::UpstreamViewChanged,
            SourceError::BlockReorgDuringFetch { .. } => SourceFailureClass::UpstreamViewChanged,
            SourceError::NodeCapabilityMissing { .. } => SourceFailureClass::CapabilityMissing,
            SourceError::SourceProtocolMismatch { .. } => SourceFailureClass::ProtocolMismatch,
        }
    }
}

/// Failure of one operation on the canonical store.
#[derive(Debug)]
pub enum StoreError {
    /// No chain-epoch identifier is left.
    ChainEpochSequenceOverflow,
    /// The store promises other raw blobs than the writer keeps.
    RawBlobRetentionMismatch { persisted: RawBlobRetention, configured: RawBlobRetention },
    /// A chain-event cursor points behind the retained events.
    ChainEventCursorExpired,
    /// The store does not record where its history begins.
    CanonicalHistoryBoundsMissing,
    /// Any other storage failure.
    Operation { reason: String },
}

/// Error returned by ingestion operations.
#[derive(Debug)]
#[non_exhaustive]
#[allow(inconsistent_fields)]
pub enum IngestError {
    /// Requested node source name is not supported.
    UnknownNodeSource { node_source: String },
    /// Background source segment fetch task stopped before returning a result.
    SourceSegmentFetchTaskStopped { reason: String },
    /// Node returned fewer subtree roots than committed tree sizes require.
    SubtreeRootsUnavailable {
        protocol: ShieldedProtocol,
        start_index: SubtreeRootIndex,
        expected_count: u32,
        actual_count: usize,
    },
    /// Source returned a subtree root that cannot be bound to a committed block.
    SubtreeRootCompletingBlockMissing {
        protocol: ShieldedProtocol,
        subtree_index: SubtreeRootIndex,
        completing_block_height: BlockHeight,
    },
    /// A transparent input's previous output could not be found.
    TransparentPrevoutUnresolved {
        transaction_id: TransactionId,
        output_index: u32,
        cause: &'static str,
    },
    /// Materialized-view plane dispatch (consumer apply or store write) failed.
    MaterializedViewDispatch(String),
    /// Materialized-view store open or operation failed.
    MaterializedViewStore { reason: String },
    /// Materialized views need history from the first block on.
    MaterializedViewHistoryIncomplete { first_available_height: BlockHeight },
    /// No tree-state checkpoint stands at or before a height.
    CommitmentTreeCheckpointMissing { height: BlockHeight },
    /// Commitment-tree state could not be advanced at a height.
    CommitmentTreeState { height: BlockHeight, reason: String },
    /// Index backfill dispatch (reading, decoding or checking its rows) failed.
    DeriveDispatch(String),
    /// Internal batching produced an empty commit.
    EmptyCanonicalBatch,
    /// Internal backfill batching produced an empty commit.
    EmptyIngestBatch,
    /// Bulk-catchup loop ended without committing any batch.
    BulkCatchupProducedNoCommit,
    /// Historical bulk catchup was asked to advance the settled tip inside the live reorg window.
    BulkCatchupInsideReorgWindowRequiresOverride {
        to_height: BlockHeight,
        tip_height: BlockHeight,
        reorg_window_blocks: u32,
        maximum_historical_height: BlockHeight,
    },
    /// Bulk catchup cannot resolve a chain-global commitment-tree size base.
    BulkCatchupRequiresContiguousTipMetadata {
        from_height: BlockHeight,
        current_tip_height: Option<BlockHeight>,
    },
    /// Bulk-catchup checkpoint height does not match the requested `from_height`.
    BulkCatchupCheckpointMisaligned { checkpoint_height: BlockHeight, from_height: BlockHeight },
    /// Bulk catchup was asked to settle blocks inside the node's current reorg
    /// window without an explicit permission.
    NearTipBulkCatchupRequiresExplicitFinalize {
        to_height: BlockHeight,
        tip_height: BlockHeight,
        reorg_window_blocks: u32,
        maximum_historical_height: BlockHeight,
    },
    /// Backfill loop ended without committing any batch.
    BackfillProducedNoCommit,
    /// Backfill was asked to settle blocks inside the node's current reorg
    /// window without an explicit permission.
    NearTipBackfillRequiresExplicitFinalize {
        to_height: BlockHeight,
        tip_height: BlockHeight,
        reorg_window_blocks: u32,
        maximum_historical_height: BlockHeight,
    },
    /// Backfill cannot resolve a chain-global commitment-tree size base.
    BackfillRequiresContiguousTipMetadata {
        from_height: BlockHeight,
        current_tip_height: Option<BlockHeight>,
    },
    /// Backfill checkpoint height does not match the requested `from_height`.
    BackfillCheckpointMisaligned { checkpoint_height: BlockHeight, from_height: BlockHeight },
    /// A resolved previous transparent-output transaction did not contain the output
    /// referenced by the spending transaction.
    TransparentOutputOutputMissing { transaction_id: TransactionId, output_index: u32 },
    /// Shielded protocol is not supported by the current ingest subtree-root tracker.
    UnsupportedShieldedProtocol { protocol: ShieldedProtocol },
    /// Tip-follow observed a node tip below the current store tip.
    TipFollowObservedTipBehindStore {
        observed_tip_height: BlockHeight,
        current_tip_height: BlockHeight,
    },
    /// Tip-follow could not find a common ancestor inside the visible chain.
    TipFollowCommonAncestorMissing { replacement_tip_height: BlockHeight },
    /// Tip-follow could not recover chain metadata for a replacement parent.
    TipFollowParentMetadataUnavailable { height: BlockHeight },
    /// Reorg replacement exceeded the configured reorg window.
    ReorgWindowExceeded {
        from_height: BlockHeight,
        replacement_depth: u32,
        configured_window_blocks: u32,
    },
    /// A caller-owned canonical writer uses a different reorg-window contract.
    CanonicalWriterReorgWindowMismatch {
        store_reorg_window_blocks: u32,
        configured_reorg_window_blocks: u32,
    },
    /// Retryable node failures exceeded the per-run ingest budget.
    SourceRetryBudgetExceeded {
        operation: String,
        retryable_failures: u32,
        failure_budget: u32,
    },
    /// Retryable node failures outlasted the per-block fetch deadline.
    SourceRetryDeadlineExceeded { operation: String, reason: String },
    /// System time is before Unix epoch.
    SystemTimeBeforeUnixEpoch,
    /// Current timestamp does not fit a 64-bit millisecond count.
    TimestampTooLarge,
    /// Node source failed.
    Source(SourceError),
    /// Canonical block construction failed.
    CanonicalBlockConstruction(CanonicalBlockConstructionError),
    /// Canonical store failed.
    Store(StoreError),
    /// A blocking storage task failed to join (panic or runtime shutdown).
    BlockingTaskFailed { reason: String },
    /// A backup bundle does not hold what its manifest says.
    BackupCheckpointValidation { path: String, reason: String },
    /// A backup or restore manifest could not be read.
    BackupManifestDecode { path: String, reason: String },
}

/// Whether a failure is an index backfill dispatch failure with a given message.
pub open spec fn is_dispatch(error: IngestError, message: Seq<char>) -> bool {
    error matches IngestError::DeriveDispatch(text) && text@ == message
}

/// Builds an index backfill dispatch failure.
pub fn dispatch_failure(message: &str) -> (error: IngestError)
    ensures
        is_dispatch(error, message@),
{
    IngestError::DeriveDispatch(message.to_owned())
}

/// Metric label of an outcome's failure, if it failed.
pub open spec fn error_class(error: Option<IngestError>) -> Seq<char> {
    match error {
        None => "none"@,
        Some(IngestError::UnknownNodeSource { .. }) => "unknown_node_source"@,
        Some(IngestError::SourceSegmentFetchTaskStopped { .. }) => {
            "source_segment_fetch_task_stopped"@
        },
        Some(IngestError::SubtreeRootsUnavailable { .. }) => "subtree_roots_unavailable"@,
        Some(IngestError::SubtreeRootCompletingBlockMissing { .. }) => {
            "subtree_root_completing_block_missing"@
        },
        Some(IngestError::TransparentPrevoutUnresolved { .. }) => "transparent_prevout_unresolved"@,
        Some(IngestError::MaterializedViewDispatch(_)) => "materialized_view_dispatch"@,
        Some(IngestError::MaterializedViewStore { .. }) => "materialized_view_store"@,
        Some(IngestError::MaterializedViewHistoryIncomplete { .. }) => {
            "materialized_view_history_incomplete"@
        },
        Some(IngestError::CommitmentTreeCheckpointMissing { .. }) => {
            "commitment_tree_checkpoint_missing"@
        },
        Some(IngestError::CommitmentTreeState { .. }) => "commitment_tree_state"@,
        Some(IngestError::DeriveDispatch(_)) => "derive_dispatch"@,
        Some(IngestError::EmptyCanonicalBatch) => "empty_canonical_batch"@,
        Some(IngestError::EmptyIngestBatch) => "empty_ingest_batch"@,
        Some(IngestError::BulkCatchupProducedNoCommit) => "bulk_catchup_produced_no_commit"@,
        Some(IngestError::BulkCatchupInsideReorgWindowRequiresOverride { .. }) => {
            "bulk_catchup_inside_reorg_window_requires_override"@
        },
        Some(IngestError::BulkCatchupRequiresContiguousTipMetadata { .. }) => {
            "bulk_catchup_requires_contiguous_tip_metadata"@
        },
        Some(IngestError::BulkCatchupCheckpointMisaligned { .. }) => {
            "bulk_catchup_checkpoint_misaligned"@
        },
        Some(IngestError::NearTipBulkCatchupRequiresExplicitFinalize { .. }) => {
            "near_tip_bulk_catchup_requires_explicit_finalize"@
        },
        Some(IngestError::BackfillProducedNoCommit) => "backfill_produced_no_commit"@,
        Some(IngestError::NearTipBackfillRequiresExplicitFinalize { .. }) => {
            "near_tip_backfill_requires_explicit_finalize"@
        },
        Some(IngestError::BackfillRequiresContiguousTipMetadata { .. }) => {
            "backfill_requires_contiguous_tip_metadata"@
        },
        Some(IngestError::BackfillCheckpointMisaligned { .. }) => {
            "backfill_checkpoint_misaligned"@
        },
        Some(IngestError::TransparentOutputOutputMissing { .. }) => "transparent_output_output_missing"@,
        Some(IngestError::UnsupportedShieldedProtocol { .. }) => "unsupported_shielded_protocol"@,
        Some(IngestError::TipFollowObservedTipBehindStore { .. }) => "tip_follow_observed_tip_behind_store"@,
        Some(IngestError::TipFollowCommonAncestorMissing { .. }) => "tip_follow_common_ancestor_missing"@,
        Some(IngestError::TipFollowParentMetadataUnavailable { .. }) => "tip_follow_parent_metadata_unavailable"@,
        Some(IngestError::ReorgWindowExceeded { .. }) => "reorg_window_exceeded"@,
        Some(IngestError::CanonicalWriterReorgWindowMismatch { .. }) => {
            "canonical_writer_reorg_window_mismatch"@
        },
        Some(IngestError::SourceRetryBudgetExceeded { .. }) => "source_retry_budget_exceeded"@,
        Some(IngestError::SourceRetryDeadlineExceeded { .. }) => "source_retry_deadline_exceeded"@,
        Some(IngestError::SystemTimeBeforeUnixEpoch) => "system_time_before_unix_epoch"@,
        Some(IngestError::TimestampTooLarge) => "timestamp_too_large"@,
        Some(IngestError::Source(_)) => "source"@,
        Some(IngestError::CanonicalBlockConstruction(_)) => "canonical_block_construction"@,
        Some(IngestError::Store(_)) => "store"@,
        Some(IngestError::BlockingTaskFailed { .. }) => "blocking_task_failed"@,
        Some(IngestError::BackupCheckpointValidation { .. }) => "backup_checkpoint_validation"@,
        Some(IngestError::BackupManifestDecode { .. }) => "backup_manifest_decode"@,
    }
}

/// Returns the metric label of an outcome's failure, or `none`.
pub fn ingest_error_class(error: Option<&IngestError>) -> (class: &'static str)
    ensures
        class@ == error_class(
            match error {
                Some(error) => Some(*error),
                None => None,
            },
        ),
{
    match error {
        None => "none",
        Some(IngestError::UnknownNodeSource { .. }) => "unknown_node_source",
        Some(IngestError::SourceSegmentFetchTaskStopped { .. }) => {
            "source_segment_fetch_task_stopped"
        },
        Some(IngestError::SubtreeRootsUnavailable { .. }) => "subtree_roots_unavailable",
        Some(IngestError::SubtreeRootCompletingBlockMissing { .. }) => {
            "subtree_root_completing_block_missing"
        },
        Some(IngestError::TransparentPrevoutUnresolved { .. }) => "transparent_prevout_unresolved",
        Some(IngestError::MaterializedViewDispatch(_)) => "materialized_view_dispatch",
        Some(IngestError::MaterializedViewStore { .. }) => "materialized_view_store",
        Some(IngestError::MaterializedViewHistoryIncomplete { .. }) => {
            "materialized_view_history_incomplete"
        },
        Some(IngestError::CommitmentTreeCheckpointMissing { .. }) => {
            "commitment_tree_checkpoint_missing"
        },
        Some(IngestError::CommitmentTreeState { .. }) => "commitment_tree_state",
        Some(IngestError::DeriveDispatch(_)) => "derive_dispatch",
        Some(IngestError::EmptyCanonicalBatch) => "empty_canonical_batch",
        Some(IngestError::EmptyIngestBatch) => "empty_ingest_batch",
        Some(IngestError::BulkCatchupProducedNoCommit) => "bulk_catchup_produced_no_commit",
        Some(IngestError::BulkCatchupInsideReorgWindowRequiresOverride { .. }) => {
            "bulk_catchup_inside_reorg_window_requires_override"
        },
        Some(IngestError::BulkCatchupRequiresContiguousTipMetadata { .. }) => {
            "bulk_catchup_requires_contiguous_tip_metadata"
        },
        Some(IngestError::BulkCatchupCheckpointMisaligned { .. }) => {
            "bulk_catchup_checkpoint_misaligned"
        },
        Some(IngestError::NearTipBulkCatchupRequiresExplicitFinalize { .. }) => {
            "near_tip_bulk_catchup_requires_explicit_finalize"
        },
        Some(IngestError::BackfillProducedNoCommit) => "backfill_produced_no_commit",
        Some(IngestError::NearTipBackfillRequiresExplicitFinalize { .. }) => {
            "near_tip_backfill_requires_explicit_finalize"
        },
        Some(IngestError::BackfillRequiresContiguousTipMetadata { .. }) => {
            "backfill_requires_contiguous_tip_metadata"
        },
        Some(IngestError::BackfillCheckpointMisaligned { .. }) => {
            "backfill_checkpoint_misaligned"
        },
        Some(IngestError::TransparentOutputOutputMissing { .. }) => "transparent_output_output_missing",
        Some(IngestError::UnsupportedShieldedProtocol { .. }) => "unsupported_shielded_protocol",
        Some(IngestError::TipFollowObservedTipBehindStore { .. }) => "tip_follow_observed_tip_behind_store",
        Some(IngestError::TipFollowCommonAncestorMissing { .. }) => "tip_follow_common_ancestor_missing",
        Some(IngestError::TipFollowParentMetadataUnavailable { .. }) => "tip_follow_parent_metadata_unavailable",
        Some(IngestError::ReorgWindowExceeded { .. }) => "reorg_window_exceeded",
        Some(IngestError::CanonicalWriterReorgWindowMismatch { .. }) => {
            "canonical_writer_reorg_window_mismatch"
        },
        Some(IngestError::SourceRetryBudgetExceeded { .. }) => "source_retry_budget_exceeded",
        Some(IngestError::SourceRetryDeadlineExceeded { .. }) => "source_retry_deadline_exceeded",
        Some(IngestError::SystemTimeBeforeUnixEpoch) => "system_time_before_unix_epoch",
        Some(IngestError::TimestampTooLarge) => "timestamp_too_large",
        Some(IngestError::Source(_)) => "source",
        Some(IngestError::CanonicalBlockConstruction(_)) => "canonical_block_construction",
        Some(IngestError::Store(_)) => "store",
        Some(IngestError::BlockingTaskFailed { .. }) => "blocking_task_failed",
        Some(IngestError::BackupCheckpointValidation { .. }) => "backup_checkpoint_validation",
        Some(IngestError::BackupManifestDecode { .. }) => "backup_manifest_decode",
    }
}

/// Returns the metric label of whether an outcome succeeded.
pub fn outcome_status<T, E>(outcome: &Result<T, E>) -> (status: &'static str)
    ensures
        status@ == if *outcome is Ok {
            "ok"@
        } else {
            "error"@
        },
{
    match outcome {
        Ok(_) => "ok",
        Err(_) => "error",
    }
}

/// A source failure is of the class that its variant says: a silent node, a
/// broken subscription, a changed chain view, a missing capability, or an
/// answer out of shape.
pub proof fn law_failure_class_follows_the_failure(error: SourceError)
    ensures
        error.class() is NodeUnreachable <==> error is NodeUnavailable,
        error.class() is StreamDisconnected <==> error is StreamDisconnected,
        error.class() is UpstreamViewChanged <==> error is BlockUnavailable
            || error is BlockReorgDuringFetch,
        error.class() is CapabilityMissing <==> error is NodeCapabilityMissing,
        error.class() is ProtocolMismatch <==> error is SourceProtocolMismatch,
{
}

/// A dispatch failure carries its message.
pub proof fn law_dispatch_failure_carries_its_message(error: IngestError, message: Seq<char>)
    ensures
        is_dispatch(error, message) <==> error is DeriveDispatch && error->DeriveDispatch_0@
            == message,
{
}

/// An error is labelled by its own name, whatever it carries; where there is no
/// error the label says so.
pub proof fn law_error_is_labelled_by_its_name(error: IngestError)
    ensures
        error_class(None) == "none"@,
        error is UnknownNodeSource ==> error_class(Some(error)) == "unknown_node_source"@,
        error is SourceSegmentFetchTaskStopped ==> error_class(Some(error))
            == "source_segment_fetch_task_stopped"@,
        error is SubtreeRootsUnavailable ==> error_class(Some(error))
            == "subtree_roots_unavailable"@,
        error is SubtreeRootCompletingBlockMissing ==> error_class(Some(error))
            == "subtree_root_completing_block_missing"@,
        error is TransparentPrevoutUnresolved ==> error_class(Some(error))
            == "transparent_prevout_unresolved"@,
        error is MaterializedViewDispatch ==> error_class(Some(error))
            == "materialized_view_dispatch"@,
        error is MaterializedViewStore ==> error_class(Some(error)) == "materialized_view_store"@,
        error is MaterializedViewHistoryIncomplete ==> error_class(Some(error))
            == "materialized_view_history_incomplete"@,
        error is CommitmentTreeCheckpointMissing ==> error_class(Some(error))
            == "commitment_tree_checkpoint_missing"@,
        error is CommitmentTreeState ==> error_class(Some(error)) == "commitment_tree_state"@,
        error is DeriveDispatch ==> error_class(Some(error)) == "derive_dispatch"@,
        error is EmptyCanonicalBatch ==> error_class(Some(error)) == "empty_canonical_batch"@,
        error is EmptyIngestBatch ==> error_class(Some(error)) == "empty_ingest_batch"@,
        error is BulkCatchupProducedNoCommit ==> error_class(Some(error))
            == "bulk_catchup_produced_no_commit"@,
        error is BulkCatchupInsideReorgWindowRequiresOverride ==> error_class(Some(error))
            == "bulk_catchup_inside_reorg_window_requires_override"@,
        error is BulkCatchupRequiresContiguousTipMetadata ==> error_class(Some(error))
            == "bulk_catchup_requires_contiguous_tip_metadata"@,
        error is BulkCatchupCheckpointMisaligned ==> error_class(Some(error))
            == "bulk_catchup_checkpoint_misaligned"@,
        error is NearTipBulkCatchupRequiresExplicitFinalize ==> error_class(Some(error))
            == "near_tip_bulk_catchup_requires_explicit_finalize"@,
        error is BackfillProducedNoCommit ==> error_class(Some(error))
            == "backfill_produced_no_commit"@,
        error is NearTipBackfillRequiresExplicitFinalize ==> error_class(Some(error))
            == "near_tip_backfill_requires_explicit_finalize"@,
        error is BackfillRequiresContiguousTipMetadata ==> error_class(Some(error))
            == "backfill_requires_contiguous_tip_metadata"@,
        error is BackfillCheckpointMisaligned ==> error_class(Some(error))
            == "backfill_checkpoint_misaligned"@,
        error is TransparentOutputOutputMissing ==> error_class(Some(error))
            == "transparent_output_output_missing"@,
        error is UnsupportedShieldedProtocol ==> error_class(Some(error))
            == "unsupported_shielded_protocol"@,
        error is TipFollowObservedTipBehindStore ==> error_class(Some(error))
            == "tip_follow_observed_tip_behind_store"@,
        error is TipFollowCommonAncestorMissing ==> error_class(Some(error))
            == "tip_follow_common_ancestor_missing"@,
        error is TipFollowParentMetadataUnavailable ==> error_class(Some(error))
            == "tip_follow_parent_metadata_unavailable"@,
        error is ReorgWindowExceeded ==> error_class(Some(error)) == "reorg_window_exceeded"@,
        error is CanonicalWriterReorgWindowMismatch ==> error_class(Some(error))
            == "canonical_writer_reorg_window_mismatch"@,
        error is SourceRetryBudgetExceeded ==> error_class(Some(error))
            == "source_retry_budget_exceeded"@,
        error is SourceRetryDeadlineExceeded ==> error_class(Some(error))
            == "source_retry_deadline_exceeded"@,
        error is SystemTimeBeforeUnixEpoch ==> error_class(Some(error))
            == "system_time_before_unix_epoch"@,
        error is TimestampTooLarge ==> error_class(Some(error)) == "timestamp_too_large"@,
        error is Source ==> error_class(Some(error)) == "source"@,
        error is CanonicalBlockConstruction ==> error_class(Some(error))
            == "canonical_block_construction"@,
        error is Store ==> error_class(Some(error)) == "store"@,
        error is BlockingTaskFailed ==> error_class(Some(error)) == "blocking_task_failed"@,
        error is BackupCheckpointValidation ==> error_class(Some(error))
            == "backup_checkpoint_validation"@,
        error is BackupManifestDecode ==> error_class(Some(error)) == "backup_manifest_decode"@,
{
}

} // verus!
