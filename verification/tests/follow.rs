use zinder_ingest::bounds::nonzero_u32;
use zinder_ingest::bulk_catchup::run::{ReadinessCause, ReadinessState};
use zinder_ingest::canonical_construction::CanonicalStoreError;
use zinder_ingest::canonical_follow::{
    append_live_subtree_roots, authenticate_checkpoint, follow_lag_blocks, follow_readiness,
    gauge_reading, live_subtree_root_ranges, plan_follow_iteration, validate_live_parent,
    CanonicalFollowError, CommitmentTreeCheckpoint, FollowDirective, FollowIteration, FollowPlan,
    FollowState, FollowStep, IngestPhase, PhasedReadiness,
};
use zinder_ingest::canonical_runtime::{
    construction_readiness, construction_staging_path, fixed_tip, history_base, settled_tip,
    staged_store, store_entry, validate_installed_fence, CanonicalEventFence,
    CanonicalRuntimeError, HistoryBase, StagedStore, StagingState, StoreEntry, TipLookup,
};
use zinder_ingest::chain_ingest::{SourceSubtreeRoot, SourceSubtreeRoots};
use zinder_ingest::errors::{IngestError, SourceError};
use zinder_ingest::ids::{
    BlockHash, BlockHeight, BlockId, ChainEpochId, ChainTipMetadata, ShieldedProtocol,
    SubtreeRootHash, SubtreeRootIndex, SubtreeRootRange, SUBTREE_LEAF_COUNT,
};
use zinder_ingest::source_outage::{is_recoverable, OutageReport, RecoveryStep, SourceOutage};

fn id(height: u32, seed: u8) -> BlockId {
    BlockId::new(BlockHeight::new(height), BlockHash::from_bytes([seed; 32]))
}

#[test]
fn live_ranges_fetch_only_newly_completed_subtrees() {
    let previous = ChainTipMetadata::new(SUBTREE_LEAF_COUNT * 2 + 9, SUBTREE_LEAF_COUNT, 0);
    let next = ChainTipMetadata::new(SUBTREE_LEAF_COUNT * 4, SUBTREE_LEAF_COUNT * 2 + 1, 12);

    let ranges = match live_subtree_root_ranges(previous, next) {
        Ok(ranges) => ranges,
        Err(error) => panic!("nothing regressed, got {error:?}"),
    };
    assert_eq!(
        ranges,
        vec![
            SubtreeRootRange::new(
                ShieldedProtocol::Sapling,
                SubtreeRootIndex::new(2),
                nonzero_u32(2),
            ),
            SubtreeRootRange::new(
                ShieldedProtocol::Orchard,
                SubtreeRootIndex::new(1),
                nonzero_u32(1),
            ),
        ]
    );
}

#[test]
fn live_ranges_reject_completed_subtree_regression() {
    let outcome = live_subtree_root_ranges(
        ChainTipMetadata::new(SUBTREE_LEAF_COUNT, 0, 0),
        ChainTipMetadata::empty(),
    );

    assert!(outcome.is_err());
    assert!(matches!(
        outcome,
        Err(CanonicalFollowError::SubtreePositionRegression {
            protocol: ShieldedProtocol::Sapling,
            previous_count: 1,
            next_count: 0,
        })
    ));
}

#[test]
fn following_appends_one_block_at_a_time() {
    assert!(matches!(
        plan_follow_iteration(id(5, 5), id(9, 9), None),
        Ok(FollowPlan::Append { next_height }) if next_height == BlockHeight::new(6)
    ));
    assert!(matches!(
        plan_follow_iteration(id(5, 5), id(9, 9), Some(BlockHeight::new(5))),
        Ok(FollowPlan::AtTip)
    ));
    assert!(matches!(plan_follow_iteration(id(9, 9), id(9, 9), None), Ok(FollowPlan::AtTip)));
    assert!(matches!(
        plan_follow_iteration(id(9, 9), id(9, 8), None),
        Err(CanonicalFollowError::ReorgRequired { .. })
    ));
    assert!(matches!(
        plan_follow_iteration(id(9, 9), id(8, 8), None),
        Err(CanonicalFollowError::ReorgRequired { .. })
    ));
    assert!(validate_live_parent(BlockHash::from_bytes([5; 32]), id(5, 5), id(9, 9)).is_ok());
    assert!(validate_live_parent(BlockHash::from_bytes([4; 32]), id(5, 5), id(9, 9)).is_err());
}

#[test]
fn a_checkpoint_is_compared_in_full() {
    let derived = CommitmentTreeCheckpoint {
        block_id: id(7, 7),
        block_time_seconds: 70,
        frontiers: vec![1, 2, 3],
    };
    let other = CommitmentTreeCheckpoint {
        block_id: id(7, 7),
        block_time_seconds: 70,
        frontiers: vec![1, 2, 4],
    };
    assert!(authenticate_checkpoint(&derived, &derived).is_ok());
    assert!(matches!(
        authenticate_checkpoint(&derived, &other),
        Err(CanonicalFollowError::SourceCheckpointMismatch { height })
            if height == BlockHeight::new(7)
    ));
}

#[test]
fn live_roots_are_appended_in_response_order() {
    let mut roots = Vec::new();
    let response = SourceSubtreeRoots {
        protocol: ShieldedProtocol::Orchard,
        start_index: SubtreeRootIndex::new(4),
        subtree_roots: vec![
            SourceSubtreeRoot {
                subtree_index: SubtreeRootIndex::new(4),
                root_hash: SubtreeRootHash([4; 32]),
                completing_block_height: BlockHeight::new(40),
            },
            SourceSubtreeRoot {
                subtree_index: SubtreeRootIndex::new(5),
                root_hash: SubtreeRootHash([5; 32]),
                completing_block_height: BlockHeight::new(50),
            },
        ],
    };
    append_live_subtree_roots(&mut roots, &response);
    assert_eq!(roots.len(), 2);
    assert_eq!(roots[1].protocol, ShieldedProtocol::Orchard);
    assert_eq!(roots[1].subtree_index, SubtreeRootIndex::new(5));
    assert_eq!(roots[1].completing_block_height, BlockHeight::new(50));
}

#[test]
fn follow_readiness_tolerates_the_configured_lag() {
    assert_eq!(follow_lag_blocks(BlockHeight::new(10), id(13, 1)), 3);
    assert_eq!(follow_lag_blocks(BlockHeight::new(14), id(13, 1)), 0);
    assert_eq!(
        follow_readiness(BlockHeight::new(10), id(13, 1), 2),
        PhasedReadiness {
            state: ReadinessState {
                cause: ReadinessCause::Syncing { lag_blocks: Some(3) },
                current_height: Some(10),
                target_height: Some(13),
            },
            phase: IngestPhase::FollowingTip,
        }
    );
    assert_eq!(
        follow_readiness(BlockHeight::new(10), id(13, 1), 3).state.cause,
        ReadinessCause::Ready
    );
    assert_eq!(gauge_reading(7), 7);
    assert_eq!(gauge_reading(u64::MAX), u32::MAX);
}

#[test]
fn the_follower_stops_recovers_and_resumes() {
    let mut state = FollowState::new();
    assert_eq!(state.begin_iteration(true, BlockHeight::new(1), None), FollowDirective::Stop);
    assert_eq!(state.begin_iteration(false, BlockHeight::new(1), None), FollowDirective::Prepare);
    assert!(matches!(
        state.begin_iteration(false, BlockHeight::new(9), Some(BlockHeight::new(9))),
        FollowDirective::StopAtTarget { readiness }
            if readiness.state.target_height == Some(9)
    ));
    assert!(matches!(
        state.accept_preparation(Err(CanonicalFollowError::Source(
            SourceError::NodeUnavailable { reason: "down".to_owned() }
        ))),
        FollowStep::Recover(_)
    ));
    assert!(matches!(state.record_outage(true, 100), Ok(OutageReport::New)));
    assert!(matches!(
        state.record_outage(true, 130),
        Ok(OutageReport::Ongoing { elapsed_seconds: 30 })
    ));
    assert!(matches!(
        state.record_outage(false, 140),
        Err(CanonicalFollowError::SourceRecoveryRejected)
    ));
    assert!(matches!(
        state.accept_preparation(Ok(FollowIteration::Append { observed_tip: id(4, 4) })),
        FollowStep::Commit { observed_tip } if observed_tip == id(4, 4)
    ));
    assert_eq!(state.outage.since, None);
    assert!(matches!(
        state.accept_preparation(Ok(FollowIteration::AtTip { observed_tip: id(4, 4) })),
        FollowStep::Poll { .. }
    ));
    assert!(matches!(
        state.accept_preparation(Err(CanonicalFollowError::SourceRecoveryRejected)),
        FollowStep::Fail(CanonicalFollowError::SourceRecoveryRejected)
    ));
}

#[test]
fn an_outage_ends_with_the_first_answer() {
    let mut outage = SourceOutage::none();
    let failed: Result<u8, IngestError> = Err(IngestError::EmptyCanonicalBatch);
    assert!(matches!(
        outage.after_attempt(failed, true, 10),
        RecoveryStep::Retry { report: OutageReport::New }
    ));
    let failed: Result<u8, IngestError> = Err(IngestError::EmptyCanonicalBatch);
    assert!(matches!(
        outage.after_attempt(failed, true, 25),
        RecoveryStep::Retry { report: OutageReport::Ongoing { elapsed_seconds: 15 } }
    ));
    assert!(matches!(
        outage.after_attempt(Ok(7u8), true, 30),
        RecoveryStep::Done { outcome: 7, recovered: true }
    ));
    assert!(matches!(
        outage.after_attempt(Ok(8u8), true, 31),
        RecoveryStep::Done { outcome: 8, recovered: false }
    ));
    let fatal: Result<u8, IngestError> = Err(IngestError::EmptyCanonicalBatch);
    assert!(matches!(
        outage.after_attempt(fatal, false, 32),
        RecoveryStep::Fail { error: IngestError::EmptyCanonicalBatch }
    ));
    assert!(!outage.clear());
}

#[test]
fn construction_stops_at_the_requested_height() {
    assert!(matches!(fixed_tip(id(100, 1), None), TipLookup::Known(tip) if tip == id(100, 1)));
    assert!(matches!(
        fixed_tip(id(100, 1), Some(BlockHeight::new(60))),
        TipLookup::Fetch { height } if height == BlockHeight::new(60)
    ));
    assert!(matches!(
        fixed_tip(id(100, 1), Some(BlockHeight::new(200))),
        TipLookup::Known(tip) if tip == id(100, 1)
    ));
    assert!(matches!(history_base(None, id(100, 1)), Ok(HistoryBase::Genesis)));
    assert!(matches!(
        history_base(Some(BlockHeight::new(99)), id(100, 1)),
        Ok(HistoryBase::Checkpoint { height }) if height == BlockHeight::new(99)
    ));
    assert!(matches!(
        history_base(Some(BlockHeight::new(100)), id(100, 1)),
        Err(CanonicalRuntimeError::CheckpointNotBehindSource { .. })
    ));
    assert!(matches!(
        settled_tip(id(100, 1), 30, BlockHeight::new(1)),
        TipLookup::Fetch { height } if height == BlockHeight::new(70)
    ));
    assert!(matches!(
        settled_tip(id(100, 1), 30, BlockHeight::new(90)),
        TipLookup::Fetch { height } if height == BlockHeight::new(90)
    ));
    assert!(matches!(
        settled_tip(id(100, 1), 0, BlockHeight::new(1)),
        TipLookup::Known(tip) if tip == id(100, 1)
    ));
}

#[test]
fn stores_are_opened_installed_or_restarted() {
    assert_eq!(store_entry(true, StagingState::Populated), StoreEntry::OpenPublished);
    assert_eq!(store_entry(false, StagingState::Absent), StoreEntry::DiscardBlockLoad);
    assert_eq!(store_entry(false, StagingState::Empty), StoreEntry::RemoveEmptyStaging);
    assert_eq!(store_entry(false, StagingState::Populated), StoreEntry::OpenStaged);
    assert!(matches!(staged_store(Ok(())), Ok(StagedStore::Install)));
    assert!(matches!(
        staged_store(Err(CanonicalStoreError::StoreNotReady)),
        Ok(StagedStore::Restart)
    ));
    assert!(matches!(
        staged_store(Err(CanonicalStoreError::Operation { reason: "io".to_owned() })),
        Err(CanonicalRuntimeError::Store(CanonicalStoreError::Operation { .. }))
    ));
    let fence = CanonicalEventFence {
        chain_epoch_id: ChainEpochId::new(1),
        chain_event_sequence: 2,
        visible_tip: id(3, 3),
        sequence_digest: [4; 32],
    };
    let mut moved = fence;
    moved.sequence_digest[31] = 5;
    assert!(validate_installed_fence(fence, fence).is_ok());
    assert!(matches!(
        validate_installed_fence(moved, fence),
        Err(CanonicalRuntimeError::InstalledFenceMismatch)
    ));
    assert_eq!(construction_staging_path("/data/store"), "/data/store.building");
}

#[test]
fn construction_readiness_reports_its_range() {
    let unknown = construction_readiness(None);
    assert_eq!(unknown.phase, IngestPhase::BulkCatchup);
    let known = construction_readiness(Some((BlockHeight::new(10), id(110, 1))));
    assert_eq!(known.phase, IngestPhase::BulkCatchup);
    assert_eq!(known.state.target_height, Some(110));
}

#[test]
fn passing_source_failures_are_outlasted() {
    let source = |error| is_recoverable(&IngestError::Source(error));
    assert!(source(SourceError::NodeUnavailable { reason: "connection reset".to_owned() }));
    assert!(source(SourceError::StreamDisconnected { reason: "closed".to_owned() }));
    assert!(source(SourceError::BlockUnavailable {
        height: BlockHeight::new(1),
        reason: "block height not in best chain".to_owned(),
    }));
    assert!(source(SourceError::BlockReorgDuringFetch { height: BlockHeight::new(1), cause: "moved" }));
    assert!(!source(SourceError::NodeCapabilityMissing { capability: "tree_state" }));
    assert!(!source(SourceError::SourceProtocolMismatch { cause: "missing block hash" }));
    assert!(is_recoverable(&IngestError::SourceRetryDeadlineExceeded {
        operation: "fetch block at height 1".to_owned(),
        reason: "connection reset".to_owned(),
    }));
    assert!(is_recoverable(&IngestError::SourceRetryBudgetExceeded {
        operation: "fetch block at height 1".to_owned(),
        retryable_failures: 33,
        failure_budget: 32,
    }));
    assert!(!is_recoverable(&IngestError::EmptyCanonicalBatch));
}
