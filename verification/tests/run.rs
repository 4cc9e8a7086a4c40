use zinder_ingest::artifact_builder::RawBlobPolicy;
use zinder_ingest::artifacts::SourceChainCheckpoint;
use zinder_ingest::bench_support::{
    bench_bulk_catchup_run_config, bench_derive_config, nz32, nz64, BenchBulkCatchupParams,
    DeriveReplayPolicy,
};
use zinder_ingest::bulk_catchup::canonical_commit::ChainEpochCommitOutcome;
use zinder_ingest::bulk_catchup::flush::{BulkCatchupCompletionFlush, BulkCatchupFlushState};
use zinder_ingest::bulk_catchup::run::{
    admit_bulk_catchup, bootstrap_from_checkpoint_if_needed, bulk_catchup_readiness_state,
    bulk_catchup_start, checkpoint_within_reorg_window, finished_run_tip,
    validate_bulk_catchup_finality_bound, BulkCatchupRunConfig, ReadinessCause,
};
use zinder_ingest::bulk_catchup::segment_sizer::NetworkUpgradeActivations;
use zinder_ingest::chain_ingest::{NodeSourceKind, ReorgWindowChange};
use zinder_ingest::cli_parse::{
    parse_commit_batch_blocks, parse_node_source, parse_poll_interval_ms,
    parse_reorg_window_blocks,
};
use zinder_ingest::errors::{
    ingest_error_class, outcome_status, IngestError, SourceError, SourceFailureClass, StoreError,
};
use zinder_ingest::ids::{
    ArtifactSchemaVersion, BlockHash, BlockHeight, ChainEpoch, ChainEpochId, ChainTipMetadata,
    Network, UnixTimestampMillis,
};
use std::time::Duration;

fn test_chain_epoch(height: u32, tip_metadata: ChainTipMetadata) -> ChainEpoch {
    ChainEpoch {
        id: ChainEpochId::new(1),
        network: Network::ZcashRegtest,
        visible_tip_height: BlockHeight::new(height),
        visible_tip_hash: BlockHash::from_bytes([height as u8; 32]),
        settled_tip_height: BlockHeight::new(height),
        settled_tip_hash: BlockHash::from_bytes([height as u8; 32]),
        artifact_schema_version: ArtifactSchemaVersion(12),
        tip_metadata,
        created_at: UnixTimestampMillis(1),
    }
}

fn test_bulk_catchup_run_config(
    from_height: u32,
    to_height: u32,
    canonical_batch_max_blocks: u32,
    allow_near_tip_finalize: bool,
) -> BulkCatchupRunConfig {
    let run = bench_bulk_catchup_run_config(BenchBulkCatchupParams {
        network: Network::ZcashRegtest,
        storage_path: "store".to_owned(),
        from_height: BlockHeight::new(from_height),
        to_height: BlockHeight::new(to_height),
        block_prepare_concurrency: nz32(2),
        raw_blob_policy: RawBlobPolicy::NoBlobs,
    });
    BulkCatchupRunConfig {
        canonical_batch_max_blocks: nz32(canonical_batch_max_blocks),
        allow_near_tip_finalize,
        upstream_tip_hint: None,
        ..run.config
    }
}

#[test]
fn bulk_catchup_flush_state_preserves_epoch_cadence() {
    let flush_interval = nz32(3);
    let mut flush_state = BulkCatchupFlushState::default();

    flush_state.record_committed_epoch();
    assert!(!flush_state.should_flush(flush_interval));
    assert_eq!(flush_state.pending_epoch_count(), 1);

    flush_state.record_committed_epoch();
    assert!(!flush_state.should_flush(flush_interval));
    assert_eq!(flush_state.pending_epoch_count(), 2);

    flush_state.record_committed_epoch();
    assert!(flush_state.should_flush(flush_interval));
    assert_eq!(flush_state.pending_epoch_count(), 3);

    flush_state.mark_flushed();
    assert_eq!(flush_state.pending_epoch_count(), 0);
    assert!(!flush_state.should_flush(flush_interval));
}

#[test]
fn a_kept_segment_sizer_is_taken_up_again() {
    let mut flush_state = BulkCatchupFlushState::default();
    let mut sizer = flush_state.take_source_segment_sizer(
        nz32(32),
        nz64(1_024),
        NetworkUpgradeActivations::empty(Network::ZcashRegtest),
        BlockHeight::new(1),
    );
    sizer.success_count = 5;
    flush_state.keep_source_segment_sizer(sizer);
    let again = flush_state.take_source_segment_sizer(
        nz32(8),
        nz64(8),
        NetworkUpgradeActivations::empty(Network::ZcashRegtest),
        BlockHeight::new(9),
    );
    assert_eq!(again.success_count, 5);
    assert_eq!(again.max_blocks.get(), 32);
    assert!(!flush_state.has_pending_epochs());
    assert!(BulkCatchupCompletionFlush::FlushPending.flushes_pending());
    assert!(!BulkCatchupCompletionFlush::PreservePending.flushes_pending());
}

#[test]
fn bulk_catchup_readiness_state_reports_syncing_until_upstream_tip_hint() {
    let mut config = test_bulk_catchup_run_config(101, 150, 50, false);
    config.upstream_tip_hint = Some(BlockHeight::new(200));

    let state = bulk_catchup_readiness_state(config.upstream_tip_hint, Some(150));

    assert!(matches!(state.cause, ReadinessCause::Syncing { lag_blocks: Some(50) }));
    assert_eq!(state.current_height, Some(150));
    assert_eq!(state.target_height, Some(200));
}

#[test]
fn bulk_catchup_readiness_state_reports_ready_at_upstream_tip_hint() {
    let mut config = test_bulk_catchup_run_config(101, 200, 50, false);
    config.upstream_tip_hint = Some(BlockHeight::new(200));

    let state = bulk_catchup_readiness_state(config.upstream_tip_hint, Some(200));

    assert_eq!(state.cause, ReadinessCause::Ready);
    assert_eq!(state.current_height, Some(200));
    assert_eq!(state.target_height, Some(200));
}

#[test]
fn bulk_catchup_rejects_near_tip_finalize_without_explicit_override() {
    let config = test_bulk_catchup_run_config(101, 150, 50, false);

    let error = match admit_bulk_catchup(&config, None, BlockHeight::new(200), 100) {
        Ok(start) => panic!("expected near-tip rejection, got {start:?}"),
        Err(error) => error,
    };

    assert!(matches!(
        error,
        IngestError::NearTipBulkCatchupRequiresExplicitFinalize {
            to_height,
            tip_height,
            reorg_window_blocks: 100,
            maximum_historical_height,
        } if to_height == BlockHeight::new(150)
            && tip_height == BlockHeight::new(200)
            && maximum_historical_height == BlockHeight::new(100)
    ));
    assert!(validate_bulk_catchup_finality_bound(
        BlockHeight::new(150),
        true,
        BlockHeight::new(200),
        100
    )
    .is_ok());
    assert!(validate_bulk_catchup_finality_bound(
        BlockHeight::new(100),
        false,
        BlockHeight::new(200),
        100
    )
    .is_ok());
}

#[test]
fn mod_source_retry_classification_uses_upstream_classification() {
    assert_eq!(
        SourceError::NodeUnavailable {
            reason: "connection reset".to_owned(),
        }
        .upstream_classification(),
        SourceFailureClass::NodeUnreachable,
    );
    assert_eq!(
        SourceError::BlockUnavailable {
            height: BlockHeight::new(1),
            reason: "block height not in best chain".to_owned(),
        }
        .upstream_classification(),
        SourceFailureClass::UpstreamViewChanged,
    );
    assert_eq!(
        SourceError::SourceProtocolMismatch {
            cause: "missing block hash",
        }
        .upstream_classification(),
        SourceFailureClass::ProtocolMismatch,
    );
}

#[test]
fn canonical_bulk_catchup_requires_genesis_or_contiguous_tree_size_base() {
    let config = test_bulk_catchup_run_config(2, 2, 1, false);

    let error = match admit_bulk_catchup(&config, None, BlockHeight::new(200), 100) {
        Ok(start) => panic!("expected tree-size base rejection, got {start:?}"),
        Err(error) => error,
    };

    assert!(matches!(
        error,
        IngestError::BulkCatchupRequiresContiguousTipMetadata {
            from_height,
            current_tip_height: None,
        } if from_height == BlockHeight::new(2)
    ));
}

#[test]
fn bulk_catchup_start_resumes_or_completes_from_current_tip() {
    let tip_metadata = ChainTipMetadata::new(123, 456, 0);
    let current_chain_epoch = test_chain_epoch(9, tip_metadata);

    let contiguous_start = match bulk_catchup_start(
        Some(current_chain_epoch),
        BlockHeight::new(10),
        BlockHeight::new(20),
    ) {
        Ok(Some(start)) => start,
        other => panic!("contiguous range should need work, got {other:?}"),
    };
    let resumed_start = match bulk_catchup_start(
        Some(current_chain_epoch),
        BlockHeight::new(1),
        BlockHeight::new(20),
    ) {
        Ok(Some(start)) => start,
        other => panic!("partial rerun should need work, got {other:?}"),
    };
    let completed_start = match bulk_catchup_start(
        Some(current_chain_epoch),
        BlockHeight::new(1),
        BlockHeight::new(9),
    ) {
        Ok(start) => start,
        Err(error) => panic!("covered range should be accepted, got {error:?}"),
    };
    let error = match bulk_catchup_start(
        Some(current_chain_epoch),
        BlockHeight::new(11),
        BlockHeight::new(20),
    ) {
        Ok(start) => panic!("expected non-contiguous rejection, got {start:?}"),
        Err(error) => error,
    };

    assert_eq!(contiguous_start.from_height, BlockHeight::new(10));
    assert_eq!(contiguous_start.initial_tip_metadata, tip_metadata);
    assert_eq!(resumed_start.from_height, BlockHeight::new(10));
    assert_eq!(resumed_start.initial_tip_metadata, tip_metadata);
    assert_eq!(completed_start, None);
    assert!(matches!(
        error,
        IngestError::BulkCatchupRequiresContiguousTipMetadata {
            from_height,
            current_tip_height: Some(current_tip_height),
        } if from_height == BlockHeight::new(11)
            && current_tip_height == BlockHeight::new(9)
    ));
}

#[test]
fn mod_checkpoint_within_reorg_window_marks_only_inside_window() {
    assert!(!checkpoint_within_reorg_window(
        BlockHeight::new(99),
        BlockHeight::new(200),
        100,
    ));
    assert!(!checkpoint_within_reorg_window(
        BlockHeight::new(100),
        BlockHeight::new(200),
        100,
    ));
    assert!(checkpoint_within_reorg_window(
        BlockHeight::new(101),
        BlockHeight::new(200),
        100,
    ));
    assert!(checkpoint_within_reorg_window(
        BlockHeight::new(200),
        BlockHeight::new(200),
        100,
    ));
    assert!(checkpoint_within_reorg_window(
        BlockHeight::new(1),
        BlockHeight::new(50),
        100,
    ));
}

#[test]
fn bulk_catchup_rejects_misaligned_checkpoint() {
    let checkpoint = SourceChainCheckpoint {
        height: BlockHeight::new(10),
        hash: BlockHash::from_bytes([0xa5; 32]),
        tip_metadata: ChainTipMetadata::empty(),
    };

    let error = match bootstrap_from_checkpoint_if_needed(
        false,
        Network::ZcashRegtest,
        Some(checkpoint),
        BlockHeight::new(50),
        ArtifactSchemaVersion(12),
        Ok(UnixTimestampMillis(7)),
    ) {
        Ok(seed) => panic!("expected misaligned-checkpoint rejection, got {seed:?}"),
        Err(error) => error,
    };
    assert!(matches!(
        error,
        IngestError::BulkCatchupCheckpointMisaligned {
            checkpoint_height,
            from_height,
        } if checkpoint_height == BlockHeight::new(10)
            && from_height == BlockHeight::new(50)
    ));
}

#[test]
fn nothing_continues_a_checkpoint_at_the_last_height() {
    for from_height in [0, u32::MAX - 1, u32::MAX] {
        let checkpoint = SourceChainCheckpoint {
            height: BlockHeight::new(u32::MAX),
            hash: BlockHash::from_bytes([0xa5; 32]),
            tip_metadata: ChainTipMetadata::empty(),
        };
        match bootstrap_from_checkpoint_if_needed(
            false,
            Network::ZcashRegtest,
            Some(checkpoint),
            BlockHeight::new(from_height),
            ArtifactSchemaVersion(12),
            Ok(UnixTimestampMillis(7)),
        ) {
            Err(IngestError::BulkCatchupCheckpointMisaligned {
                checkpoint_height,
                from_height: refused,
            }) => {
                assert_eq!(checkpoint_height, BlockHeight::new(u32::MAX));
                assert_eq!(refused, BlockHeight::new(from_height));
            }
            other => panic!("expected misaligned-checkpoint rejection, got {other:?}"),
        }
    }
}

#[test]
fn bulk_catchup_seeds_chain_epoch_from_checkpoint_then_extends() {
    let checkpoint = SourceChainCheckpoint {
        height: BlockHeight::new(10),
        hash: BlockHash::from_bytes([10; 32]),
        tip_metadata: ChainTipMetadata::new(0, 0, 0),
    };
    let seed = match bootstrap_from_checkpoint_if_needed(
        false,
        Network::ZcashRegtest,
        Some(checkpoint),
        BlockHeight::new(11),
        ArtifactSchemaVersion(12),
        Ok(UnixTimestampMillis(7)),
    ) {
        Ok(Some(seed)) => seed,
        other => panic!("an empty store has to be seeded, got {other:?}"),
    };
    assert_eq!(seed.chain_epoch.id, ChainEpochId::new(1));
    assert_eq!(seed.chain_epoch.visible_tip_height, BlockHeight::new(10));
    assert_eq!(
        seed.reorg_window_change,
        ReorgWindowChange::AdvanceSafeTipTo { height: BlockHeight::new(10) }
    );
    assert!(seed.block_headers.is_empty());
    let start = match bulk_catchup_start(
        Some(seed.chain_epoch),
        BlockHeight::new(11),
        BlockHeight::new(12),
    ) {
        Ok(Some(start)) => start,
        other => panic!("the seeded range needs work, got {other:?}"),
    };
    assert_eq!(start.from_height, BlockHeight::new(11));
    assert!(matches!(
        bootstrap_from_checkpoint_if_needed(
            true,
            Network::ZcashRegtest,
            Some(checkpoint),
            BlockHeight::new(11),
            ArtifactSchemaVersion(12),
            Ok(UnixTimestampMillis(7)),
        ),
        Ok(None)
    ));
}

#[test]
fn a_finished_run_reports_its_own_tip_first() {
    let committed = ChainEpochCommitOutcome {
        chain_epoch: test_chain_epoch(12, ChainTipMetadata::empty()),
    };
    let stored = test_chain_epoch(9, ChainTipMetadata::empty());
    assert_eq!(finished_run_tip(Some(committed), Some(stored)), Some(12));
    assert_eq!(finished_run_tip(None, Some(stored)), Some(9));
    assert_eq!(finished_run_tip(None, None), None);
    assert_eq!(
        bulk_catchup_readiness_state(Some(BlockHeight::new(200)), None).cause,
        ReadinessCause::Ready
    );
}

#[test]
fn benchmark_settings_are_fixed() {
    let run = bench_bulk_catchup_run_config(BenchBulkCatchupParams {
        network: Network::ZcashMainnet,
        storage_path: "clone".to_owned(),
        from_height: BlockHeight::new(5),
        to_height: BlockHeight::new(9),
        block_prepare_concurrency: nz32(4),
        raw_blob_policy: RawBlobPolicy::All,
    });
    assert_eq!(run.node_source, NodeSourceKind::ZebraJsonRpc);
    assert_eq!(run.node_address, "http://127.0.0.1:0");
    assert_eq!(run.node_request_timeout, Duration::from_secs(30));
    assert_eq!(run.reorg_window_blocks, 100);
    assert_eq!(run.config.canonical_batch_max_blocks.get(), 1_000);
    assert_eq!(run.config.canonical_batch_max_artifact_bytes.get(), 512 * 1024 * 1024);
    assert_eq!(run.config.source_fetch_max_in_flight_bytes.get(), 384 * 1024 * 1024);
    assert_eq!(run.config.block_prepare_concurrency.get(), 4);
    assert_eq!(run.config.upstream_tip_hint, Some(BlockHeight::new(9)));
    assert!(run.config.allow_near_tip_finalize);
    let derive = bench_derive_config();
    assert_eq!(derive.replay_batch_blocks.get(), 100);
    assert_eq!(derive.replay_policy, DeriveReplayPolicy::CanonicalFirst);
    assert_eq!(derive.memory_degrade_percent, 90);
    assert_eq!(derive.memory_pause_percent, 99);
    assert_eq!(derive.memory_resume_percent, 80);
    assert_eq!(derive.startup_handoff_lag_blocks, 1_000);
    assert_eq!(nz32(0).get(), 1);
    assert_eq!(nz64(0).get(), 1);
}

#[test]
fn configuration_values_are_parsed() {
    assert!(matches!(parse_node_source("zebra-json-rpc"), Ok(NodeSourceKind::ZebraJsonRpc)));
    match parse_node_source("bitcoind") {
        Err(IngestError::UnknownNodeSource { node_source }) => assert_eq!(node_source, "bitcoind"),
        other => panic!("expected an unknown source, got {other:?}"),
    }
    match parse_commit_batch_blocks(12) {
        Ok(bound) => assert_eq!(bound.get(), 12),
        Err(error) => panic!("twelve is a bound, got {error:?}"),
    }
    match parse_commit_batch_blocks(0) {
        Err(error) => assert_eq!(
            error.reason,
            "ingest.bulk_catchup.commit_batch_blocks must be greater than zero"
        ),
        Ok(bound) => panic!("zero is no bound, got {bound:?}"),
    }
    assert_eq!(parse_reorg_window_blocks(100), Ok(100));
    assert!(parse_reorg_window_blocks(0).is_err());
    assert_eq!(parse_poll_interval_ms(1_500), Ok(Duration::from_millis(1_500)));
    assert!(parse_poll_interval_ms(0).is_err());
}

#[test]
fn failures_are_labelled_for_metrics() {
    assert_eq!(ingest_error_class(None), "none");
    assert_eq!(ingest_error_class(Some(&IngestError::EmptyCanonicalBatch)), "empty_canonical_batch");
    assert_eq!(
        ingest_error_class(Some(&IngestError::Store(StoreError::ChainEpochSequenceOverflow))),
        "store"
    );
    assert_eq!(
        ingest_error_class(Some(&IngestError::BackfillProducedNoCommit)),
        "backfill_produced_no_commit"
    );
    assert_eq!(
        ingest_error_class(Some(&IngestError::DeriveDispatch("late".to_owned()))),
        "derive_dispatch"
    );
    let succeeded: Result<u8, u8> = Ok(1);
    let failed: Result<u8, u8> = Err(1);
    assert_eq!(outcome_status(&succeeded), "ok");
    assert_eq!(outcome_status(&failed), "error");
}
