use std::time::Duration;
use zinder_ingest::artifact_builder::{
    attach_encodings, CommitmentTreeSizes, EncodedCanonicalBlock, PreparedCanonicalBlock,
};
use zinder_ingest::artifacts::{
    BlockHeaderArtifact, CanonicalBlockFacts, CanonicalBlockReplayEnvelope,
    CanonicalTransactionFacts, CompactBlock, SourceChainCheckpoint, SubtreeRootArtifact,
    TransactionIntrinsicValueBalances, TransactionPublicFacts, TransparentInputFact,
};
use zinder_ingest::backfill::{
    backfill_commit_epoch, backfill_readiness_state, backfill_start,
    bootstrap_from_checkpoint_if_needed, ingest_batch_work_cost,
    validate_backfill_finality_bound, BackfillAction, BackfillCommitLoop,
    BackfillCompletionFlush, BackfillConfig, BackfillFlushState, IngestBatchBudget,
    IngestBatchCommitTrigger, IngestBatchWorkCost,
};
use zinder_ingest::batch::CanonicalBatch;
use zinder_ingest::bounds::nonzero_u32;
use zinder_ingest::bulk_catchup::canonical_commit::ChainEpochCommitOutcome;
use zinder_ingest::bulk_catchup::run::{checkpoint_within_reorg_window, ReadinessCause};
use zinder_ingest::chain_ingest::{
    append_subtree_root_artifacts, next_chain_epoch_id_from, subtree_root_indexes_after,
    subtree_root_requests, ChainEpochArtifacts, IngestSubtreeRootIndexes, SourceSubtreeRoot,
    SourceSubtreeRoots,
};
use zinder_ingest::errors::{IngestError, SourceError, SourceFailureClass};
use zinder_ingest::ids::{
    ArtifactSchemaVersion, BlockHash, BlockHeight, ChainEpoch, ChainEpochId, ChainTipMetadata,
    Network, ShieldedProtocol, SubtreeRootHash, SubtreeRootIndex, TransactionId,
    TransparentOutPoint, UnixTimestampMillis, SUBTREE_LEAF_COUNT,
};
use zinder_ingest::retry::{block_fetch_operation, IngestRetryState, SourceRetry};

fn epoch(id: u64, height: u32) -> ChainEpoch {
    ChainEpoch {
        id: ChainEpochId::new(id),
        network: Network::ZcashRegtest,
        visible_tip_height: BlockHeight::new(height),
        visible_tip_hash: BlockHash::from_bytes([height as u8; 32]),
        settled_tip_height: BlockHeight::new(height),
        settled_tip_hash: BlockHash::from_bytes([height as u8; 32]),
        artifact_schema_version: ArtifactSchemaVersion(12),
        tip_metadata: ChainTipMetadata::new(123, 456, 0),
        created_at: UnixTimestampMillis(1),
    }
}

fn budget(max_blocks: u32, max_lookups: u32) -> IngestBatchBudget {
    IngestBatchBudget::new(nonzero_u32(max_blocks), nonzero_u32(max_lookups))
}

fn config(from_height: u32, to_height: u32) -> BackfillConfig {
    BackfillConfig {
        network: Network::ZcashRegtest,
        from_height: BlockHeight::new(from_height),
        to_height: BlockHeight::new(to_height),
        commit_batch_blocks: nonzero_u32(50),
        max_transparent_prevout_store_lookups_per_batch: nonzero_u32(250_000),
        fetch_concurrency: nonzero_u32(1),
        derive_concurrency: nonzero_u32(1),
        flush_interval_epochs: nonzero_u32(3),
        upstream_tip_hint: None,
        allow_near_tip_finalize: false,
        checkpoint: None,
    }
}

fn prepared(height: u32, sapling_notes: u32, spends: bool) -> PreparedCanonicalBlock {
    let mut transactions = Vec::new();
    if spends {
        let mut spent = [0; 32];
        spent[..4].copy_from_slice(&height.to_be_bytes());
        transactions.push(CanonicalTransactionFacts {
            public_facts: TransactionPublicFacts {
                transaction_id: TransactionId::from_bytes([0x80 + height as u8; 32]),
                serialized_size_bytes: 1,
                unsupported_sections: Vec::new(),
            },
            intrinsic_value_balances: TransactionIntrinsicValueBalances {
                sprout_zat: 0,
                sapling_zat: 0,
                orchard_zat: 0,
                ironwood_zat: 0,
            },
            transparent_inputs: vec![TransparentInputFact {
                input_index: 0,
                spent_outpoint: TransparentOutPoint::new(TransactionId::from_bytes(spent), 0),
            }],
            transparent_outputs: Vec::new(),
            raw_transaction_bytes: None,
        });
    }
    PreparedCanonicalBlock {
        facts: CanonicalBlockFacts {
            block_header: BlockHeaderArtifact {
                height: BlockHeight::new(height),
                block_hash: BlockHash::from_bytes([height as u8; 32]),
                parent_hash: BlockHash::from_bytes([height as u8 - 1; 32]),
                merkle_root: [0; 32],
                commitment_bytes: [0; 32],
                block_time: 0,
                difficulty_bits: 0,
                nonce: [0; 32],
                version: 4,
                block_size_bytes: 0,
            },
            raw_block_bytes: None,
            transactions,
        },
        partial_compact_block: CompactBlock {
            height: height as u64,
            hash: Vec::new(),
            prev_hash: Vec::new(),
            time: 0,
            header: Vec::new(),
            vtx: Vec::new(),
            chain_metadata: None,
        },
        tree_size_additions: CommitmentTreeSizes {
            sapling: sapling_notes,
            orchard: 0,
            ironwood: 0,
        },
    }
}

fn begin(max_blocks: u32, max_lookups: u32, flush_interval: u32) -> BackfillCommitLoop {
    BackfillCommitLoop::begin(
        ChainTipMetadata::empty(),
        ChainEpochId::new(1),
        budget(max_blocks, max_lookups),
        nonzero_u32(flush_interval),
        BackfillFlushState::default(),
        BackfillCompletionFlush::FlushPending,
    )
}

fn feed_block(run: &mut BackfillCommitLoop, block: PreparedCanonicalBlock) {
    let positioned = match run.accept_block(Some(Ok(block))) {
        Some(positioned) => positioned,
        None => panic!("the block has to be positioned"),
    };
    let encoded: EncodedCanonicalBlock = attach_encodings(
        positioned,
        CanonicalBlockReplayEnvelope { payload_bytes: vec![1] },
        vec![2],
    );
    run.admit_block(encoded);
}

#[test]
fn backfill_flush_state_preserves_epoch_cadence() {
    let flush_interval = nonzero_u32(3);
    let mut flush_state = BackfillFlushState::default();

    flush_state.record_committed_epoch();
    assert!(!flush_state.should_flush(flush_interval));
    assert_eq!(flush_state.pending_epoch_count(), 1);

    flush_state.record_committed_epoch();
    assert!(!flush_state.should_flush(flush_interval));
    assert_eq!(flush_state.pending_epoch_count(), 2);

    flush_state.record_committed_epoch();
    assert!(flush_state.should_flush(flush_interval));
    assert_eq!(flush_state.pending_epoch_count(), 3);

    flush_state.mark_flushed();
    assert_eq!(flush_state.pending_epoch_count(), 0);
    assert!(!flush_state.should_flush(flush_interval));
}

#[test]
fn backfill_readiness_state_reports_syncing_until_upstream_tip_hint() {
    let mut config = config(101, 150);
    config.upstream_tip_hint = Some(BlockHeight::new(200));

    let state = backfill_readiness_state(&config, Some(150));

    assert!(matches!(state.cause, ReadinessCause::Syncing { lag_blocks: Some(50) }));
    assert_eq!(state.current_height, Some(150));
    assert_eq!(state.target_height, Some(200));
}

#[test]
fn backfill_readiness_state_reports_ready_at_upstream_tip_hint() {
    let mut config = config(101, 200);
    config.upstream_tip_hint = Some(BlockHeight::new(200));

    let state = backfill_readiness_state(&config, Some(200));

    assert_eq!(state.cause, ReadinessCause::Ready);
    assert_eq!(state.current_height, Some(200));
    assert_eq!(state.target_height, Some(200));
}

#[test]
fn backfill_rejects_near_tip_finalize_without_explicit_override() {
    let error =
        match validate_backfill_finality_bound(&config(101, 150), BlockHeight::new(200), 100) {
            Ok(()) => panic!("expected near-tip rejection"),
            Err(error) => error,
        };

    assert!(matches!(
        error,
        IngestError::NearTipBackfillRequiresExplicitFinalize {
            to_height,
            tip_height,
            reorg_window_blocks: 100,
            maximum_historical_height,
        } if to_height == BlockHeight::new(150)
            && tip_height == BlockHeight::new(200)
            && maximum_historical_height == BlockHeight::new(100)
    ));
}

#[test]
fn backfill_source_retry_classification_uses_upstream_classification() {
    assert_eq!(
        SourceError::NodeUnavailable {
            reason: "connection reset".to_owned(),
        }
        .upstream_classification(),
        SourceFailureClass::NodeUnreachable,
    );
    assert_eq!(
        SourceError::BlockUnavailable {
            height: BlockHeight::new(1),
            reason: "block height not in best chain".to_owned(),
        }
        .upstream_classification(),
        SourceFailureClass::UpstreamViewChanged,
    );
    assert_eq!(
        SourceError::SourceProtocolMismatch {
            cause: "missing block hash",
        }
        .upstream_classification(),
        SourceFailureClass::ProtocolMismatch,
    );
}

#[test]
fn backfill_start_resumes_or_completes_from_current_tip() {
    let current_chain_epoch = epoch(1, 9);
    let contiguous_start = match backfill_start(
        Some(current_chain_epoch),
        BlockHeight::new(10),
        BlockHeight::new(20),
    ) {
        Ok(Some(start)) => start,
        other => panic!("contiguous range should need work, got {other:?}"),
    };
    let resumed_start = match backfill_start(
        Some(current_chain_epoch),
        BlockHeight::new(1),
        BlockHeight::new(20),
    ) {
        Ok(Some(start)) => start,
        other => panic!("partial rerun should need work, got {other:?}"),
    };
    assert_eq!(contiguous_start.from_height, BlockHeight::new(10));
    assert_eq!(contiguous_start.initial_tip_metadata, ChainTipMetadata::new(123, 456, 0));
    assert_eq!(resumed_start.from_height, BlockHeight::new(10));
    assert!(matches!(
        backfill_start(Some(current_chain_epoch), BlockHeight::new(1), BlockHeight::new(9)),
        Ok(None)
    ));
    assert!(matches!(
        backfill_start(Some(current_chain_epoch), BlockHeight::new(11), BlockHeight::new(20)),
        Err(IngestError::BackfillRequiresContiguousTipMetadata {
            from_height,
            current_tip_height: Some(current_tip_height),
        }) if from_height == BlockHeight::new(11)
            && current_tip_height == BlockHeight::new(9)
    ));
}

#[test]
fn backfill_checkpoint_within_reorg_window_marks_only_inside_window() {
    assert!(!checkpoint_within_reorg_window(BlockHeight::new(99), BlockHeight::new(200), 100));
    assert!(!checkpoint_within_reorg_window(BlockHeight::new(100), BlockHeight::new(200), 100));
    assert!(checkpoint_within_reorg_window(BlockHeight::new(101), BlockHeight::new(200), 100));
    assert!(checkpoint_within_reorg_window(BlockHeight::new(200), BlockHeight::new(200), 100));
    assert!(checkpoint_within_reorg_window(BlockHeight::new(1), BlockHeight::new(50), 100));
}

/// Answers the subtree-root requests of a batch the way a node does whose
/// subtrees all complete at one height.
fn attach_subtree_roots(
    batch: &mut CanonicalBatch,
    next: IngestSubtreeRootIndexes,
    completing_height: u32,
) -> (usize, IngestSubtreeRootIndexes) {
    let requests = match subtree_root_requests(batch, next) {
        Ok(requests) => requests,
        Err(error) => panic!("a batch with blocks has a tip, got {error:?}"),
    };
    for request in &requests {
        let mut subtree_roots = Vec::new();
        for offset in 0..request.max_entries.get() {
            subtree_roots.push(SourceSubtreeRoot {
                subtree_index: SubtreeRootIndex::new(request.start_index.value() + offset),
                root_hash: SubtreeRootHash([0x33; 32]),
                completing_block_height: BlockHeight::new(completing_height),
            });
        }
        let answer = SourceSubtreeRoots {
            protocol: request.protocol,
            start_index: request.start_index,
            subtree_roots,
        };
        assert!(append_subtree_root_artifacts(batch, answer, request.max_entries.get()).is_ok());
    }
    let tip_metadata = match batch.tip_metadata {
        Some(tip_metadata) => tip_metadata,
        None => panic!("a batch with blocks has a tip"),
    };
    (requests.len(), subtree_root_indexes_after(tip_metadata, next))
}

/// Commits of a run: epoch id, tip height, and subtree roots recorded with it.
type Commits = Vec<(u64, u32, Vec<SubtreeRootArtifact>)>;

fn run_to_end(
    mut run: BackfillCommitLoop,
    blocks: Vec<PreparedCanonicalBlock>,
) -> (Commits, Result<ChainEpochCommitOutcome, IngestError>, bool) {
    let mut blocks = blocks.into_iter();
    let mut commits = Vec::new();
    loop {
        match run.next_action() {
            BackfillAction::AwaitBlock => match blocks.next() {
                Some(block) => {
                    feed_block(&mut run, block);
                }
                None => assert!(run.accept_block(None).is_none()),
            },
            BackfillAction::Commit(request) => {
                let mut batch = request.batch;
                let tip = batch.block_headers[batch.block_headers.len() - 1].height.value();
                let (_, indexes) =
                    attach_subtree_roots(&mut batch, request.next_subtree_root_indexes, tip);
                let id = request.chain_epoch_id.value();
                commits.push((id, tip, batch.subtree_roots));
                run.accept_commit(Ok((
                    ChainEpochCommitOutcome { chain_epoch: epoch(id, tip) },
                    indexes,
                )));
            }
            BackfillAction::Flush => run.accept_flush(Ok(())),
            BackfillAction::Finish(outcome) => {
                return (commits, outcome, run.flush_state.has_pending_epochs());
            }
        }
    }
}

#[test]
fn exact_divisor_backfill_returns_last_full_batch_outcome() {
    let blocks = (1..=10).map(|height| prepared(height, 0, false)).collect();
    let (commits, outcome, pending) = run_to_end(begin(5, 250_000, 3), blocks);
    assert_eq!(commits.len(), 2);
    match outcome {
        Ok(outcome) => {
            assert_eq!(outcome.chain_epoch.id, ChainEpochId::new(2));
            assert_eq!(outcome.chain_epoch.visible_tip_height, BlockHeight::new(10));
        }
        Err(error) => panic!("the run has to succeed, got {error:?}"),
    }
    assert!(!pending);
}

#[test]
fn backfill_commits_when_prevout_store_lookup_budget_is_reached() {
    let blocks = (1..=3).map(|height| prepared(height, 0, true)).collect();
    let (commits, outcome, _) = run_to_end(begin(10, 2, 3), blocks);
    match outcome {
        Ok(outcome) => {
            assert_eq!(outcome.chain_epoch.visible_tip_height, BlockHeight::new(3))
        }
        Err(error) => panic!("the run has to succeed, got {error:?}"),
    }
    assert_eq!(commits.len(), 2);
    assert_eq!(commits[0].1, 2);
}

#[test]
fn a_prevout_read_twice_counts_once_against_the_budget() {
    let first = prepared(1, 0, true);
    let mut second = prepared(2, 0, true);
    second.facts.transactions[0].transparent_inputs[0].spent_outpoint =
        first.facts.transactions[0].transparent_inputs[0].spent_outpoint;
    let (commits, outcome, _) = run_to_end(begin(10, 2, 3), vec![first, second]);
    assert!(outcome.is_ok());
    assert_eq!(commits.len(), 1);
    assert_eq!(commits[0].1, 2);
}

#[test]
fn the_first_reached_bound_closes_a_batch() {
    let cost = |block_count, transparent_prevout_store_lookup_count| IngestBatchWorkCost {
        block_count,
        transparent_prevout_store_lookup_count,
    };
    let budget = budget(3, 7);
    assert_eq!(budget.commit_trigger(cost(2, 6)), None);
    assert_eq!(
        budget.commit_trigger(cost(3, 7)),
        Some(IngestBatchCommitTrigger::BlockCount)
    );
    assert_eq!(
        budget.commit_trigger(cost(2, 7)),
        Some(IngestBatchCommitTrigger::TransparentPrevoutStoreLookups)
    );
}

#[test]
fn backfill_commits_newly_completed_subtree_roots() {
    let (commits, outcome, _) = run_to_end(
        begin(1, 250_000, 3),
        vec![prepared(1, SUBTREE_LEAF_COUNT, false)],
    );
    match outcome {
        Ok(outcome) => {
            assert_eq!(outcome.chain_epoch.visible_tip_height, BlockHeight::new(1))
        }
        Err(error) => panic!("the run has to succeed, got {error:?}"),
    }
    let subtree_root = &commits[0].2[0];
    assert_eq!(subtree_root.protocol, ShieldedProtocol::Sapling);
    assert_eq!(subtree_root.subtree_index, SubtreeRootIndex::new(0));
    assert_eq!(subtree_root.root_hash.0, [0x33; 32]);
    assert_eq!(subtree_root.completing_block_height, BlockHeight::new(1));
    assert_eq!(subtree_root.completing_block_hash, BlockHash::from_bytes([1; 32]));
}

#[test]
fn canonical_backfill_requires_genesis_or_contiguous_tree_size_base() {
    assert!(matches!(
        backfill_start(None, BlockHeight::new(2), BlockHeight::new(2)),
        Err(IngestError::BackfillRequiresContiguousTipMetadata {
            from_height,
            current_tip_height: None,
        }) if from_height == BlockHeight::new(2)
    ));
}

fn checkpoint(height: u32, seed: u8, tip_metadata: ChainTipMetadata) -> SourceChainCheckpoint {
    SourceChainCheckpoint {
        height: BlockHeight::new(height),
        hash: BlockHash::from_bytes([seed; 32]),
        tip_metadata,
    }
}

fn seed_from(
    checkpoint: SourceChainCheckpoint,
    from_height: u32,
) -> Result<Option<ChainEpochArtifacts>, IngestError> {
    bootstrap_from_checkpoint_if_needed(
        false,
        Network::ZcashRegtest,
        Some(checkpoint),
        BlockHeight::new(from_height),
        ArtifactSchemaVersion(12),
        Ok(UnixTimestampMillis(1)),
    )
}

fn begin_after(seed: &ChainEpochArtifacts) -> BackfillCommitLoop {
    let next = match next_chain_epoch_id_from(Some(seed.chain_epoch)) {
        Ok(next) => next,
        Err(error) => panic!("the seeded epoch has a successor, got {error:?}"),
    };
    BackfillCommitLoop::begin(
        seed.chain_epoch.tip_metadata,
        next,
        budget(1, 250_000),
        nonzero_u32(3),
        BackfillFlushState::default(),
        BackfillCompletionFlush::FlushPending,
    )
}

#[test]
fn backfill_seeds_chain_epoch_from_checkpoint_then_extends() {
    let seed = match seed_from(checkpoint(10, 10, ChainTipMetadata::new(0, 0, 0)), 11) {
        Ok(Some(seed)) => seed,
        other => panic!("an empty store has to be seeded, got {other:?}"),
    };
    let blocks = vec![prepared(11, 0, false), prepared(12, 0, false)];
    let (commits, outcome, _) = run_to_end(begin_after(&seed), blocks);
    match outcome {
        Ok(outcome) => {
            assert_eq!(outcome.chain_epoch.visible_tip_height, BlockHeight::new(12))
        }
        Err(error) => panic!("the run has to succeed, got {error:?}"),
    }
    assert_eq!(
        1 + commits.len(),
        3,
        "checkpoint bootstrap commit plus per-block backfill commits"
    );
}

#[test]
fn backfill_from_checkpoint_skips_pre_checkpoint_subtree_root_indexes() {
    let metadata = ChainTipMetadata::new(SUBTREE_LEAF_COUNT, 0, 0);
    let seed = match seed_from(checkpoint(10, 10, metadata), 11) {
        Ok(Some(seed)) => seed,
        other => panic!("an empty store has to be seeded, got {other:?}"),
    };
    let (commits, outcome, _) = run_to_end(begin_after(&seed), vec![prepared(11, 0, false)]);
    match outcome {
        Ok(outcome) => {
            assert_eq!(outcome.chain_epoch.visible_tip_height, BlockHeight::new(11))
        }
        Err(error) => panic!("the run has to succeed, got {error:?}"),
    }
    assert!(commits[0].2.is_empty());
}

#[test]
fn backfill_rejects_misaligned_checkpoint() {
    let error = match seed_from(checkpoint(10, 0xa5, ChainTipMetadata::empty()), 50) {
        Ok(seed) => panic!("expected misaligned-checkpoint rejection, got {seed:?}"),
        Err(error) => error,
    };
    assert!(matches!(
        error,
        IngestError::BackfillCheckpointMisaligned {
            checkpoint_height,
            from_height,
        } if checkpoint_height == BlockHeight::new(10)
            && from_height == BlockHeight::new(50)
    ));
}

/// Attempts that a request takes against a source which fails so many times.
fn attempts(
    failures_before_success: u32,
    failure: fn() -> SourceError,
) -> (u32, Result<(), IngestError>) {
    let mut state = IngestRetryState::default();
    let mut retry =
        SourceRetry::begin(block_fetch_operation(BlockHeight::new(1)), Duration::from_secs(30));
    let mut attempts = 0;
    loop {
        attempts += 1;
        if attempts > failures_before_success {
            return (attempts, Ok(()));
        }
        match retry.after_failure(&mut state, failure(), "failed".to_owned(), Duration::ZERO) {
            Ok(_) => {}
            Err(error) => return (attempts, Err(error)),
        }
    }
}

#[test]
fn backfill_retries_retryable_block_fetch_failures() {
    let (attempts, outcome) = attempts(2, || SourceError::NodeUnavailable {
        reason: "connection reset".to_owned(),
    });
    assert!(outcome.is_ok());
    assert_eq!(attempts, 3);
}

#[test]
fn backfill_does_not_retry_protocol_mismatch_failures() {
    let (attempts, outcome) = attempts(2, || SourceError::SourceProtocolMismatch {
        cause: "missing block hash",
    });
    assert!(matches!(
        outcome,
        Err(IngestError::Source(SourceError::SourceProtocolMismatch { .. }))
    ));
    assert_eq!(attempts, 1);
}

#[test]
fn a_failed_block_ends_the_backfill() {
    let mut run = begin(5, 250_000, 10);
    assert!(matches!(run.next_action(), BackfillAction::AwaitBlock));
    assert!(run
        .accept_block(Some(Err(IngestError::Source(SourceError::NodeUnavailable {
            reason: "gone".to_owned(),
        }))))
        .is_none());
    loop {
        match run.next_action() {
            BackfillAction::Flush => run.accept_flush(Ok(())),
            BackfillAction::Finish(outcome) => {
                assert!(matches!(outcome, Err(IngestError::Source(_))));
                break;
            }
            other => panic!("a failed run only ends, got {other:?}"),
        }
    }
}

#[test]
fn a_backfill_without_blocks_commits_nothing() {
    let (commits, outcome, _) = run_to_end(begin(5, 250_000, 3), Vec::new());
    assert!(commits.is_empty());
    assert!(matches!(outcome, Err(IngestError::BackfillProducedNoCommit)));
}

#[test]
fn an_empty_backfill_batch_makes_no_epoch() {
    assert!(matches!(
        backfill_commit_epoch(
            &CanonicalBatch::default(),
            Network::ZcashRegtest,
            ChainEpochId::new(8),
            ArtifactSchemaVersion(12),
            Ok(UnixTimestampMillis(5)),
        ),
        Err(IngestError::EmptyIngestBatch)
    ));
    let mut run = begin(1, 250_000, 3);
    feed_block(&mut run, prepared(7, 0, false));
    match run.next_action() {
        BackfillAction::Commit(request) => match backfill_commit_epoch(
            &request.batch,
            Network::ZcashRegtest,
            ChainEpochId::new(8),
            ArtifactSchemaVersion(12),
            Ok(UnixTimestampMillis(5)),
        ) {
            Ok(epoch) => {
                assert_eq!(epoch.id, ChainEpochId::new(8));
                assert_eq!(epoch.visible_tip_height, BlockHeight::new(7));
                assert_eq!(epoch.settled_tip_height, BlockHeight::new(7));
            }
            Err(error) => panic!("the batch has a tip, got {error:?}"),
        },
        other => panic!("the batch is full, got {other:?}"),
    }
}

#[test]
fn fresh_batches_read_nothing_and_blocks_add_their_spends() {
    let mut run = begin(10, 2, 3);
    let nothing = IngestBatchWorkCost { block_count: 0, transparent_prevout_store_lookup_count: 0 };
    assert_eq!(ingest_batch_work_cost(&run.batch), nothing);
    feed_block(&mut run, prepared(1, 0, true));
    assert_eq!(
        ingest_batch_work_cost(&run.batch),
        IngestBatchWorkCost { block_count: 1, transparent_prevout_store_lookup_count: 1 }
    );
    feed_block(&mut run, prepared(2, 0, true));
    assert!(matches!(run.next_action(), BackfillAction::Commit(_)));
    assert!(run.batch.prefetched_spent_transparent_outputs.is_empty());
    assert_eq!(ingest_batch_work_cost(&run.batch), nothing);
}

#[test]
fn nothing_continues_a_backfill_checkpoint_at_the_last_height() {
    assert!(matches!(
        seed_from(checkpoint(u32::MAX, 1, ChainTipMetadata::empty()), u32::MAX),
        Err(IngestError::BackfillCheckpointMisaligned { checkpoint_height, from_height })
            if checkpoint_height == BlockHeight::new(u32::MAX)
                && from_height == BlockHeight::new(u32::MAX)
    ));
}
