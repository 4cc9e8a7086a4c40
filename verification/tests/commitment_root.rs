use zinder_ingest::artifacts::{
    BlockFinalNoteCommitmentRoots, BlockHeaderArtifact, FinalNoteCommitmentRoot,
};
use zinder_ingest::bounds::nonzero_u32;
use zinder_ingest::bulk_catchup::segment_sizer::{
    ConsensusBranchId, NetworkUpgradeActivation, NetworkUpgradeActivations,
};
use zinder_ingest::commitment_root_backfill::{
    backfill_start, missing_root_block_ids, next_backfill_height, next_batch, next_coverage,
    order_fetched_roots, root_fetch_operation, root_fetch_timed_out, validate_settled_boundary,
    wait_after_attempt, BackfillBatch, BackfillProgress, BackfillStart, CanonicalRootBatch,
    CanonicalRootBlock, CommitmentRootBackfillConfig, CommitmentRootBackfillCoverage,
    EnrichedRootBatch,
};
use zinder_ingest::errors::IngestError;
use zinder_ingest::ids::{BlockHash, BlockHeight, BlockId, Network};

fn block_id(height: u32) -> BlockId {
    BlockId::new(
        BlockHeight::new(height),
        BlockHash::from_bytes([height.to_le_bytes()[0]; 32]),
    )
}

fn roots(block_id: BlockId) -> BlockFinalNoteCommitmentRoots {
    BlockFinalNoteCommitmentRoots {
        height: block_id.height,
        block_hash: block_id.hash,
        sapling: Some(FinalNoteCommitmentRoot([block_id.height.value().to_le_bytes()[0]; 32])),
        orchard: None,
        ironwood: None,
    }
}

fn header(height: u32) -> BlockHeaderArtifact {
    BlockHeaderArtifact {
        height: BlockHeight::new(height),
        block_hash: block_id(height).hash,
        parent_hash: block_id(height - 1).hash,
        merkle_root: [0; 32],
        commitment_bytes: [0; 32],
        block_time: 1_000 + i64::from(height),
        difficulty_bits: 0,
        nonce: [0; 32],
        version: 4,
        block_size_bytes: 55,
    }
}

fn config(batch_blocks: u32) -> CommitmentRootBackfillConfig {
    CommitmentRootBackfillConfig {
        enabled: true,
        batch_blocks: nonzero_u32(batch_blocks),
        fetch_concurrency: nonzero_u32(3),
    }
}

#[test]
fn backfill_resumes_after_contiguous_coverage() {
    let activation = BlockHeight::new(100);
    assert!(matches!(next_backfill_height(None, activation), Ok(next) if next == activation));
    assert!(matches!(
        next_backfill_height(
            Some(CommitmentRootBackfillCoverage {
                complete_from_height: activation,
                complete_through_height: BlockHeight::new(149),
            }),
            activation,
        ),
        Ok(next) if next == BlockHeight::new(150)
    ));
}

#[test]
fn canonical_root_rows_are_reused_before_fetch() {
    let present = block_id(100);
    let missing = block_id(101);
    let blocks = vec![
        CanonicalRootBlock {
            block_id: present,
            roots: Some(roots(present)),
        },
        CanonicalRootBlock {
            block_id: missing,
            roots: None,
        },
    ];

    assert_eq!(missing_root_block_ids(&blocks), vec![missing]);
}

#[test]
fn backfill_rejects_heights_above_settled_boundary() {
    assert!(validate_settled_boundary(BlockHeight::new(199), BlockHeight::new(200)).is_err());
    assert!(validate_settled_boundary(BlockHeight::new(200), BlockHeight::new(200)).is_ok());
}

#[test]
fn coverage_that_cannot_be_continued_is_refused() {
    let foreign = CommitmentRootBackfillCoverage {
        complete_from_height: BlockHeight::new(90),
        complete_through_height: BlockHeight::new(149),
    };
    match next_backfill_height(Some(foreign), BlockHeight::new(100)) {
        Err(IngestError::DeriveDispatch(reason)) => assert_eq!(
            reason,
            "commitment-root backfill coverage starts at 90, expected Sapling activation 100"
        ),
        other => panic!("expected a refusal, got {other:?}"),
    }
    let full = CommitmentRootBackfillCoverage {
        complete_from_height: BlockHeight::new(100),
        complete_through_height: BlockHeight::new(u32::MAX),
    };
    match next_backfill_height(Some(full), BlockHeight::new(100)) {
        Err(IngestError::DeriveDispatch(reason)) => {
            assert_eq!(reason, "commitment-root backfill height overflow")
        }
        other => panic!("expected a refusal, got {other:?}"),
    }
}

#[test]
fn batches_stop_at_the_settled_tip() {
    let activation = BlockHeight::new(100);
    let planned = |settled: Option<u32>| {
        match next_batch(config(50), activation, None, settled.map(BlockHeight::new)) {
            Ok(batch) => batch,
            Err(error) => panic!("the plan cannot fail, got {error:?}"),
        }
    };
    assert_eq!(planned(None), BackfillBatch::CaughtUp { through_height: None });
    assert_eq!(planned(Some(99)), BackfillBatch::CaughtUp { through_height: None });
    assert_eq!(
        planned(Some(120)),
        BackfillBatch::Process {
            from_height: activation,
            through_height: BlockHeight::new(120),
        }
    );
    assert_eq!(
        planned(Some(1_000)),
        BackfillBatch::Process {
            from_height: activation,
            through_height: BlockHeight::new(149),
        }
    );
    let coverage = next_coverage(None, activation, BlockHeight::new(149));
    assert_eq!(
        coverage,
        CommitmentRootBackfillCoverage {
            complete_from_height: activation,
            complete_through_height: BlockHeight::new(149),
        }
    );
    assert!(matches!(
        next_batch(config(50), activation, Some(coverage), Some(BlockHeight::new(1_000))),
        Ok(BackfillBatch::Process { from_height, .. }) if from_height == BlockHeight::new(150)
    ));
}

#[test]
fn the_backfill_starts_at_the_sapling_activation() {
    let mut activations = NetworkUpgradeActivations::empty(Network::ZcashRegtest);
    assert_eq!(backfill_start(config(1), &activations), BackfillStart::NoFloor);
    activations.activations.push(
        NetworkUpgradeActivation {
            branch_id: ConsensusBranchId(0x76b8_09bb),
            name: "Sapling".to_owned(),
            activation_height: BlockHeight::new(419_200),
        },
    );
    assert_eq!(
        backfill_start(config(1), &activations),
        BackfillStart::Run { sapling_activation_height: BlockHeight::new(419_200) }
    );
    let mut disabled = config(1);
    disabled.enabled = false;
    assert_eq!(backfill_start(disabled, &activations), BackfillStart::Disabled);
}

#[test]
fn attempts_are_spaced_by_their_outcome() {
    assert_eq!(
        wait_after_attempt(&Ok(BackfillProgress::Advanced {
            from_height: BlockHeight::new(1),
            through_height: BlockHeight::new(2),
            fetched_roots: 0,
        })),
        None
    );
    assert_eq!(
        wait_after_attempt(&Ok(BackfillProgress::CaughtUp { through_height: None })),
        Some(30)
    );
    assert_eq!(wait_after_attempt(&Err(IngestError::EmptyCanonicalBatch)), Some(5));
}

#[test]
fn a_batch_of_canonical_rows_is_read_in_order() {
    let mut batch = match CanonicalRootBatch::begin(
        BlockHeight::new(101),
        BlockHeight::new(100),
        BlockHeight::new(101),
    ) {
        Ok(batch) => batch,
        Err(error) => panic!("the range is settled, got {error:?}"),
    };
    assert_eq!(batch.next_height(), Some(BlockHeight::new(100)));
    assert!(batch.accept(Some(header(100)), Some(roots(block_id(100)))).is_ok());
    assert_eq!(batch.next_height(), Some(BlockHeight::new(101)));
    assert!(batch.accept(Some(header(101)), None).is_ok());
    assert_eq!(batch.next_height(), None);
    assert_eq!(missing_root_block_ids(&batch.blocks), vec![block_id(101)]);

    let mut broken = match CanonicalRootBatch::begin(
        BlockHeight::new(101),
        BlockHeight::new(100),
        BlockHeight::new(101),
    ) {
        Ok(batch) => batch,
        Err(error) => panic!("the range is settled, got {error:?}"),
    };
    assert!(broken.accept(None, None).is_err());
    assert_eq!(broken.next_height(), Some(BlockHeight::new(100)));
    assert!(CanonicalRootBatch::begin(
        BlockHeight::new(100),
        BlockHeight::new(100),
        BlockHeight::new(101)
    )
    .is_err());
}

#[test]
fn enriched_blocks_carry_their_roots() {
    let mut batch = match EnrichedRootBatch::begin(
        BlockHeight::new(100),
        BlockHeight::new(100),
        BlockHeight::new(100),
    ) {
        Ok(batch) => batch,
        Err(error) => panic!("the range is settled, got {error:?}"),
    };
    assert!(batch.accept(Some(header(100)), None).is_err());
    assert_eq!(batch.next_height(), Some(BlockHeight::new(100)));
    assert!(batch.accept(Some(header(100)), Some(roots(block_id(100)))).is_ok());
    assert_eq!(batch.next_height(), None);
    let input = &batch.inputs[0];
    assert_eq!(input.height, BlockHeight::new(100));
    assert_eq!(input.block_hash, block_id(100).hash);
    assert_eq!(input.previous_block_hash, block_id(99).hash);
    assert_eq!(input.block_time_unix_seconds, 1_100);
    assert_eq!(input.block_size_bytes, 55);
    assert!(input.transactions.is_empty());
    assert!(input.final_note_commitment_roots.is_some());
}

#[test]
fn fetched_roots_are_put_in_height_order() {
    let ordered = order_fetched_roots(vec![
        roots(block_id(12)),
        roots(block_id(3)),
        roots(block_id(7)),
    ]);
    let mut heights = Vec::new();
    for root in &ordered {
        heights.push(root.height.value());
    }
    assert_eq!(heights, vec![3, 7, 12]);
}

#[test]
fn root_fetches_are_named() {
    let operation = root_fetch_operation(block_id(101));
    assert!(operation.contains("101"));
    match root_fetch_timed_out(block_id(101), "deadline has elapsed".to_owned()) {
        IngestError::SourceRetryDeadlineExceeded { operation: named, reason } => {
            assert_eq!(named, operation);
            assert_eq!(reason, "deadline has elapsed");
        }
        other => panic!("expected a deadline failure, got {other:?}"),
    }
}
