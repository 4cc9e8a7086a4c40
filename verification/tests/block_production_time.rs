use zinder_ingest::block_production_time_backfill::{
    backfill_target, block_production_row, expected_row_count, next_batch, next_coverage,
    read_block_production_rows, BackfillBatch, BackfillFollowUp, BackfillProgress, BackfillTarget,
    BackfillTask, BlockProductionTimeBackfillCoverage, BlockSummary, BlockSummaryEntry,
    BACKFILL_BATCH_BLOCKS,
};
use zinder_ingest::errors::IngestError;
use zinder_ingest::ids::{BlockHash, BlockHeight};
use zinder_ingest::text::encode_rpc_block_hash_hex;

fn block_hash(seed: u8) -> BlockHash {
    BlockHash::from_bytes([seed; 32])
}

fn entry(height: u32, hash_seed: u8, time: i64) -> BlockSummaryEntry {
    BlockSummaryEntry {
        key_height: Ok(BlockHeight::new(height)),
        summary: Ok(Some(BlockSummary {
            block_height: height,
            block_hash: encode_rpc_block_hash_hex(block_hash(hash_seed)),
            block_time_unix_seconds: time,
        })),
    }
}

fn dispatch_reason<T>(outcome: Result<T, IngestError>) -> String {
    match outcome {
        Err(IngestError::DeriveDispatch(reason)) => reason,
        Err(error) => panic!("expected a dispatch failure, got {error:?}"),
        Ok(_) => panic!("expected a dispatch failure"),
    }
}

#[test]
fn block_production_row_decodes_a_valid_block_summary_record() {
    let height = BlockHeight::new(100);

    let row = match block_production_row(entry(height.value(), 0xa1, 1_774_670_000)) {
        Ok(row) => row,
        Err(error) => panic!("the record is valid, got {error:?}"),
    };

    assert_eq!(row.block_height, height);
    assert_eq!(row.block_hash, block_hash(0xa1));
    assert_eq!(row.block_time_unix_seconds, 1_774_670_000);
}

#[test]
fn block_production_row_rejects_malformed_or_inconsistent_summary_records() {
    let height = BlockHeight::new(100);
    let undecodable = BlockSummaryEntry {
        key_height: Ok(height),
        summary: Err("failed to decode Protobuf message".to_owned()),
    };
    let missing_summary = BlockSummaryEntry { key_height: Ok(height), summary: Ok(None) };
    let mut mismatched_height = entry(101, 0xa2, 1_774_670_001);
    mismatched_height.key_height = Ok(height);
    let malformed_hash = BlockSummaryEntry {
        key_height: Ok(height),
        summary: Ok(Some(BlockSummary {
            block_height: height.value(),
            block_hash: "not-a-block-hash".to_owned(),
            block_time_unix_seconds: 1_774_670_003,
        })),
    };

    for entry in [undecodable, missing_summary, mismatched_height, malformed_hash] {
        assert!(block_production_row(entry).is_err());
    }
}

#[test]
fn rejected_summaries_say_what_is_wrong() {
    assert_eq!(
        dispatch_reason(block_production_row(BlockSummaryEntry {
            key_height: Err("short key".to_owned()),
            summary: Ok(None),
        })),
        "short key"
    );
    assert_eq!(
        dispatch_reason(block_production_row(BlockSummaryEntry {
            key_height: Ok(BlockHeight::new(7)),
            summary: Ok(None),
        })),
        "BlockSummaryRecord.summary missing"
    );
    let mut mismatched = entry(101, 1, 5);
    mismatched.key_height = Ok(BlockHeight::new(100));
    assert_eq!(
        dispatch_reason(block_production_row(mismatched)),
        "block-summary key height 100 disagrees with payload height 101"
    );
}

#[test]
fn backfill_materializes_summary_rows_and_advances_coverage() {
    let boundary = Some(BlockHeight::new(102));
    let target = match backfill_target(boundary, None) {
        BackfillTarget::Pending { target } => target,
        other => panic!("history is left to index, got {other:?}"),
    };
    assert_eq!(target, BlockHeight::new(101));
    let (from, through) = match next_batch(target, None, Some(BlockHeight::new(100))) {
        Ok(BackfillBatch::Read { from, through }) => (from, through),
        other => panic!("a batch is due, got {other:?}"),
    };
    assert_eq!(from, BlockHeight::new(100));
    assert_eq!(through, BlockHeight::new(101));
    let rows = match read_block_production_rows(
        from,
        through,
        vec![entry(100, 0xb1, 1_774_670_100), entry(101, 0xb2, 1_774_670_050)],
    ) {
        Ok(rows) => rows,
        Err(error) => panic!("the rows are complete, got {error:?}"),
    };
    let coverage = match next_coverage(None, &rows) {
        Ok(coverage) => coverage,
        Err(error) => panic!("the rows give a coverage, got {error:?}"),
    };
    assert_eq!(
        coverage,
        BlockProductionTimeBackfillCoverage {
            complete_from_height: BlockHeight::new(100),
            complete_through_height: BlockHeight::new(101),
            complete_from_time_unix_seconds: 1_774_670_100,
            complete_through_time_unix_seconds: 1_774_670_050,
        }
    );
    assert_eq!(
        backfill_target(boundary, Some(coverage)),
        BackfillTarget::Complete { through: Some(BlockHeight::new(101)) }
    );
}

#[test]
fn a_batch_with_a_hole_is_refused() {
    let refused = read_block_production_rows(
        BlockHeight::new(100),
        BlockHeight::new(102),
        vec![entry(100, 1, 1), entry(102, 2, 2)],
    );
    assert!(matches!(refused, Err(IngestError::DeriveDispatch(_))));
    assert_eq!(expected_row_count(BlockHeight::new(100), BlockHeight::new(102)), 3);
    assert!(next_coverage(None, &Vec::new()).is_err());
}

#[test]
fn batches_are_bounded_and_continue_the_coverage() {
    let coverage = BlockProductionTimeBackfillCoverage {
        complete_from_height: BlockHeight::new(0),
        complete_through_height: BlockHeight::new(9),
        complete_from_time_unix_seconds: 0,
        complete_through_time_unix_seconds: 90,
    };
    match next_batch(BlockHeight::new(1_000_000), Some(coverage), Some(BlockHeight::new(0))) {
        Ok(BackfillBatch::Read { from, through }) => {
            assert_eq!(from, BlockHeight::new(10));
            assert_eq!(through, BlockHeight::new(9 + BACKFILL_BATCH_BLOCKS));
        }
        other => panic!("a batch is due, got {other:?}"),
    }
    let advanced = match read_block_production_rows(
        BlockHeight::new(10),
        BlockHeight::new(10),
        vec![entry(10, 3, 70)],
    ) {
        Ok(rows) => next_coverage(Some(coverage), &rows),
        Err(error) => Err(error),
    };
    match advanced {
        Ok(next) => {
            assert_eq!(next.complete_from_height, BlockHeight::new(0));
            assert_eq!(next.complete_through_height, BlockHeight::new(10));
            assert_eq!(next.complete_from_time_unix_seconds, 0);
            assert_eq!(next.complete_through_time_unix_seconds, 70);
        }
        Err(error) => panic!("the row continues the coverage, got {error:?}"),
    }
    assert_eq!(
        backfill_target(None, Some(coverage)),
        BackfillTarget::Complete { through: None }
    );
}

#[test]
fn completion_is_announced_once() {
    let mut task = BackfillTask::new();
    let complete = Ok(BackfillProgress::Complete { through: None });
    assert_eq!(
        task.after_attempt(&complete),
        BackfillFollowUp { wait: true, announce_completion: true }
    );
    assert_eq!(
        task.after_attempt(&complete),
        BackfillFollowUp { wait: true, announce_completion: false }
    );
    assert_eq!(
        task.after_attempt(&Ok(BackfillProgress::Advanced {
            from: BlockHeight::new(1),
            through: BlockHeight::new(2),
        })),
        BackfillFollowUp { wait: false, announce_completion: false }
    );
    assert_eq!(
        task.after_attempt(&complete),
        BackfillFollowUp { wait: true, announce_completion: true }
    );
    assert_eq!(
        task.after_attempt(&Err(IngestError::EmptyCanonicalBatch)),
        BackfillFollowUp { wait: true, announce_completion: false }
    );
}
