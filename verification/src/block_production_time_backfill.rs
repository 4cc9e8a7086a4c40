//! Full-history backfill of the block-production time index.

use crate::bounds::{capped, capped_sum};
use crate::errors::{dispatch_failure, is_dispatch, IngestError};
use crate::ids::{BlockHash, BlockHeight};
use crate::text::{
    decimal, decode_rpc_block_hash_hex, rpc_block_hash_value, two_numbers_in_text,
};
use vstd::prelude::*;

verus! {

/// Blocks indexed per durable coverage update.
pub const BACKFILL_BATCH_BLOCKS: u32 = 4_096;

/// Seconds between attempts once nothing is left to index, or after a failure.
pub const BACKFILL_RETRY_SECONDS: u64 = 5;

/// History the time index covers without a gap.
#[derive(Clone, Copy, Debug, PartialEq, Eq, Structural)]
pub struct BlockProductionTimeBackfillCoverage {
    pub complete_from_height: BlockHeight,
    pub complete_through_height: BlockHeight,
    pub complete_from_time_unix_seconds: i64,
    pub complete_through_time_unix_seconds: i64,
}

/// One row of the time index.
#[derive(Clone, Copy, Debug, PartialEq, Eq)]
pub struct BlockProductionTimeRow {
    pub block_time_unix_seconds: i64,
    pub block_height: BlockHeight,
    pub block_hash: BlockHash,
}

/// What a block-summary record says of its block.
#[derive(Debug)]
pub struct BlockSummary {
    pub block_height: u32,
    pub block_hash: String,
    pub block_time_unix_seconds: i64,
}

/// One stored block summary, with whatever kept its key or payload from being decoded.
#[derive(Debug)]
pub struct BlockSummaryEntry {
    pub key_height: Result<BlockHeight, String>,
    pub summary: Result<Option<BlockSummary>, String>,
}

/// What one attempt achieved.
#[derive(Clone, Copy, Debug, PartialEq, Eq, Structural)]
#[allow(inconsistent_fields)]
pub enum BackfillProgress {
    Advanced { from: BlockHeight, through: BlockHeight },
    Complete { through: Option<BlockHeight> },
}

/// Whether history is left to index below the live tail.
#[derive(Clone, Copy, Debug, PartialEq, Eq, Structural)]
pub enum BackfillTarget {
    Complete { through: Option<BlockHeight> },
    Pending { target: BlockHeight },
}

/// What the next attempt reads.
#[derive(Clone, Copy, Debug, PartialEq, Eq, Structural)]
#[allow(inconsistent_fields)]
pub enum BackfillBatch {
    Complete { through: Option<BlockHeight> },
    Read { from: BlockHeight, through: BlockHeight },
}

/// Highest height a coverage holds.
pub open spec fn covered_through(
    coverage: Option<BlockProductionTimeBackfillCoverage>,
) -> Option<BlockHeight> {
    match coverage {
        Some(coverage) => Some(coverage.complete_through_height),
        None => None,
    }
}

/// Whether history is left to index, given where the live tail begins.
pub open spec fn target_below(
    tail_boundary: Option<BlockHeight>,
    coverage: Option<BlockProductionTimeBackfillCoverage>,
) -> BackfillTarget {
    match tail_boundary {
        None => BackfillTarget::Complete { through: None },
        Some(boundary) => if boundary.0 == 0 {
            BackfillTarget::Complete { through: None }
        } else if coverage is Some && coverage->0.complete_through_height.0 >= boundary.0 - 1 {
            BackfillTarget::Complete { through: covered_through(coverage) }
        } else {
            BackfillTarget::Pending { target: BlockHeight((boundary.0 - 1) as u32) }
        },
    }
}

fn through_height(coverage: Option<BlockProductionTimeBackfillCoverage>) -> (through: Option<
    BlockHeight,
>)
    ensures
        through == covered_through(coverage),
{
    match coverage {
        Some(coverage) => Some(coverage.complete_through_height),
        None => None,
    }
}

/// Decides whether history is left to index below the live tail.
pub fn backfill_target(
    tail_boundary: Option<BlockHeight>,
    coverage: Option<BlockProductionTimeBackfillCoverage>,
) -> (target: BackfillTarget)
    ensures
        target == target_below(tail_boundary, coverage),
{
    let boundary = match tail_boundary {
        Some(boundary) => boundary,
        None => {
            return BackfillTarget::Complete { through: None };
        },
    };
    if boundary.0 == 0 {
        return BackfillTarget::Complete { through: None };
    }
    let target = BlockHeight((boundary.0 - 1) as u32);
    match coverage {
        Some(coverage) => {
            if coverage.complete_through_height.0 >= target.0 {
                return BackfillTarget::Complete {
                    through: Some(coverage.complete_through_height),
                };
            }
        },
        None => {},
    }
    BackfillTarget::Pending { target }
}

/// Height at which indexing goes on.
pub open spec fn resume_height(
    coverage: Option<BlockProductionTimeBackfillCoverage>,
    first_height: BlockHeight,
) -> BlockHeight {
    match coverage {
        Some(coverage) => match coverage.complete_through_height.spec_next() {
            Some(next) => next,
            None => first_height,
        },
        None => first_height,
    }
}

/// What the next attempt reads, given the first stored block summary.
pub open spec fn batch_below(
    target: BlockHeight,
    coverage: Option<BlockProductionTimeBackfillCoverage>,
    first_height: BlockHeight,
) -> BackfillBatch {
    let from = resume_height(coverage, first_height);
    if from.0 > target.0 {
        BackfillBatch::Complete { through: covered_through(coverage) }
    } else {
        BackfillBatch::Read {
            from,
            through: BlockHeight(
                capped(
                    capped_sum(from.0 as int, BACKFILL_BATCH_BLOCKS - 1, u32::MAX as int),
                    target.0 as int,
                ) as u32,
            ),
        }
    }
}

/// Plans the next batch at or below `target`.
pub fn next_batch(
    target: BlockHeight,
    coverage: Option<BlockProductionTimeBackfillCoverage>,
    first_height: Option<BlockHeight>,
) -> (batch: Result<BackfillBatch, IngestError>)
    ensures
        match first_height {
            Some(first) => batch == Ok::<BackfillBatch, IngestError>(
                batch_below(target, coverage, first),
            ),
            None => batch is Err && is_dispatch(
                batch->Err_0,
                "block-production time backfill has a tail boundary but no block summaries"@,
            ),
        },
{
    let first_height = match first_height {
        Some(first_height) => first_height,
        None => {
            return Err(
                dispatch_failure(
                    "block-production time backfill has a tail boundary but no block summaries",
                ),
            );
        },
    };
    let from = match coverage {
        Some(coverage) => match coverage.complete_through_height.next() {
            Some(next) => next,
            None => first_height,
        },
        None => first_height,
    };
    if from.0 > target.0 {
        return Ok(BackfillBatch::Complete { through: through_height(coverage) });
    }
    let unbounded: u32 = from.0.saturating_add(BACKFILL_BATCH_BLOCKS - 1);
    let through: u32 = if unbounded <= target.0 {
        unbounded
    } else {
        target.0
    };
    Ok(BackfillBatch::Read { from, through: BlockHeight(through) })
}

/// Why an entry gives no row, if it gives none.
pub open spec fn entry_fault(entry: BlockSummaryEntry) -> Option<Seq<char>> {
    match (entry.key_height, entry.summary) {
        (Err(reason), _) => Some(reason@),
        (Ok(_), Err(reason)) => Some(reason@),
        (Ok(_), Ok(None)) => Some("BlockSummaryRecord.summary missing"@),
        (Ok(key_height), Ok(Some(summary))) => if summary.block_height != key_height.0 {
            Some(
                "block-summary key height "@ + decimal(key_height.0 as nat)
                    + " disagrees with payload height "@ + decimal(summary.block_height as nat)
                    + ""@,
            )
        } else if rpc_block_hash_value(summary.block_hash@) is None {
            Some("block-summary hash is not 64 hexadecimal digits"@)
        } else {
            None
        },
    }
}

/// Whether a row says of its block what its entry does.
pub open spec fn is_row_of(entry: BlockSummaryEntry, row: BlockProductionTimeRow) -> bool {
    &&& entry.key_height == Ok::<BlockHeight, String>(row.block_height)
    &&& entry.summary matches Ok(Some(summary)) && {
        &&& row.block_time_unix_seconds == summary.block_time_unix_seconds
        &&& rpc_block_hash_value(summary.block_hash@) == Some(row.block_hash.0@)
    }
}

/// Builds the index row of one block summary.
pub fn block_production_row(entry: BlockSummaryEntry) -> (row: Result<
    BlockProductionTimeRow,
    IngestError,
>)
    ensures
        match row {
            Ok(row) => entry_fault(entry) is None && is_row_of(entry, row),
            Err(error) => entry_fault(entry) is Some && is_dispatch(error, entry_fault(entry)->0),
        },
{
    let key_height = match entry.key_height {
        Ok(key_height) => key_height,
        Err(reason) => {
            return Err(IngestError::DeriveDispatch(reason));
        },
    };
    let summary = match entry.summary {
        Ok(Some(summary)) => summary,
        Ok(None) => {
            return Err(dispatch_failure("BlockSummaryRecord.summary missing"));
        },
        Err(reason) => {
            return Err(IngestError::DeriveDispatch(reason));
        },
    };
    if summary.block_height != key_height.0 {
        return Err(
            IngestError::DeriveDispatch(
                two_numbers_in_text(
                    "block-summary key height ",
                    key_height.0 as u64,
                    " disagrees with payload height ",
                    summary.block_height as u64,
                    "",
                ),
            ),
        );
    }
    match decode_rpc_block_hash_hex(summary.block_hash.as_str()) {
        Some(block_hash) => Ok(
            BlockProductionTimeRow {
                block_time_unix_seconds: summary.block_time_unix_seconds,
                block_height: key_height,
                block_hash,
            },
        ),
        None => Err(dispatch_failure("block-summary hash is not 64 hexadecimal digits")),
    }
}

/// Number of heights from `from` through `through`.
pub open spec fn expected_rows(from: BlockHeight, through: BlockHeight) -> int {
    through.0 - from.0 + 1
}

/// Position of the first entry that gives no row, where there is one.
pub open spec fn first_fault_at(entries: Seq<BlockSummaryEntry>, at: int) -> bool {
    &&& 0 <= at < entries.len()
    &&& entry_fault(entries[at]) is Some
    &&& forall|i: int| 0 <= i < at ==> entry_fault(#[trigger] entries[i]) is None
}

/// Returns how many block summaries a batch has to hold, as far as a length can say.
pub fn expected_row_count(from: BlockHeight, through: BlockHeight) -> (count: usize)
    requires
        from.0 <= through.0,
    ensures
        count == capped(expected_rows(from, through), usize::MAX as int),
{
    let wide: u64 = through.0 as u64 - from.0 as u64 + 1;
    match usize::try_from(wide) {
        Ok(count) => count,
        Err(_) => usize::MAX,
    }
}

/// Builds the index rows of one batch of block summaries.
pub fn read_block_production_rows(
    from: BlockHeight,
    through: BlockHeight,
    entries: Vec<BlockSummaryEntry>,
) -> (rows: Result<Vec<BlockProductionTimeRow>, IngestError>)
    requires
        from.0 <= through.0,
    ensures
        ({
            let expected = capped(expected_rows(from, through), usize::MAX as int);
            match rows {
                Ok(rows) => {
                    &&& entries@.len() == expected
                    &&& rows@.len() == expected
                    &&& forall|i: int|
                        0 <= i < expected ==> entry_fault(#[trigger] entries@[i]) is None
                            && is_row_of(entries@[i], rows@[i])
                },
                Err(error) => if entries@.len() != expected {
                    is_dispatch(
                        error,
                        "block-production time backfill expected "@ + decimal(expected as nat)
                            + " block summaries, found "@ + decimal(entries@.len()) + ""@,
                    )
                } else {
                    exists|at: int|
                        first_fault_at(entries@, at) && is_dispatch(
                            error,
                            entry_fault(#[trigger] entries@[at])->0,
                        )
                },
            }
        }),
{
    let expected: usize = expected_row_count(from, through);
    let found: usize = entries.len();
    if found != expected {
        return Err(
            IngestError::DeriveDispatch(
                two_numbers_in_text(
                    "block-production time backfill expected ",
                    expected as u64,
                    " block summaries, found ",
                    found as u64,
                    "",
                ),
            ),
        );
    }
    let ghost all = entries@;
    let mut rows: Vec<BlockProductionTimeRow> = Vec::new();
    for entry in it: entries
        invariant
            it.seq() == all,
            all.len() == found,
            rows@.len() == it.index(),
            forall|i: int|
                0 <= i < it.index() ==> entry_fault(#[trigger] all[i]) is None && is_row_of(
                    all[i],
                    rows@[i],
                ),
            all == entries@,
            found == expected,
            expected == capped(expected_rows(from, through), usize::MAX as int),
    {
        match block_production_row(entry) {
            Ok(row) => {
                rows.push(row);
            },
            Err(error) => {
                assert(first_fault_at(all, it.index()));
                assert(is_dispatch(error, entry_fault(all[it.index()])->0));
                return Err(error);
            },
        }
    }
    Ok(rows)
}

/// Coverage once a batch of rows has been indexed on top of it.
pub open spec fn extended_coverage(
    coverage: Option<BlockProductionTimeBackfillCoverage>,
    rows: Seq<BlockProductionTimeRow>,
) -> BlockProductionTimeBackfillCoverage {
    let (from_height, from_time) = match coverage {
        Some(coverage) => (
            coverage.complete_from_height,
            coverage.complete_from_time_unix_seconds,
        ),
        None => (rows.first().block_height, rows.first().block_time_unix_seconds),
    };
    BlockProductionTimeBackfillCoverage {
        complete_from_height: from_height,
        complete_through_height: rows.last().block_height,
        complete_from_time_unix_seconds: from_time,
        complete_through_time_unix_seconds: rows.last().block_time_unix_seconds,
    }
}

/// Returns the coverage that is recorded together with a batch of rows.
pub fn next_coverage(
    coverage: Option<BlockProductionTimeBackfillCoverage>,
    rows: &Vec<BlockProductionTimeRow>,
) -> (next: Result<BlockProductionTimeBackfillCoverage, IngestError>)
    ensures
        match next {
            Ok(next) => rows@.len() > 0 && next == extended_coverage(coverage, rows@),
            Err(error) => rows@.len() == 0 && is_dispatch(
                error,
                "block-production time backfill decoded an empty block-summary batch"@,
            ),
        },
{
    if rows.len() == 0 {
        return Err(
            dispatch_failure("block-production time backfill decoded an empty block-summary batch"),
        );
    }
    let first = rows[0];
    let last = rows[rows.len() - 1];
    let (from_height, from_time): (BlockHeight, i64) = match coverage {
        Some(coverage) => (
            coverage.complete_from_height,
            coverage.complete_from_time_unix_seconds,
        ),
        None => (first.block_height, first.block_time_unix_seconds),
    };
    Ok(
        BlockProductionTimeBackfillCoverage {
            complete_from_height: from_height,
            complete_through_height: last.block_height,
            complete_from_time_unix_seconds: from_time,
            complete_through_time_unix_seconds: last.block_time_unix_seconds,
        },
    )
}

/// What the backfill task does after an attempt.
#[derive(Clone, Copy, Debug, PartialEq, Eq, Structural)]
pub struct BackfillFollowUp {
    /// Whether it waits before the next attempt.
    pub wait: bool,
    /// Whether it reports that the index has become complete.
    pub announce_completion: bool,
}

/// What the backfill task remembers between attempts.
#[derive(Clone, Copy, Debug, PartialEq, Eq, Structural)]
pub struct BackfillTask {
    pub completion_announced: bool,
}

impl BackfillTask {
    /// A task that has made no attempt.
    pub fn new() -> (task: Self)
        ensures
            !task.completion_announced,
    {
        BackfillTask { completion_announced: false }
    }

    /// Decides what follows an attempt: completion is reported once until the
    /// index falls behind again.
    pub fn after_attempt(&mut self, attempt: &Result<BackfillProgress, IngestError>) -> (follow_up:
        BackfillFollowUp)
        ensures
            final(self).completion_announced == (attempt matches Ok(
                BackfillProgress::Complete { .. },
            )),
            follow_up.wait == !(attempt matches Ok(BackfillProgress::Advanced { .. })),
            follow_up.announce_completion == ((attempt matches Ok(
                BackfillProgress::Complete { .. },
            )) && !old(self).completion_announced),
    {
        match attempt {
            Ok(BackfillProgress::Advanced { .. }) => {
                self.completion_announced = false;
                BackfillFollowUp { wait: false, announce_completion: false }
            },
            Ok(BackfillProgress::Complete { .. }) => {
                let announce_completion = !self.completion_announced;
                self.completion_announced = true;
                BackfillFollowUp { wait: true, announce_completion }
            },
            Err(_) => {
                self.completion_announced = false;
                BackfillFollowUp { wait: true, announce_completion: false }
            },
        }
    }
}

/// A batch begins right above the covered history, is no longer than the
/// batch bound and never passes the target.
pub proof fn law_batch_continues_the_coverage(
    boundary: BlockHeight,
    coverage: Option<BlockProductionTimeBackfillCoverage>,
    first_height: BlockHeight,
)
    requires
        target_below(Some(boundary), coverage) is Pending,
        batch_below(
            target_below(Some(boundary), coverage)->target,
            coverage,
            first_height,
        ) is Read,
    ensures
        ({
            let target = target_below(Some(boundary), coverage)->target;
            let batch = batch_below(target, coverage, first_height);
            &&& batch->from.0 <= batch->Read_through.0 <= target.0
            &&& expected_rows(batch->from, batch->Read_through) <= BACKFILL_BATCH_BLOCKS
            &&& match coverage {
                Some(c) => batch->from.0 == c.complete_through_height.0 + 1,
                None => batch->from == first_height,
            }
        }),
{
}

/// Indexing one row for every height of the planned batch leaves a coverage
/// that begins where it began, and either ends at the target, so that the
/// backfill is complete, or is continued by the next batch without a gap.
pub proof fn law_indexed_batch_leaves_no_gap(
    boundary: BlockHeight,
    coverage: Option<BlockProductionTimeBackfillCoverage>,
    first_height: BlockHeight,
    rows: Seq<BlockProductionTimeRow>,
)
    requires
        target_below(Some(boundary), coverage) is Pending,
        batch_below(
            target_below(Some(boundary), coverage)->target,
            coverage,
            first_height,
        ) matches BackfillBatch::Read { from, through } && rows.len() == expected_rows(
            from,
            through,
        ) && forall|i: int|
            0 <= i < rows.len() ==> (#[trigger] rows[i]).block_height.0 == from.0 + i,
    ensures
        ({
            let target = target_below(Some(boundary), coverage)->target;
            let batch = batch_below(target, coverage, first_height);
            let next = extended_coverage(coverage, rows);
            &&& next.complete_through_height == batch->Read_through
            &&& next.complete_from_height == match coverage {
                Some(c) => c.complete_from_height,
                None => first_height,
            }
            &&& if next.complete_through_height == target {
                target_below(Some(boundary), Some(next)) == (BackfillTarget::Complete {
                    through: Some(target),
                })
            } else {
                &&& target_below(Some(boundary), Some(next)) == (BackfillTarget::Pending {
                    target,
                })
                &&& batch_below(target, Some(next), first_height) is Read
                &&& batch_below(target, Some(next), first_height)->from.0 == batch->Read_through.0
                    + 1
            }
        }),
{
    let target = target_below(Some(boundary), coverage)->target;
    let batch = batch_below(target, coverage, first_height);
    assert(rows[0].block_height.0 == batch->from.0);
    assert(rows.last().block_height.0 == batch->Read_through.0);
}

/// The index is complete exactly where nothing stands below the tail boundary
/// or the coverage reaches up to it; else the block right below the boundary is
/// the target.
pub proof fn law_target_stands_right_below_the_boundary(
    tail_boundary: Option<BlockHeight>,
    coverage: Option<BlockProductionTimeBackfillCoverage>,
)
    ensures
        match target_below(tail_boundary, coverage) {
            BackfillTarget::Pending { target } => {
                &&& tail_boundary matches Some(boundary)
                &&& target.0 + 1 == boundary.0
                &&& coverage matches Some(covered) ==> covered.complete_through_height.0 < target.0
            },
            BackfillTarget::Complete { through } => {
                ||| through is None && (tail_boundary is None || (tail_boundary->0).0 == 0)
                ||| tail_boundary matches Some(boundary) && coverage matches Some(covered)
                    && covered.complete_through_height.0 + 1 >= boundary.0 && through == Some(
                    covered.complete_through_height,
                )
            },
        },
        coverage is None ==> covered_through(coverage) is None,
        coverage matches Some(covered) ==> covered_through(coverage) == Some(
            covered.complete_through_height,
        ),
{
}

/// Reading resumes right above the coverage, and starts at the first block.
pub proof fn law_reading_resumes_above_the_coverage(
    coverage: Option<BlockProductionTimeBackfillCoverage>,
    first_height: BlockHeight,
)
    ensures
        coverage is None ==> resume_height(coverage, first_height) == first_height,
        coverage matches Some(covered) ==> covered.complete_through_height.0 < 0xffff_ffff
            ==> resume_height(coverage, first_height).0 == covered.complete_through_height.0 + 1,
{
}

/// A batch reads 4096 blocks from where reading resumes, or up to the target
/// where that is nearer; it is complete where reading would start above it.
pub proof fn law_batch_reads_its_fill_of_blocks(
    target: BlockHeight,
    coverage: Option<BlockProductionTimeBackfillCoverage>,
    first_height: BlockHeight,
)
    ensures
        ({
            let resumed = resume_height(coverage, first_height);
            match batch_below(target, coverage, first_height) {
                BackfillBatch::Read { from, through } => {
                    &&& from == resumed
                    &&& resumed.0 <= target.0
                    &&& resumed.0 + 4095 <= target.0 ==> through.0 == resumed.0 + 4095
                    &&& resumed.0 + 4095 > target.0 ==> through == target
                },
                BackfillBatch::Complete { through } => {
                    &&& resumed.0 > target.0
                    &&& coverage is None ==> through is None
                    &&& coverage matches Some(covered) ==> through == Some(
                        covered.complete_through_height,
                    )
                },
            }
        }),
{
}

/// A summary makes a row exactly where its key and payload were read, both name
/// the same height and its hash is one.
pub proof fn law_only_sound_summaries_make_rows(entry: BlockSummaryEntry)
    ensures
        entry_fault(entry) is None <==> {
            &&& entry.key_height matches Ok(key_height)
            &&& entry.summary matches Ok(Some(summary))
            &&& summary.block_height == key_height.0
            &&& rpc_block_hash_value(summary.block_hash@) is Some
        },
        entry.key_height matches Err(reason) ==> entry_fault(entry) == Some(reason@),
        entry.key_height is Ok ==> (entry.summary matches Err(reason) ==> entry_fault(entry)
            == Some(reason@)),
        entry.key_height is Ok ==> (entry.summary matches Ok(None) ==> entry_fault(entry) == Some(
            "BlockSummaryRecord.summary missing"@,
        )),
{
}

/// A row carries the height of its key, the time of its summary and its hash.
pub proof fn law_row_carries_its_summary(entry: BlockSummaryEntry, row: BlockProductionTimeRow)
    requires
        is_row_of(entry, row),
    ensures
        entry.key_height == Ok::<BlockHeight, String>(row.block_height),
        entry.summary matches Ok(Some(summary)) && summary.block_time_unix_seconds
            == row.block_time_unix_seconds && rpc_block_hash_value(summary.block_hash@) == Some(
            row.block_hash.0@,
        ),
{
}

/// A range has one row per height.
pub proof fn law_range_has_one_row_per_height(from: BlockHeight, through: BlockHeight)
    ensures
        from.0 + expected_rows(from, through) == through.0 + 1,
{
}

/// The first faulty entry is the one that no faulty entry stands before.
pub proof fn law_first_faulty_entry_is_told(entries: Seq<BlockSummaryEntry>, at: int)
    requires
        first_fault_at(entries, at),
    ensures
        0 <= at < entries.len(),
        entry_fault(entries[at]) is Some,
        forall|i: int| 0 <= i < at ==> entry_fault(#[trigger] entries[i]) is None,
{
}

/// Rows extend the coverage up to the last of them, in height and in time; the
/// start stays, and is the first row where there was none.
pub proof fn law_rows_extend_the_coverage(
    coverage: Option<BlockProductionTimeBackfillCoverage>,
    rows: Seq<BlockProductionTimeRow>,
)
    requires
        rows.len() > 0,
    ensures
        ({
            let next = extended_coverage(coverage, rows);
            let last = rows[rows.len() - 1];
            &&& next.complete_through_height == last.block_height
            &&& next.complete_through_time_unix_seconds == last.block_time_unix_seconds
            &&& coverage is None ==> next.complete_from_height == rows[0].block_height
                && next.complete_from_time_unix_seconds == rows[0].block_time_unix_seconds
            &&& coverage matches Some(covered) ==> next.complete_from_height
                == covered.complete_from_height && next.complete_from_time_unix_seconds
                == covered.complete_from_time_unix_seconds
        }),
{
}

} // verus!
