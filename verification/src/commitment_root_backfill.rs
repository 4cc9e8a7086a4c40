//! Resumable settled-history backfill of final note-commitment roots.

use crate::artifacts::{
    BlockCommitInput, BlockFinalNoteCommitmentRoots, BlockHeaderArtifact,
    TransactionFactsArtifact,
};
use crate::bounds::{capped, capped_sum, NonZeroU32};
use crate::bulk_catchup::segment_sizer::NetworkUpgradeActivations;
use crate::errors::{dispatch_failure, is_dispatch, IngestError};
use crate::ids::{BlockHeight, BlockId};
use crate::text::{decimal, number_in_text, two_numbers_in_text};
use vstd::prelude::*;

verus! {

/// Seconds before a failed batch is tried again.
pub const BACKFILL_RETRY_SECONDS: u64 = 5;

/// Seconds before a caught-up backfill looks for newly settled blocks.
pub const BACKFILL_CAUGHT_UP_POLL_SECONDS: u64 = 30;

/// Bounded controls for the ingest-owned commitment-root backfill.
#[derive(Clone, Copy, Debug, PartialEq, Eq)]
pub struct CommitmentRootBackfillConfig {
    /// Whether the background task runs.
    pub enabled: bool,
    /// Maximum settled canonical blocks processed per durable coverage update.
    pub batch_blocks: NonZeroU32,
    /// Maximum concurrent historical tree-state requests.
    pub fetch_concurrency: NonZeroU32,
}

/// History the commitment-root index covers without a gap.
#[derive(Clone, Copy, Debug, PartialEq, Eq, Structural)]
pub struct CommitmentRootBackfillCoverage {
    pub complete_from_height: BlockHeight,
    pub complete_through_height: BlockHeight,
}

/// What one attempt achieved.
#[derive(Clone, Copy, Debug, PartialEq, Eq, Structural)]
#[allow(inconsistent_fields)]
pub enum BackfillProgress {
    Advanced { from_height: BlockHeight, through_height: BlockHeight, fetched_roots: usize },
    CaughtUp { through_height: Option<BlockHeight> },
}

/// What the next attempt covers.
#[derive(Clone, Copy, Debug, PartialEq, Eq, Structural)]
#[allow(inconsistent_fields)]
pub enum BackfillBatch {
    CaughtUp { through_height: Option<BlockHeight> },
    Process { from_height: BlockHeight, through_height: BlockHeight },
}

/// How the backfill task starts.
#[derive(Clone, Copy, Debug, PartialEq, Eq, Structural)]
pub enum BackfillStart {
    /// The backfill is switched off.
    Disabled,
    /// The network has no Sapling activation, so there is no floor to start at.
    NoFloor,
    /// The backfill starts at the Sapling activation.
    Run { sapling_activation_height: BlockHeight },
}

/// Decides how the backfill task starts on a network.
pub fn backfill_start(
    config: CommitmentRootBackfillConfig,
    activations: &NetworkUpgradeActivations,
) -> (start: BackfillStart)
    ensures
        start == if !config.enabled {
            BackfillStart::Disabled
        } else {
            match activations.activation_by_name("Sapling"@) {
                Some(height) => BackfillStart::Run { sapling_activation_height: height },
                None => BackfillStart::NoFloor,
            }
        },
{
    if !config.enabled {
        return BackfillStart::Disabled;
    }
    match activations.activation_height_by_name("Sapling") {
        Some(height) => BackfillStart::Run { sapling_activation_height: height },
        None => BackfillStart::NoFloor,
    }
}

/// Returns how many seconds the task waits after an attempt; an attempt that
/// advanced is followed by the next one at once.
pub fn wait_after_attempt(attempt: &Result<BackfillProgress, IngestError>) -> (wait: Option<u64>)
    ensures
        wait == match attempt {
            Ok(BackfillProgress::Advanced { .. }) => None::<u64>,
            Ok(BackfillProgress::CaughtUp { .. }) => Some(BACKFILL_CAUGHT_UP_POLL_SECONDS),
            Err(_) => Some(BACKFILL_RETRY_SECONDS),
        },
{
    match attempt {
        Ok(BackfillProgress::Advanced { .. }) => None,
        Ok(BackfillProgress::CaughtUp { .. }) => Some(BACKFILL_CAUGHT_UP_POLL_SECONDS),
        Err(_) => Some(BACKFILL_RETRY_SECONDS),
    }
}

/// Height at which a coverage is continued, where it can be.
pub open spec fn continued_at(
    coverage: Option<CommitmentRootBackfillCoverage>,
    sapling_activation_height: BlockHeight,
) -> Option<BlockHeight> {
    match coverage {
        None => Some(sapling_activation_height),
        Some(coverage) => if coverage.complete_from_height != sapling_activation_height {
            None
        } else {
            coverage.complete_through_height.spec_next()
        },
    }
}

/// Whether a failure says why a coverage cannot be continued.
pub open spec fn is_coverage_fault(
    error: IngestError,
    coverage: CommitmentRootBackfillCoverage,
    sapling_activation_height: BlockHeight,
) -> bool {
    if coverage.complete_from_height != sapling_activation_height {
        is_dispatch(
            error,
            "commitment-root backfill coverage starts at "@ + decimal(
                coverage.complete_from_height.0 as nat,
            ) + ", expected Sapling activation "@ + decimal(sapling_activation_height.0 as nat)
                + ""@,
        )
    } else {
        is_dispatch(error, "commitment-root backfill height overflow"@)
    }
}

/// Returns the height at which the backfill goes on.
pub fn next_backfill_height(
    coverage: Option<CommitmentRootBackfillCoverage>,
    sapling_activation_height: BlockHeight,
) -> (next: Result<BlockHeight, IngestError>)
    ensures
        match next {
            Ok(height) => continued_at(coverage, sapling_activation_height) == Some(height),
            Err(error) => {
                &&& continued_at(coverage, sapling_activation_height) is None
                &&& is_coverage_fault(error, coverage->0, sapling_activation_height)
            },
        },
{
    let coverage = match coverage {
        Some(coverage) => coverage,
        None => {
            return Ok(sapling_activation_height);
        },
    };
    if coverage.complete_from_height != sapling_activation_height {
        return Err(
            IngestError::DeriveDispatch(
                two_numbers_in_text(
                    "commitment-root backfill coverage starts at ",
                    coverage.complete_from_height.0 as u64,
                    ", expected Sapling activation ",
                    sapling_activation_height.0 as u64,
                    "",
                ),
            ),
        );
    }
    match coverage.complete_through_height.next() {
        Some(next) => Ok(next),
        None => Err(dispatch_failure("commitment-root backfill height overflow")),
    }
}

/// Highest height a coverage holds.
pub open spec fn covered_through(coverage: Option<CommitmentRootBackfillCoverage>) -> Option<
    BlockHeight,
> {
    match coverage {
        Some(coverage) => Some(coverage.complete_through_height),
        None => None,
    }
}

/// What the next attempt covers, given where it goes on and the settled tip.
pub open spec fn batch_from(
    next_height: BlockHeight,
    batch_blocks: u32,
    coverage: Option<CommitmentRootBackfillCoverage>,
    settled_tip_height: Option<BlockHeight>,
) -> BackfillBatch {
    match settled_tip_height {
        Some(settled) if next_height.0 <= settled.0 => BackfillBatch::Process {
            from_height: next_height,
            through_height: BlockHeight(
                capped(
                    capped_sum(next_height.0 as int, batch_blocks - 1, u32::MAX as int),
                    settled.0 as int,
                ) as u32,
            ),
        },
        _ => BackfillBatch::CaughtUp { through_height: covered_through(coverage) },
    }
}

/// Plans the next batch of settled blocks.
pub fn next_batch(
    config: CommitmentRootBackfillConfig,
    sapling_activation_height: BlockHeight,
    coverage: Option<CommitmentRootBackfillCoverage>,
    settled_tip_height: Option<BlockHeight>,
) -> (batch: Result<BackfillBatch, IngestError>)
    ensures
        match continued_at(coverage, sapling_activation_height) {
            Some(next) => batch == Ok::<BackfillBatch, IngestError>(
                batch_from(next, config.batch_blocks@, coverage, settled_tip_height),
            ),
            None => batch is Err && is_coverage_fault(
                batch->Err_0,
                coverage->0,
                sapling_activation_height,
            ),
        },
{
    let next = match next_backfill_height(coverage, sapling_activation_height) {
        Ok(next) => next,
        Err(error) => {
            return Err(error);
        },
    };
    let caught_up = BackfillBatch::CaughtUp {
        through_height: match coverage {
            Some(coverage) => Some(coverage.complete_through_height),
            None => None,
        },
    };
    let settled = match settled_tip_height {
        Some(settled) => settled,
        None => {
            return Ok(caught_up);
        },
    };
    if next.0 > settled.0 {
        return Ok(caught_up);
    }
    let unbounded: u32 = next.0.saturating_add(config.batch_blocks.get() - 1);
    let through: u32 = if unbounded <= settled.0 {
        unbounded
    } else {
        settled.0
    };
    Ok(BackfillBatch::Process { from_height: next, through_height: BlockHeight(through) })
}

/// Accepts a batch that ends at or below the settled tip.
pub fn validate_settled_boundary(
    settled_tip_height: BlockHeight,
    through_height: BlockHeight,
) -> (valid: Result<(), IngestError>)
    ensures
        match valid {
            Ok(_) => through_height.0 <= settled_tip_height.0,
            Err(error) => through_height.0 > settled_tip_height.0 && is_dispatch(
                error,
                "commitment-root backfill batch crossed the settled canonical boundary"@,
            ),
        },
{
    if through_height.0 <= settled_tip_height.0 {
        return Ok(());
    }
    Err(dispatch_failure("commitment-root backfill batch crossed the settled canonical boundary"))
}

/// One settled block and the roots recorded for it so far.
#[derive(Clone, Copy, Debug, PartialEq, Eq)]
pub struct CanonicalRootBlock {
    pub block_id: BlockId,
    pub roots: Option<BlockFinalNoteCommitmentRoots>,
}

/// Number of heights from `from_height` through `through_height`.
pub open spec fn heights_between(from_height: BlockHeight, through_height: BlockHeight) -> int {
    through_height.0 - from_height.0 + 1
}

/// Height that a batch asks for once `done` blocks have been read.
pub open spec fn height_after(
    from_height: BlockHeight,
    through_height: BlockHeight,
    done: int,
) -> Option<BlockHeight> {
    if 0 <= done < heights_between(from_height, through_height) {
        Some(BlockHeight((from_height.0 + done) as u32))
    } else {
        None
    }
}

fn next_height_of(from_height: BlockHeight, through_height: BlockHeight, done: usize) -> (next:
    Option<BlockHeight>)
    ensures
        next == height_after(from_height, through_height, done as int),
{
    if from_height.0 > through_height.0 || done as u64 > (through_height.0 - from_height.0) as u64 {
        None
    } else {
        Some(BlockHeight((from_height.0 + done as u32) as u32))
    }
}

/// Settled blocks of one batch, read in ascending order.
#[derive(Debug)]
pub struct CanonicalRootBatch {
    pub from_height: BlockHeight,
    pub through_height: BlockHeight,
    pub blocks: Vec<CanonicalRootBlock>,
}

impl CanonicalRootBatch {
    /// The blocks read so far stand at the batch's first heights.
    pub open spec fn well_formed(self) -> bool {
        &&& self.blocks@.len() <= heights_between(self.from_height, self.through_height)
        &&& forall|i: int|
            0 <= i < self.blocks@.len() ==> (#[trigger] self.blocks@[i]).block_id.height.0
                == self.from_height.0 + i
    }

    /// Starts reading a batch that ends at or below the settled tip.
    pub fn begin(
        settled_tip_height: BlockHeight,
        from_height: BlockHeight,
        through_height: BlockHeight,
    ) -> (batch: Result<Self, IngestError>)
        requires
            from_height.0 <= through_height.0,
        ensures
            match batch {
                Ok(batch) => {
                    &&& through_height.0 <= settled_tip_height.0
                    &&& batch.well_formed()
                    &&& batch.from_height == from_height
                    &&& batch.through_height == through_height
                    &&& batch.blocks@.len() == 0
                },
                Err(error) => through_height.0 > settled_tip_height.0 && is_dispatch(
                    error,
                    "commitment-root backfill batch crossed the settled canonical boundary"@,
                ),
            },
    {
        match validate_settled_boundary(settled_tip_height, through_height) {
            Ok(_) => Ok(
                CanonicalRootBatch { from_height, through_height, blocks: Vec::new() },
            ),
            Err(error) => Err(error),
        }
    }

    /// Returns the height to read next, until every height has been read.
    pub fn next_height(&self) -> (next: Option<BlockHeight>)
        ensures
            next == height_after(self.from_height, self.through_height, self.blocks@.len() as int),
    {
        next_height_of(self.from_height, self.through_height, self.blocks.len())
    }

    /// Takes in the stored header and roots of the next height.
    pub fn accept(
        &mut self,
        header: Option<BlockHeaderArtifact>,
        roots: Option<BlockFinalNoteCommitmentRoots>,
    ) -> (accepted: Result<(), IngestError>)
        requires
            old(self).well_formed(),
            old(self).blocks@.len() < heights_between(
                old(self).from_height,
                old(self).through_height,
            ),
        ensures
            final(self).well_formed(),
            final(self).from_height == old(self).from_height,
            final(self).through_height == old(self).through_height,
            ({
                let height = (old(self).from_height.0 + old(self).blocks@.len()) as u32;
                match header {
                    Some(header) => accepted is Ok && final(self).blocks@ == old(self).blocks@.push(
                        CanonicalRootBlock {
                            block_id: BlockId {
                                height: BlockHeight(height),
                                hash: header.block_hash,
                            },
                            roots,
                        },
                    ),
                    None => {
                        &&& final(self).blocks@ == old(self).blocks@
                        &&& accepted is Err
                        &&& is_dispatch(
                            accepted->Err_0,
                            "settled canonical block header "@ + decimal(height as nat)
                                + " is unavailable"@,
                        )
                    },
                }
            }),
    {
        let height: u32 = self.from_height.0 + self.blocks.len() as u32;
        match header {
            Some(header) => {
                self.blocks.push(
                    CanonicalRootBlock {
                        block_id: BlockId::new(BlockHeight(height), header.block_hash),
                        roots,
                    },
                );
                Ok(())
            },
            None => Err(
                IngestError::DeriveDispatch(
                    number_in_text(
                        "settled canonical block header ",
                        height as u64,
                        " is unavailable",
                    ),
                ),
            ),
        }
    }
}

/// Blocks of a sequence whose roots are not recorded yet, in order.
pub open spec fn missing_roots(blocks: Seq<CanonicalRootBlock>) -> Seq<BlockId>
    decreases blocks.len(),
{
    if blocks.len() == 0 {
        Seq::empty()
    } else if blocks.last().roots is None {
        missing_roots(blocks.drop_last()).push(blocks.last().block_id)
    } else {
        missing_roots(blocks.drop_last())
    }
}

/// Returns the blocks whose roots have to be fetched, in order.
pub fn missing_root_block_ids(blocks: &Vec<CanonicalRootBlock>) -> (ids: Vec<BlockId>)
    ensures
        ids@ == missing_roots(blocks@),
{
    let mut ids: Vec<BlockId> = Vec::new();
    let mut i: usize = 0;
    while i < blocks.len()
        invariant
            0 <= i <= blocks@.len(),
            ids@ == missing_roots(blocks@.take(i as int)),
        decreases blocks@.len() - i,
    {
        assert(blocks@.take(i + 1).drop_last() =~= blocks@.take(i as int));
        if blocks[i].roots.is_none() {
            ids.push(blocks[i].block_id);
        }
        i += 1;
    }
    assert(blocks@.take(i as int) =~= blocks@);
    ids
}

/// Names the request for one block's roots.
pub fn root_fetch_operation(block_id: BlockId) -> (operation: String)
    ensures
        operation@ == "fetch final note-commitment roots at height "@ + decimal(
            block_id.height.0 as nat,
        ) + ""@,
{
    number_in_text("fetch final note-commitment roots at height ", block_id.height.0 as u64, "")
}

/// Reports that a request for one block's roots timed out.
pub fn root_fetch_timed_out(block_id: BlockId, reason: String) -> (error: IngestError)
    ensures
        error matches IngestError::SourceRetryDeadlineExceeded { operation, reason: told }
            && told == reason && operation@ == "fetch final note-commitment roots at height "@
            + decimal(block_id.height.0 as nat) + ""@,
{
    IngestError::SourceRetryDeadlineExceeded { operation: root_fetch_operation(block_id), reason }
}

/// Whether heights never fall along a sequence of roots.
pub open spec fn ascending(roots: Seq<BlockFinalNoteCommitmentRoots>) -> bool {
    forall|i: int, j: int| 0 <= i <= j < roots.len() ==> roots[i].height.0 <= roots[j].height.0
}

/// Puts fetched roots, which arrive in any order, into ascending height order.
pub fn order_fetched_roots(fetched: Vec<BlockFinalNoteCommitmentRoots>) -> (ordered: Vec<
    BlockFinalNoteCommitmentRoots,
>)
    ensures
        ascending(ordered@),
        ordered@.to_multiset() == fetched@.to_multiset(),
{
    let mut ordered: Vec<BlockFinalNoteCommitmentRoots> = Vec::new();
    let mut next: usize = 0;
    assert(fetched@.take(0) =~= Seq::empty());
    while next < fetched.len()
        invariant
            0 <= next <= fetched@.len(),
            ordered@.len() == next,
            ascending(ordered@),
            ordered@.to_multiset() == fetched@.take(next as int).to_multiset(),
        decreases fetched@.len() - next,
    {
        let roots = fetched[next];
        let mut at: usize = ordered.len();
        while at > 0 && ordered[at - 1].height.0 > roots.height.0
            invariant
                0 <= at <= ordered@.len(),
                forall|i: int| at <= i < ordered@.len() ==> ordered@[i].height.0 > roots.height.0,
            decreases at,
        {
            at -= 1;
        }
        let ghost before = ordered@;
        ordered.insert(at, roots);
        proof {
            vstd::seq_lib::to_multiset_insert(before, at as int, roots);
            vstd::seq_lib::to_multiset_build(fetched@.take(next as int), roots);
            assert(fetched@.take(next as int).push(roots) =~= fetched@.take(next + 1));
            assert forall|i: int| 0 <= i < at implies before[i].height.0 <= roots.height.0 by {
                assert(before[i].height.0 <= before[at - 1].height.0);
            }
        }
        next += 1;
    }
    assert(fetched@.take(next as int) =~= fetched@);
    ordered
}

/// Settled blocks of one batch, read again once every root is recorded.
#[derive(Debug)]
pub struct EnrichedRootBatch {
    pub from_height: BlockHeight,
    pub through_height: BlockHeight,
    pub inputs: Vec<BlockCommitInput>,
}

/// What the index consumer receives for one settled block: its header facts
/// and roots, and no transactions.
pub open spec fn is_root_input(
    input: BlockCommitInput,
    height: BlockHeight,
    header: BlockHeaderArtifact,
    roots: BlockFinalNoteCommitmentRoots,
) -> bool {
    &&& input.height == height
    &&& input.block_hash == header.block_hash
    &&& input.previous_block_hash == header.parent_hash
    &&& input.block_time_unix_seconds == header.block_time
    &&& input.block_size_bytes == header.block_size_bytes
    &&& input.transactions@.len() == 0
    &&& input.final_note_commitment_roots == Some(roots)
}

impl EnrichedRootBatch {
    /// The inputs built so far stand at the batch's first heights and carry roots.
    pub open spec fn well_formed(self) -> bool {
        &&& self.inputs@.len() <= heights_between(self.from_height, self.through_height)
        &&& forall|i: int|
            0 <= i < self.inputs@.len() ==> (#[trigger] self.inputs@[i]).height.0
                == self.from_height.0 + i && self.inputs@[i].final_note_commitment_roots is Some
    }

    /// Starts reading a batch that still ends at or below the settled tip.
    pub fn begin(
        settled_tip_height: BlockHeight,
        from_height: BlockHeight,
        through_height: BlockHeight,
    ) -> (batch: Result<Self, IngestError>)
        requires
            from_height.0 <= through_height.0,
        ensures
            match batch {
                Ok(batch) => {
                    &&& through_height.0 <= settled_tip_height.0
                    &&& batch.well_formed()
                    &&& batch.from_height == from_height
                    &&& batch.through_height == through_height
                    &&& batch.inputs@.len() == 0
                },
                Err(error) => through_height.0 > settled_tip_height.0 && is_dispatch(
                    error,
                    "commitment-root backfill batch crossed the settled canonical boundary"@,
                ),
            },
    {
        match validate_settled_boundary(settled_tip_height, through_height) {
            Ok(_) => Ok(EnrichedRootBatch { from_height, through_height, inputs: Vec::new() }),
            Err(error) => Err(error),
        }
    }

    /// Returns the height to read next, until every height has been read.
    pub fn next_height(&self) -> (next: Option<BlockHeight>)
        ensures
            next == height_after(self.from_height, self.through_height, self.inputs@.len() as int),
    {
        next_height_of(self.from_height, self.through_height, self.inputs.len())
    }

    /// Takes in the stored header and roots of the next height; both have to be there.
    pub fn accept(
        &mut self,
        header: Option<BlockHeaderArtifact>,
        roots: Option<BlockFinalNoteCommitmentRoots>,
    ) -> (accepted: Result<(), IngestError>)
        requires
            old(self).well_formed(),
            old(self).inputs@.len() < heights_between(
                old(self).from_height,
                old(self).through_height,
            ),
        ensures
            final(self).well_formed(),
            final(self).from_height == old(self).from_height,
            final(self).through_height == old(self).through_height,
            ({
                let height = (old(self).from_height.0 + old(self).inputs@.len()) as u32;
                match (header, roots) {
                    (Some(header), Some(roots)) => {
                        &&& accepted is Ok
                        &&& final(self).inputs@.len() == old(self).inputs@.len() + 1
                        &&& final(self).inputs@.drop_last() == old(self).inputs@
                        &&& is_root_input(
                            final(self).inputs@.last(),
                            BlockHeight(height),
                            header,
                            roots,
                        )
                    },
                    (None, _) => {
                        &&& final(self).inputs@ == old(self).inputs@
                        &&& accepted is Err
                        &&& is_dispatch(
                            accepted->Err_0,
                            "settled canonical block header "@ + decimal(height as nat)
                                + " is unavailable after enrichment"@,
                        )
                    },
                    (Some(_), None) => {
                        &&& final(self).inputs@ == old(self).inputs@
                        &&& accepted is Err
                        &&& is_dispatch(
                            accepted->Err_0,
                            "final note-commitment roots "@ + decimal(height as nat)
                                + " are unavailable after enrichment"@,
                        )
                    },
                }
            }),
    {
        let height: u32 = self.from_height.0 + self.inputs.len() as u32;
        let header = match header {
            Some(header) => header,
            None => {
                return Err(
                    IngestError::DeriveDispatch(
                        number_in_text(
                            "settled canonical block header ",
                            height as u64,
                            " is unavailable after enrichment",
                        ),
                    ),
                );
            },
        };
        let roots = match roots {
            Some(roots) => roots,
            None => {
                return Err(
                    IngestError::DeriveDispatch(
                        number_in_text(
                            "final note-commitment roots ",
                            height as u64,
                            " are unavailable after enrichment",
                        ),
                    ),
                );
            },
        };
        let transactions: Vec<TransactionFactsArtifact> = Vec::new();
        self.inputs.push(
            BlockCommitInput {
                height: BlockHeight(height),
                block_hash: header.block_hash,
                previous_block_hash: header.parent_hash,
                block_time_unix_seconds: header.block_time,
                block_size_bytes: header.block_size_bytes,
                transactions,
                final_note_commitment_roots: Some(roots),
            },
        );
        assert(self.inputs@.drop_last() =~= old(self).inputs@);
        Ok(())
    }
}

/// Coverage once a batch that ends at `through_height` has been indexed.
pub open spec fn extended_coverage(
    coverage: Option<CommitmentRootBackfillCoverage>,
    sapling_activation_height: BlockHeight,
    through_height: BlockHeight,
) -> CommitmentRootBackfillCoverage {
    CommitmentRootBackfillCoverage {
        complete_from_height: match coverage {
            Some(coverage) => coverage.complete_from_height,
            None => sapling_activation_height,
        },
        complete_through_height: through_height,
    }
}

/// Returns the coverage that is recorded together with an indexed batch.
pub fn next_coverage(
    coverage: Option<CommitmentRootBackfillCoverage>,
    sapling_activation_height: BlockHeight,
    through_height: BlockHeight,
) -> (next: CommitmentRootBackfillCoverage)
    ensures
        next == extended_coverage(coverage, sapling_activation_height, through_height),
{
    CommitmentRootBackfillCoverage {
        complete_from_height: match coverage {
            Some(coverage) => coverage.complete_from_height,
            None => sapling_activation_height,
        },
        complete_through_height: through_height,
    }
}

/// A batch goes on right above the covered history, holds at most the
/// configured number of blocks and stays within the settled chain.
pub proof fn law_batch_continues_the_coverage(
    sapling_activation_height: BlockHeight,
    batch_blocks: u32,
    coverage: Option<CommitmentRootBackfillCoverage>,
    settled_tip_height: Option<BlockHeight>,
)
    requires
        batch_blocks > 0,
        continued_at(coverage, sapling_activation_height) is Some,
        batch_from(
            continued_at(coverage, sapling_activation_height)->0,
            batch_blocks,
            coverage,
            settled_tip_height,
        ) is Process,
    ensures
        ({
            let batch = batch_from(
                continued_at(coverage, sapling_activation_height)->0,
                batch_blocks,
                coverage,
                settled_tip_height,
            );
            &&& settled_tip_height is Some
            &&& batch->from_height.0 <= batch->Process_through_height.0
                <= (settled_tip_height->0).0
            &&& heights_between(batch->from_height, batch->Process_through_height) <= batch_blocks
            &&& match coverage {
                Some(c) => batch->from_height.0 == c.complete_through_height.0 + 1,
                None => batch->from_height == sapling_activation_height,
            }
        }),
{
}

/// The coverage recorded with a batch begins at the Sapling activation and is
/// continued right above that batch, unless no height is left above it.
pub proof fn law_recorded_coverage_resumes_without_a_gap(
    sapling_activation_height: BlockHeight,
    coverage: Option<CommitmentRootBackfillCoverage>,
    through_height: BlockHeight,
)
    requires
        continued_at(coverage, sapling_activation_height) is Some,
    ensures
        ({
            let next = extended_coverage(coverage, sapling_activation_height, through_height);
            &&& next.complete_from_height == sapling_activation_height
            &&& continued_at(Some(next), sapling_activation_height)
                == through_height.spec_next()
        }),
{
}

/// Exactly the blocks without recorded roots are fetched.
pub proof fn law_only_missing_roots_are_fetched(
    blocks: Seq<CanonicalRootBlock>,
    block_id: BlockId,
)
    ensures
        missing_roots(blocks).contains(block_id) <==> exists|i: int|
            0 <= i < blocks.len() && (#[trigger] blocks[i]).roots is None && blocks[i].block_id
                == block_id,
    decreases blocks.len(),
{
    if blocks.len() > 0 {
        let rest = blocks.drop_last();
        law_only_missing_roots_are_fetched(rest, block_id);
        let found = missing_roots(rest);
        if blocks.last().roots is None {
            let all = found.push(blocks.last().block_id);
            if found.contains(block_id) {
                let k = choose|k: int| 0 <= k < found.len() && found[k] == block_id;
                assert(all[k] == block_id);
            }
            if blocks.last().block_id == block_id {
                assert(all[all.len() - 1] == block_id);
            }
        }
        if exists|i: int|
            0 <= i < rest.len() && (#[trigger] rest[i]).roots is None && rest[i].block_id
                == block_id {
            let i = choose|i: int|
                0 <= i < rest.len() && (#[trigger] rest[i]).roots is None && rest[i].block_id
                    == block_id;
            assert(blocks[i] == rest[i]);
        }
        if exists|i: int|
            0 <= i < blocks.len() && (#[trigger] blocks[i]).roots is None && blocks[i].block_id
                == block_id {
            let i = choose|i: int|
                0 <= i < blocks.len() && (#[trigger] blocks[i]).roots is None
                    && blocks[i].block_id == block_id;
            if i < rest.len() {
                assert(rest[i] == blocks[i]);
            }
        }
    }
}

/// A backfill continues right above what it covered, and starts at the Sapling
/// activation; a coverage with another start cannot be continued.
pub proof fn law_backfill_continues_above_its_coverage(
    coverage: Option<CommitmentRootBackfillCoverage>,
    sapling_activation_height: BlockHeight,
)
    ensures
        coverage is None ==> continued_at(coverage, sapling_activation_height) == Some(
            sapling_activation_height,
        ),
        coverage matches Some(covered) ==> {
            &&& continued_at(coverage, sapling_activation_height) is Some
                <==> covered.complete_from_height == sapling_activation_height
                && covered.complete_through_height.0 < 0xffff_ffff
            &&& continued_at(coverage, sapling_activation_height) matches Some(next) ==> next.0
                == covered.complete_through_height.0 + 1
        },
        coverage is None ==> covered_through(coverage) is None,
        coverage matches Some(covered) ==> covered_through(coverage) == Some(
            covered.complete_through_height,
        ),
{
}

/// A foreign start is told with both heights; only a spent height range is an
/// overflow.
pub proof fn law_coverage_fault_tells_what_is_wrong(
    error: IngestError,
    coverage: CommitmentRootBackfillCoverage,
    sapling_activation_height: BlockHeight,
)
    requires
        is_coverage_fault(error, coverage, sapling_activation_height),
    ensures
        error matches IngestError::DeriveDispatch(text) && text@ == if
            coverage.complete_from_height != sapling_activation_height {
            "commitment-root backfill coverage starts at "@ + decimal(
                coverage.complete_from_height.0 as nat,
            ) + ", expected Sapling activation "@ + decimal(sapling_activation_height.0 as nat)
                + ""@
        } else {
            "commitment-root backfill height overflow"@
        },
{
}

/// A batch is processed exactly where settled blocks are left; it starts at the
/// next height and takes the configured number of blocks, or those that are
/// left where they are fewer.
pub proof fn law_batch_takes_its_fill_of_settled_blocks(
    next_height: BlockHeight,
    batch_blocks: u32,
    coverage: Option<CommitmentRootBackfillCoverage>,
    settled_tip_height: Option<BlockHeight>,
)
    requires
        batch_blocks > 0,
    ensures
        match batch_from(next_height, batch_blocks, coverage, settled_tip_height) {
            BackfillBatch::Process { from_height, through_height } => {
                &&& settled_tip_height matches Some(settled)
                &&& from_height == next_height
                &&& next_height.0 <= settled.0
                &&& next_height.0 + batch_blocks - 1 <= settled.0 ==> through_height.0
                    == next_height.0 + batch_blocks - 1
                &&& next_height.0 + batch_blocks - 1 > settled.0 ==> through_height == settled
            },
            BackfillBatch::CaughtUp { through_height } => {
                &&& settled_tip_height matches Some(settled) ==> next_height.0 > settled.0
                &&& coverage is None ==> through_height is None
                &&& coverage matches Some(covered) ==> through_height == Some(
                    covered.complete_through_height,
                )
            },
        },
{
}

/// The heights of a range are visited one by one, from its first to its last.
pub proof fn law_heights_are_visited_one_by_one(
    from_height: BlockHeight,
    through_height: BlockHeight,
    done: int,
)
    requires
        from_height.0 <= through_height.0,
        done >= 0,
    ensures
        heights_between(from_height, through_height) == through_height.0 - from_height.0 + 1,
        match height_after(from_height, through_height, done) {
            Some(height) => height.0 == from_height.0 + done && height.0 <= through_height.0,
            None => from_height.0 + done > through_height.0,
        },
{
}

/// Blocks without roots are fetched in block order, one entry each.
pub proof fn law_missing_roots_are_listed_in_order(
    blocks: Seq<CanonicalRootBlock>,
    next: CanonicalRootBlock,
)
    ensures
        missing_roots(Seq::empty()).len() == 0,
        next.roots is None ==> missing_roots(blocks.push(next)) == missing_roots(blocks).push(
            next.block_id,
        ),
        next.roots is Some ==> missing_roots(blocks.push(next)) == missing_roots(blocks),
{
    assert(blocks.push(next).drop_last() =~= blocks);
}

/// Ordered roots never fall in height.
pub proof fn law_ordered_roots_rise(roots: Seq<BlockFinalNoteCommitmentRoots>)
    ensures
        ascending(roots) <==> forall|i: int, j: int|
            0 <= i <= j < roots.len() ==> #[trigger] roots[i].height.0
                <= #[trigger] roots[j].height.0,
{
}

/// The input of a block carries its height, the header's hashes, time and size,
/// its roots and no transactions.
pub proof fn law_root_input_carries_its_block(
    input: BlockCommitInput,
    height: BlockHeight,
    header: BlockHeaderArtifact,
    roots: BlockFinalNoteCommitmentRoots,
)
    requires
        is_root_input(input, height, header, roots),
    ensures
        input.height == height,
        input.block_hash == header.block_hash,
        input.previous_block_hash == header.parent_hash,
        input.block_time_unix_seconds == header.block_time,
        input.block_size_bytes == header.block_size_bytes,
        input.transactions@.len() == 0,
        input.final_note_commitment_roots == Some(roots),
{
}

/// A recorded coverage ends where the batch ended and keeps its start.
pub proof fn law_coverage_ends_where_the_batch_ended(
    coverage: Option<CommitmentRootBackfillCoverage>,
    sapling_activation_height: BlockHeight,
    through_height: BlockHeight,
)
    ensures
        ({
            let next = extended_coverage(coverage, sapling_activation_height, through_height);
            &&& next.complete_through_height == through_height
            &&& coverage is None ==> next.complete_from_height == sapling_activation_height
            &&& coverage matches Some(covered) ==> next.complete_from_height
                == covered.complete_from_height
        }),
{
}

/// The blocks of a batch stand at the heights of its range, in order.
pub proof fn law_batch_blocks_stand_at_their_heights(
    batch: CanonicalRootBatch,
    enriched: EnrichedRootBatch,
    i: int,
)
    ensures
        batch.well_formed() && 0 <= i < batch.blocks@.len() ==> batch.blocks@[i].block_id.height.0
            == batch.from_height.0 + i && batch.from_height.0 + i <= batch.through_height.0,
        enriched.well_formed() && 0 <= i < enriched.inputs@.len() ==> enriched.inputs@[i].height.0
            == enriched.from_height.0 + i && enriched.from_height.0 + i
            <= enriched.through_height.0 && enriched.inputs@[i].final_note_commitment_roots is Some,
{
}

/// A failed attempt is repeated sooner than a caught-up store is polled again.
pub proof fn law_failures_are_retried_before_the_next_poll()
    ensures
        BACKFILL_RETRY_SECONDS == 5,
        BACKFILL_CAUGHT_UP_POLL_SECONDS == 6 * BACKFILL_RETRY_SECONDS,
{
}

} // verus!
