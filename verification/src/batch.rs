//! Canonical artifact batches, their cost and their budget.

use crate::artifact_builder::{
    expand_current_schema_block_artifacts, is_expansion, CanonicalBlockConstructionError,
    ConstructionFault, CurrentSchemaBlockArtifacts, EncodedCanonicalBlock, POSITION_LIMIT,
};
use crate::artifacts::{
    BlockBlobArtifact, BlockFinalNoteCommitmentRoots, BlockHeaderArtifact,
    BlockTransactionIndexArtifact, CanonicalBlockReplayEnvelope, CanonicalTransactionFacts,
    CompactBlockArtifact, SubtreeRootArtifact, TransactionBlobArtifact, TransactionFactsArtifact,
    TransactionIntrinsicValueBalancesArtifact, TransactionLocation, TransparentInputFact,
    TransparentOutputArtifact, TransparentSpendFact, TreeStateArtifact,
};
use crate::bounds::{capped, nonzero_u32_to_usize, nonzero_u64_to_usize, NonZeroU32, NonZeroU64};
use crate::ids::ChainTipMetadata;
use vstd::prelude::*;

verus! {

/// Default estimated canonical write bytes accumulated before a bulk-catchup batch closes.
pub const DEFAULT_CANONICAL_BATCH_MAX_ESTIMATED_WRITE_BYTES: u64 = 536_870_912;

/// Default minimum batch size before estimated write bytes can close a bulk-catchup batch.
pub const DEFAULT_CANONICAL_BATCH_MIN_BLOCKS_BEFORE_ESTIMATED_WRITE_CLOSE: u32 = 100;

/// Estimated store bytes of one block's own rows.
pub const ESTIMATED_BLOCK_WRITE_BYTES: usize = 512;

/// Estimated store bytes of one block-transaction index row.
pub const ESTIMATED_BLOCK_TRANSACTION_INDEX_WRITE_BYTES: usize = 96;

/// Estimated store bytes of one transaction-location row.
pub const ESTIMATED_TRANSACTION_LOCATION_WRITE_BYTES: usize = 96;

/// Estimated store bytes of one transaction-fact row.
pub const ESTIMATED_TRANSACTION_FACT_WRITE_BYTES: usize = 512;

/// Estimated store bytes of one transparent-output row.
pub const ESTIMATED_TRANSPARENT_OUTPUT_WRITE_BYTES: usize = 384;

/// Estimated store bytes of one address-output index row.
pub const ESTIMATED_ADDRESS_OUTPUT_INDEX_WRITE_BYTES: usize = 256;

/// Estimated store bytes of one spend-fact row.
pub const ESTIMATED_TRANSPARENT_SPEND_FACT_WRITE_BYTES: usize = 512;

/// Estimated memory of a prefetched output besides its script.
pub const PREFETCHED_OUTPUT_FIXED_BYTES: usize = 128;

/// Clips an amount to what `usize` can hold.
pub open spec fn clipped(amount: int) -> int {
    capped(amount, usize::MAX as int)
}

/// Sum of a weight over a sequence.
pub open spec fn total<T>(items: Seq<T>, weight: spec_fn(T) -> int) -> int
    decreases items.len(),
{
    if items.len() == 0 {
        0
    } else {
        total(items.drop_last(), weight) + weight(items.last())
    }
}

/// A sum of weights that are never negative is never negative.
pub proof fn lemma_total_is_nonnegative<T>(items: Seq<T>, weight: spec_fn(T) -> int)
    requires
        forall|item: T| #[trigger] weight(item) >= 0,
    ensures
        total(items, weight) >= 0,
    decreases items.len(),
{
    if items.len() > 0 {
        lemma_total_is_nonnegative(items.drop_last(), weight);
    }
}

/// Resources a batch, or one block of it, takes up.
#[derive(Clone, Copy, Debug, PartialEq, Eq, Structural)]
pub struct CanonicalBatchCost {
    pub blocks: usize,
    pub transactions: usize,
    pub transparent_outputs: usize,
    pub transparent_spend_references: usize,
    pub artifact_bytes: usize,
    pub estimated_write_bytes: usize,
}

impl Default for CanonicalBatchCost {
    fn default() -> (cost: Self)
        ensures
            cost == Self::nothing(),
    {
        CanonicalBatchCost {
            blocks: 0,
            transactions: 0,
            transparent_outputs: 0,
            transparent_spend_references: 0,
            artifact_bytes: 0,
            estimated_write_bytes: 0,
        }
    }
}

impl CanonicalBatchCost {
    /// Cost of an empty batch.
    pub open spec fn nothing() -> Self {
        CanonicalBatchCost {
            blocks: 0,
            transactions: 0,
            transparent_outputs: 0,
            transparent_spend_references: 0,
            artifact_bytes: 0,
            estimated_write_bytes: 0,
        }
    }

    /// Cost of two parts together.
    pub open spec fn plus(self, next: Self) -> Self {
        CanonicalBatchCost {
            blocks: clipped(self.blocks + next.blocks) as usize,
            transactions: clipped(self.transactions + next.transactions) as usize,
            transparent_outputs: clipped(self.transparent_outputs + next.transparent_outputs)
                as usize,
            transparent_spend_references: clipped(
                self.transparent_spend_references + next.transparent_spend_references,
            ) as usize,
            artifact_bytes: clipped(self.artifact_bytes + next.artifact_bytes) as usize,
            estimated_write_bytes: clipped(self.estimated_write_bytes + next.estimated_write_bytes)
                as usize,
        }
    }

    /// Returns the cost of two parts together.
    pub fn saturating_add(self, next: Self) -> (sum: Self)
        ensures
            sum == self.plus(next),
    {
        CanonicalBatchCost {
            blocks: self.blocks.saturating_add(next.blocks),
            transactions: self.transactions.saturating_add(next.transactions),
            transparent_outputs: self.transparent_outputs.saturating_add(next.transparent_outputs),
            transparent_spend_references: self.transparent_spend_references.saturating_add(
                next.transparent_spend_references,
            ),
            artifact_bytes: self.artifact_bytes.saturating_add(next.artifact_bytes),
            estimated_write_bytes: self.estimated_write_bytes.saturating_add(
                next.estimated_write_bytes,
            ),
        }
    }
}

/// Which bound closed a batch.
#[derive(Clone, Copy, Debug, PartialEq, Eq, Structural)]
pub enum CanonicalBatchCloseTrigger {
    BlockCount,
    ArtifactBytes,
    EstimatedWriteBytes,
}

impl CanonicalBatchCloseTrigger {
    /// Metric label of a trigger.
    pub open spec fn label(self) -> Seq<char> {
        match self {
            CanonicalBatchCloseTrigger::BlockCount => "block_count"@,
            CanonicalBatchCloseTrigger::ArtifactBytes => "artifact_bytes"@,
            CanonicalBatchCloseTrigger::EstimatedWriteBytes => "estimated_write_bytes"@,
        }
    }

    /// Returns the metric label of this trigger.
    pub fn metric_label(self) -> (label: &'static str)
        ensures
            label@ == self.label(),
    {
        match self {
            CanonicalBatchCloseTrigger::BlockCount => "block_count",
            CanonicalBatchCloseTrigger::ArtifactBytes => "artifact_bytes",
            CanonicalBatchCloseTrigger::EstimatedWriteBytes => "estimated_write_bytes",
        }
    }
}

/// Bounds that close a canonical batch.
#[derive(Clone, Copy, Debug, PartialEq, Eq)]
pub struct CanonicalBatchBudget {
    pub max_blocks: NonZeroU32,
    pub max_artifact_bytes: NonZeroU64,
    pub max_estimated_write_bytes: NonZeroU64,
    pub min_blocks_before_estimated_write_close: NonZeroU32,
}

impl CanonicalBatchBudget {
    pub fn new(
        max_blocks: NonZeroU32,
        max_artifact_bytes: NonZeroU64,
        max_estimated_write_bytes: NonZeroU64,
        min_blocks_before_estimated_write_close: NonZeroU32,
    ) -> (budget: Self)
        ensures
            budget == (CanonicalBatchBudget {
                max_blocks,
                max_artifact_bytes,
                max_estimated_write_bytes,
                min_blocks_before_estimated_write_close,
            }),
    {
        CanonicalBatchBudget {
            max_blocks,
            max_artifact_bytes,
            max_estimated_write_bytes,
            min_blocks_before_estimated_write_close,
        }
    }

    /// Whether a batch of this many blocks may close on its estimated write bytes.
    pub open spec fn may_close_on_write_bytes(self, block_count: int) -> bool {
        block_count == 1 || block_count >= self.min_blocks_before_estimated_write_close@
    }

    /// The first bound that a cost reaches, if any.
    pub open spec fn reached(self, cost: CanonicalBatchCost) -> Option<CanonicalBatchCloseTrigger> {
        if cost.blocks >= self.max_blocks@ {
            Some(CanonicalBatchCloseTrigger::BlockCount)
        } else if cost.artifact_bytes >= clipped(self.max_artifact_bytes@ as int) {
            Some(CanonicalBatchCloseTrigger::ArtifactBytes)
        } else if self.may_close_on_write_bytes(cost.blocks as int) && cost.estimated_write_bytes
            >= clipped(self.max_estimated_write_bytes@ as int) {
            Some(CanonicalBatchCloseTrigger::EstimatedWriteBytes)
        } else {
            None
        }
    }

    /// The first bound that a cost goes beyond, if any.
    pub open spec fn exceeded(self, cost: CanonicalBatchCost) -> Option<
        CanonicalBatchCloseTrigger,
    > {
        if cost.blocks > self.max_blocks@ {
            Some(CanonicalBatchCloseTrigger::BlockCount)
        } else if cost.artifact_bytes > clipped(self.max_artifact_bytes@ as int) {
            Some(CanonicalBatchCloseTrigger::ArtifactBytes)
        } else if self.may_close_on_write_bytes(cost.blocks as int) && cost.estimated_write_bytes
            > clipped(self.max_estimated_write_bytes@ as int) {
            Some(CanonicalBatchCloseTrigger::EstimatedWriteBytes)
        } else {
            None
        }
    }

    /// The bound that closes a batch before the next block may join it, if any.
    pub open spec fn closes_before(
        self,
        current: CanonicalBatchCost,
        next: CanonicalBatchCost,
    ) -> Option<CanonicalBatchCloseTrigger> {
        if current.blocks == 0 {
            None
        } else {
            self.exceeded(current.plus(next))
        }
    }

    /// Returns the bound that the batch has reached, if any.
    pub fn commit_trigger(self, cost: CanonicalBatchCost) -> (trigger: Option<
        CanonicalBatchCloseTrigger,
    >)
        ensures
            trigger == self.reached(cost),
    {
        if cost.blocks >= nonzero_u32_to_usize(self.max_blocks) {
            return Some(CanonicalBatchCloseTrigger::BlockCount);
        }
        if cost.artifact_bytes >= nonzero_u64_to_usize(self.max_artifact_bytes) {
            return Some(CanonicalBatchCloseTrigger::ArtifactBytes);
        }
        if self.can_close_on_estimated_write_bytes(cost.blocks) && cost.estimated_write_bytes
            >= nonzero_u64_to_usize(self.max_estimated_write_bytes) {
            return Some(CanonicalBatchCloseTrigger::EstimatedWriteBytes);
        }
        None
    }

    /// Returns the close trigger for the current batch before admitting the
    /// next positioned block.
    ///
    /// Exact-limit blocks still join the current batch and close it through
    /// [`Self::commit_trigger`]. This path is only for an existing batch that
    /// the next block would push beyond a configured bound; an oversized first
    /// block remains valid and is committed on its own.
    pub fn commit_trigger_before_next_block(
        self,
        current: CanonicalBatchCost,
        next: CanonicalBatchCost,
    ) -> (trigger: Option<CanonicalBatchCloseTrigger>)
        ensures
            trigger == self.closes_before(current, next),
    {
        if current.blocks == 0 {
            return None;
        }
        let combined = current.saturating_add(next);
        if combined.blocks > nonzero_u32_to_usize(self.max_blocks) {
            return Some(CanonicalBatchCloseTrigger::BlockCount);
        }
        if combined.artifact_bytes > nonzero_u64_to_usize(self.max_artifact_bytes) {
            return Some(CanonicalBatchCloseTrigger::ArtifactBytes);
        }
        if self.can_close_on_estimated_write_bytes(combined.blocks)
            && combined.estimated_write_bytes > nonzero_u64_to_usize(
            self.max_estimated_write_bytes,
        ) {
            return Some(CanonicalBatchCloseTrigger::EstimatedWriteBytes);
        }
        None
    }

    /// Returns whether a batch of this many blocks may close on its estimated write bytes.
    pub fn can_close_on_estimated_write_bytes(self, block_count: usize) -> (may_close: bool)
        ensures
            may_close == self.may_close_on_write_bytes(block_count as int),
    {
        block_count == 1 || block_count >= nonzero_u32_to_usize(
            self.min_blocks_before_estimated_write_close,
        )
    }
}

/// A batch that a block was admitted into stays within every bound that can
/// close it, and a batch that starts with that block is always admitted.
pub proof fn law_admitted_block_keeps_the_batch_within_bounds(
    budget: CanonicalBatchBudget,
    current: CanonicalBatchCost,
    next: CanonicalBatchCost,
)
    ensures
        current.blocks == 0 ==> budget.closes_before(current, next) is None,
        current.blocks > 0 && budget.closes_before(current, next) is None ==> {
            let combined = current.plus(next);
            &&& combined.blocks <= budget.max_blocks@
            &&& combined.artifact_bytes <= clipped(budget.max_artifact_bytes@ as int)
            &&& budget.may_close_on_write_bytes(combined.blocks as int)
                ==> combined.estimated_write_bytes <= clipped(
                budget.max_estimated_write_bytes@ as int,
            )
        },
{
}

/// A block that lands exactly on a bound joins the batch, and the batch then
/// closes on that bound or an earlier one.
pub proof fn law_exact_limit_block_joins_and_closes_the_batch(
    budget: CanonicalBatchBudget,
    current: CanonicalBatchCost,
    next: CanonicalBatchCost,
)
    requires
        budget.closes_before(current, next) is None,
        current.plus(next).blocks == budget.max_blocks@ || current.plus(next).artifact_bytes
            == clipped(budget.max_artifact_bytes@ as int),
    ensures
        budget.reached(current.plus(next)) is Some,
{
}

/// Whatever a cost goes beyond, it has also reached.
pub proof fn law_exceeded_bound_is_reached(budget: CanonicalBatchBudget, cost: CanonicalBatchCost)
    ensures
        budget.exceeded(cost) is Some ==> budget.reached(cost) is Some,
{
}

/// Number of transparent inputs of one transaction that spend an earlier output.
pub open spec fn spending_inputs(inputs: Seq<TransparentInputFact>) -> int {
    total(
        inputs,
        |input: TransparentInputFact|
            if input.spent_outpoint.is_sentinel() {
                0int
            } else {
                1
            },
    )
}

/// Number of inputs of a run of transactions that spend an earlier output.
pub open spec fn spend_reference_total(transactions: Seq<CanonicalTransactionFacts>) -> int {
    total(
        transactions,
        |transaction: CanonicalTransactionFacts|
            spending_inputs(transaction.transparent_inputs@),
    )
}

/// Number of transparent outputs of a run of transactions.
pub open spec fn output_total(transactions: Seq<CanonicalTransactionFacts>) -> int {
    total(
        transactions,
        |transaction: CanonicalTransactionFacts| transaction.transparent_outputs@.len() as int,
    )
}

/// Raw bytes that a run of transactions kept.
pub open spec fn transaction_blob_total(transactions: Seq<CanonicalTransactionFacts>) -> int {
    total(
        transactions,
        |transaction: CanonicalTransactionFacts|
            match transaction.raw_transaction_bytes {
                Some(bytes) => bytes@.len() as int,
                None => 0,
            },
    )
}

/// Memory estimate of a run of prefetched outputs.
pub open spec fn prefetched_total(outputs: Seq<TransparentOutputArtifact>) -> int {
    total(
        outputs,
        |output: TransparentOutputArtifact|
            PREFETCHED_OUTPUT_FIXED_BYTES + output.script_pub_key@.len(),
    )
}

/// Bytes of the payloads that one block commits.
pub open spec fn artifact_byte_total(block: EncodedCanonicalBlock) -> int {
    block.replay_envelope.payload_bytes@.len() + (match block.facts.raw_block_bytes {
        Some(bytes) => bytes@.len() as int,
        None => 0,
    }) + block.compact_block.payload_bytes@.len() + transaction_blob_total(
        block.facts.transactions@,
    )
}

/// Estimated store bytes that one block writes.
pub open spec fn write_byte_total(
    block: EncodedCanonicalBlock,
    transparent_spend_references: int,
) -> int {
    let transactions = block.facts.transactions@.len();
    let outputs = output_total(block.facts.transactions@);
    artifact_byte_total(block) + ESTIMATED_BLOCK_WRITE_BYTES + transactions
        * ESTIMATED_BLOCK_TRANSACTION_INDEX_WRITE_BYTES + transactions
        * ESTIMATED_TRANSACTION_LOCATION_WRITE_BYTES + transactions
        * ESTIMATED_TRANSACTION_FACT_WRITE_BYTES + outputs
        * ESTIMATED_TRANSPARENT_OUTPUT_WRITE_BYTES + outputs
        * ESTIMATED_ADDRESS_OUTPUT_INDEX_WRITE_BYTES + transparent_spend_references
        * ESTIMATED_TRANSPARENT_SPEND_FACT_WRITE_BYTES
}

/// Cost that one block adds to a batch, with the outputs prefetched for its spends.
pub open spec fn block_cost(
    block: EncodedCanonicalBlock,
    prefetched: Seq<TransparentOutputArtifact>,
) -> CanonicalBatchCost {
    let spends = clipped(spend_reference_total(block.facts.transactions@));
    CanonicalBatchCost {
        blocks: 1,
        transactions: block.facts.transactions@.len() as usize,
        transparent_outputs: clipped(output_total(block.facts.transactions@)) as usize,
        transparent_spend_references: spends as usize,
        artifact_bytes: clipped(artifact_byte_total(block) + prefetched_total(prefetched))
            as usize,
        estimated_write_bytes: clipped(write_byte_total(block, spends)) as usize,
    }
}

/// Counts the inputs of one transaction that spend an earlier output.
fn spending_input_count(inputs: &Vec<TransparentInputFact>) -> (count: usize)
    ensures
        count == spending_inputs(inputs@),
{
    let ghost weight = |input: TransparentInputFact|
        if input.spent_outpoint.is_sentinel() {
            0int
        } else {
            1
        };
    let mut count: usize = 0;
    let mut i: usize = 0;
    while i < inputs.len()
        invariant
            0 <= i <= inputs@.len(),
            count <= i,
            weight == (|input: TransparentInputFact|
                if input.spent_outpoint.is_sentinel() {
                    0int
                } else {
                    1
                }),
            count == total(inputs@.take(i as int), weight),
        decreases inputs@.len() - i,
    {
        assert(inputs@.take(i + 1).drop_last() =~= inputs@.take(i as int));
        if !inputs[i].spent_outpoint.is_coinbase_sentinel() {
            count += 1;
        }
        i += 1;
    }
    assert(inputs@.take(i as int) =~= inputs@);
    count
}

/// Counts the inputs of a block that spend an earlier output.
pub fn transparent_spend_reference_count_for_canonical_transactions(
    transactions: &Vec<CanonicalTransactionFacts>,
) -> (count: usize)
    ensures
        count == clipped(spend_reference_total(transactions@)),
{
    let ghost weight = |transaction: CanonicalTransactionFacts|
        spending_inputs(transaction.transparent_inputs@);
    let mut count: usize = 0;
    let mut i: usize = 0;
    while i < transactions.len()
        invariant
            0 <= i <= transactions@.len(),
            weight == (|transaction: CanonicalTransactionFacts|
                spending_inputs(transaction.transparent_inputs@)),
            count == clipped(total(transactions@.take(i as int), weight)),
            total(transactions@.take(i as int), weight) >= 0,
        decreases transactions@.len() - i,
    {
        assert(transactions@.take(i + 1).drop_last() =~= transactions@.take(i as int));
        count = count.saturating_add(spending_input_count(&transactions[i].transparent_inputs));
        i += 1;
    }
    assert(transactions@.take(i as int) =~= transactions@);
    count
}

/// Counts the transparent outputs of a block.
fn transparent_output_count(transactions: &Vec<CanonicalTransactionFacts>) -> (count: usize)
    ensures
        count == clipped(output_total(transactions@)),
        output_total(transactions@) >= 0,
{
    let ghost weight = |transaction: CanonicalTransactionFacts|
        transaction.transparent_outputs@.len() as int;
    let mut count: usize = 0;
    let mut i: usize = 0;
    while i < transactions.len()
        invariant
            0 <= i <= transactions@.len(),
            weight == (|transaction: CanonicalTransactionFacts|
                transaction.transparent_outputs@.len() as int),
            count == clipped(total(transactions@.take(i as int), weight)),
            total(transactions@.take(i as int), weight) >= 0,
        decreases transactions@.len() - i,
    {
        assert(transactions@.take(i + 1).drop_last() =~= transactions@.take(i as int));
        count = count.saturating_add(transactions[i].transparent_outputs.len());
        i += 1;
    }
    assert(transactions@.take(i as int) =~= transactions@);
    count
}

/// Measures the raw transaction bytes that a block kept.
pub fn transaction_blob_bytes(transactions: &Vec<CanonicalTransactionFacts>) -> (bytes: usize)
    ensures
        bytes == clipped(transaction_blob_total(transactions@)),
        transaction_blob_total(transactions@) >= 0,
{
    let ghost weight = |transaction: CanonicalTransactionFacts|
        match transaction.raw_transaction_bytes {
            Some(bytes) => bytes@.len() as int,
            None => 0,
        };
    let mut bytes: usize = 0;
    let mut i: usize = 0;
    while i < transactions.len()
        invariant
            0 <= i <= transactions@.len(),
            weight == (|transaction: CanonicalTransactionFacts|
                match transaction.raw_transaction_bytes {
                    Some(bytes) => bytes@.len() as int,
                    None => 0,
                }),
            bytes == clipped(total(transactions@.take(i as int), weight)),
            total(transactions@.take(i as int), weight) >= 0,
        decreases transactions@.len() - i,
    {
        assert(transactions@.take(i + 1).drop_last() =~= transactions@.take(i as int));
        let kept: usize = match &transactions[i].raw_transaction_bytes {
            Some(raw) => raw.len(),
            None => 0,
        };
        bytes = bytes.saturating_add(kept);
        i += 1;
    }
    assert(transactions@.take(i as int) =~= transactions@);
    bytes
}

/// Estimates the memory that prefetched outputs take up.
pub fn prefetched_spent_transparent_output_bytes(
    outputs: &Vec<TransparentOutputArtifact>,
) -> (bytes: usize)
    ensures
        bytes == clipped(prefetched_total(outputs@)),
        prefetched_total(outputs@) >= 0,
{
    let ghost weight = |output: TransparentOutputArtifact|
        PREFETCHED_OUTPUT_FIXED_BYTES + output.script_pub_key@.len();
    let mut bytes: usize = 0;
    let mut i: usize = 0;
    while i < outputs.len()
        invariant
            0 <= i <= outputs@.len(),
            weight == (|output: TransparentOutputArtifact|
                PREFETCHED_OUTPUT_FIXED_BYTES + output.script_pub_key@.len()),
            bytes == clipped(total(outputs@.take(i as int), weight)),
            total(outputs@.take(i as int), weight) >= 0,
        decreases outputs@.len() - i,
    {
        assert(outputs@.take(i + 1).drop_last() =~= outputs@.take(i as int));
        bytes =
        bytes.saturating_add(
            PREFETCHED_OUTPUT_FIXED_BYTES.saturating_add(outputs[i].script_pub_key.len()),
        );
        i += 1;
    }
    assert(outputs@.take(i as int) =~= outputs@);
    bytes
}

/// Measures the payloads that one block commits.
pub fn canonical_block_artifact_bytes(block: &EncodedCanonicalBlock) -> (bytes: usize)
    ensures
        bytes == clipped(artifact_byte_total(*block)),
        artifact_byte_total(*block) >= 0,
{
    let block_blob_bytes: usize = match &block.facts.raw_block_bytes {
        Some(raw) => raw.len(),
        None => 0,
    };
    block.replay_envelope.payload_bytes.len().saturating_add(block_blob_bytes).saturating_add(
        block.compact_block.payload_bytes.len(),
    ).saturating_add(transaction_blob_bytes(&block.facts.transactions))
}

fn times(count: usize, bytes_each: usize) -> (bytes: usize)
    requires
        0 < bytes_each <= 512,
    ensures
        bytes == clipped(count * bytes_each),
{
    match count.checked_mul(bytes_each) {
        Some(bytes) => bytes,
        None => usize::MAX,
    }
}

/// Estimates the store bytes that one block writes.
pub fn canonical_block_estimated_write_bytes(
    block: &EncodedCanonicalBlock,
    transparent_spend_references: usize,
) -> (bytes: usize)
    ensures
        bytes == clipped(write_byte_total(*block, transparent_spend_references as int)),
{
    let transactions: usize = block.facts.transactions.len();
    let outputs: usize = transparent_output_count(&block.facts.transactions);
    let block_index_bytes: usize = ESTIMATED_BLOCK_WRITE_BYTES.saturating_add(
        times(transactions, ESTIMATED_BLOCK_TRANSACTION_INDEX_WRITE_BYTES),
    ).saturating_add(times(transactions, ESTIMATED_TRANSACTION_LOCATION_WRITE_BYTES));
    let transaction_fact_bytes: usize = times(
        transactions,
        ESTIMATED_TRANSACTION_FACT_WRITE_BYTES,
    );
    let transparent_output_bytes: usize = times(outputs, ESTIMATED_TRANSPARENT_OUTPUT_WRITE_BYTES);
    let address_output_index_bytes: usize = times(
        outputs,
        ESTIMATED_ADDRESS_OUTPUT_INDEX_WRITE_BYTES,
    );
    let transparent_spend_fact_bytes: usize = times(
        transparent_spend_references,
        ESTIMATED_TRANSPARENT_SPEND_FACT_WRITE_BYTES,
    );
    canonical_block_artifact_bytes(block).saturating_add(block_index_bytes).saturating_add(
        transaction_fact_bytes,
    ).saturating_add(transparent_output_bytes).saturating_add(
        address_output_index_bytes,
    ).saturating_add(transparent_spend_fact_bytes)
}

/// In-flight canonical artifact batch accumulated between commits.
#[derive(Debug)]
pub struct CanonicalBatch {
    pub block_replay_envelopes: Vec<CanonicalBlockReplayEnvelope>,
    pub block_headers: Vec<BlockHeaderArtifact>,
    pub block_blobs: Vec<BlockBlobArtifact>,
    pub compact_blocks: Vec<CompactBlockArtifact>,
    pub block_transaction_index: Vec<BlockTransactionIndexArtifact>,
    pub transaction_locations: Vec<TransactionLocation>,
    pub transaction_facts: Vec<TransactionFactsArtifact>,
    pub transaction_intrinsic_value_balances: Vec<TransactionIntrinsicValueBalancesArtifact>,
    pub transaction_blobs: Vec<TransactionBlobArtifact>,
    pub tree_states: Vec<TreeStateArtifact>,
    pub final_note_commitment_roots: Vec<BlockFinalNoteCommitmentRoots>,
    pub subtree_roots: Vec<SubtreeRootArtifact>,
    pub transparent_outputs_by_outpoint: Vec<TransparentOutputArtifact>,
    pub transparent_spend_facts: Vec<TransparentSpendFact>,
    pub prefetched_spent_transparent_outputs: Vec<TransparentOutputArtifact>,
    pub tip_metadata: Option<ChainTipMetadata>,
    pub transactions: usize,
    pub transparent_outputs: usize,
    pub transparent_spend_references: usize,
    pub artifact_bytes: usize,
    pub estimated_write_bytes: usize,
}

impl Default for CanonicalBatch {
    fn default() -> (batch: Self)
        ensures
            batch.holds_no_rows(),
            batch.tip_metadata is None,
            batch.cost() == CanonicalBatchCost::nothing(),
    {
        CanonicalBatch {
            block_replay_envelopes: Vec::new(),
            block_headers: Vec::new(),
            block_blobs: Vec::new(),
            compact_blocks: Vec::new(),
            block_transaction_index: Vec::new(),
            transaction_locations: Vec::new(),
            transaction_facts: Vec::new(),
            transaction_intrinsic_value_balances: Vec::new(),
            transaction_blobs: Vec::new(),
            tree_states: Vec::new(),
            final_note_commitment_roots: Vec::new(),
            subtree_roots: Vec::new(),
            transparent_outputs_by_outpoint: Vec::new(),
            transparent_spend_facts: Vec::new(),
            prefetched_spent_transparent_outputs: Vec::new(),
            tip_metadata: None,
            transactions: 0,
            transparent_outputs: 0,
            transparent_spend_references: 0,
            artifact_bytes: 0,
            estimated_write_bytes: 0,
        }
    }
}

impl CanonicalBatch {
    /// Whether the batch has nothing to commit, and no outputs that were
    /// fetched for what it commits.
    pub open spec fn holds_no_rows(self) -> bool {
        &&& self.block_replay_envelopes@.len() == 0
        &&& self.block_headers@.len() == 0
        &&& self.block_blobs@.len() == 0
        &&& self.compact_blocks@.len() == 0
        &&& self.block_transaction_index@.len() == 0
        &&& self.transaction_locations@.len() == 0
        &&& self.transaction_facts@.len() == 0
        &&& self.transaction_intrinsic_value_balances@.len() == 0
        &&& self.transaction_blobs@.len() == 0
        &&& self.tree_states@.len() == 0
        &&& self.final_note_commitment_roots@.len() == 0
        &&& self.subtree_roots@.len() == 0
        &&& self.transparent_outputs_by_outpoint@.len() == 0
        &&& self.transparent_spend_facts@.len() == 0
        &&& self.prefetched_spent_transparent_outputs@.len() == 0
    }

    /// Whether the rows that no block brings along are those of another batch.
    pub open spec fn keeps_attachments_of(self, before: Self) -> bool {
        &&& self.tree_states@ == before.tree_states@
        &&& self.final_note_commitment_roots@ == before.final_note_commitment_roots@
        &&& self.subtree_roots@ == before.subtree_roots@
        &&& self.transparent_spend_facts@ == before.transparent_spend_facts@
    }

    /// Whether the rows that blocks bring along are those of another batch.
    pub open spec fn keeps_block_rows_of(self, before: Self) -> bool {
        &&& self.block_replay_envelopes@ == before.block_replay_envelopes@
        &&& self.block_headers@ == before.block_headers@
        &&& self.block_blobs@ == before.block_blobs@
        &&& self.compact_blocks@ == before.compact_blocks@
        &&& self.block_transaction_index@ == before.block_transaction_index@
        &&& self.transaction_locations@ == before.transaction_locations@
        &&& self.transaction_facts@ == before.transaction_facts@
        &&& self.transaction_intrinsic_value_balances@
            == before.transaction_intrinsic_value_balances@
        &&& self.transaction_blobs@ == before.transaction_blobs@
        &&& self.transparent_outputs_by_outpoint@ == before.transparent_outputs_by_outpoint@
        &&& self.prefetched_spent_transparent_outputs@
            == before.prefetched_spent_transparent_outputs@
        &&& self.tip_metadata == before.tip_metadata
    }

    /// Whether the rows of a batch are those of an earlier state of it, each
    /// followed by the rows of one more block.
    pub open spec fn extends_by(
        self,
        before: Self,
        block: EncodedCanonicalBlock,
        rows: CurrentSchemaBlockArtifacts,
    ) -> bool {
        &&& self.block_replay_envelopes@ == before.block_replay_envelopes@.push(
            block.replay_envelope,
        )
        &&& self.block_headers@ == before.block_headers@.push(rows.block_header)
        &&& self.block_blobs@ == match rows.block_blob {
            Some(block_blob) => before.block_blobs@.push(block_blob),
            None => before.block_blobs@,
        }
        &&& self.compact_blocks@ == before.compact_blocks@.push(block.compact_block)
        &&& self.block_transaction_index@ == before.block_transaction_index@
            + rows.block_transaction_index@
        &&& self.transaction_locations@ == before.transaction_locations@
            + rows.transaction_locations@
        &&& self.transaction_facts@ == before.transaction_facts@ + rows.transaction_facts@
        &&& self.transaction_intrinsic_value_balances@
            == before.transaction_intrinsic_value_balances@
            + rows.transaction_intrinsic_value_balances@
        &&& self.transaction_blobs@ == before.transaction_blobs@ + rows.transaction_blobs@
        &&& self.transparent_outputs_by_outpoint@ == before.transparent_outputs_by_outpoint@
            + rows.transparent_outputs_by_outpoint@
        &&& self.tip_metadata == Some(block.tip_metadata)
    }

    /// Whether a batch is an earlier state of it with one more block taken in.
    pub open spec fn takes_in(
        self,
        before: Self,
        block: EncodedCanonicalBlock,
        prefetched: Seq<TransparentOutputArtifact>,
    ) -> bool {
        &&& exists|rows: CurrentSchemaBlockArtifacts| #[trigger]
            is_expansion(rows, block.facts) && self.extends_by(before, block, rows)
        &&& self.prefetched_spent_transparent_outputs@
            == before.prefetched_spent_transparent_outputs@ + prefetched
        &&& self.keeps_attachments_of(before)
    }

    /// Cost accumulated by the batch.
    pub open spec fn cost(self) -> CanonicalBatchCost {
        CanonicalBatchCost {
            blocks: self.block_headers@.len() as usize,
            transactions: self.transactions,
            transparent_outputs: self.transparent_outputs,
            transparent_spend_references: self.transparent_spend_references,
            artifact_bytes: self.artifact_bytes,
            estimated_write_bytes: self.estimated_write_bytes,
        }
    }

    /// Appends one block's canonical facts into the in-flight batch.
    ///
    /// Each row is moved into its matching vector; the running tip metadata is
    /// overwritten with the latest block value.
    pub fn absorb(&mut self, block: EncodedCanonicalBlock) -> (absorbed: Result<
        (),
        CanonicalBlockConstructionError,
    >)
        ensures
            absorbed is Ok <==> block.facts.transactions@.len() <= POSITION_LIMIT,
            match absorbed {
                Ok(_) => {
                    &&& final(self).takes_in(*old(self), block, Seq::empty())
                    &&& final(self).cost() == old(self).cost().plus(block_cost(block, Seq::empty()))
                },
                Err(error) => {
                    &&& error@ == ConstructionFault::TransactionIndexOverflow
                    &&& final(self).keeps_block_rows_of(*old(self))
                    &&& final(self).keeps_attachments_of(*old(self))
                    &&& final(self).cost() == (CanonicalBatchCost {
                        blocks: old(self).cost().blocks,
                        ..old(self).cost().plus(block_cost(block, Seq::empty()))
                    })
                },
            },
    {
        let prefetched_outputs: Vec<TransparentOutputArtifact> = Vec::new();
        assert(prefetched_outputs@ =~= Seq::empty());
        self.absorb_with_prefetched_spent_outputs(block, prefetched_outputs)
    }

    /// Returns the resource cost contributed by one positioned block.
    ///
    /// This is intentionally shared by pre-admission budgeting and the
    /// post-admission accumulator, so they cannot drift apart as canonical
    /// artifacts gain new write paths.
    pub fn work_cost_for_block(
        block: &EncodedCanonicalBlock,
        prefetched_outputs: &Vec<TransparentOutputArtifact>,
    ) -> (cost: CanonicalBatchCost)
        ensures
            cost == block_cost(*block, prefetched_outputs@),
    {
        let transparent_spend_references: usize =
            transparent_spend_reference_count_for_canonical_transactions(
            &block.facts.transactions,
        );
        CanonicalBatchCost {
            blocks: 1,
            transactions: block.facts.transactions.len(),
            transparent_outputs: transparent_output_count(&block.facts.transactions),
            transparent_spend_references,
            artifact_bytes: canonical_block_artifact_bytes(block).saturating_add(
                prefetched_spent_transparent_output_bytes(prefetched_outputs),
            ),
            estimated_write_bytes: canonical_block_estimated_write_bytes(
                block,
                transparent_spend_references,
            ),
        }
    }

    fn absorb_work_cost(&mut self, cost: CanonicalBatchCost)
        ensures
            final(self).keeps_block_rows_of(*old(self)),
            final(self).keeps_attachments_of(*old(self)),
            final(self).cost() == (CanonicalBatchCost {
                blocks: old(self).cost().blocks,
                ..old(self).cost().plus(cost)
            }),
    {
        self.transactions = self.transactions.saturating_add(cost.transactions);
        self.transparent_outputs = self.transparent_outputs.saturating_add(
            cost.transparent_outputs,
        );
        self.transparent_spend_references = self.transparent_spend_references.saturating_add(
            cost.transparent_spend_references,
        );
        self.artifact_bytes = self.artifact_bytes.saturating_add(cost.artifact_bytes);
        self.estimated_write_bytes = self.estimated_write_bytes.saturating_add(
            cost.estimated_write_bytes,
        );
    }

    fn absorb_encoded_canonical_block(&mut self, block: EncodedCanonicalBlock) -> (absorbed: Result<
        (),
        CanonicalBlockConstructionError,
    >)
        ensures
            absorbed is Ok <==> block.facts.transactions@.len() <= POSITION_LIMIT,
            match absorbed {
                Ok(_) => {
                    &&& final(self).takes_in(*old(self), block, Seq::empty())
                    &&& final(self).cost() == (CanonicalBatchCost {
                        blocks: (old(self).block_headers@.len() + 1) as usize,
                        ..old(self).cost()
                    })
                },
                Err(error) => {
                    &&& error@ == ConstructionFault::TransactionIndexOverflow
                    &&& final(self).keeps_block_rows_of(*old(self))
                    &&& final(self).keeps_attachments_of(*old(self))
                    &&& final(self).cost() == old(self).cost()
                },
            },
    {
        let ghost taken = block;
        let EncodedCanonicalBlock { facts, replay_envelope, compact_block, tip_metadata } = block;
        let expanded = match expand_current_schema_block_artifacts(facts) {
            Ok(expanded) => expanded,
            Err(error) => {
                return Err(error);
            },
        };
        let ghost rows = expanded;
        let CurrentSchemaBlockArtifacts {
            block_header,
            block_blob,
            mut block_transaction_index,
            mut transaction_locations,
            mut transaction_facts,
            mut transaction_intrinsic_value_balances,
            mut transaction_blobs,
            mut transparent_outputs_by_outpoint,
        } = expanded;
        self.block_replay_envelopes.push(replay_envelope);
        self.block_headers.push(block_header);
        if let Some(block_blob) = block_blob {
            self.block_blobs.push(block_blob);
        }
        self.compact_blocks.push(compact_block);
        self.block_transaction_index.append(&mut block_transaction_index);
        self.transaction_locations.append(&mut transaction_locations);
        self.transaction_facts.append(&mut transaction_facts);
        self.transaction_intrinsic_value_balances.append(
            &mut transaction_intrinsic_value_balances,
        );
        self.transaction_blobs.append(&mut transaction_blobs);
        self.transparent_outputs_by_outpoint.append(&mut transparent_outputs_by_outpoint);
        self.tip_metadata = Some(tip_metadata);
        assert(is_expansion(rows, taken.facts) && self.extends_by(*old(self), taken, rows));
        assert(self.prefetched_spent_transparent_outputs@
            =~= old(self).prefetched_spent_transparent_outputs@ + Seq::empty());
        Ok(())
    }

    /// Appends canonical block facts with transparent prevouts prefetched upstream.
    ///
    /// A block whose rows cannot be numbered still counts toward the cost.
    pub fn absorb_with_prefetched_spent_outputs(
        &mut self,
        block: EncodedCanonicalBlock,
        prefetched_outputs: Vec<TransparentOutputArtifact>,
    ) -> (absorbed: Result<(), CanonicalBlockConstructionError>)
        ensures
            absorbed is Ok <==> block.facts.transactions@.len() <= POSITION_LIMIT,
            match absorbed {
                Ok(_) => {
                    &&& final(self).takes_in(*old(self), block, prefetched_outputs@)
                    &&& final(self).cost() == old(self).cost().plus(
                        block_cost(block, prefetched_outputs@),
                    )
                },
                Err(error) => {
                    &&& error@ == ConstructionFault::TransactionIndexOverflow
                    &&& final(self).keeps_block_rows_of(*old(self))
                    &&& final(self).keeps_attachments_of(*old(self))
                    &&& final(self).cost() == (CanonicalBatchCost {
                        blocks: old(self).cost().blocks,
                        ..old(self).cost().plus(block_cost(block, prefetched_outputs@))
                    })
                },
            },
    {
        let ghost before = *self;
        let ghost taken = block;
        let ghost prefetched = prefetched_outputs@;
        let cost = Self::work_cost_for_block(&block, &prefetched_outputs);
        self.absorb_work_cost(cost);
        let ghost charged = *self;
        match self.absorb_encoded_canonical_block(block) {
            Ok(_) => {},
            Err(error) => {
                return Err(error);
            },
        }
        proof {
            let rows = choose|rows: CurrentSchemaBlockArtifacts| #[trigger]
                is_expansion(rows, taken.facts) && self.extends_by(charged, taken, rows);
            assert(is_expansion(rows, taken.facts) && self.extends_by(before, taken, rows));
        }
        let mut prefetched_outputs = prefetched_outputs;
        self.prefetched_spent_transparent_outputs.append(&mut prefetched_outputs);
        proof {
            let rows = choose|rows: CurrentSchemaBlockArtifacts| #[trigger]
                is_expansion(rows, taken.facts) && self.extends_by(before, taken, rows);
            assert(is_expansion(rows, taken.facts) && self.extends_by(before, taken, rows));
            assert(self.prefetched_spent_transparent_outputs@
                =~= before.prefetched_spent_transparent_outputs@ + prefetched);
            let length = self.block_headers.len();
            assert(self.block_headers@.len() == length);
        }
        Ok(())
    }

    /// Attaches a commitment-tree state to the batch.
    pub fn push_tree_state_checkpoint(&mut self, tree_state: TreeStateArtifact)
        ensures
            final(self).keeps_block_rows_of(*old(self)),
            final(self).tree_states@ == old(self).tree_states@.push(tree_state),
            final(self).final_note_commitment_roots@ == old(self).final_note_commitment_roots@,
            final(self).subtree_roots@ == old(self).subtree_roots@,
            final(self).transparent_spend_facts@ == old(self).transparent_spend_facts@,
            final(self).cost() == (CanonicalBatchCost {
                artifact_bytes: clipped(
                    old(self).artifact_bytes + tree_state.payload_bytes@.len(),
                ) as usize,
                ..old(self).cost()
            }),
    {
        self.artifact_bytes = self.artifact_bytes.saturating_add(tree_state.payload_bytes.len());
        self.tree_states.push(tree_state);
    }

    /// Attaches the final note-commitment roots of one block to the batch.
    pub fn push_final_note_commitment_roots(&mut self, roots: BlockFinalNoteCommitmentRoots)
        ensures
            final(self).keeps_block_rows_of(*old(self)),
            final(self).final_note_commitment_roots@ == old(
                self,
            ).final_note_commitment_roots@.push(roots),
            final(self).tree_states@ == old(self).tree_states@,
            final(self).subtree_roots@ == old(self).subtree_roots@,
            final(self).transparent_spend_facts@ == old(self).transparent_spend_facts@,
            final(self).cost() == old(self).cost(),
    {
        self.final_note_commitment_roots.push(roots);
    }

    /// Returns whether no block is waiting to be committed.
    pub fn is_empty(&self) -> (empty: bool)
        ensures
            empty == (self.block_headers@.len() == 0),
    {
        self.block_headers.len() == 0
    }

    /// Returns the cost accumulated since the last commit.
    pub fn work_cost(&self) -> (cost: CanonicalBatchCost)
        ensures
            cost == self.cost(),
            cost.blocks == self.block_headers@.len(),
    {
        CanonicalBatchCost {
            blocks: self.block_headers.len(),
            transactions: self.transactions,
            transparent_outputs: self.transparent_outputs,
            transparent_spend_references: self.transparent_spend_references,
            artifact_bytes: self.artifact_bytes,
            estimated_write_bytes: self.estimated_write_bytes,
        }
    }

    /// Forgets the cost of a batch whose rows were handed on.
    pub fn clear_work_cost(&mut self)
        ensures
            final(self).block_replay_envelopes@ == old(self).block_replay_envelopes@,
            final(self).block_headers@ == old(self).block_headers@,
            final(self).block_blobs@ == old(self).block_blobs@,
            final(self).compact_blocks@ == old(self).compact_blocks@,
            final(self).block_transaction_index@ == old(self).block_transaction_index@,
            final(self).transaction_locations@ == old(self).transaction_locations@,
            final(self).transaction_facts@ == old(self).transaction_facts@,
            final(self).transaction_intrinsic_value_balances@ == old(
                self,
            ).transaction_intrinsic_value_balances@,
            final(self).transaction_blobs@ == old(self).transaction_blobs@,
            final(self).transparent_outputs_by_outpoint@ == old(
                self,
            ).transparent_outputs_by_outpoint@,
            final(self).keeps_attachments_of(*old(self)),
            final(self).tip_metadata == old(self).tip_metadata,
            final(self).prefetched_spent_transparent_outputs@.len() == 0,
            final(self).cost() == (CanonicalBatchCost {
                blocks: old(self).cost().blocks,
                ..CanonicalBatchCost::nothing()
            }),
    {
        self.transactions = 0;
        self.transparent_outputs = 0;
        self.transparent_spend_references = 0;
        self.artifact_bytes = 0;
        self.estimated_write_bytes = 0;
        self.prefetched_spent_transparent_outputs.clear();
    }
}

/// Costs add up part by part, where each sum fits the counter.
pub proof fn law_costs_add_up_part_by_part(left: CanonicalBatchCost, right: CanonicalBatchCost)
    ensures
        ({
            let sum = left.plus(right);
            let limit = usize::MAX;
            &&& left.blocks + right.blocks <= limit ==> sum.blocks == left.blocks + right.blocks
            &&& left.transactions + right.transactions <= limit ==> sum.transactions
                == left.transactions + right.transactions
            &&& left.transparent_outputs + right.transparent_outputs <= limit
                ==> sum.transparent_outputs == left.transparent_outputs
                + right.transparent_outputs
            &&& left.transparent_spend_references + right.transparent_spend_references <= limit
                ==> sum.transparent_spend_references == left.transparent_spend_references
                + right.transparent_spend_references
            &&& left.artifact_bytes + right.artifact_bytes <= limit ==> sum.artifact_bytes
                == left.artifact_bytes + right.artifact_bytes
            &&& left.estimated_write_bytes + right.estimated_write_bytes <= limit
                ==> sum.estimated_write_bytes == left.estimated_write_bytes
                + right.estimated_write_bytes
        }),
{
}

/// A sum that does not fit its counter stops at the counter's limit.
pub proof fn law_costs_stop_at_the_limit(left: CanonicalBatchCost, right: CanonicalBatchCost)
    ensures
        ({
            let sum = left.plus(right);
            let limit = usize::MAX;
            &&& left.blocks + right.blocks > limit ==> sum.blocks == limit
            &&& left.transactions + right.transactions > limit ==> sum.transactions == limit
            &&& left.transparent_outputs + right.transparent_outputs > limit
                ==> sum.transparent_outputs == limit
            &&& left.transparent_spend_references + right.transparent_spend_references > limit
                ==> sum.transparent_spend_references == limit
            &&& left.artifact_bytes + right.artifact_bytes > limit ==> sum.artifact_bytes == limit
            &&& left.estimated_write_bytes + right.estimated_write_bytes > limit
                ==> sum.estimated_write_bytes == limit
        }),
{
}

/// The cost of nothing is nothing in every part, and adding it changes nothing.
pub proof fn law_nothing_costs_nothing(cost: CanonicalBatchCost)
    ensures
        CanonicalBatchCost::nothing().blocks == 0,
        CanonicalBatchCost::nothing().transactions == 0,
        CanonicalBatchCost::nothing().transparent_outputs == 0,
        CanonicalBatchCost::nothing().transparent_spend_references == 0,
        CanonicalBatchCost::nothing().artifact_bytes == 0,
        CanonicalBatchCost::nothing().estimated_write_bytes == 0,
        cost.plus(CanonicalBatchCost::nothing()) == cost,
        CanonicalBatchCost::nothing().plus(cost) == cost,
{
}

/// A batch closes on the first bound that it reaches: blocks, then artifact
/// bytes, then estimated write bytes, the last one only for a single block or
/// from the least number of blocks on.
pub proof fn law_batch_closes_on_its_first_bound(
    budget: CanonicalBatchBudget,
    cost: CanonicalBatchCost,
)
    ensures
        ({
            let full = cost.blocks >= budget.max_blocks@;
            let heavy = cost.artifact_bytes >= budget.max_artifact_bytes@ || cost.artifact_bytes
                == usize::MAX;
            let costly = (cost.blocks == 1 || cost.blocks
                >= budget.min_blocks_before_estimated_write_close@) && (
            cost.estimated_write_bytes >= budget.max_estimated_write_bytes@
                || cost.estimated_write_bytes == usize::MAX);
            &&& budget.reached(cost) is None <==> !full && !heavy && !costly
            &&& budget.reached(cost) == Some(CanonicalBatchCloseTrigger::BlockCount) <==> full
            &&& budget.reached(cost) == Some(CanonicalBatchCloseTrigger::ArtifactBytes) <==> !full
                && heavy
            &&& budget.reached(cost) == Some(CanonicalBatchCloseTrigger::EstimatedWriteBytes)
                <==> !full && !heavy && costly
        }),
{
}

/// A batch closes before a block exactly where it holds one already and would
/// pass a bound with the next: blocks, then artifact bytes, then estimated
/// write bytes.
pub proof fn law_batch_closes_before_passing_a_bound(
    budget: CanonicalBatchBudget,
    current: CanonicalBatchCost,
    next: CanonicalBatchCost,
)
    requires
        current.blocks + next.blocks <= usize::MAX,
        current.artifact_bytes + next.artifact_bytes <= usize::MAX,
        current.estimated_write_bytes + next.estimated_write_bytes <= usize::MAX,
    ensures
        ({
            let blocks = current.blocks + next.blocks;
            let full = blocks > budget.max_blocks@;
            let heavy = current.artifact_bytes + next.artifact_bytes > budget.max_artifact_bytes@;
            let costly = (blocks == 1 || blocks >= budget.min_blocks_before_estimated_write_close@)
                && current.estimated_write_bytes + next.estimated_write_bytes
                > budget.max_estimated_write_bytes@;
            let trigger = budget.closes_before(current, next);
            &&& trigger is None <==> current.blocks == 0 || (!full && !heavy && !costly)
            &&& current.blocks > 0 ==> {
                &&& trigger == Some(CanonicalBatchCloseTrigger::BlockCount) <==> full
                &&& trigger == Some(CanonicalBatchCloseTrigger::ArtifactBytes) <==> !full && heavy
                &&& trigger == Some(CanonicalBatchCloseTrigger::EstimatedWriteBytes) <==> !full
                    && !heavy && costly
            }
        }),
{
}

/// The label of a close trigger is its name.
pub proof fn law_close_trigger_is_labelled_by_its_name()
    ensures
        CanonicalBatchCloseTrigger::BlockCount.label() == "block_count"@,
        CanonicalBatchCloseTrigger::ArtifactBytes.label() == "artifact_bytes"@,
        CanonicalBatchCloseTrigger::EstimatedWriteBytes.label() == "estimated_write_bytes"@,
{
}

/// A total starts at nothing and grows by the weight of each item.
pub proof fn law_total_grows_by_each_weight<T>(items: Seq<T>, next: T, weight: spec_fn(T) -> int)
    ensures
        total(Seq::empty(), weight) == 0,
        total(items.push(next), weight) == total(items, weight) + weight(next),
{
    assert(items.push(next).drop_last() =~= items);
}

/// One more input counts as one spend, unless it is the null input of a
/// coinbase.
pub proof fn law_spends_are_counted_one_by_one(
    inputs: Seq<TransparentInputFact>,
    next: TransparentInputFact,
)
    ensures
        spending_inputs(Seq::empty()) == 0,
        spending_inputs(inputs.push(next)) == spending_inputs(inputs) + if (
        next.spent_outpoint.output_index == 0xffff_ffff && forall|b: int|
            0 <= b < 32 ==> next.spent_outpoint.transaction_id.0@[b] == 0) {
            0int
        } else {
            1
        },
{
    assert(inputs.push(next).drop_last() =~= inputs);
}

/// One more transaction raises each count of a block by what it holds: its
/// spends, its outputs and the length of the raw bytes that it kept.
pub proof fn law_block_counts_grow_by_each_transaction(
    transactions: Seq<CanonicalTransactionFacts>,
    next: CanonicalTransactionFacts,
)
    ensures
        spend_reference_total(Seq::empty()) == 0,
        output_total(Seq::empty()) == 0,
        transaction_blob_total(Seq::empty()) == 0,
        spend_reference_total(transactions.push(next)) == spend_reference_total(transactions)
            + spending_inputs(next.transparent_inputs@),
        output_total(transactions.push(next)) == output_total(transactions)
            + next.transparent_outputs@.len(),
        next.raw_transaction_bytes matches Some(bytes) ==> transaction_blob_total(
            transactions.push(next),
        ) == transaction_blob_total(transactions) + bytes@.len(),
        next.raw_transaction_bytes is None ==> transaction_blob_total(transactions.push(next))
            == transaction_blob_total(transactions),
{
    assert(transactions.push(next).drop_last() =~= transactions);
}

/// One more prefetched output weighs 128 bytes and its script.
pub proof fn law_prefetched_outputs_weigh_their_script(
    outputs: Seq<TransparentOutputArtifact>,
    next: TransparentOutputArtifact,
)
    ensures
        prefetched_total(Seq::empty()) == 0,
        prefetched_total(outputs.push(next)) == prefetched_total(outputs) + 128
            + next.script_pub_key@.len(),
{
    assert(outputs.push(next).drop_last() =~= outputs);
}

/// The artifact bytes of a block are those of its envelope, its compact block
/// and every raw blob that it keeps.
pub proof fn law_artifact_bytes_are_those_of_every_payload(block: EncodedCanonicalBlock)
    ensures
        ({
            let payloads = block.replay_envelope.payload_bytes@.len()
                + block.compact_block.payload_bytes@.len();
            let blobs = transaction_blob_total(block.facts.transactions@);
            match block.facts.raw_block_bytes {
                Some(bytes) => artifact_byte_total(block) == payloads + bytes@.len() + blobs,
                None => artifact_byte_total(block) == payloads + blobs,
            }
        }),
{
}

/// The estimated write bytes are the artifact bytes and fixed amounts: 512 for
/// the block, 704 for each transaction, 640 for each output and 512 for each
/// spend.
pub proof fn law_write_estimate_counts_every_row(block: EncodedCanonicalBlock, spends: int)
    requires
        spends >= 0,
    ensures
        write_byte_total(block, spends) == artifact_byte_total(block) + 512 + 704
            * block.facts.transactions@.len() + 640 * output_total(block.facts.transactions@) + 512
            * spends,
{
    let transactions = block.facts.transactions@.len();
    let outputs = output_total(block.facts.transactions@);
    assert(transactions * 96 + transactions * 96 + transactions * 512 == 704 * transactions);
    assert(outputs * 384 + outputs * 256 == 640 * outputs);
}

/// The cost of a block counts one block, its transactions, outputs and spends,
/// the bytes of its artifacts with those of its prefetched outputs, and its
/// write estimate.
pub proof fn law_block_cost_counts_its_parts(
    block: EncodedCanonicalBlock,
    prefetched: Seq<TransparentOutputArtifact>,
)
    requires
        0 <= output_total(block.facts.transactions@) <= usize::MAX,
        0 <= spend_reference_total(block.facts.transactions@) <= usize::MAX,
        0 <= artifact_byte_total(block) + prefetched_total(prefetched) <= usize::MAX,
        0 <= write_byte_total(block, spend_reference_total(block.facts.transactions@))
            <= usize::MAX,
        block.facts.transactions@.len() <= usize::MAX,
    ensures
        ({
            let cost = block_cost(block, prefetched);
            let spends = spend_reference_total(block.facts.transactions@);
            &&& cost.blocks == 1
            &&& cost.transactions == block.facts.transactions@.len()
            &&& cost.transparent_outputs == output_total(block.facts.transactions@)
            &&& cost.transparent_spend_references == spends
            &&& cost.artifact_bytes == artifact_byte_total(block) + prefetched_total(prefetched)
            &&& cost.estimated_write_bytes == write_byte_total(block, spends)
        }),
{
}

/// A batch that takes a block in gains its header, envelope, compact block and
/// tip, one row of each kind per transaction, and the prefetched outputs; what
/// it held stays in front, and its attachments stay as they were.
pub proof fn law_batch_gains_the_rows_of_its_block(
    after: CanonicalBatch,
    before: CanonicalBatch,
    block: EncodedCanonicalBlock,
    prefetched: Seq<TransparentOutputArtifact>,
)
    requires
        block.facts.transactions@.len() <= 0x1_0000_0000,
        after.takes_in(before, block, prefetched),
    ensures
        after.block_headers@ == before.block_headers@.push(block.facts.block_header),
        after.block_replay_envelopes@ == before.block_replay_envelopes@.push(
            block.replay_envelope,
        ),
        after.compact_blocks@ == before.compact_blocks@.push(block.compact_block),
        after.tip_metadata == Some(block.tip_metadata),
        after.prefetched_spent_transparent_outputs@
            == before.prefetched_spent_transparent_outputs@ + prefetched,
        after.tree_states@ == before.tree_states@,
        after.final_note_commitment_roots@ == before.final_note_commitment_roots@,
        after.subtree_roots@ == before.subtree_roots@,
        after.transparent_spend_facts@ == before.transparent_spend_facts@,
        block.facts.raw_block_bytes is None ==> after.block_blobs@ == before.block_blobs@,
        block.facts.raw_block_bytes is Some ==> {
            &&& after.block_blobs@.len() == before.block_blobs@.len() + 1
            &&& after.block_blobs@.drop_last() == before.block_blobs@
            &&& Some(after.block_blobs@.last().raw_block_bytes) == block.facts.raw_block_bytes
        },
        after.transaction_locations@.len() == before.transaction_locations@.len()
            + block.facts.transactions@.len(),
        after.transaction_facts@.len() == before.transaction_facts@.len()
            + block.facts.transactions@.len(),
        after.block_transaction_index@.len() == before.block_transaction_index@.len()
            + block.facts.transactions@.len(),
        after.transaction_intrinsic_value_balances@.len()
            == before.transaction_intrinsic_value_balances@.len()
            + block.facts.transactions@.len(),
        after.transaction_facts@.take(before.transaction_facts@.len() as int)
            == before.transaction_facts@,
        after.transaction_locations@.take(before.transaction_locations@.len() as int)
            == before.transaction_locations@,
        forall|t: int|
            0 <= t < block.facts.transactions@.len() ==> {
                let row = #[trigger] after.transaction_facts@[before.transaction_facts@.len() + t];
                let transaction = block.facts.transactions@[t];
                &&& row.location.transaction_id == transaction.public_facts.transaction_id
                &&& row.location.block_height == block.facts.block_header.height
                &&& row.location.block_hash == block.facts.block_header.block_hash
                &&& row.location.tx_index_in_block == t
                &&& row.transparent_inputs == transaction.transparent_inputs
                &&& row.transparent_outputs == transaction.transparent_outputs
            },
        after.transaction_blobs@ == before.transaction_blobs@
            + crate::artifact_builder::transaction_blob_rows(
            block.facts.block_header,
            block.facts.transactions@,
        ),
{
    let rows = choose|rows: CurrentSchemaBlockArtifacts|
        #[trigger] is_expansion(rows, block.facts) && after.extends_by(before, block, rows);
    crate::artifact_builder::law_expanded_rows_carry_their_block(rows, block.facts);
    assert forall|t: int| 0 <= t < block.facts.transactions@.len() implies {
        let row = #[trigger] after.transaction_facts@[before.transaction_facts@.len() + t];
        let transaction = block.facts.transactions@[t];
        &&& row.location.transaction_id == transaction.public_facts.transaction_id
        &&& row.location.block_height == block.facts.block_header.height
        &&& row.location.block_hash == block.facts.block_header.block_hash
        &&& row.location.tx_index_in_block == t
        &&& row.transparent_inputs == transaction.transparent_inputs
        &&& row.transparent_outputs == transaction.transparent_outputs
    } by {
        crate::artifact_builder::law_expanded_rows_carry_their_transaction(
            rows,
            block.facts,
            t,
        );
        assert(after.transaction_facts@[before.transaction_facts@.len() + t]
            == rows.transaction_facts@[t]);
    }
    if block.facts.transactions@.len() > 0 {
        crate::artifact_builder::law_expanded_rows_carry_their_transaction(rows, block.facts, 0);
    }
    assert(after.transaction_facts@.take(before.transaction_facts@.len() as int)
        =~= before.transaction_facts@);
    assert(after.transaction_locations@.take(before.transaction_locations@.len() as int)
        =~= before.transaction_locations@);
    if block.facts.raw_block_bytes is Some {
        assert(after.block_blobs@.drop_last() =~= before.block_blobs@);
    }
}

/// A batch tells its cost as it counted it, with one block per header.
pub proof fn law_batch_tells_its_own_cost(batch: CanonicalBatch)
    requires
        batch.block_headers@.len() <= usize::MAX,
    ensures
        batch.cost().blocks == batch.block_headers@.len(),
        batch.cost().transactions == batch.transactions,
        batch.cost().transparent_outputs == batch.transparent_outputs,
        batch.cost().transparent_spend_references == batch.transparent_spend_references,
        batch.cost().artifact_bytes == batch.artifact_bytes,
        batch.cost().estimated_write_bytes == batch.estimated_write_bytes,
{
}

/// A batch without rows has none of any kind.
pub proof fn law_fresh_batch_holds_nothing(batch: CanonicalBatch)
    requires
        batch.holds_no_rows(),
    ensures
        batch.block_replay_envelopes@.len() + batch.block_headers@.len() + batch.block_blobs@.len()
            + batch.compact_blocks@.len() + batch.block_transaction_index@.len()
            + batch.transaction_locations@.len() + batch.transaction_facts@.len()
            + batch.transaction_intrinsic_value_balances@.len() + batch.transaction_blobs@.len()
            + batch.tree_states@.len() + batch.final_note_commitment_roots@.len()
            + batch.subtree_roots@.len() + batch.transparent_outputs_by_outpoint@.len()
            + batch.transparent_spend_facts@.len()
            + batch.prefetched_spent_transparent_outputs@.len() == 0,
{
}

/// A batch that keeps its block rows keeps every one of them, and its tip.
pub proof fn law_kept_rows_are_all_kept(after: CanonicalBatch, before: CanonicalBatch)
    ensures
        after.keeps_block_rows_of(before) <==> {
            &&& after.block_replay_envelopes@ == before.block_replay_envelopes@
            &&& after.block_headers@ == before.block_headers@
            &&& after.block_blobs@ == before.block_blobs@
            &&& after.compact_blocks@ == before.compact_blocks@
            &&& after.block_transaction_index@ == before.block_transaction_index@
            &&& after.transaction_locations@ == before.transaction_locations@
            &&& after.transaction_facts@ == before.transaction_facts@
            &&& after.transaction_intrinsic_value_balances@
                == before.transaction_intrinsic_value_balances@
            &&& after.transaction_blobs@ == before.transaction_blobs@
            &&& after.transparent_outputs_by_outpoint@ == before.transparent_outputs_by_outpoint@
            &&& after.prefetched_spent_transparent_outputs@
                == before.prefetched_spent_transparent_outputs@
            &&& after.tip_metadata == before.tip_metadata
        },
        after.keeps_attachments_of(before) <==> {
            &&& after.tree_states@ == before.tree_states@
            &&& after.final_note_commitment_roots@ == before.final_note_commitment_roots@
            &&& after.subtree_roots@ == before.subtree_roots@
            &&& after.transparent_spend_facts@ == before.transparent_spend_facts@
        },
{
}

/// Unless configured otherwise, a batch may write 512 MiB by estimate, and
/// closes on that from a hundred blocks on.
pub proof fn law_default_write_bounds_hold()
    ensures
        DEFAULT_CANONICAL_BATCH_MAX_ESTIMATED_WRITE_BYTES == 512 * 1024 * 1024,
        DEFAULT_CANONICAL_BATCH_MIN_BLOCKS_BEFORE_ESTIMATED_WRITE_CLOSE == 100,
{
}

} // verus!
