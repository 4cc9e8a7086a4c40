//! Materialized-view block contexts hydrated from admitted canonical facts.
//!
//! Canonical storage retains block-local facts only. Two inputs of the
//! materialized-view consumers are therefore derived here: final
//! note-commitment roots, from tree-state checkpoints and compact-block
//! commitments, and transparent spend facts, from the producing block.

use crate::artifact_builder::{
    CanonicalBlockConstructionError, ConstructionFault, POSITION_LIMIT,
};
use crate::artifacts::{
    BlockCommitInput, BlockFinalNoteCommitmentRoots, BlockHeaderArtifact, CanonicalBlockFacts,
    CanonicalTransactionFacts, TransactionFactsArtifact, TransactionIntrinsicValueBalances,
    TransactionLocation, TransparentOutputFact, TransparentSpendFact,
};
use crate::bounds::floored_difference;
use crate::chain_ingest::{
    input_references, lemma_input_is_referenced, lemma_input_reference_names_its_input,
    TransparentSpendReference,
};
use crate::errors::IngestError;
use crate::ids::{
    BlockHash, BlockHeight, BlockHeightRange, TransactionId, TransparentAddressScriptHash,
    TransparentOutPoint,
};
use crate::outpoint_map::{keys_of, OutPointMap};
use std::collections::BTreeMap;
use vstd::prelude::*;

verus! {

/// First height a canonical store retains when its history is complete.
pub const GENESIS_COMPLETE_FIRST_HEIGHT: u32 = 1;

/// Refuses materialized-view work on a store without complete history.
pub fn require_genesis_complete_history(first_available_height: BlockHeight) -> (complete: Result<
    (),
    IngestError,
>)
    ensures
        match complete {
            Ok(_) => first_available_height.0 == GENESIS_COMPLETE_FIRST_HEIGHT,
            Err(error) => {
                &&& first_available_height.0 != GENESIS_COMPLETE_FIRST_HEIGHT
                &&& error == (IngestError::MaterializedViewHistoryIncomplete {
                    first_available_height,
                })
            },
        },
{
    if first_available_height.0 != GENESIS_COMPLETE_FIRST_HEIGHT {
        return Err(IngestError::MaterializedViewHistoryIncomplete { first_available_height });
    }
    Ok(())
}

/// Where the commitment-tree state for a range comes from.
#[derive(Clone, Copy, Debug, PartialEq, Eq, Structural)]
pub enum TreeStatePosition {
    /// The state left by the previous range stands right below this one.
    Carried,
    /// The state has to be seeded from a checkpoint at or before `anchor`.
    Seed { anchor: BlockHeight },
}

/// Height right below a range.
pub open spec fn anchor_of(start: BlockHeight) -> BlockHeight {
    BlockHeight(floored_difference(start.0 as int, 1) as u32)
}

/// Decides where the commitment-tree state for a range that begins at `start` comes from.
pub fn position_at(carried_tip: Option<BlockHeight>, start: BlockHeight) -> (position:
    TreeStatePosition)
    ensures
        position == if carried_tip == Some(anchor_of(start)) {
            TreeStatePosition::Carried
        } else {
            TreeStatePosition::Seed { anchor: anchor_of(start) }
        },
{
    let anchor = BlockHeight(start.0.saturating_sub(1));
    match carried_tip {
        Some(tip) => if tip == anchor {
            TreeStatePosition::Carried
        } else {
            TreeStatePosition::Seed { anchor }
        },
        None => TreeStatePosition::Seed { anchor },
    }
}

/// Returns the blocks whose commitments lead from a checkpoint up to `anchor`.
///
/// The range is empty where the checkpoint stands at `anchor`; there is none
/// above a checkpoint at the last height.
pub fn seed_gap(checkpoint_height: Option<BlockHeight>, anchor: BlockHeight) -> (gap: Result<
    Option<BlockHeightRange>,
    IngestError,
>)
    ensures
        match checkpoint_height {
            None => gap == Err::<Option<BlockHeightRange>, IngestError>(
                IngestError::CommitmentTreeCheckpointMissing { height: anchor },
            ),
            Some(checkpoint) => gap == Ok::<Option<BlockHeightRange>, IngestError>(
                match checkpoint.spec_next() {
                    Some(start) => Some(BlockHeightRange { start, end: anchor }),
                    None => None,
                },
            ),
        },
{
    let checkpoint = match checkpoint_height {
        Some(checkpoint) => checkpoint,
        None => {
            return Err(IngestError::CommitmentTreeCheckpointMissing { height: anchor });
        },
    };
    match checkpoint.next() {
        Some(start) => Ok(Some(BlockHeightRange::inclusive(start, anchor))),
        None => Ok(None),
    }
}

/// Note commitments of one compact transaction.
#[derive(Debug)]
pub struct TransactionCommitments {
    pub sapling: Vec<[u8; 32]>,
    pub orchard: Vec<[u8; 32]>,
    pub ironwood: Vec<[u8; 32]>,
}

/// Note commitments of one block, in the order in which the trees take them.
#[derive(Debug)]
pub struct BlockCommitments {
    pub sapling: Vec<[u8; 32]>,
    pub orchard: Vec<[u8; 32]>,
    pub ironwood: Vec<[u8; 32]>,
}

/// Sapling commitments of a run of transactions.
pub open spec fn sapling_commitments(transactions: Seq<TransactionCommitments>) -> Seq<[u8; 32]>
    decreases transactions.len(),
{
    if transactions.len() == 0 {
        Seq::empty()
    } else {
        sapling_commitments(transactions.drop_last()) + transactions.last().sapling@
    }
}

/// Orchard commitments of a run of transactions.
pub open spec fn orchard_commitments(transactions: Seq<TransactionCommitments>) -> Seq<[u8; 32]>
    decreases transactions.len(),
{
    if transactions.len() == 0 {
        Seq::empty()
    } else {
        orchard_commitments(transactions.drop_last()) + transactions.last().orchard@
    }
}

/// Ironwood commitments of a run of transactions.
pub open spec fn ironwood_commitments(transactions: Seq<TransactionCommitments>) -> Seq<[u8; 32]>
    decreases transactions.len(),
{
    if transactions.len() == 0 {
        Seq::empty()
    } else {
        ironwood_commitments(transactions.drop_last()) + transactions.last().ironwood@
    }
}

fn append_commitments(target: &mut Vec<[u8; 32]>, commitments: &Vec<[u8; 32]>)
    ensures
        final(target)@ == old(target)@ + commitments@,
{
    let ghost before = target@;
    let mut i: usize = 0;
    assert(target@ =~= before + commitments@.take(0));
    while i < commitments.len()
        invariant
            0 <= i <= commitments@.len(),
            target@ == before + commitments@.take(i as int),
        decreases commitments@.len() - i,
    {
        target.push(commitments[i]);
        assert(target@ =~= before + commitments@.take(i + 1));
        i += 1;
    }
    assert(commitments@.take(i as int) =~= commitments@);
}

impl BlockCommitments {
    /// Collects the commitments of one compact block's transactions, pool by pool.
    pub fn from_compact_block(transactions: &Vec<TransactionCommitments>) -> (commitments: Self)
        ensures
            commitments.sapling@ == sapling_commitments(transactions@),
            commitments.orchard@ == orchard_commitments(transactions@),
            commitments.ironwood@ == ironwood_commitments(transactions@),
    {
        let mut commitments = BlockCommitments {
            sapling: Vec::new(),
            orchard: Vec::new(),
            ironwood: Vec::new(),
        };
        let mut i: usize = 0;
        while i < transactions.len()
            invariant
                0 <= i <= transactions@.len(),
                commitments.sapling@ == sapling_commitments(transactions@.take(i as int)),
                commitments.orchard@ == orchard_commitments(transactions@.take(i as int)),
                commitments.ironwood@ == ironwood_commitments(transactions@.take(i as int)),
            decreases transactions@.len() - i,
        {
            let transaction = &transactions[i];
            assert(transactions@.take(i + 1).drop_last() =~= transactions@.take(i as int));
            append_commitments(&mut commitments.sapling, &transaction.sapling);
            append_commitments(&mut commitments.orchard, &transaction.orchard);
            append_commitments(&mut commitments.ironwood, &transaction.ironwood);
            i += 1;
        }
        assert(transactions@.take(i as int) =~= transactions@);
        commitments
    }
}

/// Whether a block has a root in any pool.
pub open spec fn any_pool_root(roots: BlockFinalNoteCommitmentRoots) -> bool {
    roots.sapling is Some || roots.orchard is Some || roots.ironwood is Some
}

/// Returns whether a block has a root in any pool.
pub fn has_any_pool_root(roots: &BlockFinalNoteCommitmentRoots) -> (any: bool)
    ensures
        any == any_pool_root(*roots),
{
    roots.sapling.is_some() || roots.orchard.is_some() || roots.ironwood.is_some()
}

/// Final note-commitment roots of a range, by height.
pub struct FinalRoots {
    pub by_height: BTreeMap<u32, BlockFinalNoteCommitmentRoots>,
}

impl FinalRoots {
    /// Roots of an empty range.
    pub fn new() -> (roots: Self)
        ensures
            roots.by_height@ == Map::<u32, BlockFinalNoteCommitmentRoots>::empty(),
    {
        FinalRoots { by_height: BTreeMap::new() }
    }

    /// Records the roots of one block, unless no pool has one.
    pub fn record(&mut self, height: BlockHeight, roots: BlockFinalNoteCommitmentRoots)
        ensures
            final(self).by_height@ == if any_pool_root(roots) {
                old(self).by_height@.insert(height.0, roots)
            } else {
                old(self).by_height@
            },
    {
        if has_any_pool_root(&roots) {
            self.by_height.insert(height.0, roots);
        }
    }

    /// Hands out the roots of one block; they are handed out once.
    pub fn take(&mut self, height: BlockHeight) -> (roots: Option<BlockFinalNoteCommitmentRoots>)
        ensures
            roots == if old(self).by_height@.contains_key(height.0) {
                Some(old(self).by_height@[height.0])
            } else {
                None
            },
            final(self).by_height@ == old(self).by_height@.remove(height.0),
    {
        self.by_height.remove(&height.0)
    }
}

/// Location of one transaction of a block.
pub open spec fn location_in(
    header: BlockHeaderArtifact,
    transaction_id: TransactionId,
    position: int,
) -> TransactionLocation {
    TransactionLocation {
        transaction_id,
        block_height: header.height,
        block_hash: header.block_hash,
        tx_index_in_block: position as u32,
    }
}

/// Spends of a block's transactions, in block order.
pub open spec fn block_spends(
    header: BlockHeaderArtifact,
    transactions: Seq<CanonicalTransactionFacts>,
) -> Seq<TransparentSpendReference>
    decreases transactions.len(),
{
    if transactions.len() == 0 {
        Seq::empty()
    } else {
        let last = transactions.last();
        block_spends(header, transactions.drop_last()) + input_references(
            location_in(header, last.public_facts.transaction_id, transactions.len() - 1),
            last.transparent_inputs@,
        )
    }
}

/// Spends of a run of blocks, in chain order.
pub open spec fn range_spends(blocks: Seq<CanonicalBlockFacts>) -> Seq<TransparentSpendReference>
    decreases blocks.len(),
{
    if blocks.len() == 0 {
        Seq::empty()
    } else {
        range_spends(blocks.drop_last()) + block_spends(
            blocks.last().block_header,
            blocks.last().transactions@,
        )
    }
}

/// Whether a block holds more transactions than positions can name.
pub open spec fn overflows_positions(block: CanonicalBlockFacts) -> bool {
    block.transactions@.len() > POSITION_LIMIT
}

/// Whether any block of a run holds more transactions than positions can name.
pub open spec fn any_overflow(blocks: Seq<CanonicalBlockFacts>) -> bool {
    exists|i: int| 0 <= i < blocks.len() && overflows_positions(#[trigger] blocks[i])
}

/// Whether a failure says that a transaction's position does not fit.
pub open spec fn is_position_overflow(error: IngestError) -> bool {
    error matches IngestError::CanonicalBlockConstruction(fault) && fault@
        == ConstructionFault::TransactionIndexOverflow
}

fn append_spend_requests(
    block_header: &BlockHeaderArtifact,
    transaction: &CanonicalTransactionFacts,
    tx_index_in_block: u32,
    requests: &mut Vec<TransparentSpendReference>,
)
    ensures
        final(requests)@ == old(requests)@ + input_references(
            location_in(
                *block_header,
                transaction.public_facts.transaction_id,
                tx_index_in_block as int,
            ),
            transaction.transparent_inputs@,
        ),
{
    let ghost location = location_in(
        *block_header,
        transaction.public_facts.transaction_id,
        tx_index_in_block as int,
    );
    let ghost before = requests@;
    let ghost inputs = transaction.transparent_inputs@;
    let mut i: usize = 0;
    assert(requests@ =~= before + input_references(location, inputs.take(0)));
    while i < transaction.transparent_inputs.len()
        invariant
            0 <= i <= inputs.len(),
            inputs == transaction.transparent_inputs@,
            requests@ == before + input_references(location, inputs.take(i as int)),
            location == location_in(
                *block_header,
                transaction.public_facts.transaction_id,
                tx_index_in_block as int,
            ),
        decreases inputs.len() - i,
    {
        let input = &transaction.transparent_inputs[i];
        assert(inputs.take(i + 1).drop_last() =~= inputs.take(i as int));
        if !input.spent_outpoint.is_coinbase_sentinel() {
            requests.push(
                TransparentSpendReference {
                    spent_outpoint: input.spent_outpoint,
                    input_index: input.input_index,
                    spending_transaction_id: transaction.public_facts.transaction_id,
                    tx_index_in_block,
                    block_height: block_header.height,
                    block_hash: block_header.block_hash,
                },
            );
        }
        assert(requests@ =~= before + input_references(location, inputs.take(i + 1)));
        i += 1;
    }
    assert(inputs.take(i as int) =~= inputs);
}

/// Lists every transparent input of a run of blocks that spends an earlier output.
pub fn transparent_spend_requests(blocks: &Vec<CanonicalBlockFacts>) -> (requests: Result<
    Vec<TransparentSpendReference>,
    IngestError,
>)
    ensures
        match requests {
            Ok(requests) => !any_overflow(blocks@) && requests@ == range_spends(blocks@),
            Err(error) => any_overflow(blocks@) && is_position_overflow(error),
        },
{
    let mut requests: Vec<TransparentSpendReference> = Vec::new();
    let mut i: usize = 0;
    while i < blocks.len()
        invariant
            0 <= i <= blocks@.len(),
            requests@ == range_spends(blocks@.take(i as int)),
            forall|k: int| 0 <= k < i ==> !overflows_positions(#[trigger] blocks@[k]),
        decreases blocks@.len() - i,
    {
        let block = &blocks[i];
        let ghost transactions = block.transactions@;
        let ghost before = requests@;
        assert(blocks@.take(i + 1).drop_last() =~= blocks@.take(i as int));
        let mut j: usize = 0;
        assert(requests@ =~= before + block_spends(block.block_header, transactions.take(0)));
        while j < block.transactions.len()
            invariant
                0 <= j <= transactions.len(),
                0 <= i < blocks@.len(),
                *block == blocks@[i as int],
                transactions == block.transactions@,
                j <= POSITION_LIMIT,
                requests@ == before + block_spends(
                    block.block_header,
                    transactions.take(j as int),
                ),
            decreases transactions.len() - j,
        {
            let tx_index_in_block = match u32::try_from(j) {
                Ok(tx_index_in_block) => tx_index_in_block,
                Err(_) => {
                    assert(overflows_positions(blocks@[i as int]));
                    return Err(
                        IngestError::CanonicalBlockConstruction(
                            CanonicalBlockConstructionError::TransactionIndexOverflow,
                        ),
                    );
                },
            };
            assert(transactions.take(j + 1).drop_last() =~= transactions.take(j as int));
            append_spend_requests(
                &block.block_header,
                &block.transactions[j],
                tx_index_in_block,
                &mut requests,
            );
            assert(requests@ =~= before + block_spends(
                block.block_header,
                transactions.take(j + 1),
            ));
            j += 1;
        }
        assert(transactions.take(j as int) =~= transactions);
        i += 1;
    }
    assert(blocks@.take(i as int) =~= blocks@);
    Ok(requests)
}

/// One previous output located at the block that mined it.
#[derive(Clone, Copy, Debug, PartialEq, Eq)]
pub struct ProducedOutput {
    pub value_zat: u64,
    pub address_script_hash: TransparentAddressScriptHash,
    pub block_height: BlockHeight,
    pub block_hash: BlockHash,
}

/// What one output of a block's transaction produces.
pub open spec fn produced_by(
    header: BlockHeaderArtifact,
    output: TransparentOutputFact,
) -> ProducedOutput {
    ProducedOutput {
        value_zat: output.value_zat,
        address_script_hash: output.address_script_hash,
        block_height: header.height,
        block_hash: header.block_hash,
    }
}

/// Outputs that the first outputs of a transaction leave, a later one
/// standing for an earlier one of the same outpoint.
pub open spec fn with_outputs(
    known: Map<TransparentOutPoint, ProducedOutput>,
    header: BlockHeaderArtifact,
    transaction_id: TransactionId,
    outputs: Seq<TransparentOutputFact>,
) -> Map<TransparentOutPoint, ProducedOutput>
    decreases outputs.len(),
{
    if outputs.len() == 0 {
        known
    } else {
        with_outputs(known, header, transaction_id, outputs.drop_last()).insert(
            TransparentOutPoint { transaction_id, output_index: outputs.last().output_index },
            produced_by(header, outputs.last()),
        )
    }
}

/// Outputs that a block's first transactions leave.
pub open spec fn with_transactions(
    known: Map<TransparentOutPoint, ProducedOutput>,
    header: BlockHeaderArtifact,
    transactions: Seq<CanonicalTransactionFacts>,
) -> Map<TransparentOutPoint, ProducedOutput>
    decreases transactions.len(),
{
    if transactions.len() == 0 {
        known
    } else {
        with_outputs(
            with_transactions(known, header, transactions.drop_last()),
            header,
            transactions.last().public_facts.transaction_id,
            transactions.last().transparent_outputs@,
        )
    }
}

/// Every output that a run of blocks produces.
pub open spec fn produced_in(blocks: Seq<CanonicalBlockFacts>) -> Map<
    TransparentOutPoint,
    ProducedOutput,
>
    decreases blocks.len(),
{
    if blocks.len() == 0 {
        Map::empty()
    } else {
        with_transactions(
            produced_in(blocks.drop_last()),
            blocks.last().block_header,
            blocks.last().transactions@,
        )
    }
}

/// Whether some spend of a run needs an output.
pub open spec fn asks_for(
    requests: Seq<TransparentSpendReference>,
    outpoint: TransparentOutPoint,
) -> bool {
    exists|i: int|
        0 <= i < requests.len() && (#[trigger] requests[i]).spent_outpoint == outpoint
}

/// Collects the outpoints that a run of spends needs.
pub fn requested_outpoints(requests: &Vec<TransparentSpendReference>) -> (requested: OutPointMap<
    (),
>)
    ensures
        requested.well_formed(),
        forall|outpoint: TransparentOutPoint| #[trigger]
            requested@.contains_key(outpoint) <==> asks_for(requests@, outpoint),
{
    let mut requested: OutPointMap<()> = OutPointMap::new();
    let mut i: usize = 0;
    while i < requests.len()
        invariant
            0 <= i <= requests@.len(),
            requested.well_formed(),
            forall|outpoint: TransparentOutPoint| #[trigger]
                requested@.contains_key(outpoint) <==> asks_for(requests@.take(i as int), outpoint),
        decreases requests@.len() - i,
    {
        let ghost before = requested@;
        let ghost upto = requests@.take(i as int);
        let ghost beyond = requests@.take(i + 1);
        let outpoint = requests[i].spent_outpoint;
        requested.insert(outpoint, ());
        assert forall|other: TransparentOutPoint| #[trigger]
            requested@.contains_key(other) <==> asks_for(beyond, other) by {
            if asks_for(upto, other) {
                let k = choose|k: int|
                    0 <= k < upto.len() && (#[trigger] upto[k]).spent_outpoint == other;
                assert(beyond[k].spent_outpoint == other);
            }
            if asks_for(beyond, other) {
                let k = choose|k: int|
                    0 <= k < beyond.len() && (#[trigger] beyond[k]).spent_outpoint == other;
                if k < i {
                    assert(upto[k].spent_outpoint == other);
                }
            }
            assert(beyond[i as int].spent_outpoint == outpoint);
            assert(before.contains_key(other) <==> asks_for(upto, other));
        }
        i += 1;
    }
    assert(requests@.take(i as int) =~= requests@);
    requested
}

/// Entries of a map under the keys that are requested.
pub open spec fn only_requested(
    produced: Map<TransparentOutPoint, ProducedOutput>,
    requested: Map<TransparentOutPoint, ()>,
) -> Map<TransparentOutPoint, ProducedOutput> {
    produced.restrict(requested.dom())
}

/// Collects the requested outputs that a run of blocks itself produces.
pub fn produced_outputs_in_range(
    blocks: &Vec<CanonicalBlockFacts>,
    requested: &OutPointMap<()>,
) -> (produced: OutPointMap<ProducedOutput>)
    requires
        requested.well_formed(),
    ensures
        produced.well_formed(),
        produced@ == only_requested(produced_in(blocks@), requested@),
{
    let mut produced: OutPointMap<ProducedOutput> = OutPointMap::new();
    let mut i: usize = 0;
    assert(produced@ =~= only_requested(produced_in(blocks@.take(0)), requested@));
    while i < blocks.len()
        invariant
            0 <= i <= blocks@.len(),
            requested.well_formed(),
            produced.well_formed(),
            produced@ == only_requested(produced_in(blocks@.take(i as int)), requested@),
        decreases blocks@.len() - i,
    {
        let block = &blocks[i];
        let ghost header = block.block_header;
        let ghost transactions = block.transactions@;
        let ghost known = produced_in(blocks@.take(i as int));
        assert(blocks@.take(i + 1).drop_last() =~= blocks@.take(i as int));
        let mut j: usize = 0;
        assert(with_transactions(known, header, transactions.take(0)) =~= known);
        while j < block.transactions.len()
            invariant
                0 <= j <= transactions.len(),
                transactions == block.transactions@,
                header == block.block_header,
                requested.well_formed(),
                produced.well_formed(),
                produced@ == only_requested(
                    with_transactions(known, header, transactions.take(j as int)),
                    requested@,
                ),
            decreases transactions.len() - j,
        {
            let transaction = &block.transactions[j];
            let transaction_id = transaction.public_facts.transaction_id;
            let ghost outputs = transaction.transparent_outputs@;
            let ghost base = with_transactions(known, header, transactions.take(j as int));
            assert(transactions.take(j + 1).drop_last() =~= transactions.take(j as int));
            let mut k: usize = 0;
            assert(with_outputs(base, header, transaction_id, outputs.take(0)) =~= base);
            while k < transaction.transparent_outputs.len()
                invariant
                    0 <= k <= outputs.len(),
                    outputs == transaction.transparent_outputs@,
                    header == block.block_header,
                    requested.well_formed(),
                    produced.well_formed(),
                    produced@ == only_requested(
                        with_outputs(base, header, transaction_id, outputs.take(k as int)),
                        requested@,
                    ),
                decreases outputs.len() - k,
            {
                let output = &transaction.transparent_outputs[k];
                let outpoint = TransparentOutPoint::new(transaction_id, output.output_index);
                let ghost all = with_outputs(
                    base,
                    header,
                    transaction_id,
                    outputs.take(k as int),
                );
                assert(outputs.take(k + 1).drop_last() =~= outputs.take(k as int));
                if requested.contains_key(&outpoint) {
                    produced.insert(
                        outpoint,
                        ProducedOutput {
                            value_zat: output.value_zat,
                            address_script_hash: output.address_script_hash,
                            block_height: block.block_header.height,
                            block_hash: block.block_header.block_hash,
                        },
                    );
                }
                assert(produced@ =~= only_requested(
                    all.insert(outpoint, produced_by(header, outputs[k as int])),
                    requested@,
                ));
                k += 1;
            }
            assert(outputs.take(k as int) =~= outputs);
            j += 1;
        }
        assert(transactions.take(j as int) =~= transactions);
        i += 1;
    }
    assert(blocks@.take(i as int) =~= blocks@);
    produced
}

/// Keys of a sequence that a map does not hold, in order.
pub open spec fn keys_missing_from(
    keys: Seq<TransparentOutPoint>,
    produced: Map<TransparentOutPoint, ProducedOutput>,
) -> Seq<TransparentOutPoint>
    decreases keys.len(),
{
    if keys.len() == 0 {
        Seq::empty()
    } else {
        let before = keys_missing_from(keys.drop_last(), produced);
        if produced.contains_key(keys.last()) {
            before
        } else {
            before.push(keys.last())
        }
    }
}

/// Lists the requested outpoints that the range itself did not produce, in outpoint order.
pub fn outpoints_below_range(
    requested: &OutPointMap<()>,
    produced: &OutPointMap<ProducedOutput>,
) -> (below: Vec<TransparentOutPoint>)
    requires
        requested.well_formed(),
        produced.well_formed(),
    ensures
        below@ == keys_missing_from(keys_of(requested.entries_in_order()), produced@),
{
    let ghost keys = keys_of(requested.entries_in_order());
    let mut below: Vec<TransparentOutPoint> = Vec::new();
    let mut i: usize = 0;
    let count: usize = requested.len();
    while i < count
        invariant
            0 <= i <= count,
            count == keys.len(),
            keys == keys_of(requested.entries_in_order()),
            produced.well_formed(),
            below@ == keys_missing_from(keys.take(i as int), produced@),
        decreases count - i,
    {
        let outpoint = requested.entry_at(i).0;
        assert(keys[i as int] == outpoint);
        assert(keys.take(i + 1).drop_last() =~= keys.take(i as int));
        if !produced.contains_key(&outpoint) {
            below.push(outpoint);
        }
        i += 1;
    }
    assert(keys.take(i as int) =~= keys);
    below
}

/// Whether a failure says that an outpoint could not be resolved, and why.
pub open spec fn is_unresolved(
    error: IngestError,
    outpoint: TransparentOutPoint,
    cause: Seq<char>,
) -> bool {
    error matches IngestError::TransparentPrevoutUnresolved {
        transaction_id,
        output_index,
        cause: told,
    } && transaction_id == outpoint.transaction_id && output_index == outpoint.output_index
        && told@ == cause
}

fn prevout_unresolved(outpoint: TransparentOutPoint, cause: &'static str) -> (error: IngestError)
    ensures
        is_unresolved(error, outpoint, cause@),
{
    IngestError::TransparentPrevoutUnresolved {
        transaction_id: outpoint.transaction_id,
        output_index: outpoint.output_index,
        cause,
    }
}

/// One outpoint and where the canonical index places the transaction that produced it.
#[derive(Clone, Copy, Debug, PartialEq, Eq)]
pub struct LocatedOutPoint {
    pub outpoint: TransparentOutPoint,
    pub block_height: BlockHeight,
    pub tx_index_in_block: u32,
}

/// Binds an outpoint to the canonical location of the transaction that produced it.
pub fn locate_outpoint(
    outpoint: TransparentOutPoint,
    location: Option<TransactionLocation>,
) -> (located: Result<LocatedOutPoint, IngestError>)
    ensures
        match location {
            Some(location) => located == Ok::<LocatedOutPoint, IngestError>(
                LocatedOutPoint {
                    outpoint,
                    block_height: location.block_height,
                    tx_index_in_block: location.tx_index_in_block,
                },
            ),
            None => located is Err && is_unresolved(
                located->Err_0,
                outpoint,
                "producing transaction has no canonical location"@,
            ),
        },
{
    match location {
        Some(location) => Ok(
            LocatedOutPoint {
                outpoint,
                block_height: location.block_height,
                tx_index_in_block: location.tx_index_in_block,
            },
        ),
        None => Err(
            prevout_unresolved(outpoint, "producing transaction has no canonical location"),
        ),
    }
}

/// Whether heights rise strictly along a sequence.
pub open spec fn heights_rise(heights: Seq<BlockHeight>) -> bool {
    forall|i: int, j: int| 0 <= i < j < heights.len() ==> heights[i].0 < heights[j].0
}

/// Whether a located outpoint stands at a height.
pub open spec fn stands_at(located: Seq<LocatedOutPoint>, height: BlockHeight) -> bool {
    exists|i: int| 0 <= i < located.len() && (#[trigger] located[i]).block_height == height
}

/// Lists the heights whose blocks produced the located outpoints, lowest first and each once.
pub fn producing_heights(located: &Vec<LocatedOutPoint>) -> (heights: Vec<BlockHeight>)
    ensures
        heights_rise(heights@),
        forall|height: BlockHeight| #[trigger]
            heights@.contains(height) <==> stands_at(located@, height),
{
    let mut heights: Vec<BlockHeight> = Vec::new();
    let mut next: usize = 0;
    while next < located.len()
        invariant
            0 <= next <= located@.len(),
            heights_rise(heights@),
            forall|height: BlockHeight| #[trigger]
                heights@.contains(height) <==> stands_at(located@.take(next as int), height),
        decreases located@.len() - next,
    {
        let height = located[next].block_height;
        let ghost before = heights@;
        let ghost upto = located@.take(next as int);
        let ghost beyond = located@.take(next + 1);
        let mut at: usize = heights.len();
        while at > 0 && heights[at - 1].0 > height.0
            invariant
                0 <= at <= heights@.len(),
                forall|i: int| at <= i < heights@.len() ==> heights@[i].0 > height.0,
            decreases at,
        {
            at -= 1;
        }
        let known = at > 0 && heights[at - 1].0 == height.0;
        if !known {
            heights.insert(at, height);
            assert forall|i: int| 0 <= i < at implies before[i].0 < height.0 by {
                assert(before[i].0 <= before[at - 1].0);
            }
        }
        assert forall|other: BlockHeight| #[trigger]
            heights@.contains(other) <==> stands_at(beyond, other) by {
            assert(before.contains(other) <==> stands_at(upto, other));
            if stands_at(upto, other) {
                let k = choose|k: int|
                    0 <= k < upto.len() && (#[trigger] upto[k]).block_height == other;
                assert(beyond[k].block_height == other);
            }
            if stands_at(beyond, other) {
                let k = choose|k: int|
                    0 <= k < beyond.len() && (#[trigger] beyond[k]).block_height == other;
                if k < next {
                    assert(upto[k].block_height == other);
                }
            }
            assert(beyond[next as int].block_height == height);
            if known {
                assert(before[at - 1] == height);
            } else {
                assert(heights@[at as int] == height);
                if before.contains(other) {
                    let k = choose|k: int| 0 <= k < before.len() && before[k] == other;
                    if k < at {
                        assert(heights@[k] == other);
                    } else {
                        assert(heights@[k + 1] == other);
                    }
                }
                if heights@.contains(other) {
                    let k = choose|k: int| 0 <= k < heights@.len() && heights@[k] == other;
                    if k < at {
                        assert(before[k] == other);
                    } else if k > at {
                        assert(before[k - 1] == other);
                    }
                }
            }
        }
        next += 1;
    }
    assert(located@.take(next as int) =~= located@);
    heights
}

/// First output of a transaction that has an index.
pub open spec fn output_with_index(
    outputs: Seq<TransparentOutputFact>,
    output_index: u32,
) -> Option<TransparentOutputFact>
    decreases outputs.len(),
{
    if outputs.len() == 0 {
        None
    } else if outputs.first().output_index == output_index {
        Some(outputs.first())
    } else {
        output_with_index(outputs.drop_first(), output_index)
    }
}

/// Why a block does not produce an outpoint at a position, if it does not.
pub open spec fn production_fault(
    block: CanonicalBlockFacts,
    outpoint: TransparentOutPoint,
    tx_index_in_block: u32,
) -> Option<Seq<char>> {
    let transactions = block.transactions@;
    if tx_index_in_block >= transactions.len()
        || transactions[tx_index_in_block as int].public_facts.transaction_id
        != outpoint.transaction_id {
        Some("producing block does not carry the located transaction"@)
    } else if output_with_index(
        transactions[tx_index_in_block as int].transparent_outputs@,
        outpoint.output_index,
    ) is None {
        Some("producing transaction has no such transparent output"@)
    } else {
        None
    }
}

/// What a block produces for an outpoint at a position.
pub open spec fn produced_at(
    block: CanonicalBlockFacts,
    outpoint: TransparentOutPoint,
    tx_index_in_block: u32,
) -> ProducedOutput {
    produced_by(
        block.block_header,
        output_with_index(
            block.transactions@[tx_index_in_block as int].transparent_outputs@,
            outpoint.output_index,
        )->0,
    )
}

/// Finds the output that a block produced for an outpoint.
pub fn produced_output(
    block: &CanonicalBlockFacts,
    outpoint: TransparentOutPoint,
    tx_index_in_block: u32,
) -> (produced: Result<ProducedOutput, IngestError>)
    ensures
        match production_fault(*block, outpoint, tx_index_in_block) {
            None => produced == Ok::<ProducedOutput, IngestError>(
                produced_at(*block, outpoint, tx_index_in_block),
            ),
            Some(cause) => produced is Err && is_unresolved(produced->Err_0, outpoint, cause),
        },
{
    let index: usize = tx_index_in_block as usize;
    if index >= block.transactions.len() || block.transactions[index].public_facts.transaction_id
        != outpoint.transaction_id {
        return Err(
            prevout_unresolved(outpoint, "producing block does not carry the located transaction"),
        );
    }
    let outputs = &block.transactions[index].transparent_outputs;
    let mut i: usize = 0;
    assert(outputs@.skip(0) =~= outputs@);
    while i < outputs.len()
        invariant
            0 <= i <= outputs@.len(),
            output_with_index(outputs@, outpoint.output_index) == output_with_index(
                outputs@.skip(i as int),
                outpoint.output_index,
            ),
            index == tx_index_in_block,
            index < block.transactions@.len(),
            block.transactions@[index as int].public_facts.transaction_id
                == outpoint.transaction_id,
            *outputs == block.transactions@[index as int].transparent_outputs,
        decreases outputs@.len() - i,
    {
        let output = &outputs[i];
        assert(outputs@.skip(i as int).drop_first() =~= outputs@.skip(i + 1));
        if output.output_index == outpoint.output_index {
            return Ok(
                ProducedOutput {
                    value_zat: output.value_zat,
                    address_script_hash: output.address_script_hash,
                    block_height: block.block_header.height,
                    block_hash: block.block_header.block_hash,
                },
            );
        }
        i += 1;
    }
    Err(prevout_unresolved(outpoint, "producing transaction has no such transparent output"))
}

/// Why a located outpoint is not found in the block at its height, if it is not.
pub open spec fn located_fault(
    located: LocatedOutPoint,
    block: Option<CanonicalBlockFacts>,
) -> Option<Seq<char>> {
    match block {
        None => Some("producing block is not retained"@),
        Some(block) => production_fault(block, located.outpoint, located.tx_index_in_block),
    }
}

/// Known outputs together with those that a block gives for the located
/// outpoints at its height.
pub open spec fn with_located(
    known: Map<TransparentOutPoint, ProducedOutput>,
    located: Seq<LocatedOutPoint>,
    height: BlockHeight,
    block: Option<CanonicalBlockFacts>,
) -> Map<TransparentOutPoint, ProducedOutput>
    decreases located.len(),
{
    if located.len() == 0 {
        known
    } else {
        let before = with_located(known, located.drop_last(), height, block);
        let last = located.last();
        if last.block_height == height {
            before.insert(
                last.outpoint,
                produced_at(block->0, last.outpoint, last.tx_index_in_block),
            )
        } else {
            before
        }
    }
}

/// Whether the located outpoint at a position is the first one at a height
/// that its block does not produce.
pub open spec fn first_located_fault(
    located: Seq<LocatedOutPoint>,
    height: BlockHeight,
    block: Option<CanonicalBlockFacts>,
    at: int,
) -> bool {
    &&& 0 <= at < located.len()
    &&& located[at].block_height == height
    &&& located_fault(located[at], block) is Some
    &&& forall|i: int|
        0 <= i < at && (#[trigger] located[i]).block_height == height ==> located_fault(
            located[i],
            block,
        ) is None
}

/// Takes in the block at one producing height, if the store retains it.
pub fn accept_producing_block(
    height: BlockHeight,
    block: &Option<CanonicalBlockFacts>,
    located: &Vec<LocatedOutPoint>,
    produced: &mut OutPointMap<ProducedOutput>,
) -> (accepted: Result<(), IngestError>)
    requires
        old(produced).well_formed(),
    ensures
        final(produced).well_formed(),
        match accepted {
            Ok(_) => {
                &&& forall|i: int|
                    0 <= i < located@.len() && (#[trigger] located@[i]).block_height == height
                        ==> located_fault(located@[i], *block) is None
                &&& final(produced)@ == with_located(old(produced)@, located@, height, *block)
            },
            Err(error) => exists|at: int|
                #![trigger located@[at]]
                {
                    &&& first_located_fault(located@, height, *block, at)
                    &&& is_unresolved(
                        error,
                        located@[at].outpoint,
                        located_fault(located@[at], *block)->0,
                    )
                    &&& final(produced)@ == with_located(
                        old(produced)@,
                        located@.take(at),
                        height,
                        *block,
                    )
                },
        },
{
    let ghost known = produced@;
    let mut i: usize = 0;
    assert(with_located(known, located@.take(0), height, *block) =~= known);
    while i < located.len()
        invariant
            0 <= i <= located@.len(),
            produced.well_formed(),
            known == old(produced)@,
            produced@ == with_located(known, located@.take(i as int), height, *block),
            forall|k: int|
                0 <= k < i && (#[trigger] located@[k]).block_height == height ==> located_fault(
                    located@[k],
                    *block,
                ) is None,
        decreases located@.len() - i,
    {
        let entry = located[i];
        assert(located@.take(i + 1).drop_last() =~= located@.take(i as int));
        if entry.block_height == height {
            let outcome = match block {
                Some(block) => produced_output(block, entry.outpoint, entry.tx_index_in_block),
                None => Err(
                    prevout_unresolved(entry.outpoint, "producing block is not retained"),
                ),
            };
            match outcome {
                Ok(output) => {
                    produced.insert(entry.outpoint, output);
                },
                Err(error) => {
                    assert(first_located_fault(located@, height, *block, i as int));
                    return Err(error);
                },
            }
        }
        i += 1;
    }
    assert(located@.take(i as int) =~= located@);
    Ok(())
}

/// Fact of one spend whose previous output is known.
pub open spec fn resolved_spend(
    request: TransparentSpendReference,
    output: ProducedOutput,
) -> TransparentSpendFact {
    TransparentSpendFact {
        spent_outpoint: request.spent_outpoint,
        input_index: request.input_index,
        spending_transaction_id: request.spending_transaction_id,
        tx_index_in_block: request.tx_index_in_block,
        block_height: request.block_height,
        block_hash: request.block_hash,
        value_zat: output.value_zat,
        address_script_hash: output.address_script_hash,
        created_block_height: output.block_height,
        created_block_hash: output.block_hash,
    }
}

/// Facts of a run of spends by outpoint, a later spend standing for an
/// earlier one of the same outpoint.
pub open spec fn resolved_spends(
    requests: Seq<TransparentSpendReference>,
    produced: Map<TransparentOutPoint, ProducedOutput>,
) -> Map<TransparentOutPoint, TransparentSpendFact>
    decreases requests.len(),
{
    if requests.len() == 0 {
        Map::empty()
    } else {
        let last = requests.last();
        resolved_spends(requests.drop_last(), produced).insert(
            last.spent_outpoint,
            resolved_spend(last, produced[last.spent_outpoint]),
        )
    }
}

/// Turns every spend of a range into a fact; each needs its previous output.
pub fn resolve_transparent_spends(
    requests: &Vec<TransparentSpendReference>,
    produced: &OutPointMap<ProducedOutput>,
) -> (spends: Result<OutPointMap<TransparentSpendFact>, IngestError>)
    requires
        produced.well_formed(),
    ensures
        match spends {
            Ok(spends) => {
                &&& spends.well_formed()
                &&& forall|i: int|
                    0 <= i < requests@.len() ==> produced@.contains_key(
                        (#[trigger] requests@[i]).spent_outpoint,
                    )
                &&& spends@ == resolved_spends(requests@, produced@)
            },
            Err(error) => exists|at: int|
                #![trigger requests@[at]]
                {
                    &&& 0 <= at < requests@.len()
                    &&& !produced@.contains_key(requests@[at].spent_outpoint)
                    &&& forall|i: int|
                        0 <= i < at ==> produced@.contains_key(
                            (#[trigger] requests@[i]).spent_outpoint,
                        )
                    &&& is_unresolved(
                        error,
                        requests@[at].spent_outpoint,
                        "prevout resolution produced no output"@,
                    )
                },
        },
{
    let mut spends: OutPointMap<TransparentSpendFact> = OutPointMap::new();
    let mut i: usize = 0;
    while i < requests.len()
        invariant
            0 <= i <= requests@.len(),
            produced.well_formed(),
            spends.well_formed(),
            forall|k: int|
                0 <= k < i ==> produced@.contains_key((#[trigger] requests@[k]).spent_outpoint),
            spends@ == resolved_spends(requests@.take(i as int), produced@),
        decreases requests@.len() - i,
    {
        let request = requests[i];
        assert(requests@.take(i + 1).drop_last() =~= requests@.take(i as int));
        match produced.get(&request.spent_outpoint) {
            Some(output) => {
                spends.insert(
                    request.spent_outpoint,
                    TransparentSpendFact {
                        spent_outpoint: request.spent_outpoint,
                        input_index: request.input_index,
                        spending_transaction_id: request.spending_transaction_id,
                        tx_index_in_block: request.tx_index_in_block,
                        block_height: request.block_height,
                        block_hash: request.block_hash,
                        value_zat: output.value_zat,
                        address_script_hash: output.address_script_hash,
                        created_block_height: output.block_height,
                        created_block_hash: output.block_hash,
                    },
                );
            },
            None => {
                assert(!produced@.contains_key(requests@[i as int].spent_outpoint));
                return Err(
                    prevout_unresolved(
                        request.spent_outpoint,
                        "prevout resolution produced no output",
                    ),
                );
            },
        }
        i += 1;
    }
    assert(requests@.take(i as int) =~= requests@);
    Ok(spends)
}

/// Value balances of a range's transactions, in chain order.
#[derive(Debug)]
pub struct IntrinsicValueBalances {
    pub entries: Vec<(TransactionId, TransactionIntrinsicValueBalances)>,
}

/// Balances of the transactions of one block.
pub open spec fn block_balances(transactions: Seq<CanonicalTransactionFacts>) -> Seq<
    (TransactionId, TransactionIntrinsicValueBalances),
> {
    transactions.map_values(
        |transaction: CanonicalTransactionFacts|
            (transaction.public_facts.transaction_id, transaction.intrinsic_value_balances),
    )
}

/// Balances of the transactions of a run of blocks, in chain order.
pub open spec fn range_balances(blocks: Seq<CanonicalBlockFacts>) -> Seq<
    (TransactionId, TransactionIntrinsicValueBalances),
>
    decreases blocks.len(),
{
    if blocks.len() == 0 {
        Seq::empty()
    } else {
        range_balances(blocks.drop_last()) + block_balances(blocks.last().transactions@)
    }
}

/// The last balance that a sequence holds for a transaction.
pub open spec fn last_balance(
    entries: Seq<(TransactionId, TransactionIntrinsicValueBalances)>,
    transaction_id: TransactionId,
) -> Option<TransactionIntrinsicValueBalances>
    decreases entries.len(),
{
    if entries.len() == 0 {
        None
    } else if entries.last().0 == transaction_id {
        Some(entries.last().1)
    } else {
        last_balance(entries.drop_last(), transaction_id)
    }
}

impl IntrinsicValueBalances {
    /// Returns the balance of a transaction, the last one where it occurs more than once.
    pub fn get(&self, transaction_id: TransactionId) -> (balance: Option<
        TransactionIntrinsicValueBalances,
    >)
        ensures
            balance == last_balance(self.entries@, transaction_id),
    {
        let mut i: usize = self.entries.len();
        assert(self.entries@.take(i as int) =~= self.entries@);
        while i > 0
            invariant
                0 <= i <= self.entries@.len(),
                last_balance(self.entries@.take(i as int), transaction_id) == last_balance(
                    self.entries@,
                    transaction_id,
                ),
            decreases i,
        {
            let (id, balance) = self.entries[i - 1];
            assert(self.entries@.take(i as int).drop_last() =~= self.entries@.take(i - 1));
            if id == transaction_id {
                return Some(balance);
            }
            i -= 1;
        }
        None
    }
}

/// Collects the value balances of a run of blocks.
pub fn intrinsic_value_balances(blocks: &Vec<CanonicalBlockFacts>) -> (balances:
    IntrinsicValueBalances)
    ensures
        balances.entries@ == range_balances(blocks@),
{
    let mut entries: Vec<(TransactionId, TransactionIntrinsicValueBalances)> = Vec::new();
    let mut i: usize = 0;
    while i < blocks.len()
        invariant
            0 <= i <= blocks@.len(),
            entries@ == range_balances(blocks@.take(i as int)),
        decreases blocks@.len() - i,
    {
        let transactions = &blocks[i].transactions;
        let ghost before = entries@;
        assert(blocks@.take(i + 1).drop_last() =~= blocks@.take(i as int));
        let mut j: usize = 0;
        assert(entries@ =~= before + block_balances(transactions@.take(0)));
        while j < transactions.len()
            invariant
                0 <= j <= transactions@.len(),
                entries@ == before + block_balances(transactions@.take(j as int)),
            decreases transactions@.len() - j,
        {
            entries.push(
                (
                    transactions[j].public_facts.transaction_id,
                    transactions[j].intrinsic_value_balances,
                ),
            );
            assert(entries@ =~= before + block_balances(transactions@.take(j + 1)));
            j += 1;
        }
        assert(transactions@.take(j as int) =~= transactions@);
        i += 1;
    }
    assert(blocks@.take(i as int) =~= blocks@);
    IntrinsicValueBalances { entries }
}

/// Whether a fact row is that of one transaction of a block.
pub open spec fn is_fact_row(
    row: TransactionFactsArtifact,
    header: BlockHeaderArtifact,
    transaction: CanonicalTransactionFacts,
    position: int,
) -> bool {
    row == (TransactionFactsArtifact {
        location: location_in(header, transaction.public_facts.transaction_id, position),
        public_facts: transaction.public_facts,
        transparent_inputs: transaction.transparent_inputs,
        transparent_outputs: transaction.transparent_outputs,
    })
}

/// Locates every transaction of a block and keeps its public and transparent facts.
pub fn transaction_facts(
    block_header: &BlockHeaderArtifact,
    transactions: Vec<CanonicalTransactionFacts>,
) -> (rows: Result<Vec<TransactionFactsArtifact>, IngestError>)
    ensures
        match rows {
            Ok(rows) => {
                &&& transactions@.len() <= POSITION_LIMIT
                &&& rows@.len() == transactions@.len()
                &&& forall|i: int|
                    0 <= i < rows@.len() ==> is_fact_row(
                        #[trigger] rows@[i],
                        *block_header,
                        transactions@[i],
                        i,
                    )
            },
            Err(error) => transactions@.len() > POSITION_LIMIT && is_position_overflow(error),
        },
{
    let ghost all = transactions@;
    let count: usize = transactions.len();
    let mut rows: Vec<TransactionFactsArtifact> = Vec::new();
    let mut position: usize = 0;
    for transaction in it: transactions
        invariant
            it.seq() == all,
            all == transactions@,
            count == all.len(),
            position == it.index(),
            position <= POSITION_LIMIT,
            rows@.len() == position,
            forall|i: int|
                0 <= i < rows@.len() ==> is_fact_row(
                    #[trigger] rows@[i],
                    *block_header,
                    all[i],
                    i,
                ),
    {
        let tx_index_in_block = match u32::try_from(position) {
            Ok(tx_index_in_block) => tx_index_in_block,
            Err(_) => {
                return Err(
                    IngestError::CanonicalBlockConstruction(
                        CanonicalBlockConstructionError::TransactionIndexOverflow,
                    ),
                );
            },
        };
        let CanonicalTransactionFacts {
            public_facts,
            intrinsic_value_balances: _,
            transparent_inputs,
            transparent_outputs,
            raw_transaction_bytes: _,
        } = transaction;
        rows.push(
            TransactionFactsArtifact {
                location: TransactionLocation {
                    transaction_id: public_facts.transaction_id,
                    block_height: block_header.height,
                    block_hash: block_header.block_hash,
                    tx_index_in_block,
                },
                public_facts,
                transparent_inputs,
                transparent_outputs,
            },
        );
        position += 1;
    }
    Ok(rows)
}

/// Whether a consumer input carries one block's header facts, transactions and roots.
pub open spec fn is_block_input(
    input: BlockCommitInput,
    block: CanonicalBlockFacts,
    roots: Option<BlockFinalNoteCommitmentRoots>,
) -> bool {
    &&& input.describes(block.block_header)
    &&& input.final_note_commitment_roots == roots
    &&& input.transactions@.len() == block.transactions@.len()
    &&& forall|i: int|
        0 <= i < block.transactions@.len() ==> is_fact_row(
            #[trigger] input.transactions@[i],
            block.block_header,
            block.transactions@[i],
            i,
        )
}

/// Turns one block into a consumer input.
pub fn block_commit_input(
    block: CanonicalBlockFacts,
    final_note_commitment_roots: Option<BlockFinalNoteCommitmentRoots>,
) -> (input: Result<BlockCommitInput, IngestError>)
    ensures
        match input {
            Ok(input) => !overflows_positions(block) && is_block_input(
                input,
                block,
                final_note_commitment_roots,
            ),
            Err(error) => overflows_positions(block) && is_position_overflow(error),
        },
{
    let CanonicalBlockFacts { block_header, raw_block_bytes: _, transactions } = block;
    match transaction_facts(&block_header, transactions) {
        Ok(transactions) => Ok(
            BlockCommitInput {
                height: block_header.height,
                block_hash: block_header.block_hash,
                previous_block_hash: block_header.parent_hash,
                block_time_unix_seconds: block_header.block_time,
                block_size_bytes: block_header.block_size_bytes,
                transactions,
                final_note_commitment_roots,
            },
        ),
        Err(error) => Err(error),
    }
}

/// Roots that are left once the blocks of a run have taken theirs.
pub open spec fn roots_left(
    roots: Map<u32, BlockFinalNoteCommitmentRoots>,
    blocks: Seq<CanonicalBlockFacts>,
) -> Map<u32, BlockFinalNoteCommitmentRoots>
    decreases blocks.len(),
{
    if blocks.len() == 0 {
        roots
    } else {
        roots_left(roots, blocks.drop_last()).remove(blocks.last().block_header.height.0)
    }
}

/// Roots that the block at a position of a run takes.
pub open spec fn roots_taken(
    roots: Map<u32, BlockFinalNoteCommitmentRoots>,
    blocks: Seq<CanonicalBlockFacts>,
    position: int,
) -> Option<BlockFinalNoteCommitmentRoots> {
    let left = roots_left(roots, blocks.take(position));
    let height = blocks[position].block_header.height.0;
    if left.contains_key(height) {
        Some(left[height])
    } else {
        None
    }
}

/// Consumer inputs of a range, with the facts they share.
pub struct BlockCommitContexts {
    pub inputs: Vec<BlockCommitInput>,
    pub transparent_spends: OutPointMap<TransparentSpendFact>,
    pub intrinsic_value_balances: IntrinsicValueBalances,
}

/// Joins the blocks of a range with their roots, resolved spends and value balances.
pub fn block_commit_contexts(
    blocks: Vec<CanonicalBlockFacts>,
    roots: FinalRoots,
    transparent_spends: OutPointMap<TransparentSpendFact>,
) -> (contexts: Result<BlockCommitContexts, IngestError>)
    ensures
        match contexts {
            Ok(contexts) => {
                &&& !any_overflow(blocks@)
                &&& contexts.inputs@.len() == blocks@.len()
                &&& forall|i: int|
                    0 <= i < blocks@.len() ==> is_block_input(
                        #[trigger] contexts.inputs@[i],
                        blocks@[i],
                        roots_taken(roots.by_height@, blocks@, i),
                    )
                &&& contexts.transparent_spends == transparent_spends
                &&& contexts.intrinsic_value_balances.entries@ == range_balances(blocks@)
            },
            Err(error) => any_overflow(blocks@) && is_position_overflow(error),
        },
{
    let ghost all = blocks@;
    let ghost recorded = roots.by_height@;
    let intrinsic_value_balances = intrinsic_value_balances(&blocks);
    let mut roots = roots;
    let mut inputs: Vec<BlockCommitInput> = Vec::new();
    assert(roots_left(recorded, all.take(0)) =~= recorded);
    for block in it: blocks
        invariant
            it.seq() == all,
            all == blocks@,
            inputs@.len() == it.index(),
            roots.by_height@ == roots_left(recorded, all.take(it.index())),
            forall|i: int|
                0 <= i < inputs@.len() ==> is_block_input(
                    #[trigger] inputs@[i],
                    all[i],
                    roots_taken(recorded, all, i),
                ),
            forall|i: int| 0 <= i < it.index() ==> !overflows_positions(#[trigger] all[i]),
    {
        assert(all.take(it.index() + 1).drop_last() =~= all.take(it.index()));
        assert(all.take(it.index() + 1).last() == block);
        let taken = roots.take(block.block_header.height);
        assert(taken == roots_taken(recorded, all, it.index()));
        match block_commit_input(block, taken) {
            Ok(input) => {
                inputs.push(input);
            },
            Err(error) => {
                assert(overflows_positions(all[it.index()]));
                return Err(error);
            },
        }
    }
    Ok(BlockCommitContexts { inputs, transparent_spends, intrinsic_value_balances })
}

/// A range that begins right above the previous one reuses its tree state.
pub proof fn law_next_range_reuses_the_tree_state(previous: BlockHeightRange)
    requires
        previous.end.0 < u32::MAX,
    ensures
        anchor_of(previous.end.spec_next()->0) == previous.end,
{
}

/// Every spend of a range whose outputs are all produced is resolved, and the
/// fact carries the value and address of the output it spends.
pub proof fn law_every_spend_is_resolved(
    requests: Seq<TransparentSpendReference>,
    produced: Map<TransparentOutPoint, ProducedOutput>,
    at: int,
)
    requires
        0 <= at < requests.len(),
    ensures
        ({
            let outpoint = requests[at].spent_outpoint;
            let spends = resolved_spends(requests, produced);
            &&& spends.contains_key(outpoint)
            &&& spends[outpoint].spent_outpoint == outpoint
            &&& spends[outpoint].value_zat == produced[outpoint].value_zat
            &&& spends[outpoint].address_script_hash == produced[outpoint].address_script_hash
            &&& spends[outpoint].created_block_height == produced[outpoint].block_height
            &&& spends[outpoint].created_block_hash == produced[outpoint].block_hash
        }),
    decreases requests.len(),
{
    if at < requests.len() - 1 {
        law_every_spend_is_resolved(requests.drop_last(), produced, at);
    }
}

proof fn lemma_missing_keys_are_absent(
    keys: Seq<TransparentOutPoint>,
    produced: Map<TransparentOutPoint, ProducedOutput>,
    key: TransparentOutPoint,
)
    ensures
        keys_missing_from(keys, produced).contains(key) <==> keys.contains(key)
            && !produced.contains_key(key),
    decreases keys.len(),
{
    if keys.len() > 0 {
        let rest = keys.drop_last();
        let found = keys_missing_from(rest, produced);
        lemma_missing_keys_are_absent(rest, produced, key);
        assert(keys =~= rest.push(keys.last()));
        if rest.contains(key) {
            let k = choose|k: int| 0 <= k < rest.len() && rest[k] == key;
            assert(keys[k] == key);
        }
        if keys.contains(key) && key != keys.last() {
            let k = choose|k: int| 0 <= k < keys.len() && keys[k] == key;
            assert(rest[k] == key);
        }
        assert(keys[keys.len() - 1] == keys.last());
        if !produced.contains_key(keys.last()) {
            let all = found.push(keys.last());
            if found.contains(key) {
                let k = choose|k: int| 0 <= k < found.len() && found[k] == key;
                assert(all[k] == key);
            }
            assert(all[all.len() - 1] == keys.last());
            if all.contains(key) && key != keys.last() {
                let k = choose|k: int| 0 <= k < all.len() && all[k] == key;
                assert(found[k] == key);
            }
        }
    }
}

/// Exactly the requested outputs that the range does not produce itself are
/// looked up below the range.
pub proof fn law_only_older_outputs_are_looked_up(
    requested: OutPointMap<()>,
    produced: Map<TransparentOutPoint, ProducedOutput>,
    outpoint: TransparentOutPoint,
)
    ensures
        keys_missing_from(keys_of(requested.entries_in_order()), produced).contains(outpoint)
            <==> requested@.contains_key(outpoint) && !produced.contains_key(outpoint),
{
    let entries = requested.entries_in_order();
    let keys = keys_of(entries);
    lemma_missing_keys_are_absent(keys, produced, outpoint);
    if keys.contains(outpoint) {
        let k = choose|k: int| 0 <= k < keys.len() && keys[k] == outpoint;
        assert(entries[k].0 == outpoint);
    }
    if requested@.contains_key(outpoint) {
        let k = choose|k: int| 0 <= k < entries.len() && (#[trigger] entries[k]).0 == outpoint;
        assert(keys[k] == outpoint);
    }
}

/// The fact under an outpoint is that of the last request that spends it: it
/// carries the spending transaction, the input and the place of that request,
/// and the value, address and origin of the output.
pub proof fn law_resolved_spend_carries_its_last_request(
    requests: Seq<TransparentSpendReference>,
    produced: Map<TransparentOutPoint, ProducedOutput>,
    at: int,
)
    requires
        0 <= at < requests.len(),
        forall|later: int|
            at < later < requests.len() ==> (#[trigger] requests[later]).spent_outpoint
                != requests[at].spent_outpoint,
    ensures
        ({
            let outpoint = requests[at].spent_outpoint;
            let fact = resolved_spends(requests, produced)[outpoint];
            &&& resolved_spends(requests, produced).contains_key(outpoint)
            &&& fact.spent_outpoint == outpoint
            &&& fact.spending_transaction_id == requests[at].spending_transaction_id
            &&& fact.input_index == requests[at].input_index
            &&& fact.tx_index_in_block == requests[at].tx_index_in_block
            &&& fact.block_height == requests[at].block_height
            &&& fact.block_hash == requests[at].block_hash
            &&& fact.value_zat == produced[outpoint].value_zat
            &&& fact.address_script_hash == produced[outpoint].address_script_hash
            &&& fact.created_block_height == produced[outpoint].block_height
            &&& fact.created_block_hash == produced[outpoint].block_hash
        }),
    decreases requests.len(),
{
    let rest = requests.drop_last();
    if at < rest.len() {
        assert(requests[requests.len() - 1] == requests.last());
        assert forall|later: int| at < later < rest.len() implies (
        #[trigger] rest[later]).spent_outpoint != rest[at].spent_outpoint by {
            assert(rest[later] == requests[later]);
        }
        law_resolved_spend_carries_its_last_request(rest, produced, at);
    }
}

/// A spend fact stands under an outpoint exactly where a request spends it.
pub proof fn law_only_requested_spends_are_resolved(
    requests: Seq<TransparentSpendReference>,
    produced: Map<TransparentOutPoint, ProducedOutput>,
    outpoint: TransparentOutPoint,
)
    ensures
        resolved_spends(requests, produced).contains_key(outpoint) <==> exists|i: int|
            0 <= i < requests.len() && (#[trigger] requests[i]).spent_outpoint == outpoint,
    decreases requests.len(),
{
    if requests.len() > 0 {
        let rest = requests.drop_last();
        law_only_requested_spends_are_resolved(rest, produced, outpoint);
        assert(requests[requests.len() - 1] == requests.last());
        if exists|i: int| 0 <= i < rest.len() && (#[trigger] rest[i]).spent_outpoint == outpoint {
            let i = choose|i: int|
                0 <= i < rest.len() && (#[trigger] rest[i]).spent_outpoint == outpoint;
            assert(requests[i].spent_outpoint == outpoint);
        }
        if exists|i: int|
            0 <= i < requests.len() && (#[trigger] requests[i]).spent_outpoint == outpoint {
            let i = choose|i: int|
                0 <= i < requests.len() && (#[trigger] requests[i]).spent_outpoint == outpoint;
            if i < rest.len() {
                assert(rest[i].spent_outpoint == outpoint);
            }
        }
    }
}

/// The tree state for a range stands right below its first block; genesis,
/// below which there is none, is its own anchor.
pub proof fn law_anchor_stands_right_below_the_range(start: BlockHeight)
    ensures
        start.0 > 0 ==> anchor_of(start).0 + 1 == start.0,
        start.0 == 0 ==> anchor_of(start).0 == 0,
{
}

/// The commitments of a block are those of its transactions, one pool at a
/// time and in block order.
pub proof fn law_commitments_grow_by_each_transaction(
    transactions: Seq<TransactionCommitments>,
    next: TransactionCommitments,
)
    ensures
        sapling_commitments(Seq::empty()).len() == 0,
        orchard_commitments(Seq::empty()).len() == 0,
        ironwood_commitments(Seq::empty()).len() == 0,
        sapling_commitments(transactions.push(next)) == sapling_commitments(transactions)
            + next.sapling@,
        orchard_commitments(transactions.push(next)) == orchard_commitments(transactions)
            + next.orchard@,
        ironwood_commitments(transactions.push(next)) == ironwood_commitments(transactions)
            + next.ironwood@,
{
    assert(transactions.push(next).drop_last() =~= transactions);
}

/// Final roots are recorded exactly where at least one pool has a root.
pub proof fn law_rootless_blocks_are_not_recorded(roots: BlockFinalNoteCommitmentRoots)
    ensures
        any_pool_root(roots) <==> !(roots.sapling is None && roots.orchard is None
            && roots.ironwood is None),
{
}

/// Whether a reference is that of one input of a transaction of a block.
pub open spec fn spends_within(
    reference: TransparentSpendReference,
    header: BlockHeaderArtifact,
    transactions: Seq<CanonicalTransactionFacts>,
    t: int,
    i: int,
) -> bool {
    &&& 0 <= t < transactions.len()
    &&& 0 <= i < transactions[t].transparent_inputs@.len()
    &&& reference.spent_outpoint == transactions[t].transparent_inputs@[i].spent_outpoint
    &&& reference.input_index == transactions[t].transparent_inputs@[i].input_index
    &&& reference.spending_transaction_id == transactions[t].public_facts.transaction_id
    &&& reference.tx_index_in_block == t
    &&& reference.block_height == header.height
    &&& reference.block_hash == header.block_hash
}

/// Whether an outpoint is the null one that a coinbase input carries.
pub open spec fn is_null_outpoint(outpoint: TransparentOutPoint) -> bool {
    outpoint.output_index == 0xffff_ffff && forall|b: int|
        0 <= b < 32 ==> outpoint.transaction_id.0@[b] == 0
}

/// Every request of a block is that of an input of one of its transactions,
/// at the place of that transaction, and none is that of a null outpoint.
pub proof fn law_request_stands_at_its_transaction(
    header: BlockHeaderArtifact,
    transactions: Seq<CanonicalTransactionFacts>,
    k: int,
)
    requires
        transactions.len() <= 0x1_0000_0000,
        0 <= k < block_spends(header, transactions).len(),
    ensures
        exists|t: int, i: int|
            #[trigger] spends_within(
                block_spends(header, transactions)[k],
                header,
                transactions,
                t,
                i,
            ),
        !is_null_outpoint(block_spends(header, transactions)[k].spent_outpoint),
    decreases transactions.len(),
{
    let rest = transactions.drop_last();
    let before = block_spends(header, rest);
    let reference = block_spends(header, transactions)[k];
    if k < before.len() {
        law_request_stands_at_its_transaction(header, rest, k);
        let (t, i) = choose|t: int, i: int|
            #[trigger] spends_within(before[k], header, rest, t, i);
        assert(transactions[t] == rest[t]);
        assert(spends_within(reference, header, transactions, t, i));
    } else {
        let last = transactions.last();
        let t = transactions.len() - 1;
        let location = location_in(header, last.public_facts.transaction_id, t);
        assert(reference == input_references(location, last.transparent_inputs@)[k
            - before.len()]);
        let i = lemma_input_reference_names_its_input(
            location,
            last.transparent_inputs@,
            k - before.len(),
        );
        assert(spends_within(reference, header, transactions, t, i));
    }
}

/// Every input that is not a null one has a request among those of its block.
pub proof fn law_every_input_is_requested(
    header: BlockHeaderArtifact,
    transactions: Seq<CanonicalTransactionFacts>,
    t: int,
    i: int,
)
    requires
        transactions.len() <= 0x1_0000_0000,
        0 <= t < transactions.len(),
        0 <= i < transactions[t].transparent_inputs@.len(),
        !is_null_outpoint(transactions[t].transparent_inputs@[i].spent_outpoint),
    ensures
        exists|k: int|
            0 <= k < block_spends(header, transactions).len() && spends_within(
                #[trigger] block_spends(header, transactions)[k],
                header,
                transactions,
                t,
                i,
            ),
    decreases transactions.len(),
{
    let rest = transactions.drop_last();
    let before = block_spends(header, rest);
    let all = block_spends(header, transactions);
    if t < rest.len() {
        assert(rest[t] == transactions[t]);
        law_every_input_is_requested(header, rest, t, i);
        let k = choose|k: int|
            0 <= k < before.len() && spends_within(#[trigger] before[k], header, rest, t, i);
        assert(all[k] == before[k]);
        assert(spends_within(all[k], header, transactions, t, i));
    } else {
        let last = transactions.last();
        let location = location_in(header, last.public_facts.transaction_id, t);
        assert(!last.transparent_inputs@[i].spent_outpoint.is_sentinel());
        let k = lemma_input_is_referenced(location, last.transparent_inputs@, i);
        assert(all[before.len() + k] == input_references(location, last.transparent_inputs@)[k]);
        assert(spends_within(all[before.len() + k], header, transactions, t, i));
    }
}

/// The requests of a range are those of its blocks, block by block; those of a
/// block are those of its transactions, each at its place.
pub proof fn law_requests_grow_by_each_block(
    blocks: Seq<CanonicalBlockFacts>,
    next: CanonicalBlockFacts,
    header: BlockHeaderArtifact,
    transactions: Seq<CanonicalTransactionFacts>,
    transaction: CanonicalTransactionFacts,
)
    ensures
        range_spends(Seq::empty()).len() == 0,
        range_spends(blocks.push(next)) == range_spends(blocks) + block_spends(
            next.block_header,
            next.transactions@,
        ),
        block_spends(header, Seq::empty()).len() == 0,
        block_spends(header, transactions.push(transaction)) == block_spends(header, transactions)
            + input_references(
            (TransactionLocation {
                transaction_id: transaction.public_facts.transaction_id,
                block_height: header.height,
                block_hash: header.block_hash,
                tx_index_in_block: transactions.len() as u32,
            }),
            transaction.transparent_inputs@,
        ),
{
    assert(blocks.push(next).drop_last() =~= blocks);
    assert(transactions.push(transaction).drop_last() =~= transactions);
}

/// A range is refused exactly where a block has more transactions than `u32`
/// positions.
pub proof fn law_only_numberable_blocks_are_accepted(blocks: Seq<CanonicalBlockFacts>)
    ensures
        any_overflow(blocks) <==> exists|i: int|
            0 <= i < blocks.len() && (#[trigger] blocks[i]).transactions@.len() > 0x1_0000_0000,
{
    if any_overflow(blocks) {
        let i = choose|i: int| 0 <= i < blocks.len() && overflows_positions(#[trigger] blocks[i]);
        assert(blocks[i].transactions@.len() > 0x1_0000_0000);
    }
    if exists|i: int|
        0 <= i < blocks.len() && (#[trigger] blocks[i]).transactions@.len() > 0x1_0000_0000 {
        let i = choose|i: int|
            0 <= i < blocks.len() && (#[trigger] blocks[i]).transactions@.len() > 0x1_0000_0000;
        assert(overflows_positions(blocks[i]));
    }
}

/// Whether what is known of an output is what one output of a block says, and
/// where that block stands.
pub open spec fn is_output_of(
    known: ProducedOutput,
    header: BlockHeaderArtifact,
    output: TransparentOutputFact,
) -> bool {
    &&& known.value_zat == output.value_zat
    &&& known.address_script_hash == output.address_script_hash
    &&& known.block_height == header.height
    &&& known.block_hash == header.block_hash
}

/// Whether an outpoint names one output of a transaction.
pub open spec fn names_output(
    outpoint: TransparentOutPoint,
    transaction: CanonicalTransactionFacts,
    o: int,
) -> bool {
    &&& 0 <= o < transaction.transparent_outputs@.len()
    &&& outpoint.transaction_id == transaction.public_facts.transaction_id
    &&& outpoint.output_index == transaction.transparent_outputs@[o].output_index
}

/// One more output stands under the outpoint that its transaction and index
/// name, with its value and address and the place of its block; what stands
/// under every other outpoint is kept.
pub proof fn law_each_output_is_added_under_its_outpoint(
    known: Map<TransparentOutPoint, ProducedOutput>,
    header: BlockHeaderArtifact,
    transaction_id: TransactionId,
    outputs: Seq<TransparentOutputFact>,
    next: TransparentOutputFact,
    outpoint: TransparentOutPoint,
)
    ensures
        with_outputs(known, header, transaction_id, Seq::empty()) == known,
        ({
            let before = with_outputs(known, header, transaction_id, outputs);
            let after = with_outputs(known, header, transaction_id, outputs.push(next));
            if outpoint.transaction_id == transaction_id && outpoint.output_index
                == next.output_index {
                after.contains_key(outpoint) && is_output_of(after[outpoint], header, next)
            } else {
                &&& after.contains_key(outpoint) <==> before.contains_key(outpoint)
                &&& after[outpoint] == before[outpoint]
            }
        }),
{
    assert(outputs.push(next).drop_last() =~= outputs);
}

/// The outputs of a range are those of its blocks, and those of a block are
/// those of its transactions, in block order.
pub proof fn law_outputs_are_added_in_block_order(
    known: Map<TransparentOutPoint, ProducedOutput>,
    header: BlockHeaderArtifact,
    transactions: Seq<CanonicalTransactionFacts>,
    transaction: CanonicalTransactionFacts,
    blocks: Seq<CanonicalBlockFacts>,
    block: CanonicalBlockFacts,
)
    ensures
        with_transactions(known, header, Seq::empty()) == known,
        with_transactions(known, header, transactions.push(transaction)) == with_outputs(
            with_transactions(known, header, transactions),
            header,
            transaction.public_facts.transaction_id,
            transaction.transparent_outputs@,
        ),
        produced_in(Seq::empty()) == Map::<TransparentOutPoint, ProducedOutput>::empty(),
        produced_in(blocks.push(block)) == with_transactions(
            produced_in(blocks),
            block.block_header,
            block.transactions@,
        ),
{
    assert(transactions.push(transaction).drop_last() =~= transactions);
    assert(blocks.push(block).drop_last() =~= blocks);
}

proof fn lemma_with_outputs_comes_from(
    known: Map<TransparentOutPoint, ProducedOutput>,
    header: BlockHeaderArtifact,
    transaction: CanonicalTransactionFacts,
    count: int,
    outpoint: TransparentOutPoint,
)
    requires
        0 <= count <= transaction.transparent_outputs@.len(),
    ensures
        ({
            let after = with_outputs(
                known,
                header,
                transaction.public_facts.transaction_id,
                transaction.transparent_outputs@.take(count),
            );
            ||| (after.contains_key(outpoint) <==> known.contains_key(outpoint))
                && after[outpoint] == known[outpoint]
            ||| after.contains_key(outpoint) && exists|o: int|
                #[trigger] names_output(outpoint, transaction, o) && is_output_of(
                    after[outpoint],
                    header,
                    transaction.transparent_outputs@[o],
                )
        }),
    decreases count,
{
    if count > 0 {
        lemma_with_outputs_comes_from(known, header, transaction, count - 1, outpoint);
        assert(transaction.transparent_outputs@.take(count).drop_last()
            =~= transaction.transparent_outputs@.take(count - 1));
        if outpoint.transaction_id == transaction.public_facts.transaction_id
            && outpoint.output_index == transaction.transparent_outputs@[count
            - 1].output_index {
            assert(names_output(outpoint, transaction, count - 1));
        }
    }
}

proof fn lemma_with_transactions_comes_from(
    known: Map<TransparentOutPoint, ProducedOutput>,
    header: BlockHeaderArtifact,
    transactions: Seq<CanonicalTransactionFacts>,
    outpoint: TransparentOutPoint,
)
    ensures
        ({
            let after = with_transactions(known, header, transactions);
            ||| (after.contains_key(outpoint) <==> known.contains_key(outpoint))
                && after[outpoint] == known[outpoint]
            ||| after.contains_key(outpoint) && exists|t: int, o: int|
                0 <= t < transactions.len() && #[trigger] names_output(
                    outpoint,
                    transactions[t],
                    o,
                ) && is_output_of(
                    after[outpoint],
                    header,
                    transactions[t].transparent_outputs@[o],
                )
        }),
    decreases transactions.len(),
{
    if transactions.len() > 0 {
        let rest = transactions.drop_last();
        let last = transactions.last();
        lemma_with_transactions_comes_from(known, header, rest, outpoint);
        let before = with_transactions(known, header, rest);
        let count = last.transparent_outputs@.len() as int;
        assert(last.transparent_outputs@.take(count) =~= last.transparent_outputs@);
        lemma_with_outputs_comes_from(before, header, last, count, outpoint);
        let after = with_transactions(known, header, transactions);
        assert(transactions[transactions.len() - 1] == last);
        if exists|o: int|
            #[trigger] names_output(outpoint, last, o) && is_output_of(
                after[outpoint],
                header,
                last.transparent_outputs@[o],
            ) {
            let o = choose|o: int|
                #[trigger] names_output(outpoint, last, o) && is_output_of(
                    after[outpoint],
                    header,
                    last.transparent_outputs@[o],
                );
            assert(names_output(outpoint, transactions[transactions.len() - 1], o));
        } else if exists|t: int, o: int|
            0 <= t < rest.len() && #[trigger] names_output(outpoint, rest[t], o) && is_output_of(
                before[outpoint],
                header,
                rest[t].transparent_outputs@[o],
            ) {
            let (t, o) = choose|t: int, o: int|
                0 <= t < rest.len() && #[trigger] names_output(outpoint, rest[t], o)
                    && is_output_of(before[outpoint], header, rest[t].transparent_outputs@[o]);
            assert(names_output(outpoint, transactions[t], o));
        }
    }
}

/// What a range produces under an outpoint is an output of one of its blocks:
/// one of that transaction and index, with its value and address, at the
/// height and hash of that block.
pub proof fn law_produced_output_comes_from_its_block(
    blocks: Seq<CanonicalBlockFacts>,
    outpoint: TransparentOutPoint,
)
    requires
        produced_in(blocks).contains_key(outpoint),
    ensures
        exists|b: int, t: int, o: int|
            #![trigger names_output(outpoint, blocks[b].transactions@[t], o)]
            {
                &&& 0 <= b < blocks.len()
                &&& 0 <= t < blocks[b].transactions@.len()
                &&& names_output(outpoint, blocks[b].transactions@[t], o)
                &&& is_output_of(
                    produced_in(blocks)[outpoint],
                    blocks[b].block_header,
                    blocks[b].transactions@[t].transparent_outputs@[o],
                )
            },
    decreases blocks.len(),
{
    let rest = blocks.drop_last();
    let last = blocks.last();
    let after = produced_in(blocks);
    lemma_with_transactions_comes_from(
        produced_in(rest),
        last.block_header,
        last.transactions@,
        outpoint,
    );
    assert(blocks[blocks.len() - 1] == last);
    if exists|t: int, o: int|
        0 <= t < last.transactions@.len() && #[trigger] names_output(
            outpoint,
            last.transactions@[t],
            o,
        ) && is_output_of(
            after[outpoint],
            last.block_header,
            last.transactions@[t].transparent_outputs@[o],
        ) {
        let (t, o) = choose|t: int, o: int|
            0 <= t < last.transactions@.len() && #[trigger] names_output(
                outpoint,
                last.transactions@[t],
                o,
            ) && is_output_of(
                after[outpoint],
                last.block_header,
                last.transactions@[t].transparent_outputs@[o],
            );
        assert(names_output(outpoint, blocks[blocks.len() - 1].transactions@[t], o));
    } else {
        law_produced_output_comes_from_its_block(rest, outpoint);
        let (b, t, o) = choose|b: int, t: int, o: int|
            #![trigger names_output(outpoint, rest[b].transactions@[t], o)]
            {
                &&& 0 <= b < rest.len()
                &&& 0 <= t < rest[b].transactions@.len()
                &&& names_output(outpoint, rest[b].transactions@[t], o)
                &&& is_output_of(
                    produced_in(rest)[outpoint],
                    rest[b].block_header,
                    rest[b].transactions@[t].transparent_outputs@[o],
                )
            };
        assert(blocks[b] == rest[b]);
        assert(names_output(outpoint, blocks[b].transactions@[t], o));
    }
}

/// Of the outputs that a range produces, exactly the requested ones are kept,
/// as they are.
pub proof fn law_only_requested_outputs_are_kept(
    produced: Map<TransparentOutPoint, ProducedOutput>,
    requested: Map<TransparentOutPoint, ()>,
    outpoint: TransparentOutPoint,
)
    ensures
        only_requested(produced, requested).contains_key(outpoint) <==> produced.contains_key(
            outpoint,
        ) && requested.contains_key(outpoint),
        produced.contains_key(outpoint) && requested.contains_key(outpoint) ==> only_requested(
            produced,
            requested,
        )[outpoint] == produced[outpoint],
{
}

/// The outpoints to look up below a range keep the order of the requests, one
/// entry each.
pub proof fn law_missing_outpoints_keep_their_order(
    keys: Seq<TransparentOutPoint>,
    next: TransparentOutPoint,
    produced: Map<TransparentOutPoint, ProducedOutput>,
)
    ensures
        keys_missing_from(Seq::empty(), produced).len() == 0,
        produced.contains_key(next) ==> keys_missing_from(keys.push(next), produced)
            == keys_missing_from(keys, produced),
        !produced.contains_key(next) ==> keys_missing_from(keys.push(next), produced)
            == keys_missing_from(keys, produced).push(next),
{
    assert(keys.push(next).drop_last() =~= keys);
}

/// The output that an index names is the first one that carries it.
pub proof fn law_first_output_with_the_index_is_found(
    outputs: Seq<TransparentOutputFact>,
    output_index: u32,
)
    ensures
        match output_with_index(outputs, output_index) {
            Some(found) => exists|o: int|
                {
                    &&& 0 <= o < outputs.len()
                    &&& #[trigger] outputs[o] == found
                    &&& found.output_index == output_index
                    &&& forall|earlier: int|
                        0 <= earlier < o ==> (#[trigger] outputs[earlier]).output_index
                            != output_index
                },
            None => forall|o: int|
                0 <= o < outputs.len() ==> (#[trigger] outputs[o]).output_index != output_index,
        },
    decreases outputs.len(),
{
    if outputs.len() > 0 {
        if outputs.first().output_index == output_index {
            assert(outputs[0] == outputs.first());
        } else {
            let rest = outputs.drop_first();
            law_first_output_with_the_index_is_found(rest, output_index);
            match output_with_index(rest, output_index) {
                Some(found) => {
                    let o = choose|o: int|
                        {
                            &&& 0 <= o < rest.len()
                            &&& #[trigger] rest[o] == found
                            &&& found.output_index == output_index
                            &&& forall|earlier: int|
                                0 <= earlier < o ==> (#[trigger] rest[earlier]).output_index
                                    != output_index
                        };
                    assert(outputs[o + 1] == found);
                    assert forall|earlier: int| 0 <= earlier < o + 1 implies (
                    #[trigger] outputs[earlier]).output_index != output_index by {
                        if earlier > 0 {
                            assert(rest[earlier - 1] == outputs[earlier]);
                        }
                    }
                },
                None => {
                    assert forall|o: int| 0 <= o < outputs.len() implies (
                    #[trigger] outputs[o]).output_index != output_index by {
                        if o > 0 {
                            assert(rest[o - 1] == outputs[o]);
                        }
                    }
                },
            }
        }
    }
}

/// A located outpoint is resolved from its block exactly where the transaction
/// at that place is the one that it names and has an output of its index; the
/// value and address are those of that output, the origin is that block.
pub proof fn law_located_output_is_read_from_its_transaction(
    block: CanonicalBlockFacts,
    outpoint: TransparentOutPoint,
    tx_index_in_block: u32,
)
    ensures
        production_fault(block, outpoint, tx_index_in_block) is None <==> {
            &&& tx_index_in_block < block.transactions@.len()
            &&& block.transactions@[tx_index_in_block as int].public_facts.transaction_id
                == outpoint.transaction_id
            &&& exists|o: int|
                #[trigger] names_output(
                    outpoint,
                    block.transactions@[tx_index_in_block as int],
                    o,
                )
        },
        production_fault(block, outpoint, tx_index_in_block) is None ==> exists|o: int|
            #[trigger] names_output(outpoint, block.transactions@[tx_index_in_block as int], o)
                && is_output_of(
                produced_at(block, outpoint, tx_index_in_block),
                block.block_header,
                block.transactions@[tx_index_in_block as int].transparent_outputs@[o],
            ),
        tx_index_in_block >= block.transactions@.len()
            || block.transactions@[tx_index_in_block as int].public_facts.transaction_id
            != outpoint.transaction_id ==> production_fault(block, outpoint, tx_index_in_block)
            == Some("producing block does not carry the located transaction"@),
        tx_index_in_block < block.transactions@.len()
            && block.transactions@[tx_index_in_block as int].public_facts.transaction_id
            == outpoint.transaction_id && (forall|o: int|
            !#[trigger] names_output(
                outpoint,
                block.transactions@[tx_index_in_block as int],
                o,
            )) ==> production_fault(block, outpoint, tx_index_in_block) == Some(
            "producing transaction has no such transparent output"@,
        ),
        located_fault(
            (LocatedOutPoint { outpoint, block_height: block.block_header.height, tx_index_in_block }),
            None,
        ) == Some("producing block is not retained"@),
{
    let transaction = block.transactions@[tx_index_in_block as int];
    let outputs = transaction.transparent_outputs@;
    law_first_output_with_the_index_is_found(outputs, outpoint.output_index);
    if tx_index_in_block < block.transactions@.len() && transaction.public_facts.transaction_id
        == outpoint.transaction_id {
        match output_with_index(outputs, outpoint.output_index) {
            Some(found) => {
                let o = choose|o: int|
                    0 <= o < outputs.len() && #[trigger] outputs[o] == found;
                assert(names_output(outpoint, transaction, o));
            },
            None => {
                assert forall|o: int| !#[trigger] names_output(outpoint, transaction, o) by {
                    if names_output(outpoint, transaction, o) {
                        assert(outputs[o].output_index == outpoint.output_index);
                    }
                }
            },
        }
    }
}

/// One more located outpoint is resolved from a block exactly where it stands
/// at that block's height; every other outpoint is kept as it was.
pub proof fn law_located_outputs_are_added_at_their_height(
    known: Map<TransparentOutPoint, ProducedOutput>,
    located: Seq<LocatedOutPoint>,
    next: LocatedOutPoint,
    height: BlockHeight,
    block: CanonicalBlockFacts,
)
    requires
        located_fault(next, Some(block)) is None,
    ensures
        with_located(known, Seq::empty(), height, Some(block)) == known,
        ({
            let before = with_located(known, located, height, Some(block));
            let after = with_located(known, located.push(next), height, Some(block));
            if next.block_height == height {
                &&& after.dom() == before.dom().insert(next.outpoint)
                &&& exists|o: int|
                    #[trigger] names_output(
                        next.outpoint,
                        block.transactions@[next.tx_index_in_block as int],
                        o,
                    ) && is_output_of(
                        after[next.outpoint],
                        block.block_header,
                        block.transactions@[next.tx_index_in_block as int].transparent_outputs@[o],
                    )
                &&& forall|other: TransparentOutPoint|
                    other != next.outpoint ==> #[trigger] after[other] == before[other]
            } else {
                after == before
            }
        }),
{
    assert(located.push(next).drop_last() =~= located);
    law_located_output_is_read_from_its_transaction(
        block,
        next.outpoint,
        next.tx_index_in_block,
    );
}

/// A failed resolution names the outpoint and the cause.
pub proof fn law_unresolved_outpoint_is_named(
    error: IngestError,
    outpoint: TransparentOutPoint,
    cause: Seq<char>,
)
    requires
        is_unresolved(error, outpoint, cause),
    ensures
        error matches IngestError::TransparentPrevoutUnresolved {
            transaction_id,
            output_index,
            cause: told,
        } && transaction_id == outpoint.transaction_id && output_index == outpoint.output_index
            && told@ == cause,
{
}

/// The heights to read rise without a repetition.
pub proof fn law_heights_are_read_in_order(heights: Seq<BlockHeight>)
    ensures
        heights_rise(heights) <==> forall|i: int, j: int|
            0 <= i < j < heights.len() ==> #[trigger] heights[i].0 < #[trigger] heights[j].0,
{
}

/// A height is read exactly where a located outpoint stands at it.
pub proof fn law_only_producing_heights_are_read(
    located: Seq<LocatedOutPoint>,
    height: BlockHeight,
)
    ensures
        stands_at(located, height) <==> exists|i: int|
            0 <= i < located.len() && (#[trigger] located[i]).block_height.0 == height.0,
{
}

/// An outpoint is asked for exactly where a request spends it.
pub proof fn law_only_spent_outpoints_are_asked_for(
    requests: Seq<TransparentSpendReference>,
    outpoint: TransparentOutPoint,
)
    ensures
        asks_for(requests, outpoint) <==> exists|i: int|
            0 <= i < requests.len() && (#[trigger] requests[i]).spent_outpoint == outpoint,
{
}

/// The balances of a range are those of its transactions, each under the
/// identifier of its transaction, block by block and in block order.
pub proof fn law_balances_grow_by_each_block(
    blocks: Seq<CanonicalBlockFacts>,
    next: CanonicalBlockFacts,
)
    ensures
        range_balances(Seq::empty()).len() == 0,
        ({
            let before = range_balances(blocks);
            let after = range_balances(blocks.push(next));
            &&& after.len() == before.len() + next.transactions@.len()
            &&& after.take(before.len() as int) == before
            &&& forall|t: int|
                0 <= t < next.transactions@.len() ==> {
                    &&& (#[trigger] after[before.len() + t]).0
                        == next.transactions@[t].public_facts.transaction_id
                    &&& after[before.len() + t].1 == next.transactions@[t].intrinsic_value_balances
                }
        }),
{
    assert(blocks.push(next).drop_last() =~= blocks);
    let before = range_balances(blocks);
    let after = range_balances(blocks.push(next));
    assert(after.take(before.len() as int) =~= before);
}

/// A transaction's balance is the last one recorded under its identifier.
pub proof fn law_last_balance_is_read(
    entries: Seq<(TransactionId, TransactionIntrinsicValueBalances)>,
    transaction_id: TransactionId,
)
    ensures
        match last_balance(entries, transaction_id) {
            Some(balance) => exists|e: int|
                {
                    &&& 0 <= e < entries.len()
                    &&& (#[trigger] entries[e]).0 == transaction_id
                    &&& entries[e].1 == balance
                    &&& forall|later: int|
                        e < later < entries.len() ==> (#[trigger] entries[later]).0
                            != transaction_id
                },
            None => forall|e: int|
                0 <= e < entries.len() ==> (#[trigger] entries[e]).0 != transaction_id,
        },
    decreases entries.len(),
{
    if entries.len() > 0 {
        let last = entries.len() - 1;
        assert(entries[last] == entries.last());
        if entries.last().0 != transaction_id {
            let rest = entries.drop_last();
            law_last_balance_is_read(rest, transaction_id);
            match last_balance(rest, transaction_id) {
                Some(balance) => {
                    let e = choose|e: int|
                        {
                            &&& 0 <= e < rest.len()
                            &&& (#[trigger] rest[e]).0 == transaction_id
                            &&& rest[e].1 == balance
                            &&& forall|later: int|
                                e < later < rest.len() ==> (#[trigger] rest[later]).0
                                    != transaction_id
                        };
                    assert(entries[e] == rest[e]);
                    assert forall|later: int| e < later < entries.len() implies (
                    #[trigger] entries[later]).0 != transaction_id by {
                        if later < last {
                            assert(rest[later] == entries[later]);
                        }
                    }
                },
                None => {
                    assert forall|e: int| 0 <= e < entries.len() implies (
                    #[trigger] entries[e]).0 != transaction_id by {
                        if e < last {
                            assert(rest[e] == entries[e]);
                        }
                    }
                },
            }
        }
    }
}

/// The input of a block carries the header's height, hashes, time and size, the
/// final roots, and one fact row per transaction, at its place and with its
/// own facts.
pub proof fn law_block_input_carries_its_block(
    input: BlockCommitInput,
    block: CanonicalBlockFacts,
    roots: Option<BlockFinalNoteCommitmentRoots>,
)
    requires
        block.transactions@.len() <= 0x1_0000_0000,
        is_block_input(input, block, roots),
    ensures
        input.height == block.block_header.height,
        input.block_hash == block.block_header.block_hash,
        input.previous_block_hash == block.block_header.parent_hash,
        input.block_time_unix_seconds == block.block_header.block_time,
        input.block_size_bytes == block.block_header.block_size_bytes,
        input.final_note_commitment_roots == roots,
        input.transactions@.len() == block.transactions@.len(),
        forall|t: int|
            0 <= t < block.transactions@.len() ==> {
                let row = #[trigger] input.transactions@[t];
                let transaction = block.transactions@[t];
                &&& row.location.transaction_id == transaction.public_facts.transaction_id
                &&& row.location.block_height == block.block_header.height
                &&& row.location.block_hash == block.block_header.block_hash
                &&& row.location.tx_index_in_block == t
                &&& row.public_facts == transaction.public_facts
                &&& row.transparent_inputs == transaction.transparent_inputs
                &&& row.transparent_outputs == transaction.transparent_outputs
            },
{
    assert forall|t: int| 0 <= t < block.transactions@.len() implies {
        let row = #[trigger] input.transactions@[t];
        let transaction = block.transactions@[t];
        &&& row.location.transaction_id == transaction.public_facts.transaction_id
        &&& row.location.block_height == block.block_header.height
        &&& row.location.block_hash == block.block_header.block_hash
        &&& row.location.tx_index_in_block == t
        &&& row.public_facts == transaction.public_facts
        &&& row.transparent_inputs == transaction.transparent_inputs
        &&& row.transparent_outputs == transaction.transparent_outputs
    } by {
        assert(is_fact_row(
            input.transactions@[t],
            block.block_header,
            block.transactions@[t],
            t,
        ));
    }
}

proof fn lemma_roots_left(
    roots: Map<u32, BlockFinalNoteCommitmentRoots>,
    blocks: Seq<CanonicalBlockFacts>,
    height: u32,
)
    ensures
        roots_left(roots, blocks).contains_key(height) <==> roots.contains_key(height) && forall|
            i: int,
        |
            0 <= i < blocks.len() ==> (#[trigger] blocks[i]).block_header.height.0 != height,
        roots_left(roots, blocks).contains_key(height) ==> roots_left(roots, blocks)[height]
            == roots[height],
    decreases blocks.len(),
{
    if blocks.len() > 0 {
        let rest = blocks.drop_last();
        lemma_roots_left(roots, rest, height);
        assert(blocks[blocks.len() - 1] == blocks.last());
        assert forall|i: int| 0 <= i < rest.len() implies rest[i] == #[trigger] blocks[i] by {}
        if forall|i: int|
            0 <= i < blocks.len() ==> (#[trigger] blocks[i]).block_header.height.0 != height {
            assert forall|i: int| 0 <= i < rest.len() implies (
            #[trigger] rest[i]).block_header.height.0 != height by {
                assert(blocks[i] == rest[i]);
            }
        }
        if (forall|i: int|
            0 <= i < rest.len() ==> (#[trigger] rest[i]).block_header.height.0 != height)
            && blocks.last().block_header.height.0 != height {
            assert forall|i: int| 0 <= i < blocks.len() implies (
            #[trigger] blocks[i]).block_header.height.0 != height by {
                if i < rest.len() {
                    assert(rest[i] == blocks[i]);
                }
            }
        }
    }
}

/// A block takes the roots recorded at its height; they are taken once, by the
/// first block at that height.
pub proof fn law_roots_are_taken_once_at_their_height(
    roots: Map<u32, BlockFinalNoteCommitmentRoots>,
    blocks: Seq<CanonicalBlockFacts>,
    position: int,
)
    requires
        0 <= position < blocks.len(),
    ensures
        ({
            let height = blocks[position].block_header.height.0;
            let first = forall|i: int|
                0 <= i < position ==> (#[trigger] blocks[i]).block_header.height.0 != height;
            roots_taken(roots, blocks, position) == if first && roots.contains_key(height) {
                Some(roots[height])
            } else {
                None
            }
        }),
{
    let height = blocks[position].block_header.height.0;
    let earlier = blocks.take(position);
    lemma_roots_left(roots, earlier, height);
    assert forall|i: int| 0 <= i < position implies earlier[i] == #[trigger] blocks[i] by {}
    if forall|i: int|
        0 <= i < position ==> (#[trigger] blocks[i]).block_header.height.0 != height {
        assert forall|i: int| 0 <= i < earlier.len() implies (
        #[trigger] earlier[i]).block_header.height.0 != height by {
            assert(blocks[i] == earlier[i]);
        }
    }
}

/// The first fault among located outpoints stands at the height in question, is
/// one, and no outpoint of that height before it has any.
pub proof fn law_first_located_fault_has_none_before(
    located: Seq<LocatedOutPoint>,
    height: BlockHeight,
    block: Option<CanonicalBlockFacts>,
    at: int,
)
    requires
        first_located_fault(located, height, block, at),
    ensures
        0 <= at < located.len(),
        located[at].block_height == height,
        located_fault(located[at], block) is Some,
        forall|i: int|
            0 <= i < at && (#[trigger] located[i]).block_height == height ==> located_fault(
                located[i],
                block,
            ) is None,
{
}

} // verus!
