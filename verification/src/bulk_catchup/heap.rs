//! Memory that prepared blocks hold while they wait to be committed.
//!
//! A vector may have room for more items than it holds. How much room is up to
//! the allocator, so a measure is stated over some capacities that cover the
//! lengths.

use crate::artifact_builder::PreparedCanonicalBlock;
use crate::artifacts::{
    CanonicalBlockFacts, CanonicalTransactionFacts, CompactBlock, CompactOrchardAction,
    CompactSaplingOutput, CompactSaplingSpend, CompactTx, CompactTxIn, CompactTxOut,
    TransparentOutputArtifact, TransparentOutputFact,
};
use crate::batch::{clipped, prefetched_spent_transparent_output_bytes, prefetched_total};
use crate::bounds::{capped, larger, usize_to_u64_saturating};
use core::mem::size_of;
use vstd::prelude::*;

verus! {

/// Bytes of prepare-time memory per raw byte of a block.
///
/// One active prepare temporarily owns the source bytes, the decoded block,
/// canonical facts, replay bytes, compact artifacts, and, where everything is
/// kept, two raw retention copies. The factor deliberately leaves headroom for
/// decoded collections and allocator overhead.
pub const BLOCK_PREPARE_PEAK_RAW_BYTE_MULTIPLIER: u64 = 16;

/// Bytes of prepare-time memory that every block takes.
pub const BLOCK_PREPARE_FIXED_PEAK_BYTES: u64 = 65_536;

/// Length and item size of one vector.
pub struct VectorShape {
    pub len: nat,
    pub item_bytes: nat,
}

/// Shape of a vector.
pub open spec fn shape<T>(items: Vec<T>) -> VectorShape {
    VectorShape { len: items@.len(), item_bytes: vstd::layout::size_of::<T>() }
}

/// Bytes of vectors of some shapes that have room for some numbers of items.
pub open spec fn allocated(shapes: Seq<VectorShape>, capacities: Seq<nat>) -> int
    decreases shapes.len(),
{
    if shapes.len() == 0 {
        0
    } else {
        allocated(shapes.drop_last(), capacities.drop_last()) + capacities.last()
            * shapes.last().item_bytes
    }
}

/// Whether there is room for the items of every vector.
pub open spec fn cover(capacities: Seq<nat>, shapes: Seq<VectorShape>) -> bool {
    &&& capacities.len() == shapes.len()
    &&& forall|i: int|
        0 <= i < shapes.len() ==> #[trigger] capacities[i] >= (#[trigger] shapes[i]).len
}

/// Whether some bytes measure what vectors of some shapes allocated.
pub open spec fn measures(bytes: usize, shapes: Seq<VectorShape>) -> bool {
    exists|capacities: Seq<nat>|
        #[trigger] cover(capacities, shapes) && bytes == clipped(allocated(shapes, capacities))
}

/// `Vec::capacity`: the number of items a vector has room for, which is at
/// least its length. How much larger it is, is left open.
#[verifier::external_body]
pub(crate) fn capacity_of<T>(items: &Vec<T>) -> (capacity: usize)
    ensures
        capacity >= items@.len(),
{
    items.capacity()
}

/// Bytes of a vector of `T` with room for some items.
pub fn vector_allocation_bytes<T>(capacity: usize) -> (bytes: usize)
    ensures
        bytes == clipped(capacity * vstd::layout::size_of::<T>()),
{
    let item_bytes: usize = size_of::<T>();
    match capacity.checked_mul(item_bytes) {
        Some(bytes) => bytes,
        None => usize::MAX,
    }
}

/// Running measure of the vectors visited so far.
pub struct HeapTally {
    pub bytes: usize,
    pub shapes: Ghost<Seq<VectorShape>>,
    pub capacities: Ghost<Seq<nat>>,
}

proof fn lemma_allocated_is_nonnegative(shapes: Seq<VectorShape>, capacities: Seq<nat>)
    ensures
        allocated(shapes, capacities) >= 0,
    decreases shapes.len(),
{
    if shapes.len() > 0 {
        lemma_allocated_is_nonnegative(shapes.drop_last(), capacities.drop_last());
        assert(capacities.last() * shapes.last().item_bytes >= 0) by (nonlinear_arith);
    }
}

impl HeapTally {
    /// Whether the bytes measure the vectors visited so far.
    pub open spec fn well_formed(self) -> bool {
        &&& cover(self.capacities@, self.shapes@)
        &&& self.bytes == clipped(allocated(self.shapes@, self.capacities@))
    }

    /// Starts before the first vector.
    pub fn new() -> (tally: Self)
        ensures
            tally.well_formed(),
            tally.shapes@ == Seq::<VectorShape>::empty(),
    {
        HeapTally { bytes: 0, shapes: Ghost(Seq::empty()), capacities: Ghost(Seq::empty()) }
    }

    /// Counts one more vector of `T`, which holds some items and has room for
    /// some.
    pub fn count<T>(&mut self, len: usize, capacity: usize)
        requires
            old(self).well_formed(),
            len <= capacity,
        ensures
            final(self).well_formed(),
            final(self).shapes@ == old(self).shapes@.push(
                VectorShape { len: len as nat, item_bytes: vstd::layout::size_of::<T>() },
            ),
            final(self).capacities@ == old(self).capacities@.push(capacity as nat),
            final(self).bytes == clipped(
                old(self).bytes + capacity * vstd::layout::size_of::<T>(),
            ),
    {
        let ghost before = *self;
        let ghost counted = VectorShape {
            len: len as nat,
            item_bytes: vstd::layout::size_of::<T>(),
        };
        self.bytes = self.bytes.saturating_add(vector_allocation_bytes::<T>(capacity));
        proof {
            lemma_allocated_is_nonnegative(before.shapes@, before.capacities@);
            let item_bytes = vstd::layout::size_of::<T>();
            assert(capacity * item_bytes >= 0) by (nonlinear_arith);
        }
        self.shapes = Ghost(before.shapes@.push(counted));
        self.capacities = Ghost(before.capacities@.push(capacity as nat));
        assert(self.shapes@.drop_last() =~= before.shapes@);
        assert(self.capacities@.drop_last() =~= before.capacities@);
        assert forall|i: int| 0 <= i < self.shapes@.len() implies #[trigger] self.capacities@[i]
            >= (#[trigger] self.shapes@[i]).len by {
            if i < before.shapes@.len() {
                assert(before.capacities@[i] >= before.shapes@[i].len);
            }
        }
    }

    /// Counts one more vector with the room that it has.
    pub fn visit<T>(&mut self, items: &Vec<T>)
        requires
            old(self).well_formed(),
        ensures
            final(self).well_formed(),
            final(self).shapes@ == old(self).shapes@.push(shape(*items)),
            final(self).capacities@.drop_last() == old(self).capacities@,
    {
        let capacity: usize = capacity_of(items);
        let ghost before = self.capacities@;
        self.count::<T>(items.len(), capacity);
        assert(self.capacities@.drop_last() =~= before);
    }
}

/// Shapes of a run of lists of shapes, one after the other.
pub open spec fn joined(lists: Seq<Seq<VectorShape>>) -> Seq<VectorShape>
    decreases lists.len(),
{
    if lists.len() == 0 {
        Seq::empty()
    } else {
        joined(lists.drop_last()) + lists.last()
    }
}

/// Shapes inside one transparent output fact.
pub open spec fn output_fact_shapes(output: TransparentOutputFact) -> Seq<VectorShape> {
    seq![shape(output.script_pub_key)]
}

/// Shapes inside the facts of one transaction, retained raw bytes left out.
pub open spec fn transaction_fact_shapes(transaction: CanonicalTransactionFacts) -> Seq<
    VectorShape,
> {
    seq![
        shape(transaction.public_facts.unsupported_sections),
        shape(transaction.transparent_inputs),
        shape(transaction.transparent_outputs),
    ] + joined(
        transaction.transparent_outputs@.map_values(
            |output: TransparentOutputFact| output_fact_shapes(output),
        ),
    )
}

/// Shapes inside the facts of one block, retained raw bytes left out.
pub open spec fn block_fact_shapes(facts: CanonicalBlockFacts) -> Seq<VectorShape> {
    seq![shape(facts.transactions)] + joined(
        facts.transactions@.map_values(
            |transaction: CanonicalTransactionFacts| transaction_fact_shapes(transaction),
        ),
    )
}

/// Shapes inside one compact output.
pub open spec fn sapling_output_shapes(output: CompactSaplingOutput) -> Seq<VectorShape> {
    seq![shape(output.cmu), shape(output.ephemeral_key), shape(output.ciphertext)]
}

/// Shapes inside one compact action.
pub open spec fn action_shapes(action: CompactOrchardAction) -> Seq<VectorShape> {
    seq![
        shape(action.nullifier),
        shape(action.cmx),
        shape(action.ephemeral_key),
        shape(action.ciphertext),
    ]
}

/// Shapes inside one compact transaction.
pub open spec fn compact_transaction_shapes(transaction: CompactTx) -> Seq<VectorShape> {
    seq![
        shape(transaction.txid),
        shape(transaction.spends),
        shape(transaction.outputs),
        shape(transaction.actions),
        shape(transaction.ironwood_actions),
        shape(transaction.vin),
        shape(transaction.vout),
    ] + joined(
        transaction.spends@.map_values(|spend: CompactSaplingSpend| seq![shape(spend.nf)]),
    ) + joined(
        transaction.outputs@.map_values(
            |output: CompactSaplingOutput| sapling_output_shapes(output),
        ),
    ) + joined(
        transaction.actions@.map_values(|action: CompactOrchardAction| action_shapes(action)),
    ) + joined(
        transaction.ironwood_actions@.map_values(
            |action: CompactOrchardAction| action_shapes(action),
        ),
    ) + joined(
        transaction.vin@.map_values(|input: CompactTxIn| seq![shape(input.prevout_txid)]),
    ) + joined(
        transaction.vout@.map_values(|output: CompactTxOut| seq![shape(output.script_pub_key)]),
    )
}

/// Shapes inside one compact block.
pub open spec fn compact_block_shapes(block: CompactBlock) -> Seq<VectorShape> {
    seq![shape(block.hash), shape(block.prev_hash), shape(block.header), shape(block.vtx)]
        + joined(
        block.vtx@.map_values(|transaction: CompactTx| compact_transaction_shapes(transaction)),
    )
}

fn visit_transaction_facts(tally: &mut HeapTally, transaction: &CanonicalTransactionFacts)
    requires
        old(tally).well_formed(),
    ensures
        final(tally).well_formed(),
        final(tally).shapes@ == old(tally).shapes@ + transaction_fact_shapes(*transaction),
{
    let ghost before = tally.shapes@;
    tally.visit(&transaction.public_facts.unsupported_sections);
    tally.visit(&transaction.transparent_inputs);
    tally.visit(&transaction.transparent_outputs);
    let ghost lists = transaction.transparent_outputs@.map_values(
        |output: TransparentOutputFact| output_fact_shapes(output),
    );
    let ghost own = seq![
        shape(transaction.public_facts.unsupported_sections),
        shape(transaction.transparent_inputs),
        shape(transaction.transparent_outputs),
    ];
    let mut i: usize = 0;
    assert(tally.shapes@ =~= before + own + joined(lists.take(0)));
    while i < transaction.transparent_outputs.len()
        invariant
            0 <= i <= transaction.transparent_outputs@.len(),
            tally.well_formed(),
            lists == transaction.transparent_outputs@.map_values(
                |output: TransparentOutputFact| output_fact_shapes(output),
            ),
            tally.shapes@ == before + own + joined(lists.take(i as int)),
        decreases transaction.transparent_outputs@.len() - i,
    {
        tally.visit(&transaction.transparent_outputs[i].script_pub_key);
        assert(lists.take(i + 1).drop_last() =~= lists.take(i as int));
        assert(tally.shapes@ =~= before + own + joined(lists.take(i + 1)));
        i += 1;
    }
    assert(lists.take(i as int) =~= lists);
    assert(tally.shapes@ =~= before + transaction_fact_shapes(*transaction));
}

/// Measures the heap memory of a block's facts, retained raw bytes left out.
pub fn canonical_block_facts_heap_bytes(facts: &CanonicalBlockFacts) -> (bytes: usize)
    ensures
        measures(bytes, block_fact_shapes(*facts)),
{
    let mut tally = HeapTally::new();
    tally.visit(&facts.transactions);
    let ghost lists = facts.transactions@.map_values(
        |transaction: CanonicalTransactionFacts| transaction_fact_shapes(transaction),
    );
    let ghost own = seq![shape(facts.transactions)];
    let mut i: usize = 0;
    assert(tally.shapes@ =~= own + joined(lists.take(0)));
    while i < facts.transactions.len()
        invariant
            0 <= i <= facts.transactions@.len(),
            tally.well_formed(),
            lists == facts.transactions@.map_values(
                |transaction: CanonicalTransactionFacts| transaction_fact_shapes(transaction),
            ),
            tally.shapes@ == own + joined(lists.take(i as int)),
        decreases facts.transactions@.len() - i,
    {
        visit_transaction_facts(&mut tally, &facts.transactions[i]);
        assert(lists.take(i + 1).drop_last() =~= lists.take(i as int));
        assert(tally.shapes@ =~= own + joined(lists.take(i + 1)));
        i += 1;
    }
    assert(lists.take(i as int) =~= lists);
    assert(tally.shapes@ =~= block_fact_shapes(*facts));
    assert(cover(tally.capacities@, block_fact_shapes(*facts)));
    tally.bytes
}

fn visit_actions(tally: &mut HeapTally, actions: &Vec<CompactOrchardAction>)
    requires
        old(tally).well_formed(),
    ensures
        final(tally).well_formed(),
        final(tally).shapes@ == old(tally).shapes@ + joined(
            actions@.map_values(|action: CompactOrchardAction| action_shapes(action)),
        ),
{
    let ghost before = tally.shapes@;
    let ghost lists = actions@.map_values(|action: CompactOrchardAction| action_shapes(action));
    let mut i: usize = 0;
    assert(tally.shapes@ =~= before + joined(lists.take(0)));
    while i < actions.len()
        invariant
            0 <= i <= actions@.len(),
            tally.well_formed(),
            lists == actions@.map_values(|action: CompactOrchardAction| action_shapes(action)),
            tally.shapes@ == before + joined(lists.take(i as int)),
        decreases actions@.len() - i,
    {
        tally.visit(&actions[i].nullifier);
        tally.visit(&actions[i].cmx);
        tally.visit(&actions[i].ephemeral_key);
        tally.visit(&actions[i].ciphertext);
        assert(lists.take(i + 1).drop_last() =~= lists.take(i as int));
        assert(tally.shapes@ =~= before + joined(lists.take(i + 1)));
        i += 1;
    }
    assert(lists.take(i as int) =~= lists);
}

fn visit_sapling(tally: &mut HeapTally, transaction: &CompactTx)
    requires
        old(tally).well_formed(),
    ensures
        final(tally).well_formed(),
        final(tally).shapes@ == old(tally).shapes@ + joined(
            transaction.spends@.map_values(|spend: CompactSaplingSpend| seq![shape(spend.nf)]),
        ) + joined(
            transaction.outputs@.map_values(
                |output: CompactSaplingOutput| sapling_output_shapes(output),
            ),
        ),
{
    let ghost before = tally.shapes@;
    let ghost spends = transaction.spends@.map_values(
        |spend: CompactSaplingSpend| seq![shape(spend.nf)],
    );
    let mut i: usize = 0;
    assert(tally.shapes@ =~= before + joined(spends.take(0)));
    while i < transaction.spends.len()
        invariant
            0 <= i <= transaction.spends@.len(),
            tally.well_formed(),
            spends == transaction.spends@.map_values(
                |spend: CompactSaplingSpend| seq![shape(spend.nf)],
            ),
            tally.shapes@ == before + joined(spends.take(i as int)),
        decreases transaction.spends@.len() - i,
    {
        tally.visit(&transaction.spends[i].nf);
        assert(spends.take(i + 1).drop_last() =~= spends.take(i as int));
        assert(tally.shapes@ =~= before + joined(spends.take(i + 1)));
        i += 1;
    }
    assert(spends.take(i as int) =~= spends);
    let ghost middle = tally.shapes@;
    let ghost outputs = transaction.outputs@.map_values(
        |output: CompactSaplingOutput| sapling_output_shapes(output),
    );
    let mut j: usize = 0;
    assert(tally.shapes@ =~= middle + joined(outputs.take(0)));
    while j < transaction.outputs.len()
        invariant
            0 <= j <= transaction.outputs@.len(),
            tally.well_formed(),
            outputs == transaction.outputs@.map_values(
                |output: CompactSaplingOutput| sapling_output_shapes(output),
            ),
            tally.shapes@ == middle + joined(outputs.take(j as int)),
        decreases transaction.outputs@.len() - j,
    {
        tally.visit(&transaction.outputs[j].cmu);
        tally.visit(&transaction.outputs[j].ephemeral_key);
        tally.visit(&transaction.outputs[j].ciphertext);
        assert(outputs.take(j + 1).drop_last() =~= outputs.take(j as int));
        assert(tally.shapes@ =~= middle + joined(outputs.take(j + 1)));
        j += 1;
    }
    assert(outputs.take(j as int) =~= outputs);
}

fn visit_transparent(tally: &mut HeapTally, transaction: &CompactTx)
    requires
        old(tally).well_formed(),
    ensures
        final(tally).well_formed(),
        final(tally).shapes@ == old(tally).shapes@ + joined(
            transaction.vin@.map_values(|input: CompactTxIn| seq![shape(input.prevout_txid)]),
        ) + joined(
            transaction.vout@.map_values(
                |output: CompactTxOut| seq![shape(output.script_pub_key)],
            ),
        ),
{
    let ghost before = tally.shapes@;
    let ghost inputs = transaction.vin@.map_values(
        |input: CompactTxIn| seq![shape(input.prevout_txid)],
    );
    let mut i: usize = 0;
    assert(tally.shapes@ =~= before + joined(inputs.take(0)));
    while i < transaction.vin.len()
        invariant
            0 <= i <= transaction.vin@.len(),
            tally.well_formed(),
            inputs == transaction.vin@.map_values(
                |input: CompactTxIn| seq![shape(input.prevout_txid)],
            ),
            tally.shapes@ == before + joined(inputs.take(i as int)),
        decreases transaction.vin@.len() - i,
    {
        tally.visit(&transaction.vin[i].prevout_txid);
        assert(inputs.take(i + 1).drop_last() =~= inputs.take(i as int));
        assert(tally.shapes@ =~= before + joined(inputs.take(i + 1)));
        i += 1;
    }
    assert(inputs.take(i as int) =~= inputs);
    let ghost middle = tally.shapes@;
    let ghost outputs = transaction.vout@.map_values(
        |output: CompactTxOut| seq![shape(output.script_pub_key)],
    );
    let mut j: usize = 0;
    assert(tally.shapes@ =~= middle + joined(outputs.take(0)));
    while j < transaction.vout.len()
        invariant
            0 <= j <= transaction.vout@.len(),
            tally.well_formed(),
            outputs == transaction.vout@.map_values(
                |output: CompactTxOut| seq![shape(output.script_pub_key)],
            ),
            tally.shapes@ == middle + joined(outputs.take(j as int)),
        decreases transaction.vout@.len() - j,
    {
        tally.visit(&transaction.vout[j].script_pub_key);
        assert(outputs.take(j + 1).drop_last() =~= outputs.take(j as int));
        assert(tally.shapes@ =~= middle + joined(outputs.take(j + 1)));
        j += 1;
    }
    assert(outputs.take(j as int) =~= outputs);
}

fn visit_compact_transaction(tally: &mut HeapTally, transaction: &CompactTx)
    requires
        old(tally).well_formed(),
    ensures
        final(tally).well_formed(),
        final(tally).shapes@ == old(tally).shapes@ + compact_transaction_shapes(*transaction),
{
    let ghost before = tally.shapes@;
    tally.visit(&transaction.txid);
    tally.visit(&transaction.spends);
    tally.visit(&transaction.outputs);
    tally.visit(&transaction.actions);
    tally.visit(&transaction.ironwood_actions);
    tally.visit(&transaction.vin);
    tally.visit(&transaction.vout);
    let ghost own = seq![
        shape(transaction.txid),
        shape(transaction.spends),
        shape(transaction.outputs),
        shape(transaction.actions),
        shape(transaction.ironwood_actions),
        shape(transaction.vin),
        shape(transaction.vout),
    ];
    assert(tally.shapes@ =~= before + own);
    visit_sapling(tally, transaction);
    visit_actions(tally, &transaction.actions);
    visit_actions(tally, &transaction.ironwood_actions);
    visit_transparent(tally, transaction);
    assert(tally.shapes@ =~= before + compact_transaction_shapes(*transaction));
}

/// Measures the heap memory of a compact block.
pub fn compact_block_heap_bytes(block: &CompactBlock) -> (bytes: usize)
    ensures
        measures(bytes, compact_block_shapes(*block)),
{
    let mut tally = HeapTally::new();
    tally.visit(&block.hash);
    tally.visit(&block.prev_hash);
    tally.visit(&block.header);
    tally.visit(&block.vtx);
    let ghost lists = block.vtx@.map_values(
        |transaction: CompactTx| compact_transaction_shapes(transaction),
    );
    let ghost own = seq![
        shape(block.hash),
        shape(block.prev_hash),
        shape(block.header),
        shape(block.vtx),
    ];
    let mut i: usize = 0;
    assert(tally.shapes@ =~= own + joined(lists.take(0)));
    while i < block.vtx.len()
        invariant
            0 <= i <= block.vtx@.len(),
            tally.well_formed(),
            lists == block.vtx@.map_values(
                |transaction: CompactTx| compact_transaction_shapes(transaction),
            ),
            tally.shapes@ == own + joined(lists.take(i as int)),
        decreases block.vtx@.len() - i,
    {
        visit_compact_transaction(&mut tally, &block.vtx[i]);
        assert(lists.take(i + 1).drop_last() =~= lists.take(i as int));
        assert(tally.shapes@ =~= own + joined(lists.take(i + 1)));
        i += 1;
    }
    assert(lists.take(i as int) =~= lists);
    assert(tally.shapes@ =~= compact_block_shapes(*block));
    assert(cover(tally.capacities@, compact_block_shapes(*block)));
    tally.bytes
}

/// Shapes of the retained raw bytes of a run of transactions.
pub open spec fn retained_transaction_shapes(
    transactions: Seq<CanonicalTransactionFacts>,
) -> Seq<VectorShape>
    decreases transactions.len(),
{
    if transactions.len() == 0 {
        Seq::empty()
    } else {
        let before = retained_transaction_shapes(transactions.drop_last());
        match transactions.last().raw_transaction_bytes {
            Some(bytes) => before.push(shape(bytes)),
            None => before,
        }
    }
}

/// Shapes of the retained raw bytes of a block as a whole.
pub open spec fn retained_block_shapes(raw_block_bytes: Option<Vec<u8>>) -> Seq<VectorShape> {
    match raw_block_bytes {
        Some(bytes) => seq![shape(bytes)],
        None => Seq::empty(),
    }
}

/// Shapes of the retained raw bytes of one block and its transactions.
pub open spec fn retained_blob_shapes(facts: CanonicalBlockFacts) -> Seq<VectorShape> {
    retained_block_shapes(facts.raw_block_bytes) + retained_transaction_shapes(
        facts.transactions@,
    )
}

/// Measures the heap memory of a block's retained raw bytes.
pub fn retained_raw_blob_heap_bytes(facts: &CanonicalBlockFacts) -> (bytes: usize)
    ensures
        measures(bytes, retained_blob_shapes(*facts)),
{
    let mut tally = HeapTally::new();
    if let Some(raw_block_bytes) = &facts.raw_block_bytes {
        tally.visit(raw_block_bytes);
    }
    let ghost own = retained_block_shapes(facts.raw_block_bytes);
    let mut i: usize = 0;
    assert(tally.shapes@ =~= own + retained_transaction_shapes(facts.transactions@.take(0)));
    while i < facts.transactions.len()
        invariant
            0 <= i <= facts.transactions@.len(),
            tally.well_formed(),
            tally.shapes@ == own + retained_transaction_shapes(facts.transactions@.take(i as int)),
        decreases facts.transactions@.len() - i,
    {
        if let Some(raw_transaction_bytes) = &facts.transactions[i].raw_transaction_bytes {
            tally.visit(raw_transaction_bytes);
        }
        assert(facts.transactions@.take(i + 1).drop_last() =~= facts.transactions@.take(i as int));
        assert(tally.shapes@ =~= own + retained_transaction_shapes(
            facts.transactions@.take(i + 1),
        ));
        i += 1;
    }
    assert(facts.transactions@.take(i as int) =~= facts.transactions@);
    assert(tally.shapes@ =~= retained_blob_shapes(*facts));
    assert(cover(tally.capacities@, retained_blob_shapes(*facts)));
    tally.bytes
}

/// Estimated peak memory of preparing a block whose raw bytes have some capacity.
pub open spec fn peak_estimate(raw_block_capacity: int) -> int {
    capped(
        BLOCK_PREPARE_FIXED_PEAK_BYTES + larger(raw_block_capacity, 1)
            * BLOCK_PREPARE_PEAK_RAW_BYTE_MULTIPLIER,
        u64::MAX as int,
    )
}

/// Estimates the peak memory of preparing a block.
pub fn estimated_peak_block_prepare_bytes(raw_block_capacity: usize) -> (bytes: u64)
    ensures
        bytes == peak_estimate(raw_block_capacity as int),
{
    let counted: usize = if raw_block_capacity > 1 {
        raw_block_capacity
    } else {
        1
    };
    let scaled: u64 = match usize_to_u64_saturating(counted).checked_mul(
        BLOCK_PREPARE_PEAK_RAW_BYTE_MULTIPLIER,
    ) {
        Some(scaled) => scaled,
        None => u64::MAX,
    };
    BLOCK_PREPARE_FIXED_PEAK_BYTES.saturating_add(scaled)
}

/// Bytes that a prepared block holds, of which some are in its facts, in its
/// encoded replay facts, in its compact block and in its retained raw bytes.
pub open spec fn resident(
    facts_bytes: usize,
    replay_envelope_bytes: usize,
    compact_bytes: usize,
    blob_bytes: usize,
) -> int {
    clipped(
        vstd::layout::size_of::<PreparedCanonicalBlock>() + facts_bytes + replay_envelope_bytes
            + compact_bytes + blob_bytes,
    )
}

/// Adds up the bytes that a prepared block holds.
pub fn resident_bytes(
    facts_bytes: usize,
    replay_envelope_bytes: usize,
    compact_bytes: usize,
    blob_bytes: usize,
) -> (bytes: u64)
    ensures
        bytes == resident(facts_bytes, replay_envelope_bytes, compact_bytes, blob_bytes),
{
    let held_bytes: usize = size_of::<PreparedCanonicalBlock>().saturating_add(
        facts_bytes,
    ).saturating_add(replay_envelope_bytes).saturating_add(compact_bytes).saturating_add(
        blob_bytes,
    );
    usize_to_u64_saturating(held_bytes)
}

/// Whether some bytes are those that a prepared block holds.
pub open spec fn is_resident(
    bytes: u64,
    prepared: PreparedCanonicalBlock,
    replay_envelope_bytes: usize,
) -> bool {
    exists|facts_bytes: usize, compact_bytes: usize, blob_bytes: usize|
        #![trigger measures(facts_bytes, block_fact_shapes(prepared.facts)), measures(
            compact_bytes,
            compact_block_shapes(prepared.partial_compact_block),
        ), measures(blob_bytes, retained_blob_shapes(prepared.facts))]
        {
            &&& measures(facts_bytes, block_fact_shapes(prepared.facts))
            &&& measures(compact_bytes, compact_block_shapes(prepared.partial_compact_block))
            &&& measures(blob_bytes, retained_blob_shapes(prepared.facts))
            &&& bytes == resident(
                facts_bytes,
                replay_envelope_bytes,
                compact_bytes,
                blob_bytes,
            )
        }
}

/// Measures the memory that a prepared block holds, with its encoded replay facts.
pub fn prepared_block_resident_bytes(
    prepared: &PreparedCanonicalBlock,
    replay_envelope_bytes: usize,
) -> (bytes: u64)
    ensures
        is_resident(bytes, *prepared, replay_envelope_bytes),
{
    let facts_bytes: usize = canonical_block_facts_heap_bytes(&prepared.facts);
    let compact_bytes: usize = compact_block_heap_bytes(&prepared.partial_compact_block);
    let blob_bytes: usize = retained_raw_blob_heap_bytes(&prepared.facts);
    resident_bytes(facts_bytes, replay_envelope_bytes, compact_bytes, blob_bytes)
}

/// Bytes that a block holds once some outputs were fetched for it.
pub open spec fn resident_with(
    prepared_bytes: u64,
    prefetched: Seq<TransparentOutputArtifact>,
) -> int {
    capped(prepared_bytes + clipped(prefetched_total(prefetched)), u64::MAX as int)
}

/// Adds the bytes of the outputs that were fetched for a block.
pub fn resident_bytes_with(
    prepared_bytes: u64,
    prefetched_spent_transparent_outputs: &Vec<TransparentOutputArtifact>,
) -> (bytes: u64)
    ensures
        bytes == resident_with(prepared_bytes, prefetched_spent_transparent_outputs@),
{
    prepared_bytes.saturating_add(
        usize_to_u64_saturating(
            prefetched_spent_transparent_output_bytes(prefetched_spent_transparent_outputs),
        ),
    )
}

/// Whether some bytes are those that a block holds once its prevouts were resolved.
pub open spec fn is_resident_with_prevouts(
    bytes: u64,
    prepared: PreparedCanonicalBlock,
    replay_envelope_bytes: usize,
    prefetched: Seq<TransparentOutputArtifact>,
) -> bool {
    exists|prepared_bytes: u64| #[trigger]
        is_resident(prepared_bytes, prepared, replay_envelope_bytes) && bytes == resident_with(
            prepared_bytes,
            prefetched,
        )
}

/// Measures the memory that a block holds once its prevouts were resolved.
pub fn block_commit_preparation_resident_bytes(
    prepared: &PreparedCanonicalBlock,
    replay_envelope_bytes: usize,
    prefetched_spent_transparent_outputs: &Vec<TransparentOutputArtifact>,
) -> (bytes: u64)
    ensures
        is_resident_with_prevouts(
            bytes,
            *prepared,
            replay_envelope_bytes,
            prefetched_spent_transparent_outputs@,
        ),
{
    let prepared_bytes: u64 = prepared_block_resident_bytes(prepared, replay_envelope_bytes);
    assert(is_resident(prepared_bytes, *prepared, replay_envelope_bytes));
    resident_bytes_with(prepared_bytes, prefetched_spent_transparent_outputs)
}

/// A vector is measured by its own length and the size of its items.
pub proof fn law_vector_is_measured_as_it_is<T>(items: Vec<T>)
    ensures
        shape(items).len == items@.len(),
        shape(items).item_bytes == vstd::layout::size_of::<T>(),
{
}

/// One more vector adds its capacity times the size of its items.
pub proof fn law_allocation_grows_by_each_vector(
    shapes: Seq<VectorShape>,
    capacities: Seq<nat>,
    next: VectorShape,
    capacity: nat,
)
    ensures
        allocated(Seq::empty(), Seq::empty()) == 0,
        allocated(shapes.push(next), capacities.push(capacity)) == allocated(shapes, capacities)
            + capacity * next.item_bytes,
{
    assert(shapes.push(next).drop_last() =~= shapes);
    assert(capacities.push(capacity).drop_last() =~= capacities);
}

/// Bytes that vectors of given lengths hold at the least.
pub open spec fn held(shapes: Seq<VectorShape>) -> int
    decreases shapes.len(),
{
    if shapes.len() == 0 {
        0
    } else {
        held(shapes.drop_last()) + shapes.last().len * shapes.last().item_bytes
    }
}

proof fn lemma_allocation_covers_what_is_held(shapes: Seq<VectorShape>, capacities: Seq<nat>)
    requires
        cover(capacities, shapes),
    ensures
        allocated(shapes, capacities) >= held(shapes),
    decreases shapes.len(),
{
    if shapes.len() > 0 {
        let rest = shapes.drop_last();
        let rest_capacities = capacities.drop_last();
        assert forall|i: int| 0 <= i < rest.len() implies #[trigger] rest_capacities[i] >= (
        #[trigger] rest[i]).len by {
            assert(capacities[i] >= shapes[i].len);
        }
        lemma_allocation_covers_what_is_held(rest, rest_capacities);
        let last = shapes.len() - 1;
        assert(capacities[last] >= shapes[last].len);
        let capacity = capacities.last();
        let shape = shapes.last();
        assert(capacity * shape.item_bytes >= shape.len * shape.item_bytes) by (nonlinear_arith)
            requires
                capacity >= shape.len,
        ;
    }
}

/// What is measured of vectors is at least what they hold, as far as it can be
/// counted.
pub proof fn law_measure_covers_what_is_held(bytes: usize, shapes: Seq<VectorShape>)
    requires
        measures(bytes, shapes),
    ensures
        bytes >= held(shapes) || bytes == usize::MAX,
{
    let capacities = choose|capacities: Seq<nat>|
        #[trigger] cover(capacities, shapes) && bytes == clipped(allocated(shapes, capacities));
    lemma_allocation_covers_what_is_held(shapes, capacities);
}

/// Joining lists puts each behind those before it.
pub proof fn law_joined_lists_stand_in_order(
    lists: Seq<Seq<VectorShape>>,
    next: Seq<VectorShape>,
)
    ensures
        joined(Seq::empty()).len() == 0,
        joined(lists.push(next)) == joined(lists) + next,
{
    assert(lists.push(next).drop_last() =~= lists);
}

/// The facts of a transaction are measured by their own vectors and by the
/// script of each output.
pub proof fn law_every_vector_of_a_transaction_is_measured(
    transaction: CanonicalTransactionFacts,
    o: int,
)
    requires
        0 <= o < transaction.transparent_outputs@.len(),
    ensures
        ({
            let shapes = transaction_fact_shapes(transaction);
            &&& shapes.len() == 3 + transaction.transparent_outputs@.len()
            &&& shapes[0] == shape(transaction.public_facts.unsupported_sections)
            &&& shapes[1] == shape(transaction.transparent_inputs)
            &&& shapes[2] == shape(transaction.transparent_outputs)
            &&& shapes[3 + o] == shape(transaction.transparent_outputs@[o].script_pub_key)
        }),
{
    let lists = transaction.transparent_outputs@.map_values(
        |output: TransparentOutputFact| output_fact_shapes(output),
    );
    assert forall|i: int| 0 <= i < lists.len() implies (#[trigger] lists[i]).len() == 1 by {}
    lemma_joined_singles(lists, o);
}

proof fn lemma_joined_singles(lists: Seq<Seq<VectorShape>>, o: int)
    requires
        forall|i: int| 0 <= i < lists.len() ==> (#[trigger] lists[i]).len() == 1,
        0 <= o < lists.len(),
    ensures
        joined(lists).len() == lists.len(),
        joined(lists)[o] == lists[o][0],
    decreases lists.len(),
{
    let rest = lists.drop_last();
    assert forall|i: int| 0 <= i < rest.len() implies (#[trigger] rest[i]).len() == 1 by {
        assert(lists[i] == rest[i]);
    }
    assert(lists[lists.len() - 1].len() == 1);
    if rest.len() > 0 {
        let at = if o < rest.len() {
            o
        } else {
            0
        };
        lemma_joined_singles(rest, at);
    }
}

/// The facts of a block are measured by the vector of its transactions and the
/// vectors of each transaction, in block order.
pub proof fn law_every_transaction_of_a_block_is_measured(facts: CanonicalBlockFacts, t: int)
    requires
        0 <= t < facts.transactions@.len(),
    ensures
        ({
            let shapes = block_fact_shapes(facts);
            let own = transaction_fact_shapes(facts.transactions@[t]);
            &&& shapes[0] == shape(facts.transactions)
            &&& exists|start: int|
                1 <= start && start + own.len() <= shapes.len() && #[trigger] shapes.subrange(
                    start,
                    start + own.len(),
                ) == own
        }),
{
    let lists = facts.transactions@.map_values(
        |transaction: CanonicalTransactionFacts| transaction_fact_shapes(transaction),
    );
    let own = transaction_fact_shapes(facts.transactions@[t]);
    let start = lemma_joined_holds_each(lists, t);
    let shapes = block_fact_shapes(facts);
    assert(shapes.subrange(1 + start, 1 + start + own.len()) =~= joined(lists).subrange(
        start,
        start + own.len(),
    ));
}

proof fn lemma_joined_holds_each(lists: Seq<Seq<VectorShape>>, i: int) -> (start: int)
    requires
        0 <= i < lists.len(),
    ensures
        0 <= start,
        start + lists[i].len() <= joined(lists).len(),
        joined(lists).subrange(start, start + lists[i].len()) == lists[i],
    decreases lists.len(),
{
    let rest = lists.drop_last();
    if i < rest.len() {
        let start = lemma_joined_holds_each(rest, i);
        assert(joined(lists).subrange(start, start + lists[i].len()) =~= joined(rest).subrange(
            start,
            start + lists[i].len(),
        ));
        start
    } else {
        let start = joined(rest).len() as int;
        assert(joined(lists).subrange(start, start + lists[i].len()) =~= lists[i]);
        start
    }
}

/// A compact output and a compact action are measured by each of their byte
/// strings.
pub proof fn law_every_byte_string_of_a_note_is_measured(
    output: CompactSaplingOutput,
    action: CompactOrchardAction,
)
    ensures
        held(sapling_output_shapes(output)) == (output.cmu@.len() + output.ephemeral_key@.len()
            + output.ciphertext@.len()) * vstd::layout::size_of::<u8>(),
        held(action_shapes(action)) == (action.nullifier@.len() + action.cmx@.len()
            + action.ephemeral_key@.len() + action.ciphertext@.len())
            * vstd::layout::size_of::<u8>(),
{
    reveal_with_fuel(held, 5);
    let unit = vstd::layout::size_of::<u8>();
    let s = sapling_output_shapes(output);
    assert(s.drop_last() =~= seq![shape(output.cmu), shape(output.ephemeral_key)]);
    assert(s.drop_last().drop_last() =~= seq![shape(output.cmu)]);
    assert(s.drop_last().drop_last().drop_last() =~= Seq::<VectorShape>::empty());
    let a = action_shapes(action);
    assert(a.drop_last() =~= seq![
        shape(action.nullifier),
        shape(action.cmx),
        shape(action.ephemeral_key),
    ]);
    assert(a.drop_last().drop_last() =~= seq![shape(action.nullifier), shape(action.cmx)]);
    assert(a.drop_last().drop_last().drop_last() =~= seq![shape(action.nullifier)]);
    assert(a.drop_last().drop_last().drop_last().drop_last() =~= Seq::<VectorShape>::empty());
    let (p, q, r) = (output.cmu@.len(), output.ephemeral_key@.len(), output.ciphertext@.len());
    assert((p + q + r) * unit == p * unit + q * unit + r * unit) by (nonlinear_arith);
    let (w, x, y, z) = (
        action.nullifier@.len(),
        action.cmx@.len(),
        action.ephemeral_key@.len(),
        action.ciphertext@.len(),
    );
    assert((w + x + y + z) * unit == w * unit + x * unit + y * unit + z * unit)
        by (nonlinear_arith);
}

/// A compact transaction is measured by its own seven vectors, then by those of
/// its spends, outputs, actions, Ironwood actions, inputs and transparent
/// outputs.
pub proof fn law_compact_transaction_is_measured_whole(transaction: CompactTx)
    ensures
        ({
            let shapes = compact_transaction_shapes(transaction);
            &&& shapes[0] == shape(transaction.txid)
            &&& shapes[1] == shape(transaction.spends)
            &&& shapes[2] == shape(transaction.outputs)
            &&& shapes[3] == shape(transaction.actions)
            &&& shapes[4] == shape(transaction.ironwood_actions)
            &&& shapes[5] == shape(transaction.vin)
            &&& shapes[6] == shape(transaction.vout)
            &&& shapes.len() == 7 + transaction.spends@.len() + 3 * transaction.outputs@.len() + 4
                * transaction.actions@.len() + 4 * transaction.ironwood_actions@.len()
                + transaction.vin@.len() + transaction.vout@.len()
        }),
{
    lemma_joined_length(
        transaction.spends@.map_values(|spend: CompactSaplingSpend| seq![shape(spend.nf)]),
        1,
    );
    lemma_joined_length(
        transaction.outputs@.map_values(
            |output: CompactSaplingOutput| sapling_output_shapes(output),
        ),
        3,
    );
    lemma_joined_length(
        transaction.actions@.map_values(|action: CompactOrchardAction| action_shapes(action)),
        4,
    );
    lemma_joined_length(
        transaction.ironwood_actions@.map_values(
            |action: CompactOrchardAction| action_shapes(action),
        ),
        4,
    );
    lemma_joined_length(
        transaction.vin@.map_values(|input: CompactTxIn| seq![shape(input.prevout_txid)]),
        1,
    );
    lemma_joined_length(
        transaction.vout@.map_values(|output: CompactTxOut| seq![shape(output.script_pub_key)]),
        1,
    );
}

proof fn lemma_joined_length(lists: Seq<Seq<VectorShape>>, each: int)
    requires
        forall|i: int| 0 <= i < lists.len() ==> (#[trigger] lists[i]).len() == each,
    ensures
        joined(lists).len() == each * lists.len(),
    decreases lists.len(),
{
    if lists.len() > 0 {
        let rest = lists.drop_last();
        assert forall|i: int| 0 <= i < rest.len() implies (#[trigger] rest[i]).len() == each by {
            assert(lists[i] == rest[i]);
        }
        lemma_joined_length(rest, each);
        assert(lists[lists.len() - 1].len() == each);
        let count = lists.len() as int;
        assert(each * count == each * (count - 1) + each) by (nonlinear_arith);
    }
}

/// A compact block is measured by its own four vectors and those of each of its
/// transactions.
pub proof fn law_compact_block_is_measured_whole(block: CompactBlock, t: int)
    requires
        0 <= t < block.vtx@.len(),
    ensures
        ({
            let shapes = compact_block_shapes(block);
            let own = compact_transaction_shapes(block.vtx@[t]);
            &&& shapes[0] == shape(block.hash)
            &&& shapes[1] == shape(block.prev_hash)
            &&& shapes[2] == shape(block.header)
            &&& shapes[3] == shape(block.vtx)
            &&& exists|start: int|
                4 <= start && start + own.len() <= shapes.len() && #[trigger] shapes.subrange(
                    start,
                    start + own.len(),
                ) == own
        }),
{
    let lists = block.vtx@.map_values(
        |transaction: CompactTx| compact_transaction_shapes(transaction),
    );
    let own = compact_transaction_shapes(block.vtx@[t]);
    let start = lemma_joined_holds_each(lists, t);
    let shapes = compact_block_shapes(block);
    assert(shapes.subrange(4 + start, 4 + start + own.len()) =~= joined(lists).subrange(
        start,
        start + own.len(),
    ));
}

/// Every raw blob that a block kept is measured: its own first, then those of
/// its transactions in block order.
pub proof fn law_every_kept_blob_is_measured(
    facts: CanonicalBlockFacts,
    transactions: Seq<CanonicalTransactionFacts>,
    next: CanonicalTransactionFacts,
)
    ensures
        retained_transaction_shapes(Seq::empty()).len() == 0,
        match next.raw_transaction_bytes {
            Some(bytes) => retained_transaction_shapes(transactions.push(next))
                == retained_transaction_shapes(transactions).push(shape(bytes)),
            None => retained_transaction_shapes(transactions.push(next))
                == retained_transaction_shapes(transactions),
        },
        match facts.raw_block_bytes {
            Some(bytes) => retained_blob_shapes(facts) == seq![shape(bytes)]
                + retained_transaction_shapes(facts.transactions@),
            None => retained_blob_shapes(facts) == retained_transaction_shapes(
                facts.transactions@,
            ),
        },
{
    assert(transactions.push(next).drop_last() =~= transactions);
}

/// Preparing a block is estimated to take sixteen times its raw capacity and
/// 65536 bytes at its peak.
pub proof fn law_peak_estimate_grows_with_the_block(raw_block_capacity: int)
    ensures
        1 <= raw_block_capacity && 65536 + 16 * raw_block_capacity <= 0xffff_ffff_ffff_ffff
            ==> peak_estimate(raw_block_capacity) == 65536 + 16 * raw_block_capacity,
        raw_block_capacity <= 1 ==> peak_estimate(raw_block_capacity) == 65536 + 16,
        65536 + 16 * raw_block_capacity > 0xffff_ffff_ffff_ffff ==> peak_estimate(
            raw_block_capacity,
        ) == 0xffff_ffff_ffff_ffff,
{
}

/// What a prepared block keeps resident is the block itself, its facts, its
/// envelope, its compact block and its blobs, together.
pub proof fn law_resident_bytes_add_up(
    facts_bytes: usize,
    replay_envelope_bytes: usize,
    compact_bytes: usize,
    blob_bytes: usize,
)
    ensures
        ({
            let sum = vstd::layout::size_of::<PreparedCanonicalBlock>() + facts_bytes
                + replay_envelope_bytes + compact_bytes + blob_bytes;
            &&& sum <= usize::MAX ==> resident(
                facts_bytes,
                replay_envelope_bytes,
                compact_bytes,
                blob_bytes,
            ) == sum
            &&& sum > usize::MAX ==> resident(
                facts_bytes,
                replay_envelope_bytes,
                compact_bytes,
                blob_bytes,
            ) == usize::MAX
        }),
{
}

/// Prefetched outputs add their own bytes to what a block keeps resident.
pub proof fn law_prefetched_outputs_are_resident_too(
    prepared_bytes: u64,
    prefetched: Seq<TransparentOutputArtifact>,
)
    requires
        0 <= prefetched_total(prefetched) <= usize::MAX,
        prepared_bytes + prefetched_total(prefetched) <= u64::MAX,
    ensures
        resident_with(prepared_bytes, prefetched) == prepared_bytes + prefetched_total(
            prefetched,
        ),
{
}

/// A sound tally counts what its vectors hold at the least.
pub proof fn law_tally_covers_what_it_counted(tally: HeapTally)
    requires
        tally.well_formed(),
    ensures
        tally.capacities@.len() == tally.shapes@.len(),
        measures(tally.bytes, tally.shapes@),
        tally.bytes >= held(tally.shapes@) || tally.bytes == usize::MAX,
{
    assert(cover(tally.capacities@, tally.shapes@));
    law_measure_covers_what_is_held(tally.bytes, tally.shapes@);
}

/// What is resident of a prepared block covers its facts, its compact block, its
/// blobs and its envelope together.
pub proof fn law_resident_bytes_cover_every_part(
    bytes: u64,
    prepared: PreparedCanonicalBlock,
    replay_envelope_bytes: usize,
)
    requires
        is_resident(bytes, prepared, replay_envelope_bytes),
    ensures
        bytes == usize::MAX || bytes >= held(block_fact_shapes(prepared.facts)) + held(
            compact_block_shapes(prepared.partial_compact_block),
        ) + held(retained_blob_shapes(prepared.facts)) + replay_envelope_bytes
            + vstd::layout::size_of::<PreparedCanonicalBlock>(),
{
    let (facts_bytes, compact_bytes, blob_bytes) = choose|
        facts_bytes: usize,
        compact_bytes: usize,
        blob_bytes: usize,
    |
        #![trigger measures(facts_bytes, block_fact_shapes(prepared.facts)), measures(
            compact_bytes,
            compact_block_shapes(prepared.partial_compact_block),
        ), measures(blob_bytes, retained_blob_shapes(prepared.facts))]
        {
            &&& measures(facts_bytes, block_fact_shapes(prepared.facts))
            &&& measures(compact_bytes, compact_block_shapes(prepared.partial_compact_block))
            &&& measures(blob_bytes, retained_blob_shapes(prepared.facts))
            &&& bytes == resident(
                facts_bytes,
                replay_envelope_bytes,
                compact_bytes,
                blob_bytes,
            )
        };
    law_measure_covers_what_is_held(facts_bytes, block_fact_shapes(prepared.facts));
    law_measure_covers_what_is_held(
        compact_bytes,
        compact_block_shapes(prepared.partial_compact_block),
    );
    law_measure_covers_what_is_held(blob_bytes, retained_blob_shapes(prepared.facts));
    law_resident_bytes_add_up(facts_bytes, replay_envelope_bytes, compact_bytes, blob_bytes);
}

/// With its prefetched outputs a block is as large as without them, and their
/// bytes more.
pub proof fn law_prevouts_add_to_the_resident_block(
    bytes: u64,
    prepared: PreparedCanonicalBlock,
    replay_envelope_bytes: usize,
    prefetched: Seq<TransparentOutputArtifact>,
)
    requires
        is_resident_with_prevouts(bytes, prepared, replay_envelope_bytes, prefetched),
        0 <= prefetched_total(prefetched) <= usize::MAX,
    ensures
        exists|prepared_bytes: u64| #[trigger]
            is_resident(prepared_bytes, prepared, replay_envelope_bytes) && (bytes
                == prepared_bytes + prefetched_total(prefetched) || (bytes == u64::MAX
                && prepared_bytes + prefetched_total(prefetched) > u64::MAX)),
{
    let prepared_bytes = choose|prepared_bytes: u64| #[trigger]
        is_resident(prepared_bytes, prepared, replay_envelope_bytes) && bytes == resident_with(
            prepared_bytes,
            prefetched,
        );
    assert(is_resident(prepared_bytes, prepared, replay_envelope_bytes));
}

} // verus!
